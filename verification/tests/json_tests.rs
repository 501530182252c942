use ollama_testing::config::{ConfigField, ModelConfig};
use ollama_testing::history::{ChatMessage, ChatSession, Role};
use ollama_testing::json::{config_from_json, config_to_json, session_from_json, session_to_json};

fn sample_session() -> ChatSession {
    ChatSession {
        timestamp: "2024-03-05 10:00:00".to_string(),
        model: "llama2:latest".to_string(),
        messages: vec![
            ChatMessage { role: Role::User, text: "hi".to_string() },
            ChatMessage { role: Role::Assistant, text: "hello!".to_string() },
        ],
    }
}

#[test]
fn session_json_has_the_canonical_shape() {
    let json = session_to_json(&sample_session());
    assert_eq!(
        json,
        "{\"timestamp\":\"2024-03-05 10:00:00\",\"model\":\"llama2:latest\",\
         \"messages\":[[\"user\",\"hi\"],[\"assistant\",\"hello!\"]]}"
    );
}

#[test]
fn session_round_trip_preserves_everything() {
    let s = sample_session();
    let back = session_from_json(&session_to_json(&s)).expect("own output must parse");
    assert_eq!(back.timestamp, s.timestamp);
    assert_eq!(back.model, s.model);
    assert_eq!(back.messages.len(), s.messages.len());
    for (a, b) in back.messages.iter().zip(s.messages.iter()) {
        assert_eq!(a.role, b.role);
        assert_eq!(a.text, b.text);
    }
}

#[test]
fn session_round_trip_survives_special_characters() {
    let s = ChatSession {
        timestamp: "2024-03-05 10:00:00".to_string(),
        model: "m\"odel\\x".to_string(),
        messages: vec![
            ChatMessage {
                role: Role::User,
                text: "line one\nline\ttwo \"quoted\" back\\slash\r".to_string(),
            },
            ChatMessage { role: Role::Assistant, text: "bell\u{7} and ümläut ✓".to_string() },
        ],
    };
    let back = session_from_json(&session_to_json(&s)).expect("own output must parse");
    assert_eq!(back.model, s.model);
    assert_eq!(back.messages[0].text, s.messages[0].text);
    assert_eq!(back.messages[1].text, s.messages[1].text);
}

#[test]
fn session_with_no_messages_round_trips() {
    let s = ChatSession {
        timestamp: "2024-03-05 10:00:00".to_string(),
        model: "m".to_string(),
        messages: Vec::new(),
    };
    let json = session_to_json(&s);
    assert_eq!(
        json,
        "{\"timestamp\":\"2024-03-05 10:00:00\",\"model\":\"m\",\"messages\":[]}"
    );
    let back = session_from_json(&json).expect("own output must parse");
    assert!(back.messages.is_empty());
}

#[test]
fn malformed_session_files_are_rejected() {
    assert!(session_from_json("").is_none());
    assert!(session_from_json("not json at all").is_none());
    assert!(session_from_json("{\"model\":\"m\",\"timestamp\":\"t\",\"messages\":[]}").is_none());
    assert!(session_from_json("{\"timestamp\":\"t\",\"model\":\"m\",\"messages\":[").is_none());
    assert!(
        session_from_json(
            "{\"timestamp\":\"t\",\"model\":\"m\",\"messages\":[[\"narrator\",\"x\"]]}"
        )
        .is_none()
    );
    assert!(
        session_from_json("{\"timestamp\":\"t\",\"model\":\"m\",\"messages\":[]}trailing")
            .is_none()
    );
}

#[test]
fn config_json_has_the_canonical_shape() {
    let c = ModelConfig::default();
    assert_eq!(
        config_to_json(&c),
        "{\"temperature\":0.8,\"top_p\":0.9,\"top_k\":40,\"repeat_penalty\":1.1,\
         \"num_ctx\":2048,\"system_prompt\":\"You are a helpful AI assistant.\"}"
    );
}

#[test]
fn config_round_trip_preserves_the_stored_values() {
    let mut c = ModelConfig::default();
    c.update_field(ConfigField::Temperature, "1.25".to_string());
    c.update_field(ConfigField::TopK, "7".to_string());
    c.update_field(ConfigField::SystemPrompt, "be terse \"ok\"\n".to_string());
    let back = config_from_json(&config_to_json(&c)).expect("own output must parse");
    assert_eq!(back.temperature, 1250);
    assert_eq!(back.top_p, 900);
    assert_eq!(back.top_k, 7);
    assert_eq!(back.repeat_penalty, 1100);
    assert_eq!(back.num_ctx, 2048);
    assert_eq!(back.system_prompt, "be terse \"ok\"\n");
}

#[test]
fn stored_config_values_are_clamped_on_load() {
    let c = config_from_json(
        "{\"temperature\":5.0,\"top_p\":0.9,\"top_k\":0,\"repeat_penalty\":1.1,\
         \"num_ctx\":99999999,\"system_prompt\":\"p\"}",
    )
    .expect("shape is canonical");
    assert_eq!(c.temperature, 2000);
    assert_eq!(c.top_k, 1);
    assert_eq!(c.num_ctx, 32768);
}

#[test]
fn malformed_config_files_are_rejected() {
    assert!(config_from_json("").is_none());
    assert!(config_from_json("{}").is_none());
    assert!(config_from_json("{\"temperature\":oops}").is_none());
    assert!(
        config_from_json(
            "{\"temperature\":0.8,\"top_p\":0.9,\"top_k\":40,\"repeat_penalty\":1.1,\
             \"num_ctx\":2048,\"system_prompt\":\"p\"} "
        )
        .is_none()
    );
}
