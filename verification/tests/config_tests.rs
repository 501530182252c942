use ollama_testing::config::{ConfigField, ModelConfig};
use ollama_testing::session::App;

#[test]
fn temperature_writes_clamp_into_range() {
    let mut c = ModelConfig::default();
    c.update_field(ConfigField::Temperature, "5.0".to_string());
    assert_eq!(c.temperature, 2000);
    c.update_field(ConfigField::Temperature, "-1".to_string());
    assert_eq!(c.temperature, 0);
    c.update_field(ConfigField::Temperature, "1.234".to_string());
    assert_eq!(c.temperature, 1234);
    c.update_field(ConfigField::Temperature, "0.85".to_string());
    assert_eq!(c.temperature, 850);
}

#[test]
fn non_numeric_text_leaves_the_field_unchanged() {
    let mut c = ModelConfig::default();
    c.update_field(ConfigField::Temperature, "warm".to_string());
    assert_eq!(c.temperature, 800);
    c.update_field(ConfigField::TopK, "4.5".to_string());
    assert_eq!(c.top_k, 40);
    c.update_field(ConfigField::TopK, "-3".to_string());
    assert_eq!(c.top_k, 40);
    c.update_field(ConfigField::ContextWindow, "".to_string());
    assert_eq!(c.num_ctx, 2048);
}

#[test]
fn writing_a_fields_shown_text_back_changes_nothing() {
    let mut c = ModelConfig::default();
    c.update_field(ConfigField::Temperature, "1.5".to_string());
    let shown = c.field_text(ConfigField::Temperature);
    assert_eq!(shown, "1.5");
    c.update_field(ConfigField::Temperature, shown);
    assert_eq!(c.temperature, 1500);
}

#[test]
fn integer_fields_clamp_into_range() {
    let mut c = ModelConfig::default();
    c.update_field(ConfigField::TopK, "0".to_string());
    assert_eq!(c.top_k, 1);
    c.update_field(ConfigField::ContextWindow, "100".to_string());
    assert_eq!(c.num_ctx, 512);
    c.update_field(ConfigField::ContextWindow, "999999".to_string());
    assert_eq!(c.num_ctx, 32768);
    c.update_field(ConfigField::ContextWindow, "4096".to_string());
    assert_eq!(c.num_ctx, 4096);
}

#[test]
fn top_p_and_repeat_penalty_have_their_own_ranges() {
    let mut c = ModelConfig::default();
    c.update_field(ConfigField::TopP, "1.5".to_string());
    assert_eq!(c.top_p, 1000);
    c.update_field(ConfigField::TopP, ".25".to_string());
    assert_eq!(c.top_p, 250);
    c.update_field(ConfigField::RepeatPenalty, "3".to_string());
    assert_eq!(c.repeat_penalty, 2000);
}

#[test]
fn system_prompt_takes_any_text_verbatim() {
    let mut c = ModelConfig::default();
    c.update_field(ConfigField::SystemPrompt, "  spaces kept  ".to_string());
    assert_eq!(c.system_prompt, "  spaces kept  ");
    assert_eq!(c.field_text(ConfigField::SystemPrompt), "  spaces kept  ");
}

#[test]
fn shown_text_matches_the_stored_values() {
    let c = ModelConfig::default();
    assert_eq!(c.field_text(ConfigField::Temperature), "0.8");
    assert_eq!(c.field_text(ConfigField::TopP), "0.9");
    assert_eq!(c.field_text(ConfigField::TopK), "40");
    assert_eq!(c.field_text(ConfigField::RepeatPenalty), "1.1");
    assert_eq!(c.field_text(ConfigField::ContextWindow), "2048");
    let mut c2 = ModelConfig::default();
    c2.update_field(ConfigField::Temperature, "2".to_string());
    assert_eq!(c2.field_text(ConfigField::Temperature), "2");
    c2.update_field(ConfigField::Temperature, "0.05".to_string());
    assert_eq!(c2.field_text(ConfigField::Temperature), "0.05");
}

#[test]
fn six_forward_steps_return_to_the_start() {
    let mut app = App::new();
    assert_eq!(app.config_field, ConfigField::Temperature);
    for _ in 0..6 {
        app.next_config_field();
    }
    assert_eq!(app.config_field, ConfigField::Temperature);
    app.prev_config_field();
    assert_eq!(app.config_field, ConfigField::SystemPrompt);
    app.next_config_field();
    assert_eq!(app.config_field, ConfigField::Temperature);
}

#[test]
fn config_value_shown_through_the_session() {
    let mut app = App::new();
    app.next_config_field();
    assert_eq!(app.get_current_config_value(), "0.9");
    app.update_config_field("0.4".to_string());
    assert_eq!(app.model_config.top_p, 400);
    assert_eq!(app.get_current_config_value(), "0.4");
}
