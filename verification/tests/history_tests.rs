use ollama_testing::history::{
    format_compact_timestamp, format_timestamp, sort_sessions_newest_first, ChatMessage,
    ChatSession, Role,
};
use ollama_testing::session::App;

fn session_at(ts: &str) -> ChatSession {
    ChatSession {
        timestamp: ts.to_string(),
        model: "m".to_string(),
        messages: vec![ChatMessage { role: Role::User, text: "q".to_string() }],
    }
}

#[test]
fn history_lists_newest_first() {
    let sessions = vec![
        session_at("2024-03-05 10:00:00"),
        session_at("2024-03-05 10:05:00"),
        session_at("2024-03-05 10:02:00"),
    ];
    let sorted = sort_sessions_newest_first(sessions);
    assert_eq!(sorted.len(), 3);
    assert_eq!(sorted[0].timestamp, "2024-03-05 10:05:00");
    assert_eq!(sorted[1].timestamp, "2024-03-05 10:02:00");
    assert_eq!(sorted[2].timestamp, "2024-03-05 10:00:00");
}

#[test]
fn sorting_spans_days_and_keeps_every_entry() {
    let sessions = vec![
        session_at("2024-03-06 01:00:00"),
        session_at("2023-12-31 23:59:59"),
        session_at("2024-03-05 10:05:00"),
        session_at("2024-03-06 01:00:00"),
    ];
    let sorted = sort_sessions_newest_first(sessions);
    assert_eq!(sorted.len(), 4);
    assert_eq!(sorted[0].timestamp, "2024-03-06 01:00:00");
    assert_eq!(sorted[1].timestamp, "2024-03-06 01:00:00");
    assert_eq!(sorted[2].timestamp, "2024-03-05 10:05:00");
    assert_eq!(sorted[3].timestamp, "2023-12-31 23:59:59");
}

#[test]
fn empty_history_sorts_to_empty() {
    let sorted = sort_sessions_newest_first(Vec::new());
    assert!(sorted.is_empty());
}

#[test]
fn timestamps_are_zero_padded() {
    assert_eq!(format_timestamp(2024, 1, 2, 3, 4, 5), "2024-01-02 03:04:05");
    assert_eq!(format_timestamp(2024, 12, 31, 23, 59, 58), "2024-12-31 23:59:58");
    assert_eq!(format_compact_timestamp(2024, 1, 2, 3, 4, 5), "20240102_030405");
    assert_eq!(format_compact_timestamp(2024, 12, 31, 23, 59, 58), "20241231_235958");
}

#[test]
fn loading_history_into_the_session_sorts_it() {
    let mut app = App::new();
    app.load_chat_history(vec![
        session_at("2024-03-05 10:00:00"),
        session_at("2024-03-05 10:05:00"),
        session_at("2024-03-05 10:02:00"),
    ]);
    assert_eq!(app.chat_history[0].timestamp, "2024-03-05 10:05:00");
    assert_eq!(app.chat_history[1].timestamp, "2024-03-05 10:02:00");
    assert_eq!(app.chat_history[2].timestamp, "2024-03-05 10:00:00");
}
