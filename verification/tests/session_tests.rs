use ollama_testing::history::Role;
use ollama_testing::session::{App, AppMode};

#[test]
fn new_session_defaults() {
    let app = App::new();
    assert_eq!(app.mode, AppMode::Chat);
    assert_eq!(app.input, "");
    assert!(app.messages.is_empty());
    assert_eq!(app.current_model, "llama2:latest");
    assert_eq!(app.status_message, "Ready. Press F1 for help");
    assert!(!app.is_thinking);
    assert!(app.vim_mode);
    assert!(app.vim_insert);
    assert!(!app.pending_g);
    assert_eq!(app.model_config.temperature, 800);
    assert_eq!(app.model_config.top_p, 900);
    assert_eq!(app.model_config.top_k, 40);
    assert_eq!(app.model_config.repeat_penalty, 1100);
    assert_eq!(app.model_config.num_ctx, 2048);
    assert_eq!(app.model_config.system_prompt, "You are a helpful AI assistant.");
}

#[test]
fn send_with_empty_input_is_noop() {
    let mut app = App::new();
    app.input = String::new();
    let r = app.start_send();
    assert!(r.is_none());
    assert!(app.messages.is_empty());
    assert!(!app.is_thinking);
}

#[test]
fn send_with_blank_input_is_noop() {
    let mut app = App::new();
    app.input = "   \t  ".to_string();
    let r = app.start_send();
    assert!(r.is_none());
    assert!(app.messages.is_empty());
    assert!(!app.is_thinking);
    assert_eq!(app.input, "   \t  ");
}

#[test]
fn send_appends_user_and_placeholder() {
    let mut app = App::new();
    app.input = "  hello there  ".to_string();
    let st = app.start_send().expect("send should start");
    assert_eq!(st.index, 1);
    assert_eq!(st.model, "llama2:latest");
    assert_eq!(st.prompt, "hello there");
    assert_eq!(st.config.temperature, 800);
    assert_eq!(app.messages.len(), 2);
    assert_eq!(app.messages[0].role, Role::User);
    assert_eq!(app.messages[0].text, "hello there");
    assert_eq!(app.messages[1].role, Role::Assistant);
    assert_eq!(app.messages[1].text, "");
    assert!(app.is_thinking);
    assert_eq!(app.input, "");
    assert_eq!(app.thinking_frame, 0);
}

#[test]
fn second_send_while_thinking_is_refused() {
    let mut app = App::new();
    app.input = "first".to_string();
    let st = app.start_send().expect("first send starts");
    app.input = "second".to_string();
    let r = app.start_send();
    assert!(r.is_none());
    assert_eq!(app.messages.len(), 2);
    assert_eq!(app.messages[0].text, "first");
    assert_eq!(app.messages[1].text, "");
    assert_eq!(st.index, 1);
    assert!(app.is_thinking);
    assert_eq!(app.input, "second");
}

#[test]
fn completed_generation_holds_all_fragments_in_order() {
    let mut app = App::new();
    app.input = "question".to_string();
    let st = app.start_send().expect("send starts");
    app.apply_stream_chunk(st.index, "Hel");
    app.apply_stream_chunk(st.index, "lo ");
    app.apply_stream_chunk(st.index, "world");
    app.finish_stream();
    assert_eq!(app.messages.len(), 2);
    assert_eq!(app.messages[1].text, "Hello world");
    assert!(!app.is_thinking);
    assert_eq!(app.status_message, "Ready");
}

#[test]
fn failed_start_removes_placeholder() {
    let mut app = App::new();
    app.input = "question".to_string();
    let st = app.start_send().expect("send starts");
    app.fail_start(st.index, "connection refused");
    assert_eq!(app.messages.len(), 1);
    assert_eq!(app.messages[0].role, Role::User);
    assert_eq!(app.messages[0].text, "question");
    assert!(!app.is_thinking);
    assert_eq!(app.status_message, "Error: connection refused");
}

#[test]
fn mid_stream_failure_keeps_partial_output() {
    let mut app = App::new();
    app.input = "question".to_string();
    let st = app.start_send().expect("send starts");
    app.apply_stream_chunk(st.index, "partial answ");
    app.fail_stream("broken pipe");
    assert_eq!(app.messages.len(), 2);
    assert_eq!(app.messages[1].text, "partial answ");
    assert!(!app.is_thinking);
    assert_eq!(app.status_message, "Stream error: broken pipe");
}

#[test]
fn chunk_with_out_of_range_index_changes_nothing() {
    let mut app = App::new();
    app.input = "q".to_string();
    let _ = app.start_send().expect("send starts");
    app.apply_stream_chunk(17, "stray");
    assert_eq!(app.messages.len(), 2);
    assert_eq!(app.messages[1].text, "");
}

#[test]
fn zero_token_generation_leaves_empty_assistant_turn() {
    let mut app = App::new();
    app.input = "q".to_string();
    let _ = app.start_send().expect("send starts");
    app.finish_stream();
    assert_eq!(app.messages.len(), 2);
    assert_eq!(app.messages[1].text, "");
    assert!(!app.is_thinking);
}

#[test]
fn thinking_animation_advances_only_while_thinking() {
    let mut app = App::new();
    app.update_thinking_animation();
    assert_eq!(app.thinking_frame, 0);
    app.is_thinking = true;
    app.update_thinking_animation();
    app.update_thinking_animation();
    assert_eq!(app.thinking_frame, 2);
}

#[test]
fn spinner_cycles_over_ten_frames() {
    let mut app = App::new();
    app.thinking_frame = 0;
    let first = app.get_thinking_spinner().to_string();
    app.thinking_frame = 10;
    assert_eq!(app.get_thinking_spinner(), first);
    app.thinking_frame = 3;
    assert_ne!(app.get_thinking_spinner(), first);
}

#[test]
fn clear_chat_empties_conversation() {
    let mut app = App::new();
    app.input = "hello".to_string();
    let _ = app.start_send();
    app.finish_stream();
    app.scroll_down();
    app.clear_chat();
    assert!(app.messages.is_empty());
    assert_eq!(app.scroll_offset, 0);
    assert_eq!(app.status_message, "Chat cleared");
}

#[test]
fn select_last_message_marks_its_text() {
    let mut app = App::new();
    app.select_last_message();
    assert!(app.selected_text.is_none());
    app.input = "hi".to_string();
    let st = app.start_send().unwrap();
    app.apply_stream_chunk(st.index, "answer");
    app.finish_stream();
    app.select_last_message();
    assert_eq!(app.selected_text.as_deref(), Some("answer"));
    assert_eq!(app.status_message, "Message selected. Press Ctrl+Y to copy");
    assert_eq!(app.clipboard_text().as_deref(), Some("answer"));
}

#[test]
fn scrolling_stops_at_bounds() {
    let mut app = App::new();
    app.scroll_up();
    assert_eq!(app.scroll_offset, 0);
    app.scroll_down();
    app.scroll_down();
    assert_eq!(app.scroll_offset, 2);
    app.scroll_top();
    assert_eq!(app.scroll_offset, 0);
    app.scroll_bottom();
    assert_eq!(app.scroll_offset, u16::MAX as usize);
}

#[test]
fn switch_to_model_selection_resets_its_cursor() {
    let mut app = App::new();
    assert!(app.model_list_selected.is_none());
    app.switch_mode(AppMode::ModelSelection);
    assert_eq!(app.mode, AppMode::ModelSelection);
    assert_eq!(app.model_list_selected, Some(0));
    app.switch_mode(AppMode::Chat);
    assert_eq!(app.mode, AppMode::Chat);
    assert_eq!(app.model_list_selected, Some(0));
}

#[test]
fn model_selection_moves_and_applies() {
    let mut app = App::new();
    app.set_available_models(vec![
        "alpha".to_string(),
        "beta".to_string(),
        "gamma".to_string(),
    ]);
    app.switch_mode(AppMode::ModelSelection);
    app.move_model_selection_down();
    app.move_model_selection_down();
    app.move_model_selection_down();
    assert_eq!(app.model_list_selected, Some(2));
    app.move_model_selection_up();
    assert_eq!(app.model_list_selected, Some(1));
    app.apply_model_selection();
    assert_eq!(app.current_model, "beta");
    assert_eq!(app.status_message, "Model changed to: beta");
    assert_eq!(app.mode, AppMode::Chat);
}

#[test]
fn chat_snapshot_requires_messages() {
    let mut app = App::new();
    assert!(app.chat_snapshot("2024-01-01 10:00:00".to_string()).is_none());
    app.input = "hi".to_string();
    let _ = app.start_send();
    app.finish_stream();
    let snap = app.chat_snapshot("2024-01-01 10:00:00".to_string()).unwrap();
    assert_eq!(snap.timestamp, "2024-01-01 10:00:00");
    assert_eq!(snap.model, "llama2:latest");
    assert_eq!(snap.messages.len(), 2);
    assert_eq!(snap.messages[0].text, "hi");
}

#[test]
fn download_buffer_edits() {
    let mut app = App::new();
    app.download_push('l');
    app.download_push('m');
    app.download_push('x');
    app.download_pop();
    assert_eq!(app.download_input, "lm");
    let taken = app.take_download_input();
    assert_eq!(taken, "lm");
    assert_eq!(app.download_input, "");
}

#[test]
fn status_notes() {
    let mut app = App::new();
    app.note_download_started("llama2");
    assert_eq!(app.status_message, "Downloading model: llama2");
    app.note_download_finished("llama2");
    assert_eq!(app.status_message, "Model llama2 downloaded successfully");
    app.note_chat_saved();
    assert_eq!(app.status_message, "Chat saved successfully");
    app.note_config_saved();
    assert_eq!(app.status_message, "Configuration saved");
    app.note_copy_result(true);
    assert_eq!(app.status_message, "Copied to clipboard");
    app.note_copy_result(false);
    assert_eq!(app.status_message, "Failed to copy");
}
