use ollama_testing::config::ConfigField;
use ollama_testing::dispatch::{Effect, Key};
use ollama_testing::history::{ChatMessage, ChatSession, Role};
use ollama_testing::session::{App, AppMode};

fn normal_mode_app() -> App {
    let mut app = App::new();
    let e = app.handle_key(Key::Esc);
    assert!(matches!(e, Effect::Nothing));
    assert!(!app.vim_insert);
    app
}

#[test]
fn esc_enters_normal_mode() {
    let mut app = App::new();
    let _ = app.handle_key(Key::Esc);
    assert!(!app.vim_insert);
    assert!(!app.pending_g);
    assert_eq!(app.status_message, "Normal mode");
}

#[test]
fn insert_key_returns_to_insert_mode() {
    let mut app = normal_mode_app();
    let _ = app.handle_key(Key::Char('i'));
    assert!(app.vim_insert);
    assert_eq!(app.status_message, "Insert mode");
}

#[test]
fn prefix_twice_scrolls_to_top() {
    let mut app = normal_mode_app();
    app.scroll_offset = 42;
    let _ = app.handle_key(Key::Char('g'));
    assert!(app.pending_g);
    assert_eq!(app.scroll_offset, 42);
    let _ = app.handle_key(Key::Char('g'));
    assert!(!app.pending_g);
    assert_eq!(app.scroll_offset, 0);
}

#[test]
fn prefix_then_unrelated_key_clears_flag_without_jump() {
    let mut app = normal_mode_app();
    app.scroll_offset = 42;
    let _ = app.handle_key(Key::Char('g'));
    assert!(app.pending_g);
    let _ = app.handle_key(Key::Char('x'));
    assert!(!app.pending_g);
    assert_eq!(app.scroll_offset, 42);
    let _ = app.handle_key(Key::Char('g'));
    assert!(app.pending_g);
    let _ = app.handle_key(Key::Char('g'));
    assert_eq!(app.scroll_offset, 0);
}

#[test]
fn normal_mode_scroll_verbs() {
    let mut app = normal_mode_app();
    let _ = app.handle_key(Key::Char('j'));
    let _ = app.handle_key(Key::Char('j'));
    assert_eq!(app.scroll_offset, 2);
    let _ = app.handle_key(Key::Char('k'));
    assert_eq!(app.scroll_offset, 1);
    let _ = app.handle_key(Key::Char('G'));
    assert_eq!(app.scroll_offset, u16::MAX as usize);
}

#[test]
fn normal_mode_save_verb() {
    let mut app = normal_mode_app();
    let e = app.handle_key(Key::Char('w'));
    assert!(matches!(e, Effect::SaveChat));
}

#[test]
fn prefix_mode_shortcuts() {
    let mut app = normal_mode_app();
    let _ = app.handle_key(Key::Char('g'));
    let e = app.handle_key(Key::Char('m'));
    assert!(matches!(e, Effect::FetchModels));
    assert_eq!(app.mode, AppMode::ModelSelection);
    assert_eq!(app.model_list_selected, Some(0));

    let mut app = normal_mode_app();
    let _ = app.handle_key(Key::Char('g'));
    let e = app.handle_key(Key::Char('d'));
    assert!(matches!(e, Effect::Nothing));
    assert_eq!(app.mode, AppMode::ModelDownload);

    let mut app = normal_mode_app();
    let _ = app.handle_key(Key::Char('g'));
    let e = app.handle_key(Key::Char('s'));
    assert!(matches!(e, Effect::RefreshMetrics));
    assert_eq!(app.mode, AppMode::SystemMonitor);

    let mut app = normal_mode_app();
    let _ = app.handle_key(Key::Char('g'));
    let e = app.handle_key(Key::Char('h'));
    assert!(matches!(e, Effect::LoadHistory));
    assert_eq!(app.mode, AppMode::ChatHistory);
    assert_eq!(app.history_list_selected, Some(0));

    let mut app = normal_mode_app();
    let _ = app.handle_key(Key::Char('g'));
    let e = app.handle_key(Key::Char('c'));
    assert!(matches!(e, Effect::Nothing));
    assert_eq!(app.mode, AppMode::ModelConfig);
    assert_eq!(app.config_input, "0.8");
}

#[test]
fn typing_in_insert_mode_edits_the_buffer() {
    let mut app = App::new();
    let _ = app.handle_key(Key::Char('h'));
    let _ = app.handle_key(Key::Char('i'));
    let _ = app.handle_key(Key::Char('!'));
    let _ = app.handle_key(Key::Backspace);
    assert_eq!(app.input, "hi");
}

#[test]
fn enter_in_chat_starts_a_send() {
    let mut app = App::new();
    let _ = app.handle_key(Key::Char('h'));
    let _ = app.handle_key(Key::Char('i'));
    let e = app.handle_key(Key::Enter);
    match e {
        Effect::StartStream(st) => {
            assert_eq!(st.index, 1);
            assert_eq!(st.prompt, "hi");
        },
        _ => panic!("expected a stream start"),
    }
    assert!(app.is_thinking);
    let e2 = app.handle_key(Key::Enter);
    assert!(matches!(e2, Effect::Nothing));
    assert_eq!(app.messages.len(), 2);
}

#[test]
fn ctrl_c_quits_from_chat() {
    let mut app = App::new();
    let e = app.handle_key(Key::CtrlChar('c'));
    assert!(matches!(e, Effect::Quit));
}

#[test]
fn ctrl_s_then_ctrl_y_copies_last_message() {
    let mut app = App::new();
    let _ = app.handle_key(Key::Char('q'));
    let e = app.handle_key(Key::Enter);
    assert!(matches!(e, Effect::StartStream(_)));
    app.apply_stream_chunk(1, "the answer");
    app.finish_stream();
    let e = app.handle_key(Key::CtrlChar('y'));
    assert!(matches!(e, Effect::Nothing));
    let e = app.handle_key(Key::CtrlChar('s'));
    assert!(matches!(e, Effect::Nothing));
    let e = app.handle_key(Key::CtrlChar('y'));
    match e {
        Effect::CopyToClipboard(t) => assert_eq!(t, "the answer"),
        _ => panic!("expected a clipboard effect"),
    }
}

#[test]
fn function_keys_switch_screens() {
    let mut app = App::new();
    let e = app.handle_key(Key::F(2));
    assert!(matches!(e, Effect::FetchModels));
    assert_eq!(app.mode, AppMode::ModelSelection);
    let _ = app.handle_key(Key::Esc);
    assert_eq!(app.mode, AppMode::Chat);

    let e = app.handle_key(Key::F(4));
    assert!(matches!(e, Effect::RefreshMetrics));
    assert_eq!(app.mode, AppMode::SystemMonitor);
    let _ = app.handle_key(Key::Esc);

    let e = app.handle_key(Key::F(5));
    assert!(matches!(e, Effect::LoadHistory));
    assert_eq!(app.mode, AppMode::ChatHistory);
    let _ = app.handle_key(Key::Esc);

    let e = app.handle_key(Key::F(6));
    assert!(matches!(e, Effect::SaveChat));

    let e = app.handle_key(Key::F(7));
    assert!(matches!(e, Effect::Nothing));
    assert_eq!(app.status_message, "Chat cleared");

    let e = app.handle_key(Key::F(8));
    assert!(matches!(e, Effect::Nothing));
    assert_eq!(app.mode, AppMode::ModelConfig);
    assert_eq!(app.config_input, "0.8");
}

#[test]
fn help_key_shows_the_help_line() {
    let mut app = App::new();
    let _ = app.handle_key(Key::F(1));
    assert!(app.status_message.starts_with("Vim: Esc/i modes"));
}

#[test]
fn download_screen_flow() {
    let mut app = App::new();
    let _ = app.handle_key(Key::F(3));
    assert_eq!(app.mode, AppMode::ModelDownload);
    let _ = app.handle_key(Key::Char('l'));
    let _ = app.handle_key(Key::Char('m'));
    let _ = app.handle_key(Key::Char('z'));
    let _ = app.handle_key(Key::Backspace);
    let e = app.handle_key(Key::Enter);
    match e {
        Effect::DownloadModel(name) => assert_eq!(name, "lm"),
        _ => panic!("expected a download effect"),
    }
    assert_eq!(app.mode, AppMode::Chat);
    assert_eq!(app.download_input, "");
}

#[test]
fn download_screen_escape_discards_the_buffer() {
    let mut app = App::new();
    let _ = app.handle_key(Key::F(3));
    let _ = app.handle_key(Key::Char('x'));
    let _ = app.handle_key(Key::Esc);
    assert_eq!(app.mode, AppMode::Chat);
    assert_eq!(app.download_input, "");
}

#[test]
fn config_screen_cycles_fields_and_refreshes_buffer() {
    let mut app = App::new();
    let _ = app.handle_key(Key::F(8));
    assert_eq!(app.config_field, ConfigField::Temperature);
    assert_eq!(app.config_input, "0.8");
    let _ = app.handle_key(Key::Down);
    assert_eq!(app.config_field, ConfigField::TopP);
    assert_eq!(app.config_input, "0.9");
    let _ = app.handle_key(Key::Tab);
    assert_eq!(app.config_field, ConfigField::TopK);
    assert_eq!(app.config_input, "40");
    let _ = app.handle_key(Key::Up);
    assert_eq!(app.config_field, ConfigField::TopP);
    for _ in 0..6 {
        let _ = app.handle_key(Key::Down);
    }
    assert_eq!(app.config_field, ConfigField::TopP);
}

#[test]
fn config_commit_clamps_and_saves() {
    let mut app = App::new();
    let _ = app.handle_key(Key::F(8));
    for _ in 0..3 {
        let _ = app.handle_key(Key::Backspace);
    }
    for c in "5.0".chars() {
        let _ = app.handle_key(Key::Char(c));
    }
    let e = app.handle_key(Key::Enter);
    assert!(matches!(e, Effect::SaveConfig));
    assert_eq!(app.model_config.temperature, 2000);
    assert_eq!(app.config_input, "");
}

#[test]
fn monitor_screen_scrolls_processes() {
    let mut app = App::new();
    let _ = app.handle_key(Key::F(4));
    let _ = app.handle_key(Key::Up);
    assert_eq!(app.process_scroll, 0);
    let _ = app.handle_key(Key::Down);
    let _ = app.handle_key(Key::Down);
    assert_eq!(app.process_scroll, 2);
    let _ = app.handle_key(Key::Up);
    assert_eq!(app.process_scroll, 1);
}

#[test]
fn history_screen_loads_the_selected_session() {
    let mut app = App::new();
    let sessions = vec![
        ChatSession {
            timestamp: "2024-01-01 10:00:00".to_string(),
            model: "old-model".to_string(),
            messages: vec![ChatMessage { role: Role::User, text: "old question".to_string() }],
        },
        ChatSession {
            timestamp: "2024-01-01 12:00:00".to_string(),
            model: "new-model".to_string(),
            messages: vec![ChatMessage { role: Role::User, text: "new question".to_string() }],
        },
    ];
    let _ = app.handle_key(Key::F(5));
    app.load_chat_history(sessions);
    assert_eq!(app.chat_history[0].model, "new-model");
    let _ = app.handle_key(Key::Down);
    assert_eq!(app.history_list_selected, Some(1));
    let _ = app.handle_key(Key::Enter);
    assert_eq!(app.mode, AppMode::Chat);
    assert_eq!(app.current_model, "old-model");
    assert_eq!(app.messages.len(), 1);
    assert_eq!(app.messages[0].text, "old question");
    assert_eq!(app.status_message, "Loaded chat from 2024-01-01 10:00:00");
}

#[test]
fn with_the_vim_layer_off_function_keys_still_serve() {
    let mut app = App::new();
    app.vim_mode = false;
    let e = app.handle_key(Key::Esc);
    assert!(matches!(e, Effect::Nothing));
    assert!(app.vim_insert);
    assert_eq!(app.mode, AppMode::Chat);
    let _ = app.handle_key(Key::Char('j'));
    assert_eq!(app.input, "j");
    assert_eq!(app.scroll_offset, 0);
    let e = app.handle_key(Key::F(2));
    assert!(matches!(e, Effect::FetchModels));
    assert_eq!(app.mode, AppMode::ModelSelection);
}

#[test]
fn copy_with_nothing_selected_does_nothing() {
    let mut app = App::new();
    let e = app.handle_key(Key::CtrlChar('y'));
    assert!(matches!(e, Effect::Nothing));
    let e = app.handle_key(Key::CtrlChar('s'));
    assert!(matches!(e, Effect::Nothing));
    assert!(app.selected_text.is_none());
}

#[test]
fn selection_moves_are_safe_on_an_empty_list() {
    let mut app = App::new();
    let _ = app.handle_key(Key::F(2));
    assert_eq!(app.model_list_selected, Some(0));
    let _ = app.handle_key(Key::Down);
    assert_eq!(app.model_list_selected, Some(0));
    let _ = app.handle_key(Key::Up);
    assert_eq!(app.model_list_selected, Some(0));
    let e = app.handle_key(Key::Enter);
    assert!(matches!(e, Effect::Nothing));
    assert_eq!(app.mode, AppMode::ModelSelection);
    assert_eq!(app.current_model, "llama2:latest");
}

#[test]
fn unknown_keys_do_nothing() {
    let mut app = App::new();
    let e = app.handle_key(Key::Other);
    assert!(matches!(e, Effect::Nothing));
    assert_eq!(app.input, "");
}
