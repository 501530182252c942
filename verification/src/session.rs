//! The session state and its transitions.
//!
//! One record holds the whole conversation, the generation configuration,
//! the cursors of every list and the transient status line.  The host
//! program keeps a single instance behind one exclusive-access boundary;
//! every operation here mutates it in one step, so the host can hold the
//! boundary across a call but never across anything that blocks.
//!
//! A generation in flight is represented by `is_thinking` together with a
//! placeholder assistant message appended at send time; the streaming
//! task targets that message by its recorded index, never by position
//! from the end.

use vstd::prelude::*;

use crate::config::{config_wf, default_config, spec_next_field, spec_prev_field,
    spec_update_field, spec_field_text, ConfigField, ConfigView, ModelConfig};
use crate::history::{clone_messages, messages_view, sessions_view, sorted_newest_first,
    sort_sessions_newest_first, ChatMessage, ChatSession, MessageView, Role, SessionView};
use crate::text::{chars_to_string, spec_trim, str_to_chars, trim_chars};

verus! {

use vstd::string::StringExecFns;

/// The six screens, exactly one active at a time.
#[derive(Clone, Copy, PartialEq, Eq, Structural, Debug)]
pub enum AppMode {
    Chat,
    ModelSelection,
    ModelDownload,
    SystemMonitor,
    ChatHistory,
    ModelConfig,
}

/// The one mutable record of the whole session.
pub struct App {
    pub mode: AppMode,
    pub input: String,
    pub messages: Vec<ChatMessage>,
    pub current_model: String,
    pub available_models: Vec<String>,
    pub model_list_selected: Option<usize>,
    pub download_input: String,
    pub status_message: String,
    pub scroll_offset: usize,
    pub is_thinking: bool,
    pub thinking_frame: usize,
    pub cpu_permille: u32,
    pub memory_used: u64,
    pub memory_total: u64,
    pub gpu_info: Option<String>,
    pub chat_history: Vec<ChatSession>,
    pub history_list_selected: Option<usize>,
    pub selected_text: Option<String>,
    pub process_scroll: usize,
    pub model_config: ModelConfig,
    pub config_field: ConfigField,
    pub config_input: String,
    pub vim_mode: bool,
    pub vim_insert: bool,
    pub pending_g: bool,
}

/// The mathematical content of an [`App`].
#[verifier::ext_equal]
pub struct AppView {
    pub mode: AppMode,
    pub input: Seq<char>,
    pub messages: Seq<MessageView>,
    pub current_model: Seq<char>,
    pub available_models: Seq<Seq<char>>,
    pub model_list_selected: Option<usize>,
    pub download_input: Seq<char>,
    pub status_message: Seq<char>,
    pub scroll_offset: usize,
    pub is_thinking: bool,
    pub thinking_frame: usize,
    pub cpu_permille: u32,
    pub memory_used: u64,
    pub memory_total: u64,
    pub gpu_info: Option<Seq<char>>,
    pub chat_history: Seq<SessionView>,
    pub history_list_selected: Option<usize>,
    pub selected_text: Option<Seq<char>>,
    pub process_scroll: usize,
    pub model_config: ConfigView,
    pub config_field: ConfigField,
    pub config_input: Seq<char>,
    pub vim_mode: bool,
    pub vim_insert: bool,
    pub pending_g: bool,
}

/// The views of a model-name list.
pub open spec fn models_view(v: Seq<String>) -> Seq<Seq<char>> {
    v.map_values(|m: String| m@)
}

/// The view of an optional text.
pub open spec fn opt_text_view(v: Option<String>) -> Option<Seq<char>> {
    match v {
        Some(s) => Some(s@),
        None => None,
    }
}

impl View for App {
    type V = AppView;

    open spec fn view(&self) -> AppView {
        AppView {
            mode: self.mode,
            input: self.input@,
            messages: messages_view(self.messages@),
            current_model: self.current_model@,
            available_models: models_view(self.available_models@),
            model_list_selected: self.model_list_selected,
            download_input: self.download_input@,
            status_message: self.status_message@,
            scroll_offset: self.scroll_offset,
            is_thinking: self.is_thinking,
            thinking_frame: self.thinking_frame,
            cpu_permille: self.cpu_permille,
            memory_used: self.memory_used,
            memory_total: self.memory_total,
            gpu_info: opt_text_view(self.gpu_info),
            chat_history: sessions_view(self.chat_history@),
            history_list_selected: self.history_list_selected,
            selected_text: opt_text_view(self.selected_text),
            process_scroll: self.process_scroll,
            model_config: self.model_config@,
            config_field: self.config_field,
            config_input: self.config_input@,
            vim_mode: self.vim_mode,
            vim_insert: self.vim_insert,
            pending_g: self.pending_g,
        }
    }
}

/// The session's standing invariant: the configuration is in range.
pub open spec fn app_wf(a: AppView) -> bool {
    config_wf(a.model_config)
}

/// Concatenation of two texts.
pub fn concat_str(prefix: &str, rest: &str) -> (r: String)
    ensures
        r@ == prefix@ + rest@,
{
    let mut s = prefix.to_owned();
    s.append(rest);
    s
}

impl App {
    /// A fresh session: chat screen, vim-style input starting in insert
    /// sub-mode, the default configuration and an empty conversation.
    pub fn new() -> (r: App)
        ensures
            r@.mode == AppMode::Chat,
            r@.input.len() == 0,
            r@.messages.len() == 0,
            r@.current_model == "llama2:latest"@,
            r@.available_models.len() == 0,
            r@.model_list_selected is None,
            r@.download_input.len() == 0,
            r@.status_message == "Ready. Press F1 for help"@,
            r@.scroll_offset == 0,
            !r@.is_thinking,
            r@.thinking_frame == 0,
            r@.gpu_info is None,
            r@.chat_history.len() == 0,
            r@.history_list_selected is None,
            r@.selected_text is None,
            r@.process_scroll == 0,
            r@.model_config == default_config(),
            r@.config_field == ConfigField::Temperature,
            r@.config_input.len() == 0,
            r@.vim_mode,
            r@.vim_insert,
            !r@.pending_g,
            app_wf(r@),
    {
        let r = App {
            mode: AppMode::Chat,
            input: String::new(),
            messages: Vec::new(),
            current_model: "llama2:latest".to_owned(),
            available_models: Vec::new(),
            model_list_selected: None,
            download_input: String::new(),
            status_message: "Ready. Press F1 for help".to_owned(),
            scroll_offset: 0,
            is_thinking: false,
            thinking_frame: 0,
            cpu_permille: 0,
            memory_used: 0,
            memory_total: 0,
            gpu_info: None,
            chat_history: Vec::new(),
            history_list_selected: None,
            selected_text: None,
            process_scroll: 0,
            model_config: ModelConfig::default(),
            config_field: ConfigField::Temperature,
            config_input: String::new(),
            vim_mode: true,
            vim_insert: true,
            pending_g: false,
        };
        proof {
            assert(messages_view(r.messages@) =~= Seq::<MessageView>::empty());
            assert(models_view(r.available_models@) =~= Seq::<Seq<char>>::empty());
            assert(sessions_view(r.chat_history@) =~= Seq::<SessionView>::empty());
        }
        r
    }

    /// The animation frame drawn while a generation is in flight.
    pub fn get_thinking_spinner(&self) -> (r: &'static str)
        ensures
            r@ == spinner_frame((self.thinking_frame % 10) as nat),
    {
        match self.thinking_frame % 10 {
            0 => "\u{280b}",
            1 => "\u{2819}",
            2 => "\u{2839}",
            3 => "\u{2838}",
            4 => "\u{283c}",
            5 => "\u{2834}",
            6 => "\u{2826}",
            7 => "\u{2827}",
            8 => "\u{2807}",
            _ => "\u{280f}",
        }
    }

    /// Advances the cosmetic animation exactly while a generation is in
    /// flight; every other part of the session stays as it was.
    pub fn update_thinking_animation(&mut self)
        ensures
            final(self)@ == (AppView {
                thinking_frame: spec_next_frame(old(self)@),
                ..old(self)@
            }),
    {
        if self.is_thinking {
            if self.thinking_frame == usize::MAX {
                self.thinking_frame = 0;
            } else {
                self.thinking_frame = self.thinking_frame + 1;
            }
        }
    }

    /// Stores the latest sampled metrics; nothing else moves.
    pub fn set_system_metrics(
        &mut self,
        cpu_permille: u32,
        memory_used: u64,
        memory_total: u64,
        gpu_info: Option<String>,
    )
        ensures
            final(self)@ == (AppView {
                cpu_permille: cpu_permille,
                memory_used: memory_used,
                memory_total: memory_total,
                gpu_info: opt_text_view(gpu_info),
                ..old(self)@
            }),
    {
        self.cpu_permille = cpu_permille;
        self.memory_used = memory_used;
        self.memory_total = memory_total;
        self.gpu_info = gpu_info;
    }

    /// Sets the status line.
    pub fn set_status(&mut self, msg: String)
        ensures
            final(self)@ == (AppView { status_message: msg@, ..old(self)@ }),
    {
        self.status_message = msg;
    }

    /// Empties the conversation and rewinds the scroll.
    pub fn clear_chat(&mut self)
        ensures
            final(self)@ == (AppView {
                messages: Seq::<MessageView>::empty(),
                scroll_offset: 0,
                status_message: "Chat cleared"@,
                ..old(self)@
            }),
    {
        self.messages = Vec::new();
        self.scroll_offset = 0;
        self.status_message = "Chat cleared".to_owned();
        proof {
            assert(messages_view(self.messages@) =~= Seq::<MessageView>::empty());
        }
    }

    /// Marks the last message's text for copying, if there is one.
    pub fn select_last_message(&mut self)
        ensures
            old(self)@.messages.len() == 0 ==> final(self)@ == old(self)@,
            old(self)@.messages.len() > 0 ==> final(self)@ == (AppView {
                selected_text: Some(old(self)@.messages.last().text),
                status_message: "Message selected. Press Ctrl+Y to copy"@,
                ..old(self)@
            }),
    {
        if self.messages.len() > 0 {
            let m = &self.messages[self.messages.len() - 1];
            self.selected_text = Some(m.text.clone());
            self.status_message = "Message selected. Press Ctrl+Y to copy".to_owned();
            proof {
                assert(messages_view(old(self).messages@).last() == old(self).messages@.last()@);
            }
        }
    }

    /// The text marked for copying, if any.
    pub fn clipboard_text(&self) -> (r: Option<String>)
        ensures
            opt_text_view(r) == self@.selected_text,
    {
        match &self.selected_text {
            Some(t) => Some(t.clone()),
            None => None,
        }
    }

    /// Records whether handing the marked text to the clipboard worked.
    pub fn note_copy_result(&mut self, ok: bool)
        ensures
            final(self)@ == (AppView {
                status_message: if ok {
                    "Copied to clipboard"@
                } else {
                    "Failed to copy"@
                },
                ..old(self)@
            }),
    {
        if ok {
            self.status_message = "Copied to clipboard".to_owned();
        } else {
            self.status_message = "Failed to copy".to_owned();
        }
    }

    /// One line up, stopping at the top.
    pub fn scroll_up(&mut self)
        ensures
            final(self)@ == (AppView {
                scroll_offset: if old(self)@.scroll_offset > 0 {
                    (old(self)@.scroll_offset - 1) as usize
                } else {
                    0
                },
                ..old(self)@
            }),
    {
        if self.scroll_offset > 0 {
            self.scroll_offset = self.scroll_offset - 1;
        }
    }

    /// One line down; the drawing layer caps what is visible.
    pub fn scroll_down(&mut self)
        ensures
            final(self)@ == (AppView {
                scroll_offset: if old(self)@.scroll_offset < usize::MAX {
                    (old(self)@.scroll_offset + 1) as usize
                } else {
                    usize::MAX
                },
                ..old(self)@
            }),
    {
        if self.scroll_offset < usize::MAX {
            self.scroll_offset = self.scroll_offset + 1;
        }
    }

    /// One process-table row up, stopping at the top.
    pub fn process_scroll_up(&mut self)
        ensures
            final(self)@ == (AppView {
                process_scroll: if old(self)@.process_scroll > 0 {
                    (old(self)@.process_scroll - 1) as usize
                } else {
                    0
                },
                ..old(self)@
            }),
    {
        if self.process_scroll > 0 {
            self.process_scroll = self.process_scroll - 1;
        }
    }

    /// One process-table row down.
    pub fn process_scroll_down(&mut self)
        ensures
            final(self)@ == (AppView {
                process_scroll: if old(self)@.process_scroll < usize::MAX {
                    (old(self)@.process_scroll + 1) as usize
                } else {
                    usize::MAX
                },
                ..old(self)@
            }),
    {
        if self.process_scroll < usize::MAX {
            self.process_scroll = self.process_scroll + 1;
        }
    }

    /// Jump to the top of the conversation.
    pub fn scroll_top(&mut self)
        ensures
            final(self)@ == (AppView { scroll_offset: 0, ..old(self)@ }),
    {
        self.scroll_offset = 0;
    }

    /// Jump far enough down to reach the end of the conversation.
    pub fn scroll_bottom(&mut self)
        ensures
            final(self)@ == (AppView { scroll_offset: u16::MAX as usize, ..old(self)@ }),
    {
        self.scroll_offset = u16::MAX as usize;
    }

    /// Changes the active screen; entering the model list places its
    /// cursor on the first entry.
    pub fn switch_mode(&mut self, mode: AppMode)
        ensures
            final(self)@ == (AppView {
                mode: mode,
                model_list_selected: if mode == AppMode::ModelSelection {
                    Some(0usize)
                } else {
                    old(self)@.model_list_selected
                },
                ..old(self)@
            }),
    {
        self.mode = mode;
        if mode == AppMode::ModelSelection {
            self.model_list_selected = Some(0);
        }
    }
}

impl App {
    /// Replaces the cached model listing (a successful refresh).
    pub fn set_available_models(&mut self, models: Vec<String>)
        ensures
            final(self)@ == (AppView { available_models: models_view(models@), ..old(self)@ }),
    {
        self.available_models = models;
    }

    /// Moves the model-list cursor one entry up, stopping at the top.
    pub fn move_model_selection_up(&mut self)
        ensures
            final(self)@ == (AppView {
                model_list_selected: match old(self)@.model_list_selected {
                    Some(i) => if i > 0 {
                        Some((i - 1) as usize)
                    } else {
                        Some(i)
                    },
                    None => None,
                },
                ..old(self)@
            }),
    {
        if let Some(i) = self.model_list_selected {
            if i > 0 {
                self.model_list_selected = Some(i - 1);
            }
        }
    }

    /// Moves the model-list cursor one entry down, stopping at the end.
    pub fn move_model_selection_down(&mut self)
        ensures
            final(self)@ == (AppView {
                model_list_selected: match old(self)@.model_list_selected {
                    Some(i) => if i + 1 < old(self)@.available_models.len() {
                        Some((i + 1) as usize)
                    } else {
                        Some(i)
                    },
                    None => None,
                },
                ..old(self)@
            }),
    {
        if let Some(i) = self.model_list_selected {
            let len = self.available_models.len();
            let cap: usize = if len == 0 {
                0
            } else {
                len - 1
            };
            if i < cap {
                self.model_list_selected = Some(i + 1);
            }
        }
    }

    /// Takes the model under the cursor as the current one and returns
    /// to the chat screen; with no valid cursor nothing happens.
    pub fn apply_model_selection(&mut self)
        ensures
            (match old(self)@.model_list_selected {
                Some(i) => i < old(self)@.available_models.len(),
                None => false,
            }) ==> final(self)@ == (AppView {
                mode: AppMode::Chat,
                current_model: old(self)@.available_models[
                    old(self)@.model_list_selected->Some_0 as int
                ],
                status_message: "Model changed to: "@ + old(self)@.available_models[
                    old(self)@.model_list_selected->Some_0 as int
                ],
                ..old(self)@
            }),
            !(match old(self)@.model_list_selected {
                Some(i) => i < old(self)@.available_models.len(),
                None => false,
            }) ==> final(self)@ == old(self)@,
    {
        if let Some(i) = self.model_list_selected {
            if i < self.available_models.len() {
                let name = self.available_models[i].clone();
                proof {
                    assert(models_view(self.available_models@)[i as int]
                        == self.available_models@[i as int]@);
                }
                self.current_model = name.clone();
                self.status_message = concat_str("Model changed to: ", name.as_str());
                self.mode = AppMode::Chat;
            }
        }
    }

    /// Moves the history cursor one entry up, stopping at the top.
    pub fn move_history_selection_up(&mut self)
        ensures
            final(self)@ == (AppView {
                history_list_selected: match old(self)@.history_list_selected {
                    Some(i) => if i > 0 {
                        Some((i - 1) as usize)
                    } else {
                        Some(i)
                    },
                    None => None,
                },
                ..old(self)@
            }),
    {
        if let Some(i) = self.history_list_selected {
            if i > 0 {
                self.history_list_selected = Some(i - 1);
            }
        }
    }

    /// Moves the history cursor one entry down, stopping at the end.
    pub fn move_history_selection_down(&mut self)
        ensures
            final(self)@ == (AppView {
                history_list_selected: match old(self)@.history_list_selected {
                    Some(i) => if i + 1 < old(self)@.chat_history.len() {
                        Some((i + 1) as usize)
                    } else {
                        Some(i)
                    },
                    None => None,
                },
                ..old(self)@
            }),
    {
        if let Some(i) = self.history_list_selected {
            let len = self.chat_history.len();
            let cap: usize = if len == 0 {
                0
            } else {
                len - 1
            };
            if i < cap {
                self.history_list_selected = Some(i + 1);
            }
        }
    }

    /// Puts the history cursor on the first (newest) entry.
    pub fn select_history_first(&mut self)
        ensures
            final(self)@ == (AppView { history_list_selected: Some(0usize), ..old(self)@ }),
    {
        self.history_list_selected = Some(0);
    }

    /// Installs the freshly read saved sessions, newest first; nothing
    /// else moves.
    pub fn load_chat_history(&mut self, sessions: Vec<ChatSession>)
        ensures
            final(self)@ == (AppView { chat_history: final(self)@.chat_history, ..old(self)@ }),
            sorted_newest_first(final(self)@.chat_history),
            final(self)@.chat_history.to_multiset() == sessions_view(sessions@).to_multiset(),
    {
        self.chat_history = sort_sessions_newest_first(sessions);
    }

    /// Brings the session under the history cursor back as the live
    /// conversation and returns to the chat screen; with no valid cursor
    /// nothing happens.
    pub fn load_selected_chat(&mut self)
        ensures
            (match old(self)@.history_list_selected {
                Some(i) => i < old(self)@.chat_history.len(),
                None => false,
            }) ==> ({
                let sess = old(self)@.chat_history[old(self)@.history_list_selected->Some_0 as int];
                final(self)@ == (AppView {
                    mode: AppMode::Chat,
                    messages: sess.messages,
                    current_model: sess.model,
                    status_message: "Loaded chat from "@ + sess.timestamp,
                    ..old(self)@
                })
            }),
            !(match old(self)@.history_list_selected {
                Some(i) => i < old(self)@.chat_history.len(),
                None => false,
            }) ==> final(self)@ == old(self)@,
    {
        if let Some(i) = self.history_list_selected {
            if i < self.chat_history.len() {
                proof {
                    assert(sessions_view(self.chat_history@)[i as int]
                        == self.chat_history@[i as int]@);
                }
                let msgs = clone_messages(&self.chat_history[i].messages);
                let model = self.chat_history[i].model.clone();
                let status = concat_str("Loaded chat from ", self.chat_history[i].timestamp.as_str());
                self.messages = msgs;
                self.current_model = model;
                self.status_message = status;
                self.mode = AppMode::Chat;
            }
        }
    }

    /// Commits the typed text to the field under the edit cursor.
    pub fn update_config_field(&mut self, value: String)
        ensures
            final(self)@ == (AppView {
                model_config: spec_update_field(
                    old(self)@.model_config,
                    old(self)@.config_field,
                    value@,
                ),
                ..old(self)@
            }),
            app_wf(old(self)@) ==> app_wf(final(self)@),
    {
        let f = self.config_field;
        self.model_config.update_field(f, value);
    }

    /// Moves the edit cursor to the next field of the cycle.
    pub fn next_config_field(&mut self)
        ensures
            final(self)@ == (AppView {
                config_field: spec_next_field(old(self)@.config_field),
                ..old(self)@
            }),
    {
        self.config_field = match self.config_field {
            ConfigField::Temperature => ConfigField::TopP,
            ConfigField::TopP => ConfigField::TopK,
            ConfigField::TopK => ConfigField::RepeatPenalty,
            ConfigField::RepeatPenalty => ConfigField::ContextWindow,
            ConfigField::ContextWindow => ConfigField::SystemPrompt,
            ConfigField::SystemPrompt => ConfigField::Temperature,
        };
    }

    /// Moves the edit cursor to the previous field of the cycle.
    pub fn prev_config_field(&mut self)
        ensures
            final(self)@ == (AppView {
                config_field: spec_prev_field(old(self)@.config_field),
                ..old(self)@
            }),
    {
        self.config_field = match self.config_field {
            ConfigField::Temperature => ConfigField::SystemPrompt,
            ConfigField::TopP => ConfigField::Temperature,
            ConfigField::TopK => ConfigField::TopP,
            ConfigField::RepeatPenalty => ConfigField::TopK,
            ConfigField::ContextWindow => ConfigField::RepeatPenalty,
            ConfigField::SystemPrompt => ConfigField::ContextWindow,
        };
    }

    /// The shown text of the field under the edit cursor.
    pub fn get_current_config_value(&self) -> (r: String)
        ensures
            r@ == spec_field_text(self@.model_config, self@.config_field),
    {
        self.model_config.field_text(self.config_field)
    }

    /// Puts the current text of the edited field into the edit buffer.
    pub fn refresh_config_input(&mut self)
        ensures
            final(self)@ == (AppView {
                config_input: spec_field_text(old(self)@.model_config, old(self)@.config_field),
                ..old(self)@
            }),
    {
        self.config_input = self.model_config.field_text(self.config_field);
    }

    /// Appends one typed character to the chat input buffer.
    pub fn input_push(&mut self, c: char)
        ensures
            final(self)@ == (AppView { input: old(self)@.input.push(c), ..old(self)@ }),
    {
        crate::text::push_char(&mut self.input, c);
    }

    /// Removes the last character of the chat input buffer, if any.
    pub fn input_pop(&mut self)
        ensures
            final(self)@ == (AppView {
                input: if old(self)@.input.len() > 0 {
                    old(self)@.input.drop_last()
                } else {
                    old(self)@.input
                },
                ..old(self)@
            }),
    {
        let _ = crate::text::pop_char(&mut self.input);
    }

    /// Appends one typed character to the download buffer.
    pub fn download_push(&mut self, c: char)
        ensures
            final(self)@ == (AppView {
                download_input: old(self)@.download_input.push(c),
                ..old(self)@
            }),
    {
        crate::text::push_char(&mut self.download_input, c);
    }

    /// Removes the last character of the download buffer, if any.
    pub fn download_pop(&mut self)
        ensures
            final(self)@ == (AppView {
                download_input: if old(self)@.download_input.len() > 0 {
                    old(self)@.download_input.drop_last()
                } else {
                    old(self)@.download_input
                },
                ..old(self)@
            }),
    {
        let _ = crate::text::pop_char(&mut self.download_input);
    }

    /// Empties the download buffer.
    pub fn download_clear(&mut self)
        ensures
            final(self)@ == (AppView { download_input: Seq::<char>::empty(), ..old(self)@ }),
    {
        self.download_input = String::new();
    }

    /// Takes the download buffer's content, leaving it empty.
    pub fn take_download_input(&mut self) -> (r: String)
        ensures
            r@ == old(self)@.download_input,
            final(self)@ == (AppView { download_input: Seq::<char>::empty(), ..old(self)@ }),
    {
        let r = self.download_input.clone();
        self.download_input = String::new();
        r
    }

    /// Appends one typed character to the configuration edit buffer.
    pub fn config_input_push(&mut self, c: char)
        ensures
            final(self)@ == (AppView {
                config_input: old(self)@.config_input.push(c),
                ..old(self)@
            }),
    {
        crate::text::push_char(&mut self.config_input, c);
    }

    /// Removes the last character of the configuration edit buffer.
    pub fn config_input_pop(&mut self)
        ensures
            final(self)@ == (AppView {
                config_input: if old(self)@.config_input.len() > 0 {
                    old(self)@.config_input.drop_last()
                } else {
                    old(self)@.config_input
                },
                ..old(self)@
            }),
    {
        let _ = crate::text::pop_char(&mut self.config_input);
    }

    /// Takes the configuration edit buffer's content, leaving it empty.
    pub fn take_config_input(&mut self) -> (r: String)
        ensures
            r@ == old(self)@.config_input,
            final(self)@ == (AppView { config_input: Seq::<char>::empty(), ..old(self)@ }),
    {
        let r = self.config_input.clone();
        self.config_input = String::new();
        r
    }

    /// A snapshot of the conversation for storage, stamped with the
    /// given time; an empty conversation yields nothing to save.
    pub fn chat_snapshot(&self, timestamp: String) -> (r: Option<ChatSession>)
        ensures
            r is None <==> self@.messages.len() == 0,
            r matches Some(s) ==> s@ == (SessionView {
                timestamp: timestamp@,
                model: self@.current_model,
                messages: self@.messages,
            }),
    {
        if self.messages.len() == 0 {
            return None;
        }
        Some(
            ChatSession {
                timestamp,
                model: self.current_model.clone(),
                messages: clone_messages(&self.messages),
            },
        )
    }

    /// Records that the conversation reached storage.
    pub fn note_chat_saved(&mut self)
        ensures
            final(self)@ == (AppView {
                status_message: "Chat saved successfully"@,
                ..old(self)@
            }),
    {
        self.status_message = "Chat saved successfully".to_owned();
    }

    /// Records that the configuration reached storage.
    pub fn note_config_saved(&mut self)
        ensures
            final(self)@ == (AppView { status_message: "Configuration saved"@, ..old(self)@ }),
    {
        self.status_message = "Configuration saved".to_owned();
    }

    /// Announces a model download before it begins.
    pub fn note_download_started(&mut self, name: &str)
        ensures
            final(self)@ == (AppView {
                status_message: "Downloading model: "@ + name@,
                ..old(self)@
            }),
    {
        self.status_message = concat_str("Downloading model: ", name);
    }

    /// Announces a finished model download.
    pub fn note_download_finished(&mut self, name: &str)
        ensures
            final(self)@ == (AppView {
                status_message: "Model "@ + name@ + " downloaded successfully"@,
                ..old(self)@
            }),
    {
        let head = concat_str("Model ", name);
        self.status_message = concat_str(head.as_str(), " downloaded successfully");
    }
}

/// What a newly started generation hands to the host: the placeholder's
/// fixed index, and the model, prompt and configuration snapshot the
/// backend call takes.
pub struct StartedSend {
    pub index: usize,
    pub model: String,
    pub prompt: String,
    pub config: ModelConfig,
}

/// A send may begin: no generation is in flight and the trimmed input is
/// not empty.
pub open spec fn can_send(a: AppView) -> bool {
    &&& !a.is_thinking
    &&& spec_trim(a.input).len() > 0
}

/// The state right after a send begins: the trimmed input becomes a user
/// message, an empty assistant placeholder follows it, the buffer is
/// cleared and the in-flight flag is raised.
pub open spec fn spec_start_send(a: AppView) -> AppView {
    AppView {
        messages: a.messages.push(
            MessageView { role: Role::User, text: spec_trim(a.input) },
        ).push(MessageView { role: Role::Assistant, text: Seq::<char>::empty() }),
        input: Seq::<char>::empty(),
        is_thinking: true,
        thinking_frame: 0,
        ..a
    }
}

/// One arrived fragment appended to the message at `index`; an index
/// outside the list changes nothing.
pub open spec fn spec_apply_chunk(a: AppView, index: int, frag: Seq<char>) -> AppView {
    if 0 <= index < a.messages.len() {
        AppView {
            messages: a.messages.update(
                index,
                MessageView {
                    role: a.messages[index].role,
                    text: a.messages[index].text + frag,
                },
            ),
            ..a
        }
    } else {
        a
    }
}

/// A whole sequence of fragments applied in arrival order.
pub open spec fn spec_apply_chunks(a: AppView, index: int, frags: Seq<Seq<char>>) -> AppView
    decreases frags.len(),
{
    if frags.len() == 0 {
        a
    } else {
        spec_apply_chunks(spec_apply_chunk(a, index, frags[0]), index, frags.drop_first())
    }
}

/// The fragments joined in arrival order.
pub open spec fn concat_frags(frags: Seq<Seq<char>>) -> Seq<char>
    decreases frags.len(),
{
    if frags.len() == 0 {
        Seq::<char>::empty()
    } else {
        frags[0] + concat_frags(frags.drop_first())
    }
}

/// The state after the stream ends without error.
pub open spec fn spec_finish_stream(a: AppView) -> AppView {
    AppView { is_thinking: false, status_message: "Ready"@, ..a }
}

/// The state after a mid-stream error: the partial output stays, the
/// error reaches the status line, the in-flight flag falls.
pub open spec fn spec_fail_stream(a: AppView, err: Seq<char>) -> AppView {
    AppView { is_thinking: false, status_message: "Stream error: "@ + err, ..a }
}

/// The state after the stream could not be opened at all: the
/// placeholder at `index` is removed, the error reaches the status line,
/// the in-flight flag falls.
pub open spec fn spec_fail_start(a: AppView, index: int, err: Seq<char>) -> AppView {
    AppView {
        messages: if 0 <= index < a.messages.len() {
            a.messages.remove(index)
        } else {
            a.messages
        },
        is_thinking: false,
        status_message: "Error: "@ + err,
        ..a
    }
}

impl App {
    /// Begins a generation from the chat input buffer.
    ///
    /// While a generation is in flight, or when the trimmed buffer is
    /// empty, nothing changes and nothing is returned: a second send
    /// cannot start and a blank send is a no-op.  Otherwise the session
    /// steps to [`spec_start_send`] and the returned record carries the
    /// placeholder's index with the snapshot the backend call needs.
    pub fn start_send(&mut self) -> (r: Option<StartedSend>)
        ensures
            !can_send(old(self)@) ==> r is None && final(self)@ == old(self)@,
            can_send(old(self)@) ==> (r matches Some(st) && {
                &&& final(self)@ == spec_start_send(old(self)@)
                &&& st.index == old(self)@.messages.len() + 1
                &&& st.model@ == old(self)@.current_model
                &&& st.prompt@ == spec_trim(old(self)@.input)
                &&& st.config@ == old(self)@.model_config
            }),
    {
        if self.is_thinking {
            return None;
        }
        let chars = str_to_chars(self.input.as_str());
        let trimmed = trim_chars(&chars);
        if trimmed.len() == 0 {
            return None;
        }
        let prompt = chars_to_string(&trimmed);
        let user = ChatMessage { role: Role::User, text: prompt.clone() };
        let ghost msgs0 = self.messages@;
        proof {
            crate::history::lemma_messages_view_push(msgs0, user);
        }
        self.messages.push(user);
        let holder = ChatMessage { role: Role::Assistant, text: String::new() };
        let ghost msgs1 = self.messages@;
        proof {
            crate::history::lemma_messages_view_push(msgs1, holder);
        }
        self.messages.push(holder);
        self.input = String::new();
        self.is_thinking = true;
        self.thinking_frame = 0;
        let index = self.messages.len() - 1;
        let model = self.current_model.clone();
        let config = self.model_config.clone();
        proof {
            assert(self@ =~= spec_start_send(old(self)@));
        }
        Some(StartedSend { index, model, prompt, config })
    }

    /// Appends one arrived fragment to the message at `index` (the
    /// placeholder a send recorded); an index outside the list changes
    /// nothing.
    pub fn apply_stream_chunk(&mut self, index: usize, fragment: &str)
        ensures
            final(self)@ == spec_apply_chunk(old(self)@, index as int, fragment@),
    {
        if index < self.messages.len() {
            let ghost msgs0 = self.messages@;
            let mut m = self.messages.remove(index);
            m.text.append(fragment);
            let ghost m_new = m;
            proof {
                crate::history::lemma_messages_view_remove(msgs0, index as int);
                crate::history::lemma_messages_view_insert(
                    msgs0.remove(index as int),
                    index as int,
                    m_new,
                );
            }
            self.messages.insert(index, m);
            proof {
                let mv0 = messages_view(msgs0);
                let mvn = messages_view(self.messages@);
                assert(mvn == mv0.remove(index as int).insert(index as int, m_new@));
                assert(mvn =~= mv0.update(
                    index as int,
                    MessageView { role: mv0[index as int].role, text: mv0[index as int].text + fragment@ },
                ));
                assert(self@ =~= spec_apply_chunk(old(self)@, index as int, fragment@));
            }
        }
    }

    /// Ends the stream without error: the in-flight flag falls and the
    /// status line shows readiness.  Whatever the placeholder holds —
    /// even nothing — stays as the assistant's turn.
    pub fn finish_stream(&mut self)
        ensures
            final(self)@ == spec_finish_stream(old(self)@),
    {
        self.is_thinking = false;
        self.status_message = "Ready".to_owned();
    }

    /// Reports a mid-stream error: partial output is kept, no retry is
    /// attempted.
    pub fn fail_stream(&mut self, err: &str)
        ensures
            final(self)@ == spec_fail_stream(old(self)@, err@),
    {
        self.status_message = concat_str("Stream error: ", err);
        self.is_thinking = false;
    }

    /// Reports that the stream could not be opened: the placeholder at
    /// `index` is removed so no empty assistant turn is left behind.
    pub fn fail_start(&mut self, index: usize, err: &str)
        ensures
            final(self)@ == spec_fail_start(old(self)@, index as int, err@),
    {
        if index < self.messages.len() {
            let ghost msgs0 = self.messages@;
            let _ = self.messages.remove(index);
            proof {
                crate::history::lemma_messages_view_remove(msgs0, index as int);
            }
        }
        self.status_message = concat_str("Error: ", err);
        self.is_thinking = false;
    }
}

/// Applying fragments to a message inside the list only rewrites that
/// message, to its old text followed by every fragment in order.
pub proof fn lemma_apply_chunks_concat(a: AppView, index: int, frags: Seq<Seq<char>>)
    requires
        0 <= index < a.messages.len(),
    ensures
        spec_apply_chunks(a, index, frags) == (AppView {
            messages: a.messages.update(
                index,
                MessageView {
                    role: a.messages[index].role,
                    text: a.messages[index].text + concat_frags(frags),
                },
            ),
            ..a
        }),
    decreases frags.len(),
{
    if frags.len() == 0 {
        assert(a.messages[index].text + concat_frags(frags) =~= a.messages[index].text);
        assert(a.messages.update(
            index,
            MessageView {
                role: a.messages[index].role,
                text: a.messages[index].text + concat_frags(frags),
            },
        ) =~= a.messages);
        assert(spec_apply_chunks(a, index, frags) =~= (AppView {
            messages: a.messages.update(
                index,
                MessageView {
                    role: a.messages[index].role,
                    text: a.messages[index].text + concat_frags(frags),
                },
            ),
            ..a
        }));
    } else {
        let b = spec_apply_chunk(a, index, frags[0]);
        lemma_apply_chunks_concat(b, index, frags.drop_first());
        assert(b.messages[index].text == a.messages[index].text + frags[0]);
        assert(b.messages[index].role == a.messages[index].role);
        assert(b.messages.update(
            index,
            MessageView {
                role: b.messages[index].role,
                text: b.messages[index].text + concat_frags(frags.drop_first()),
            },
        ) =~= a.messages.update(
            index,
            MessageView {
                role: a.messages[index].role,
                text: a.messages[index].text + concat_frags(frags),
            },
        )) by {
            assert(b.messages[index].text + concat_frags(frags.drop_first()) =~= a.messages[
                index
            ].text + concat_frags(frags));
        }
        assert(spec_apply_chunks(a, index, frags) =~= (AppView {
            messages: a.messages.update(
                index,
                MessageView {
                    role: a.messages[index].role,
                    text: a.messages[index].text + concat_frags(frags),
                },
            ),
            ..a
        }));
    }
}

/// A send that runs to completion grows the conversation by exactly two
/// messages: the trimmed input as the user's turn, then an assistant
/// turn holding every fragment joined in arrival order.
pub proof fn lemma_completed_generation(a: AppView, frags: Seq<Seq<char>>)
    requires
        can_send(a),
    ensures
        ({
            let idx = a.messages.len() as int + 1;
            let b = spec_finish_stream(spec_apply_chunks(spec_start_send(a), idx, frags));
            &&& b.messages.len() == a.messages.len() + 2
            &&& b.messages[a.messages.len() as int] == (MessageView {
                role: Role::User,
                text: spec_trim(a.input),
            })
            &&& b.messages[idx] == (MessageView {
                role: Role::Assistant,
                text: concat_frags(frags),
            })
            &&& !b.is_thinking
        }),
{
    let idx = a.messages.len() as int + 1;
    let s = spec_start_send(a);
    assert(s.messages.len() == a.messages.len() + 2);
    assert(s.messages[idx] == (MessageView { role: Role::Assistant, text: Seq::<char>::empty() }));
    lemma_apply_chunks_concat(s, idx, frags);
    let c = spec_apply_chunks(s, idx, frags);
    assert(c.messages[idx].text =~= concat_frags(frags));
    assert(c.messages[a.messages.len() as int] == s.messages[a.messages.len() as int]);
}

/// A send whose stream never opens grows the conversation by exactly one
/// message — the user's turn — and leaves no empty assistant turn behind.
pub proof fn lemma_failed_start(a: AppView, err: Seq<char>)
    requires
        can_send(a),
    ensures
        ({
            let idx = a.messages.len() as int + 1;
            let b = spec_fail_start(spec_start_send(a), idx, err);
            &&& b.messages.len() == a.messages.len() + 1
            &&& b.messages == a.messages.push(
                MessageView { role: Role::User, text: spec_trim(a.input) },
            )
            &&& b.messages.last().role == Role::User
            &&& !b.is_thinking
        }),
{
    let idx = a.messages.len() as int + 1;
    let s = spec_start_send(a);
    let b = spec_fail_start(s, idx, err);
    assert(b.messages =~= a.messages.push(
        MessageView { role: Role::User, text: spec_trim(a.input) },
    ));
}

/// The next animation frame: one ahead while thinking, wrapping at the
/// machine limit; standing still otherwise.
pub open spec fn spec_next_frame(a: AppView) -> usize {
    if a.is_thinking {
        if a.thinking_frame == usize::MAX {
            0usize
        } else {
            (a.thinking_frame + 1) as usize
        }
    } else {
        a.thinking_frame
    }
}

/// The ten spinner frames, one per animation step.
pub open spec fn spinner_frame(n: nat) -> Seq<char> {
    if n == 0 {
        "\u{280b}"@
    } else if n == 1 {
        "\u{2819}"@
    } else if n == 2 {
        "\u{2839}"@
    } else if n == 3 {
        "\u{2838}"@
    } else if n == 4 {
        "\u{283c}"@
    } else if n == 5 {
        "\u{2834}"@
    } else if n == 6 {
        "\u{2826}"@
    } else if n == 7 {
        "\u{2827}"@
    } else if n == 8 {
        "\u{2807}"@
    } else {
        "\u{280f}"@
    }
}

} // verus!
