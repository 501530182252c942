//! The input dispatcher.
//!
//! One call per input event: the key is read against the active screen
//! and, on the chat screen, against the vim-style sub-mode, and the
//! session steps accordingly.  Everything the session itself can do
//! happens here in one step; what needs the outside world — the backend,
//! storage, the clipboard, the metrics source — comes back as an
//! [`Effect`] for the host to carry out.
//!
//! The whole mapping is the one spec function [`dispatch_step`]; the
//! executable dispatcher is proved to follow it key by key.

use vstd::prelude::*;

use crate::config::spec_field_text;
use crate::session::{can_send, spec_start_send, App, AppMode, AppView, StartedSend};
use crate::text::spec_trim;

verus! {

/// An input event, as plain values: the pressed key, with the control
/// modifier already folded in by the host.
#[derive(Clone, Copy, PartialEq, Eq, Structural, Debug)]
pub enum Key {
    Char(char),
    CtrlChar(char),
    F(u8),
    Enter,
    Esc,
    Backspace,
    Tab,
    Up,
    Down,
    Other,
}

/// What the host must do after a dispatch step.
pub enum Effect {
    /// Nothing beyond the state change already made.
    Nothing,
    /// Leave the program.
    Quit,
    /// Ask the backend for its model listing and store the result.
    FetchModels,
    /// Sample the system metrics and store the result.
    RefreshMetrics,
    /// Drive the generation this record describes, applying its chunks
    /// to the session under exclusive access.
    StartStream(StartedSend),
    /// Ask the backend to pull the named model.
    DownloadModel(String),
    /// Snapshot the conversation and write it to storage.
    SaveChat,
    /// Write the configuration to storage.
    SaveConfig,
    /// Read the saved sessions from storage and hand them back.
    LoadHistory,
    /// Hand the text to the clipboard.
    CopyToClipboard(String),
}

/// The mathematical content of an [`Effect`].
pub enum EffectView {
    DoNothing,
    Quit,
    FetchModels,
    RefreshMetrics,
    StartStream,
    DownloadModel(Seq<char>),
    SaveChat,
    SaveConfig,
    LoadHistory,
    Copy(Seq<char>),
}

impl View for Effect {
    type V = EffectView;

    open spec fn view(&self) -> EffectView {
        match self {
            Effect::Nothing => EffectView::DoNothing,
            Effect::Quit => EffectView::Quit,
            Effect::FetchModels => EffectView::FetchModels,
            Effect::RefreshMetrics => EffectView::RefreshMetrics,
            Effect::StartStream(_) => EffectView::StartStream,
            Effect::DownloadModel(s) => EffectView::DownloadModel(s@),
            Effect::SaveChat => EffectView::SaveChat,
            Effect::SaveConfig => EffectView::SaveConfig,
            Effect::LoadHistory => EffectView::LoadHistory,
            Effect::CopyToClipboard(s) => EffectView::Copy(s@),
        }
    }
}

/// One scroll line up.
pub open spec fn spec_scroll_up(a: AppView) -> AppView {
    AppView {
        scroll_offset: if a.scroll_offset > 0 {
            (a.scroll_offset - 1) as usize
        } else {
            0
        },
        ..a
    }
}

/// One scroll line down.
pub open spec fn spec_scroll_down(a: AppView) -> AppView {
    AppView {
        scroll_offset: if a.scroll_offset < usize::MAX {
            (a.scroll_offset + 1) as usize
        } else {
            usize::MAX
        },
        ..a
    }
}

/// The screen changed, with the model-list cursor reset on entry there.
pub open spec fn spec_switch(a: AppView, mode: AppMode) -> AppView {
    AppView {
        mode: mode,
        model_list_selected: if mode == AppMode::ModelSelection {
            Some(0usize)
        } else {
            a.model_list_selected
        },
        ..a
    }
}

/// The help line shown for the vim-style keys.
pub open spec fn help_text() -> Seq<char> {
    "Vim: Esc/i modes | j/k scroll | gg top | G bottom | gm models | gd download | gs monitor | gh history | gc config | gw save | Enter send | Ctrl+C quit"@
}

/// The chat screen's key table.
pub open spec fn spec_chat_keys(a: AppView, k: Key) -> (AppView, EffectView) {
    match k {
        Key::CtrlChar(c) => if c == 'c' {
            (a, EffectView::Quit)
        } else if c == 's' {
            if a.messages.len() == 0 {
                (a, EffectView::DoNothing)
            } else {
                (
                    AppView {
                        selected_text: Some(a.messages.last().text),
                        status_message: "Message selected. Press Ctrl+Y to copy"@,
                        ..a
                    },
                    EffectView::DoNothing,
                )
            }
        } else if c == 'y' {
            match a.selected_text {
                Some(t) => (a, EffectView::Copy(t)),
                None => (a, EffectView::DoNothing),
            }
        } else {
            (a, EffectView::DoNothing)
        },
        Key::F(n) => if n == 1 {
            (AppView { status_message: help_text(), ..a }, EffectView::DoNothing)
        } else if n == 2 {
            (spec_switch(a, AppMode::ModelSelection), EffectView::FetchModels)
        } else if n == 3 {
            (spec_switch(a, AppMode::ModelDownload), EffectView::DoNothing)
        } else if n == 4 {
            (spec_switch(a, AppMode::SystemMonitor), EffectView::RefreshMetrics)
        } else if n == 5 {
            (
                spec_switch(
                    AppView { history_list_selected: Some(0usize), ..a },
                    AppMode::ChatHistory,
                ),
                EffectView::LoadHistory,
            )
        } else if n == 6 {
            (a, EffectView::SaveChat)
        } else if n == 7 {
            (
                AppView {
                    messages: Seq::<crate::history::MessageView>::empty(),
                    scroll_offset: 0,
                    status_message: "Chat cleared"@,
                    ..a
                },
                EffectView::DoNothing,
            )
        } else if n == 8 {
            (
                spec_switch(
                    AppView {
                        config_input: spec_field_text(a.model_config, a.config_field),
                        ..a
                    },
                    AppMode::ModelConfig,
                ),
                EffectView::DoNothing,
            )
        } else {
            (a, EffectView::DoNothing)
        },
        Key::Enter => if can_send(a) {
            (spec_start_send(a), EffectView::StartStream)
        } else {
            (a, EffectView::DoNothing)
        },
        Key::Char(c) => (AppView { input: a.input.push(c), ..a }, EffectView::DoNothing),
        Key::Backspace => (
            AppView {
                input: if a.input.len() > 0 {
                    a.input.drop_last()
                } else {
                    a.input
                },
                ..a
            },
            EffectView::DoNothing,
        ),
        Key::Up => (spec_scroll_up(a), EffectView::DoNothing),
        Key::Down => (spec_scroll_down(a), EffectView::DoNothing),
        _ => (a, EffectView::DoNothing),
    }
}

/// The model-list screen's key table.
pub open spec fn spec_model_select_keys(a: AppView, k: Key) -> (AppView, EffectView) {
    match k {
        Key::Esc => (spec_switch(a, AppMode::Chat), EffectView::DoNothing),
        Key::Up => (
            AppView {
                model_list_selected: match a.model_list_selected {
                    Some(i) => if i > 0 {
                        Some((i - 1) as usize)
                    } else {
                        Some(i)
                    },
                    None => None,
                },
                ..a
            },
            EffectView::DoNothing,
        ),
        Key::Down => (
            AppView {
                model_list_selected: match a.model_list_selected {
                    Some(i) => if i + 1 < a.available_models.len() {
                        Some((i + 1) as usize)
                    } else {
                        Some(i)
                    },
                    None => None,
                },
                ..a
            },
            EffectView::DoNothing,
        ),
        Key::Enter => if (match a.model_list_selected {
            Some(i) => i < a.available_models.len(),
            None => false,
        }) {
            (
                AppView {
                    mode: AppMode::Chat,
                    current_model: a.available_models[a.model_list_selected->Some_0 as int],
                    status_message: "Model changed to: "@ + a.available_models[
                        a.model_list_selected->Some_0 as int
                    ],
                    ..a
                },
                EffectView::DoNothing,
            )
        } else {
            (a, EffectView::DoNothing)
        },
        _ => (a, EffectView::DoNothing),
    }
}

/// The download screen's key table.
pub open spec fn spec_download_keys(a: AppView, k: Key) -> (AppView, EffectView) {
    match k {
        Key::Esc => (
            spec_switch(AppView { download_input: Seq::<char>::empty(), ..a }, AppMode::Chat),
            EffectView::DoNothing,
        ),
        Key::Enter => (
            spec_switch(AppView { download_input: Seq::<char>::empty(), ..a }, AppMode::Chat),
            EffectView::DownloadModel(a.download_input),
        ),
        Key::Char(c) => (
            AppView { download_input: a.download_input.push(c), ..a },
            EffectView::DoNothing,
        ),
        Key::Backspace => (
            AppView {
                download_input: if a.download_input.len() > 0 {
                    a.download_input.drop_last()
                } else {
                    a.download_input
                },
                ..a
            },
            EffectView::DoNothing,
        ),
        _ => (a, EffectView::DoNothing),
    }
}

/// The monitor screen's key table.
pub open spec fn spec_monitor_keys(a: AppView, k: Key) -> (AppView, EffectView) {
    match k {
        Key::Esc => (spec_switch(a, AppMode::Chat), EffectView::DoNothing),
        Key::Up => (
            AppView {
                process_scroll: if a.process_scroll > 0 {
                    (a.process_scroll - 1) as usize
                } else {
                    0
                },
                ..a
            },
            EffectView::DoNothing,
        ),
        Key::Down => (
            AppView {
                process_scroll: if a.process_scroll < usize::MAX {
                    (a.process_scroll + 1) as usize
                } else {
                    usize::MAX
                },
                ..a
            },
            EffectView::DoNothing,
        ),
        _ => (a, EffectView::DoNothing),
    }
}

/// The history screen's key table.
pub open spec fn spec_history_keys(a: AppView, k: Key) -> (AppView, EffectView) {
    match k {
        Key::Esc => (spec_switch(a, AppMode::Chat), EffectView::DoNothing),
        Key::Up => (
            AppView {
                history_list_selected: match a.history_list_selected {
                    Some(i) => if i > 0 {
                        Some((i - 1) as usize)
                    } else {
                        Some(i)
                    },
                    None => None,
                },
                ..a
            },
            EffectView::DoNothing,
        ),
        Key::Down => (
            AppView {
                history_list_selected: match a.history_list_selected {
                    Some(i) => if i + 1 < a.chat_history.len() {
                        Some((i + 1) as usize)
                    } else {
                        Some(i)
                    },
                    None => None,
                },
                ..a
            },
            EffectView::DoNothing,
        ),
        Key::Enter => if (match a.history_list_selected {
            Some(i) => i < a.chat_history.len(),
            None => false,
        }) {
            (
                {
                    let sess = a.chat_history[a.history_list_selected->Some_0 as int];
                    AppView {
                        mode: AppMode::Chat,
                        messages: sess.messages,
                        current_model: sess.model,
                        status_message: "Loaded chat from "@ + sess.timestamp,
                        ..a
                    }
                },
                EffectView::DoNothing,
            )
        } else {
            (a, EffectView::DoNothing)
        },
        _ => (a, EffectView::DoNothing),
    }
}

/// The configuration screen's key table.
pub open spec fn spec_config_keys(a: AppView, k: Key) -> (AppView, EffectView) {
    match k {
        Key::Esc => (spec_switch(a, AppMode::Chat), EffectView::DoNothing),
        Key::Up => (
            {
                let b = AppView { config_field: crate::config::spec_prev_field(a.config_field), ..a };
                AppView { config_input: spec_field_text(b.model_config, b.config_field), ..b }
            },
            EffectView::DoNothing,
        ),
        Key::Down => (
            {
                let b = AppView { config_field: crate::config::spec_next_field(a.config_field), ..a };
                AppView { config_input: spec_field_text(b.model_config, b.config_field), ..b }
            },
            EffectView::DoNothing,
        ),
        Key::Tab => (
            {
                let b = AppView { config_field: crate::config::spec_next_field(a.config_field), ..a };
                AppView { config_input: spec_field_text(b.model_config, b.config_field), ..b }
            },
            EffectView::DoNothing,
        ),
        Key::Enter => (
            AppView {
                model_config: crate::config::spec_update_field(
                    a.model_config,
                    a.config_field,
                    a.config_input,
                ),
                config_input: Seq::<char>::empty(),
                ..a
            },
            EffectView::SaveConfig,
        ),
        Key::Char(c) => (
            AppView { config_input: a.config_input.push(c), ..a },
            EffectView::DoNothing,
        ),
        Key::Backspace => (
            AppView {
                config_input: if a.config_input.len() > 0 {
                    a.config_input.drop_last()
                } else {
                    a.config_input
                },
                ..a
            },
            EffectView::DoNothing,
        ),
        _ => (a, EffectView::DoNothing),
    }
}

/// The mode layer: each screen reads its own keyset.
pub open spec fn spec_mode_table(a: AppView, k: Key) -> (AppView, EffectView) {
    match a.mode {
        AppMode::Chat => spec_chat_keys(a, k),
        AppMode::ModelSelection => spec_model_select_keys(a, k),
        AppMode::ModelDownload => spec_download_keys(a, k),
        AppMode::SystemMonitor => spec_monitor_keys(a, k),
        AppMode::ChatHistory => spec_history_keys(a, k),
        AppMode::ModelConfig => spec_config_keys(a, k),
    }
}

/// Normal sub-mode, no prefix pending: single-key verbs, anything else
/// falling through to the chat screen's table.
pub open spec fn spec_vim_single(a: AppView, k: Key) -> (AppView, EffectView) {
    if k == Key::Char('j') {
        (spec_scroll_down(a), EffectView::DoNothing)
    } else if k == Key::Char('k') {
        (spec_scroll_up(a), EffectView::DoNothing)
    } else if k == Key::Char('g') {
        (AppView { pending_g: true, ..a }, EffectView::DoNothing)
    } else if k == Key::Char('G') {
        (AppView { scroll_offset: u16::MAX as usize, ..a }, EffectView::DoNothing)
    } else if k == Key::Char('w') {
        (a, EffectView::SaveChat)
    } else {
        spec_mode_table(a, k)
    }
}

/// Normal sub-mode with the prefix pending: a completing key runs its
/// two-key command; any other key silently clears the pending flag and
/// is handled as a single key.
pub open spec fn spec_vim_normal(a: AppView, k: Key) -> (AppView, EffectView) {
    if a.pending_g {
        let b = AppView { pending_g: false, ..a };
        if k == Key::Char('g') {
            (AppView { scroll_offset: 0, ..b }, EffectView::DoNothing)
        } else if k == Key::Char('m') {
            (spec_switch(b, AppMode::ModelSelection), EffectView::FetchModels)
        } else if k == Key::Char('d') {
            (spec_switch(b, AppMode::ModelDownload), EffectView::DoNothing)
        } else if k == Key::Char('s') {
            (spec_switch(b, AppMode::SystemMonitor), EffectView::RefreshMetrics)
        } else if k == Key::Char('h') {
            (
                spec_switch(
                    AppView { history_list_selected: Some(0usize), ..b },
                    AppMode::ChatHistory,
                ),
                EffectView::LoadHistory,
            )
        } else if k == Key::Char('c') {
            (
                spec_switch(
                    AppView {
                        config_input: spec_field_text(b.model_config, b.config_field),
                        ..b
                    },
                    AppMode::ModelConfig,
                ),
                EffectView::DoNothing,
            )
        } else {
            spec_vim_single(b, k)
        }
    } else {
        spec_vim_single(a, k)
    }
}

/// One dispatch step: the state after the key and the effect owed.
///
/// On the chat screen with the vim-style layer on, the dedicated escape
/// key always enters the normal sub-mode, the insert key returns to
/// insert, and normal-mode keys go through the verb tables; in insert
/// sub-mode, or with the layer off, the active screen's table applies
/// directly.
pub open spec fn dispatch_step(a: AppView, k: Key) -> (AppView, EffectView) {
    if a.mode == AppMode::Chat && a.vim_mode {
        if k == Key::Esc {
            (
                AppView {
                    vim_insert: false,
                    pending_g: false,
                    status_message: "Normal mode"@,
                    ..a
                },
                EffectView::DoNothing,
            )
        } else if k == Key::Char('i') && !a.vim_insert {
            (
                AppView { vim_insert: true, status_message: "Insert mode"@, ..a },
                EffectView::DoNothing,
            )
        } else if !a.vim_insert {
            spec_vim_normal(a, k)
        } else {
            spec_mode_table(a, k)
        }
    } else {
        spec_mode_table(a, k)
    }
}

impl App {
    /// Reads one key against the current screen and sub-mode, steps the
    /// session by [`dispatch_step`], and returns the effect the host
    /// still owes.
    pub fn handle_key(&mut self, k: Key) -> (r: Effect)
        ensures
            final(self)@ == dispatch_step(old(self)@, k).0,
            r@ == dispatch_step(old(self)@, k).1,
            r matches Effect::StartStream(st) ==> {
                &&& st.index == old(self)@.messages.len() + 1
                &&& st.model@ == old(self)@.current_model
                &&& st.prompt@ == spec_trim(old(self)@.input)
                &&& st.config@ == old(self)@.model_config
            },
            crate::session::app_wf(old(self)@) ==> crate::session::app_wf(final(self)@),
    {
        if self.mode == AppMode::Chat && self.vim_mode {
            if k == Key::Esc {
                self.vim_insert = false;
                self.pending_g = false;
                self.status_message = "Normal mode".to_owned();
                return Effect::Nothing;
            }
            if k == Key::Char('i') && !self.vim_insert {
                self.vim_insert = true;
                self.status_message = "Insert mode".to_owned();
                return Effect::Nothing;
            }
            if !self.vim_insert {
                if self.pending_g {
                    self.pending_g = false;
                    match k {
                        Key::Char('g') => {
                            self.scroll_top();
                            return Effect::Nothing;
                        },
                        Key::Char('m') => {
                            self.switch_mode(AppMode::ModelSelection);
                            return Effect::FetchModels;
                        },
                        Key::Char('d') => {
                            self.switch_mode(AppMode::ModelDownload);
                            return Effect::Nothing;
                        },
                        Key::Char('s') => {
                            self.switch_mode(AppMode::SystemMonitor);
                            return Effect::RefreshMetrics;
                        },
                        Key::Char('h') => {
                            self.select_history_first();
                            self.switch_mode(AppMode::ChatHistory);
                            return Effect::LoadHistory;
                        },
                        Key::Char('c') => {
                            self.refresh_config_input();
                            self.switch_mode(AppMode::ModelConfig);
                            return Effect::Nothing;
                        },
                        _ => {},
                    }
                }
                match k {
                    Key::Char('j') => {
                        self.scroll_down();
                        return Effect::Nothing;
                    },
                    Key::Char('k') => {
                        self.scroll_up();
                        return Effect::Nothing;
                    },
                    Key::Char('g') => {
                        self.pending_g = true;
                        return Effect::Nothing;
                    },
                    Key::Char('G') => {
                        self.scroll_bottom();
                        return Effect::Nothing;
                    },
                    Key::Char('w') => {
                        return Effect::SaveChat;
                    },
                    _ => {},
                }
            }
        }
        self.mode_table(k)
    }

    /// The active screen's own key table.
    fn mode_table(&mut self, k: Key) -> (r: Effect)
        ensures
            final(self)@ == spec_mode_table(old(self)@, k).0,
            r@ == spec_mode_table(old(self)@, k).1,
            r matches Effect::StartStream(st) ==> {
                &&& st.index == old(self)@.messages.len() + 1
                &&& st.model@ == old(self)@.current_model
                &&& st.prompt@ == spec_trim(old(self)@.input)
                &&& st.config@ == old(self)@.model_config
            },
            crate::session::app_wf(old(self)@) ==> crate::session::app_wf(final(self)@),
    {
        match self.mode {
            AppMode::Chat => {
                match k {
                    Key::CtrlChar(c) => {
                        if c == 'c' {
                            Effect::Quit
                        } else if c == 's' {
                            self.select_last_message();
                            Effect::Nothing
                        } else if c == 'y' {
                            match self.clipboard_text() {
                                Some(t) => Effect::CopyToClipboard(t),
                                None => Effect::Nothing,
                            }
                        } else {
                            Effect::Nothing
                        }
                    },
                    Key::F(n) => {
                        if n == 1 {
                            self.status_message =
                                "Vim: Esc/i modes | j/k scroll | gg top | G bottom | gm models | gd download | gs monitor | gh history | gc config | gw save | Enter send | Ctrl+C quit".to_owned();
                            Effect::Nothing
                        } else if n == 2 {
                            self.switch_mode(AppMode::ModelSelection);
                            Effect::FetchModels
                        } else if n == 3 {
                            self.switch_mode(AppMode::ModelDownload);
                            Effect::Nothing
                        } else if n == 4 {
                            self.switch_mode(AppMode::SystemMonitor);
                            Effect::RefreshMetrics
                        } else if n == 5 {
                            self.select_history_first();
                            self.switch_mode(AppMode::ChatHistory);
                            Effect::LoadHistory
                        } else if n == 6 {
                            Effect::SaveChat
                        } else if n == 7 {
                            self.clear_chat();
                            Effect::Nothing
                        } else if n == 8 {
                            self.refresh_config_input();
                            self.switch_mode(AppMode::ModelConfig);
                            Effect::Nothing
                        } else {
                            Effect::Nothing
                        }
                    },
                    Key::Enter => {
                        match self.start_send() {
                            Some(st) => Effect::StartStream(st),
                            None => Effect::Nothing,
                        }
                    },
                    Key::Char(c) => {
                        self.input_push(c);
                        Effect::Nothing
                    },
                    Key::Backspace => {
                        self.input_pop();
                        Effect::Nothing
                    },
                    Key::Up => {
                        self.scroll_up();
                        Effect::Nothing
                    },
                    Key::Down => {
                        self.scroll_down();
                        Effect::Nothing
                    },
                    _ => Effect::Nothing,
                }
            },
            AppMode::ModelSelection => {
                match k {
                    Key::Esc => {
                        self.switch_mode(AppMode::Chat);
                        Effect::Nothing
                    },
                    Key::Up => {
                        self.move_model_selection_up();
                        Effect::Nothing
                    },
                    Key::Down => {
                        self.move_model_selection_down();
                        Effect::Nothing
                    },
                    Key::Enter => {
                        self.apply_model_selection();
                        Effect::Nothing
                    },
                    _ => Effect::Nothing,
                }
            },
            AppMode::ModelDownload => {
                match k {
                    Key::Esc => {
                        self.download_clear();
                        self.switch_mode(AppMode::Chat);
                        Effect::Nothing
                    },
                    Key::Enter => {
                        let name = self.take_download_input();
                        self.switch_mode(AppMode::Chat);
                        Effect::DownloadModel(name)
                    },
                    Key::Char(c) => {
                        self.download_push(c);
                        Effect::Nothing
                    },
                    Key::Backspace => {
                        self.download_pop();
                        Effect::Nothing
                    },
                    _ => Effect::Nothing,
                }
            },
            AppMode::SystemMonitor => {
                match k {
                    Key::Esc => {
                        self.switch_mode(AppMode::Chat);
                        Effect::Nothing
                    },
                    Key::Up => {
                        self.process_scroll_up();
                        Effect::Nothing
                    },
                    Key::Down => {
                        self.process_scroll_down();
                        Effect::Nothing
                    },
                    _ => Effect::Nothing,
                }
            },
            AppMode::ChatHistory => {
                match k {
                    Key::Esc => {
                        self.switch_mode(AppMode::Chat);
                        Effect::Nothing
                    },
                    Key::Up => {
                        self.move_history_selection_up();
                        Effect::Nothing
                    },
                    Key::Down => {
                        self.move_history_selection_down();
                        Effect::Nothing
                    },
                    Key::Enter => {
                        self.load_selected_chat();
                        Effect::Nothing
                    },
                    _ => Effect::Nothing,
                }
            },
            AppMode::ModelConfig => {
                match k {
                    Key::Esc => {
                        self.switch_mode(AppMode::Chat);
                        Effect::Nothing
                    },
                    Key::Up => {
                        self.prev_config_field();
                        self.refresh_config_input();
                        Effect::Nothing
                    },
                    Key::Down => {
                        self.next_config_field();
                        self.refresh_config_input();
                        Effect::Nothing
                    },
                    Key::Tab => {
                        self.next_config_field();
                        self.refresh_config_input();
                        Effect::Nothing
                    },
                    Key::Enter => {
                        let value = self.take_config_input();
                        self.update_config_field(value);
                        Effect::SaveConfig
                    },
                    Key::Char(c) => {
                        self.config_input_push(c);
                        Effect::Nothing
                    },
                    Key::Backspace => {
                        self.config_input_pop();
                        Effect::Nothing
                    },
                    _ => Effect::Nothing,
                }
            },
        }
    }
}

/// The prefix key pressed twice in immediate succession jumps to the
/// top: the pending flag falls and the scroll offset becomes zero.
pub proof fn lemma_prefix_completed(a: AppView)
    requires
        a.mode == AppMode::Chat,
        a.vim_mode,
        !a.vim_insert,
        a.pending_g,
    ensures
        dispatch_step(a, Key::Char('g')).0.scroll_offset == 0,
        !dispatch_step(a, Key::Char('g')).0.pending_g,
{
}

/// The prefix key followed by an unrelated printable key clears the
/// pending flag and performs no jump: the scroll offset stands still.
pub proof fn lemma_prefix_unrelated(a: AppView, c: char)
    requires
        a.mode == AppMode::Chat,
        a.vim_mode,
        !a.vim_insert,
        a.pending_g,
        c != 'g' && c != 'm' && c != 'd' && c != 's' && c != 'h' && c != 'c',
        c != 'j' && c != 'k' && c != 'G' && c != 'i',
    ensures
        !dispatch_step(a, Key::Char(c)).0.pending_g,
        dispatch_step(a, Key::Char(c)).0.scroll_offset == a.scroll_offset,
{
}

/// While a generation is in flight, a send key changes neither the
/// conversation nor the in-flight flag: no second generation starts.
pub proof fn lemma_send_gated_while_thinking(a: AppView)
    requires
        a.mode == AppMode::Chat,
        a.is_thinking,
    ensures
        dispatch_step(a, Key::Enter).0.messages == a.messages,
        dispatch_step(a, Key::Enter).0.is_thinking,
        dispatch_step(a, Key::Enter).1 != EffectView::StartStream,
{
}

/// A send key with a blank input buffer is a no-op: the conversation
/// and the in-flight flag stand still.
pub proof fn lemma_send_blank_noop(a: AppView)
    requires
        a.mode == AppMode::Chat,
        crate::text::all_blank(a.input),
    ensures
        dispatch_step(a, Key::Enter).0.messages == a.messages,
        dispatch_step(a, Key::Enter).0.is_thinking == a.is_thinking,
        dispatch_step(a, Key::Enter).1 != EffectView::StartStream,
{
    crate::text::lemma_trim_empty_iff_blank(a.input);
}

} // verus!
