//! Core logic of a terminal chat client for a local language-model server.
//!
//! The library holds everything that can be stated and proved: the session
//! state and its transitions (sending, streaming, completion and failure),
//! the modal input dispatcher with its vim-style sub-mode, the generation
//! configuration with its clamping rules, the transcript codec and the
//! history ordering.  Terminal drawing, networking, the clock, the clipboard
//! and the file system stay with the host program, which hands the library
//! plain values and carries its decisions out.

pub mod config;
pub mod dispatch;
pub mod history;
pub mod json;
pub mod numerals;
pub mod session;
pub mod text;
