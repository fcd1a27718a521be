//! A live regular-expression workbench: an editing state machine over three
//! text buffers (source, pattern, replacement) and a pure transform engine
//! that derives the preview output from them.
//!
//! - [`editor`]: modes, key handling and the session state.
//! - [`engine`]: the transform from (source, pattern, replacement) to output.
//! - [`regex_api`]: the regular-expression engine relied on.
//! - [`suggest`]: the prompt for, and the handling of, pattern suggestions.
//! - [`text`]: line splitting and joining, buffer edits.

pub mod editor;
pub mod engine;
pub mod regex_api;
pub mod suggest;
pub mod text;

pub use editor::{
    Action, App, InputMode, Key, DEFAULT_SOURCE, STATUS_ASKING, STATUS_READY,
};
pub use engine::{
    error_output, join_matches, join_selected_lines, split_lines, transform, MatchView, ERROR_PREFIX,
    MATCH_SEPARATOR, NO_MATCHES,
};
pub use suggest::{
    clean_suggestion, remove_text, trim_text, SuggestionReply, PROMPT_HEAD, STATUS_APPLIED,
    STATUS_EMPTY, STATUS_FAILED, STATUS_UNREACHABLE,
};
