//! The message composer: the autocomplete menu and the analysis of the
//! text around the caret.

pub mod menu;
pub mod caret;
pub mod editor;
pub mod typing;
