//! The terminal input line: editing, completion, approval and the dock.
pub mod ansi;
pub mod approval;
pub mod composer;
pub mod composer_laws;
pub mod draft_laws;
pub mod edit;
pub mod inline;
pub mod inline_laws;
pub mod layout;
pub mod render;
pub mod shown_laws;
pub mod slash;
pub mod types;
pub mod visible;
