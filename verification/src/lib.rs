//! Core logic of the Voce desktop assistant: the plain-text formats of
//! bookmarks and translations stored in Google Drive, the deduplicating
//! cloud merge, OAuth and API-key decisions, overlay placement and the
//! offline phrase translator.

pub mod text;
pub mod clock;
pub mod models;
pub mod sync;
pub mod cloud;
pub mod phrases;
pub mod translator;
pub mod windows;
pub mod auth;
pub mod ai;
pub mod drive;
pub mod clipboard;
pub mod hotkeys;
pub mod audio;
pub mod whisper;
