//! Verified core of the Maolan audio editor: edit history, document
//! operations on interleaved frames, markers, device setup and
//! preferences.

pub mod alsa_scan;
pub mod devices;
pub mod dialogs;
pub mod document;
pub mod edits;
pub mod engine_requests;
pub mod formats;
pub mod history;
pub mod host;
pub mod markers;
pub mod ordered;
pub mod preferences;
pub mod session;
pub mod setup_state;
pub mod shortcuts;
pub mod text;
