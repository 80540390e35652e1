//! The logic of a Telegram client for the desktop, without its widgets.
//!
//! `model` holds the state of a chat: its messages, its media albums and the
//! part of its history that is loaded. `ui` holds what the widgets decide and
//! compute: which pages the media viewer has, when media is downloaded and
//! played, and where things are placed. `application` holds the state of the
//! application as a whole, and `format` writes numbers and durations as text.
//!
//! What has to be done outside of the library is handed out as a list of
//! actions, and what happened there is handed back as an event.

pub mod application;
pub mod format;
pub mod model;
pub mod types;
pub mod ui;
