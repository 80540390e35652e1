//! What the widgets decide and compute.

pub mod avatar;
pub mod chat_history;
pub mod media_viewer;
pub mod media_viewer_laws;
pub mod media_viewer_page;
pub mod media_viewer_pages;
pub mod media_viewer_promises;
pub mod media_viewer_view;
pub mod message_row;
pub mod playback_manager;
pub mod sticker;
pub mod waveform;
pub mod webm_animation;
