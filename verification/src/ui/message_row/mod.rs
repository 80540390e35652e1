//! The rows that show messages.

pub mod album_layout;
pub mod document;
pub mod file_status;
pub mod media_album;
pub mod media_album_layout;
pub mod media_download_button;
pub mod media_loader;
pub mod media_photo_tile;
pub mod media_thumbnail;
pub mod media_video_tile;
pub mod photo;
pub mod reactions;
pub mod reactions_chooser;
pub mod reply;
pub mod tile;
pub mod video;
pub mod voice;
