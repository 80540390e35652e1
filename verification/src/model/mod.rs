//! The state of chats and their messages.

pub mod chat;
pub mod chat_history_item;
pub mod chat_history_model;
pub mod chat_laws;
pub mod chat_view;
pub mod history_albums;
pub mod history_chronology;
pub mod history_contents;
pub mod history_laws;
pub mod history_layout;
pub mod history_replay;
pub mod history_rows;
pub mod history_view;
pub mod media_album;
pub mod media_manager;
pub mod message;
pub mod message_interaction_info;
pub mod reply_cache;
