//! The items of a chat history.

use vstd::prelude::*;

use crate::types::{MessageId, Timestamp};

verus! {

/// What the chat history knows about a message.
#[derive(Clone, Copy, Debug, PartialEq, Eq, Structural)]
pub struct HistoryMessage {
    pub id: MessageId,
    /// The number of the message among those that its chat holds.
    pub serial: u64,
    /// When the message was sent.
    pub timestamp: Timestamp,
    /// The id of the media album this message belongs to, or 0 if it doesn't
    /// belong to one.
    pub media_album_id: i64,
    /// Whether the content of the message is a photo, a video or an
    /// animation, which are the contents that media albums are made of.
    pub is_groupable: bool,
}

/// An item of a chat history.
#[derive(Clone, Copy, Debug, PartialEq, Eq, Structural)]
pub enum ChatHistoryItem {
    Message(HistoryMessage),
    /// The divider of a day, made for one of the messages of that day.
    DayDivider(Timestamp),
}

impl ChatHistoryItem {
    /// The message of the item, if it shows one.
    pub open spec fn as_message(self) -> Option<HistoryMessage> {
        match self {
            ChatHistoryItem::Message(message) => Some(message),
            ChatHistoryItem::DayDivider(_) => None,
        }
    }

    pub fn for_message(message: HistoryMessage) -> (item: ChatHistoryItem)
        ensures
            item == ChatHistoryItem::Message(message),
    {
        ChatHistoryItem::Message(message)
    }

    pub fn for_day_divider(day: Timestamp) -> (item: ChatHistoryItem)
        ensures
            item == ChatHistoryItem::DayDivider(day),
    {
        ChatHistoryItem::DayDivider(day)
    }

    /// The message of the item, if it shows one.
    pub fn message(&self) -> (message: Option<HistoryMessage>)
        ensures
            message == self.as_message(),
    {
        match self {
            ChatHistoryItem::Message(message) => Some(*message),
            ChatHistoryItem::DayDivider(_) => None,
        }
    }

    /// When the message of the item was sent, if it shows one.
    pub fn message_timestamp(&self) -> (timestamp: Option<Timestamp>)
        ensures
            timestamp == match self.as_message() {
                Some(message) => Some(message.timestamp),
                None => None,
            },
    {
        match self {
            ChatHistoryItem::Message(message) => Some(message.timestamp),
            ChatHistoryItem::DayDivider(_) => None,
        }
    }
}

/// A row of a message shows that message, and a day divider shows none.
pub proof fn law_rows_show_messages(message: HistoryMessage, timestamp: Timestamp)
    ensures
        ChatHistoryItem::Message(message).as_message() == Some(message),
        ChatHistoryItem::DayDivider(timestamp).as_message() is None,
{
}

} // verus!
