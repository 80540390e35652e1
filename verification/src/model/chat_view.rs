//! What the operations of a chat do, as functions on its state.

use vstd::prelude::*;

use crate::model::message::{
    message_of, MessageChanges, MessageData, MessageUpdate, MessageView,
};
use crate::model::reply_cache::{pruned, MessageRef};
use crate::types::{ChatId, MessageId, TdlibError};

verus! {

/// Which kind of chat it is, and whom it is with.
#[derive(Clone, Copy, Debug, PartialEq, Eq, Structural)]
pub enum ChatType {
    Private { user_id: i64 },
    BasicGroup { basic_group_id: i64 },
    Supergroup { supergroup_id: i64 },
    Secret { secret_chat_id: i32, partner_id: i64 },
}

/// A list of blocked chats.
#[derive(Clone, Copy, Debug, PartialEq, Eq, Structural)]
pub enum BlockList {
    Main,
    Stories,
}

/// A property of a chat that can change.
#[derive(Clone, Copy, Debug, PartialEq, Eq, Structural)]
pub enum ChatProperty {
    BlockList,
    Title,
    Avatar,
    LastReadInboxMessageId,
    LastReadOutboxMessageId,
    IsMarkedAsUnread,
    LastMessage,
    UnreadMentionCount,
    UnreadCount,
    DraftMessage,
    NotificationSettings,
    Actions,
    Permissions,
}

/// Something that the observers of a chat must be told about. Messages are
/// named by their serial numbers.
#[derive(Clone, Copy, Debug, PartialEq, Eq, Structural)]
pub enum ChatEvent {
    Notify(ChatProperty),
    NewMessage(u64),
    DeletedMessage(u64),
    MessageChanged(u64, MessageChanges),
}

/// A change of a chat, as TDLib describes it. Numbers stand for values that
/// the chat only hands on; equal values have equal numbers.
#[derive(Debug)]
pub enum ChatUpdate {
    Action,
    DraftMessage(Option<u64>),
    BlockList(Option<BlockList>),
    IsMarkedAsUnread(bool),
    LastMessage(Option<MessageData>),
    NotificationSettings(u64),
    Permissions(u64),
    Photo(Option<u64>),
    ReadInbox { last_read_inbox_message_id: MessageId, unread_count: i32 },
    ReadOutbox { last_read_outbox_message_id: MessageId },
    Title(String),
    UnreadMentionCount(i32),
    DeleteMessages { message_ids: Vec<MessageId>, from_cache: bool },
    Message { message_id: MessageId, update: MessageUpdate },
    MessageSendSucceeded { old_message_id: MessageId, message: MessageData },
    NewMessage(MessageData),
    MessageMentionRead { unread_mention_count: i32 },
    Other,
}

/// The state of a chat.
#[verifier::ext_equal]
pub struct ChatView {
    pub id: ChatId,
    pub chat_type: ChatType,
    /// The messages that are in use, by their serial numbers.
    pub messages: Map<u64, MessageView>,
    /// The serial numbers of the messages that can be looked up by their ids.
    pub cache: Map<MessageId, u64>,
    /// The serial number of the next message.
    pub next_serial: u64,
    pub replied: Map<(ChatId, MessageId), Option<MessageRef>>,
    pub block_list: Option<BlockList>,
    pub title: Seq<char>,
    pub avatar: Option<u64>,
    pub last_read_inbox_message_id: MessageId,
    pub last_read_outbox_message_id: MessageId,
    pub is_marked_as_unread: bool,
    pub last_message: Option<u64>,
    pub unread_mention_count: i32,
    pub unread_count: i32,
    pub draft_message: Option<u64>,
    pub notification_settings: u64,
    pub permissions: u64,
    /// What the observers were not told about yet.
    pub events: Seq<ChatEvent>,
}

/// The serial numbers of the messages that can be looked up by the given ids,
/// each one once.
pub open spec fn looked_up(cache: Map<MessageId, u64>, ids: Seq<MessageId>) -> Seq<u64>
    decreases ids.len(),
{
    if ids.len() == 0 {
        Seq::empty()
    } else {
        let rest = ids.drop_last();
        let found = looked_up(cache, rest);
        if cache.contains_key(ids.last()) && !rest.contains(ids.last()) {
            found.push(cache[ids.last()])
        } else {
            found
        }
    }
}

/// The events that tell that the messages were deleted.
pub open spec fn deletions(serials: Seq<u64>) -> Seq<ChatEvent> {
    serials.map_values(|serial: u64| ChatEvent::DeletedMessage(serial))
}

/// Whether there is anything to tell about.
pub open spec fn has_changes(changes: MessageChanges) -> bool {
    changes.content || changes.is_edited || changes.reply_count || changes.reactions
}

/// The messages that are really there.
pub open spec fn present(messages: Seq<Option<MessageData>>) -> Seq<MessageData>
    decreases messages.len(),
{
    if messages.len() == 0 {
        Seq::empty()
    } else {
        match messages.last() {
            Some(message) => present(messages.drop_last()).push(message),
            None => present(messages.drop_last()),
        }
    }
}

impl ChatView {
    /// Messages are looked up under their own ids, only messages that are in
    /// use can be, and serial numbers are not reused.
    pub open spec fn wf(self) -> bool {
        &&& forall|id: MessageId| #[trigger]
            self.cache.contains_key(id) ==> self.messages.contains_key(self.cache[id])
                && self.messages[self.cache[id]].id == id
        &&& forall|serial: u64| #[trigger]
            self.messages.contains_key(serial) ==> serial < self.next_serial
        &&& self.last_message matches Some(serial) ==> self.messages.contains_key(serial)
    }

    pub open spec fn happened(self, event: ChatEvent) -> ChatView {
        ChatView { events: self.events.push(event), ..self }
    }

    pub open spec fn notify(self, property: ChatProperty) -> ChatView {
        self.happened(ChatEvent::Notify(property))
    }

    /// The serial number that a message of the given id has or would get.
    pub open spec fn serial_of(self, id: MessageId) -> u64 {
        if self.cache.contains_key(id) {
            self.cache[id]
        } else {
            self.next_serial
        }
    }

    /// The state after the message was put in the cache, unless a message of
    /// that id is in use already.
    pub open spec fn insert_message(self, data: MessageData) -> ChatView {
        if self.cache.contains_key(data.id) {
            self
        } else {
            ChatView {
                messages: self.messages.insert(self.next_serial, message_of(data)),
                cache: self.cache.insert(data.id, self.next_serial),
                next_serial: (self.next_serial + 1) as u64,
                ..self
            }
        }
    }

    /// The state after the messages were put in the cache, one after the
    /// other.
    pub open spec fn insert_messages(self, messages: Seq<MessageData>) -> ChatView
        decreases messages.len(),
    {
        if messages.len() == 0 {
            self
        } else {
            self.insert_messages(messages.drop_last()).insert_message(messages.last())
        }
    }

    /// The serial numbers of the messages after they were put in the cache,
    /// one after the other.
    pub open spec fn serials_of(self, messages: Seq<MessageData>) -> Seq<u64>
        decreases messages.len(),
    {
        if messages.len() == 0 {
            Seq::empty()
        } else {
            let rest = messages.drop_last();
            self.serials_of(rest).push(
                self.insert_messages(rest).serial_of(messages.last().id),
            )
        }
    }

    /// The state after the message went out of use.
    pub open spec fn release(self, serial: u64) -> ChatView {
        if !self.messages.contains_key(serial) {
            self
        } else {
            let id = self.messages[serial].id;
            ChatView {
                messages: self.messages.remove(serial),
                cache: if self.cache.contains_key(id) && self.cache[id] == serial {
                    self.cache.remove(id)
                } else {
                    self.cache
                },
                ..self
            }
        }
    }

    pub open spec fn set_block_list(self, block_list: Option<BlockList>) -> ChatView {
        if self.block_list == block_list {
            self
        } else {
            ChatView { block_list, ..self }.notify(ChatProperty::BlockList)
        }
    }

    pub open spec fn set_title(self, title: Seq<char>) -> ChatView {
        if self.title == title {
            self
        } else {
            ChatView { title, ..self }.notify(ChatProperty::Title)
        }
    }

    pub open spec fn set_avatar(self, avatar: Option<u64>) -> ChatView {
        if self.avatar == avatar {
            self
        } else {
            ChatView { avatar, ..self }.notify(ChatProperty::Avatar)
        }
    }

    pub open spec fn set_last_read_inbox_message_id(self, id: MessageId) -> ChatView {
        if self.last_read_inbox_message_id == id {
            self
        } else {
            ChatView { last_read_inbox_message_id: id, ..self }.notify(
                ChatProperty::LastReadInboxMessageId,
            )
        }
    }

    pub open spec fn set_last_read_outbox_message_id(self, id: MessageId) -> ChatView {
        if self.last_read_outbox_message_id == id {
            self
        } else {
            ChatView { last_read_outbox_message_id: id, ..self }.notify(
                ChatProperty::LastReadOutboxMessageId,
            )
        }
    }

    pub open spec fn set_marked_as_unread(self, is_marked_as_unread: bool) -> ChatView {
        if self.is_marked_as_unread == is_marked_as_unread {
            self
        } else {
            ChatView { is_marked_as_unread, ..self }.notify(ChatProperty::IsMarkedAsUnread)
        }
    }

    pub open spec fn set_last_message(self, last_message: Option<u64>) -> ChatView {
        if self.last_message == last_message {
            self
        } else {
            ChatView { last_message, ..self }.notify(ChatProperty::LastMessage)
        }
    }

    pub open spec fn set_unread_mention_count(self, unread_mention_count: i32) -> ChatView {
        if self.unread_mention_count == unread_mention_count {
            self
        } else {
            ChatView { unread_mention_count, ..self }.notify(ChatProperty::UnreadMentionCount)
        }
    }

    pub open spec fn set_unread_count(self, unread_count: i32) -> ChatView {
        if self.unread_count == unread_count {
            self
        } else {
            ChatView { unread_count, ..self }.notify(ChatProperty::UnreadCount)
        }
    }

    pub open spec fn set_draft_message(self, draft_message: Option<u64>) -> ChatView {
        if self.draft_message == draft_message {
            self
        } else {
            ChatView { draft_message, ..self }.notify(ChatProperty::DraftMessage)
        }
    }

    pub open spec fn set_notification_settings(self, notification_settings: u64) -> ChatView {
        if self.notification_settings == notification_settings {
            self
        } else {
            ChatView { notification_settings, ..self }.notify(ChatProperty::NotificationSettings)
        }
    }

    pub open spec fn set_permissions(self, permissions: u64) -> ChatView {
        if self.permissions == permissions {
            self
        } else {
            ChatView { permissions, ..self }.notify(ChatProperty::Permissions)
        }
    }

    /// The state after the messages of the given ids were deleted.
    ///
    /// If they only left the local cache of TDLib, they are still available
    /// on the server, so nobody is told.
    pub open spec fn delete_messages(self, ids: Seq<MessageId>, from_cache: bool) -> ChatView {
        ChatView {
            cache: self.cache.remove_keys(ids.to_set()),
            events: if from_cache {
                self.events
            } else {
                self.events + deletions(looked_up(self.cache, ids))
            },
            ..self
        }
    }

    /// The state after the message of the given id was updated, if it is in
    /// use.
    pub open spec fn update_message(self, id: MessageId, update: MessageUpdate) -> ChatView {
        if !self.cache.contains_key(id) {
            self
        } else {
            let serial = self.cache[id];
            let message = self.messages[serial];
            let changes = message.updated(update).changes_from(message);
            let updated = ChatView {
                messages: self.messages.insert(serial, message.updated(update)),
                ..self
            };
            if has_changes(changes) {
                updated.happened(ChatEvent::MessageChanged(serial, changes))
            } else {
                updated
            }
        }
    }

    /// The state after a message that was being sent got its final id.
    pub open spec fn replace_sent(self, old_id: MessageId, data: MessageData) -> ChatView {
        let inserted = ChatView { cache: self.cache.remove(old_id), ..self }.insert_message(data);
        let deleted = if self.cache.contains_key(old_id) {
            inserted.happened(ChatEvent::DeletedMessage(self.cache[old_id]))
        } else {
            inserted
        };
        deleted.happened(ChatEvent::NewMessage(inserted.cache[data.id]))
    }

    /// The state after an update.
    pub open spec fn handle_update(self, update: ChatUpdate) -> ChatView {
        match update {
            ChatUpdate::Action => self.notify(ChatProperty::Actions),
            ChatUpdate::DraftMessage(draft_message) => self.set_draft_message(draft_message),
            ChatUpdate::BlockList(block_list) => self.set_block_list(block_list),
            ChatUpdate::IsMarkedAsUnread(is_marked) => self.set_marked_as_unread(is_marked),
            ChatUpdate::LastMessage(None) => self.set_last_message(None),
            ChatUpdate::LastMessage(Some(data)) => self.insert_message(data).set_last_message(
                Some(self.serial_of(data.id)),
            ),
            ChatUpdate::NotificationSettings(settings) => self.set_notification_settings(settings),
            ChatUpdate::Permissions(permissions) => self.set_permissions(permissions),
            ChatUpdate::Photo(photo) => self.set_avatar(photo),
            ChatUpdate::ReadInbox { last_read_inbox_message_id, unread_count } => {
                self.set_last_read_inbox_message_id(last_read_inbox_message_id).set_unread_count(
                    unread_count,
                )
            },
            ChatUpdate::ReadOutbox { last_read_outbox_message_id } => {
                self.set_last_read_outbox_message_id(last_read_outbox_message_id)
            },
            ChatUpdate::Title(title) => self.set_title(title@),
            ChatUpdate::UnreadMentionCount(count) => self.set_unread_mention_count(count),
            ChatUpdate::DeleteMessages { message_ids, from_cache } => {
                self.delete_messages(message_ids@, from_cache)
            },
            ChatUpdate::Message { message_id, update } => self.update_message(message_id, update),
            ChatUpdate::MessageSendSucceeded { old_message_id, message } => {
                self.replace_sent(old_message_id, message)
            },
            ChatUpdate::NewMessage(data) => self.insert_message(data).happened(
                ChatEvent::NewMessage(self.serial_of(data.id)),
            ),
            ChatUpdate::MessageMentionRead { unread_mention_count } => {
                self.set_unread_mention_count(unread_mention_count)
            },
            ChatUpdate::Other => self,
        }
    }

    /// The state after a request for a replied message was answered.
    ///
    /// An error with the code 400 means that the message doesn't exist
    /// anymore, which is remembered as well.
    pub open spec fn remember_reply(
        self,
        chat_id: ChatId,
        message_id: MessageId,
        answer: Result<Option<MessageRef>, TdlibError>,
    ) -> ChatView {
        let replied = pruned(self.replied);
        match answer {
            Ok(message) => ChatView {
                replied: replied.insert((chat_id, message_id), message),
                ..self
            },
            Err(error) => if error.code == 400 {
                ChatView { replied: replied.insert((chat_id, message_id), None), ..self }
            } else {
                ChatView { replied, ..self }
            },
        }
    }

    /// Whether the chat itself holds on to the message.
    pub open spec fn holds(self, serial: u64) -> bool {
        ||| self.last_message == Some(serial)
        ||| exists|key: (ChatId, MessageId)| #[trigger]
            self.replied.contains_key(key) && self.replied[key] == Some(
                MessageRef { chat_id: self.id, serial },
            )
    }
}

} // verus!
