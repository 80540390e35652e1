//! Chats, the messages that are known of them, and how they follow the
//! updates of TDLib.

use std::collections::HashMap;

use vstd::prelude::*;

use crate::model::chat_history_item::HistoryMessage;
use crate::model::chat_view::{
    deletions, looked_up, present, BlockList, ChatEvent, ChatProperty, ChatType,
    ChatUpdate, ChatView,
};
use crate::model::message::{
    message_of, Message, MessageData, MessageProperties, MessageUpdate, MessageView,
};
use crate::model::reply_cache::{MessageRef, ReplyCache, MAX_CACHED_REPLIED_MESSAGES};
use crate::types::{ChatId, MessageId, TdlibError};

verus! {

impl ChatType {
    /// The user the chat is with.
    pub open spec fn spec_user(self) -> Option<i64> {
        match self {
            ChatType::Private { user_id } => Some(user_id),
            ChatType::Secret { partner_id, .. } => Some(partner_id),
            _ => None,
        }
    }

    /// The user the chat is with.
    pub fn user(&self) -> (user: Option<i64>)
        ensures
            user == self.spec_user(),
    {
        match self {
            ChatType::Private { user_id } => Some(*user_id),
            ChatType::Secret { partner_id, .. } => Some(*partner_id),
            _ => None,
        }
    }

    pub fn basic_group(&self) -> (basic_group: Option<i64>)
        ensures
            basic_group == match *self {
                ChatType::BasicGroup { basic_group_id } => Some(basic_group_id),
                _ => None,
            },
    {
        match self {
            ChatType::BasicGroup { basic_group_id } => Some(*basic_group_id),
            _ => None,
        }
    }

    pub fn supergroup(&self) -> (supergroup: Option<i64>)
        ensures
            supergroup == match *self {
                ChatType::Supergroup { supergroup_id } => Some(supergroup_id),
                _ => None,
            },
    {
        match self {
            ChatType::Supergroup { supergroup_id } => Some(*supergroup_id),
            _ => None,
        }
    }
}

/// A chat as TDLib describes it.
#[derive(Debug)]
pub struct ChatData {
    pub id: ChatId,
    pub chat_type: ChatType,
    pub block_list: Option<BlockList>,
    pub title: String,
    pub photo: Option<u64>,
    pub last_read_inbox_message_id: MessageId,
    pub last_read_outbox_message_id: MessageId,
    pub is_marked_as_unread: bool,
    pub last_message: Option<MessageData>,
    pub unread_mention_count: i32,
    pub unread_count: i32,
    pub draft_message: Option<u64>,
    pub notification_settings: u64,
    pub permissions: u64,
}

/// The chat that the data describes, without its last message.
pub open spec fn chat_of(data: ChatData) -> ChatView {
    ChatView {
        id: data.id,
        chat_type: data.chat_type,
        messages: Map::empty(),
        cache: Map::empty(),
        next_serial: 0,
        replied: Map::empty(),
        block_list: data.block_list,
        title: data.title@,
        avatar: data.photo,
        last_read_inbox_message_id: data.last_read_inbox_message_id,
        last_read_outbox_message_id: data.last_read_outbox_message_id,
        is_marked_as_unread: data.is_marked_as_unread,
        last_message: None,
        unread_mention_count: data.unread_mention_count,
        unread_count: data.unread_count,
        draft_message: data.draft_message,
        notification_settings: data.notification_settings,
        permissions: data.permissions,
        events: Seq::empty(),
    }
}

/// A page of the photo and video messages of a chat.
#[derive(Debug)]
pub struct MediaSearchPage {
    /// The serial numbers of the media messages, in reverse chronological
    /// order.
    pub messages: Vec<u64>,
    /// The id from which the next page must be requested, or `0` if there are
    /// no more messages.
    pub next_from_message_id: MessageId,
}

/// Where a message that is replied to must be fetched from.
#[derive(Clone, Copy, Debug, PartialEq, Eq, Structural)]
pub enum ReplyLookup {
    /// It is known already whether the message exists.
    Known(Option<MessageRef>),
    /// The message belongs to this chat.
    ThisChat,
    /// The message belongs to another chat.
    OtherChat(ChatId),
}

/// A chat.
///
/// It knows the messages that are in use. A message stays in use only as long
/// as somebody needs it, e.g. a chat history, and must be released
/// afterwards. Of several messages with the same id, the last one can be
/// looked up.
#[derive(Debug)]
pub struct Chat {
    id: ChatId,
    chat_type: ChatType,
    messages: HashMap<u64, Message>,
    cache: HashMap<MessageId, u64>,
    next_serial: u64,
    /// Cache of the messages that are replied to by the messages of this
    /// chat.
    ///
    /// This exists so that reply previews don't issue a TDLib request every
    /// time they are shown.
    replied_messages: ReplyCache,
    block_list: Option<BlockList>,
    title: String,
    avatar: Option<u64>,
    last_read_inbox_message_id: MessageId,
    last_read_outbox_message_id: MessageId,
    is_marked_as_unread: bool,
    last_message: Option<u64>,
    unread_mention_count: i32,
    unread_count: i32,
    draft_message: Option<u64>,
    notification_settings: u64,
    permissions: u64,
    events: Vec<ChatEvent>,
}

impl View for Chat {
    type V = ChatView;

    closed spec fn view(&self) -> ChatView {
        ChatView {
            id: self.id,
            chat_type: self.chat_type,
            messages: self.messages@.map_values(|message: Message| message@),
            cache: self.cache@,
            next_serial: self.next_serial,
            replied: self.replied_messages@,
            block_list: self.block_list,
            title: self.title@,
            avatar: self.avatar,
            last_read_inbox_message_id: self.last_read_inbox_message_id,
            last_read_outbox_message_id: self.last_read_outbox_message_id,
            is_marked_as_unread: self.is_marked_as_unread,
            last_message: self.last_message,
            unread_mention_count: self.unread_mention_count,
            unread_count: self.unread_count,
            draft_message: self.draft_message,
            notification_settings: self.notification_settings,
            permissions: self.permissions,
            events: self.events@,
        }
    }
}

impl Chat {
    pub closed spec fn reply_cache_wf(self) -> bool {
        self.replied_messages.wf()
    }

    pub open spec fn wf(self) -> bool {
        self@.wf() && self.reply_cache_wf()
    }

    /// Creates the chat that the data describes.
    pub fn new(data: ChatData) -> (chat: Chat)
        ensures
            chat.wf(),
            chat@ == match data.last_message {
                Some(message) => (ChatView {
                    last_message: Some(0),
                    ..chat_of(data).insert_message(message)
                }),
                None => chat_of(data),
            },
            chat@.next_serial <= 1,
    {
        broadcast use vstd::std_specs::hash::group_hash_axioms;

        let ghost described = data;
        let last_message = data.last_message;
        let mut chat = Chat {
            id: data.id,
            chat_type: data.chat_type,
            messages: HashMap::new(),
            cache: HashMap::new(),
            next_serial: 0,
            replied_messages: ReplyCache::new(),
            block_list: data.block_list,
            title: data.title,
            avatar: data.photo,
            last_read_inbox_message_id: data.last_read_inbox_message_id,
            last_read_outbox_message_id: data.last_read_outbox_message_id,
            is_marked_as_unread: data.is_marked_as_unread,
            last_message: None,
            unread_mention_count: data.unread_mention_count,
            unread_count: data.unread_count,
            draft_message: data.draft_message,
            notification_settings: data.notification_settings,
            permissions: data.permissions,
            events: Vec::new(),
        };
        assert(chat@ =~= chat_of(described));
        if let Some(message) = last_message {
            let serial = chat.insert_message(message);
            let ghost inserted = chat@;
            chat.last_message = Some(serial);
            assert(chat@.messages == inserted.messages);
        }
        chat
    }

    fn push_event(&mut self, event: ChatEvent)
        requires
            old(self).wf(),
        ensures
            final(self).wf(),
            final(self)@ == old(self)@.happened(event),
    {
        let ghost before = self@;
        self.events.push(event);
        assert(self@.messages == before.messages);
    }

    fn notify(&mut self, property: ChatProperty)
        requires
            old(self).wf(),
        ensures
            final(self).wf(),
            final(self)@ == old(self)@.notify(property),
    {
        self.push_event(ChatEvent::Notify(property));
    }

    /// Inserts a message into the cache and returns its serial number.
    ///
    /// If a message with the same id is still in use, its number is returned
    /// instead.
    pub fn insert_message(&mut self, data: MessageData) -> (serial: u64)
        requires
            old(self).wf(),
            old(self)@.cache.contains_key(data.id) || old(self)@.next_serial < u64::MAX,
        ensures
            final(self).wf(),
            final(self)@ == old(self)@.insert_message(data),
            serial == old(self)@.serial_of(data.id),
            final(self)@.messages.contains_key(serial),
            final(self)@.messages[serial].id == data.id,
            final(self)@.cache.contains_key(data.id),
            final(self)@.cache[data.id] == serial,
    {
        broadcast use vstd::std_specs::hash::group_hash_axioms;

        let ghost before = self@;
        let id = data.id;
        if let Some(serial) = self.cache.get(&id) {
            return *serial;
        }
        let serial = self.next_serial;
        let message = Message::new(data);
        self.messages.insert(serial, message);
        self.cache.insert(id, serial);
        self.next_serial = serial + 1;
        assert(self@.messages =~= before.messages.insert(serial, message_of(data)));
        assert(self@ =~= before.insert_message(data));
        serial
    }

    /// Tells that nobody else uses a message anymore. Returns whether it was
    /// given up, which it isn't while the chat itself holds on to it.
    pub fn release(&mut self, serial: u64) -> (released: bool)
        requires
            old(self).wf(),
        ensures
            final(self).wf(),
            released == !old(self)@.holds(serial),
            final(self)@ == if released {
                old(self)@.release(serial)
            } else {
                old(self)@
            },
    {
        let is_last_message = match self.last_message {
            Some(last_message) => last_message == serial,
            None => false,
        };
        if is_last_message || self.replied_messages.holds(
            MessageRef { chat_id: self.id, serial },
        ) {
            return false;
        }
        self.forget(serial);
        true
    }

    fn forget(&mut self, serial: u64)
        requires
            old(self).wf(),
            !old(self)@.holds(serial),
        ensures
            final(self).wf(),
            final(self)@ == old(self)@.release(serial),
    {
        broadcast use vstd::std_specs::hash::group_hash_axioms;

        let ghost before = self@;
        let removed = self.messages.remove(&serial);
        assert(self@.messages =~= before.messages.remove(serial));
        if let Some(message) = removed {
            let id = message.id();
            let is_cached = match self.cache.get(&id) {
                Some(cached) => *cached == serial,
                None => false,
            };
            if is_cached {
                self.cache.remove(&id);
            }
            assert(self@ =~= before.release(serial));
            proof {
                assert forall|other: MessageId| #[trigger]
                    self@.cache.contains_key(other) implies self@.messages.contains_key(
                    self@.cache[other],
                ) && self@.messages[self@.cache[other]].id == other by {
                    assert(before.cache.contains_key(other));
                }
            }
        } else {
            assert(self@.messages =~= before.messages);
        }
    }

    /// Takes over an update.
    pub fn handle_update(&mut self, update: ChatUpdate)
        requires
            old(self).wf(),
            old(self)@.next_serial < u64::MAX,
        ensures
            final(self).wf(),
            final(self)@ == old(self)@.handle_update(update),
    {
        match update {
            ChatUpdate::Action => self.notify(ChatProperty::Actions),
            ChatUpdate::DraftMessage(draft_message) => self.set_draft_message(draft_message),
            ChatUpdate::BlockList(block_list) => self.set_block_list(block_list),
            ChatUpdate::IsMarkedAsUnread(is_marked_as_unread) => {
                self.set_marked_as_unread(is_marked_as_unread)
            },
            ChatUpdate::LastMessage(last_message) => {
                let last_message = match last_message {
                    Some(data) => Some(self.insert_message(data)),
                    None => None,
                };
                self.set_last_message(last_message);
            },
            ChatUpdate::NotificationSettings(settings) => self.set_notification_settings(settings),
            ChatUpdate::Permissions(permissions) => self.set_permissions(permissions),
            ChatUpdate::Photo(photo) => self.set_avatar(photo),
            ChatUpdate::ReadInbox { last_read_inbox_message_id, unread_count } => {
                self.set_last_read_inbox_message_id(last_read_inbox_message_id);
                self.set_unread_count(unread_count);
            },
            ChatUpdate::ReadOutbox { last_read_outbox_message_id } => {
                self.set_last_read_outbox_message_id(last_read_outbox_message_id)
            },
            ChatUpdate::Title(title) => self.set_title(title),
            ChatUpdate::UnreadMentionCount(count) => self.set_unread_mention_count(count),
            ChatUpdate::DeleteMessages { message_ids, from_cache } => {
                self.delete_messages(&message_ids, from_cache)
            },
            ChatUpdate::Message { message_id, update } => self.update_message(message_id, update),
            ChatUpdate::MessageSendSucceeded { old_message_id, message } => {
                self.replace_sent(old_message_id, message)
            },
            ChatUpdate::NewMessage(data) => {
                let serial = self.insert_message(data);
                self.push_event(ChatEvent::NewMessage(serial));
            },
            ChatUpdate::MessageMentionRead { unread_mention_count } => {
                self.set_unread_mention_count(unread_mention_count)
            },
            ChatUpdate::Other => {},
        }
    }

    fn delete_messages(&mut self, message_ids: &Vec<MessageId>, from_cache: bool)
        requires
            old(self).wf(),
        ensures
            final(self).wf(),
            final(self)@ == old(self)@.delete_messages(message_ids@, from_cache),
    {
        broadcast use vstd::std_specs::hash::group_hash_axioms;

        let ghost before = self@;
        let ghost ids = message_ids@;
        let mut deleted: Vec<u64> = Vec::new();
        let mut i: usize = 0;
        assert(ids.take(0) =~= Seq::empty());
        assert(before.cache.remove_keys(ids.take(0).to_set()) =~= before.cache);
        while i < message_ids.len()
            invariant
                ids == message_ids@,
                i <= ids.len(),
                self.cache@ == before.cache.remove_keys(ids.take(i as int).to_set()),
                deleted@ == looked_up(before.cache, ids.take(i as int)),
                *self == (Chat { cache: self.cache, ..*old(self) }),
            decreases ids.len() - i,
        {
            broadcast use vstd::std_specs::hash::group_hash_axioms;

            let ghost done = ids.take(i as int);
            let id = message_ids[i];
            let removed = self.cache.remove(&id);
            if let Some(serial) = removed {
                deleted.push(serial);
            }
            proof {
                let more = ids.take(i + 1);
                assert(more.drop_last() =~= done);
                assert(more.last() == id);
                assert(done.to_set().contains(id) == done.contains(id));
                assert forall|other: MessageId|
                    more.to_set().contains(other) <==> done.to_set().contains(other) || other
                        == id by {
                    if done.contains(other) {
                        let k = choose|k: int| 0 <= k < done.len() && done[k] == other;
                        assert(more[k] == other);
                    }
                    if other == id {
                        assert(more[i as int] == other);
                    }
                    if more.contains(other) {
                        let k = choose|k: int| 0 <= k < more.len() && more[k] == other;
                        if k < i {
                            assert(done[k] == other);
                        }
                    }
                }
                assert(self.cache@ =~= before.cache.remove_keys(more.to_set()));
            }
            i = i + 1;
        }
        assert(ids.take(ids.len() as int) =~= ids);
        assert(self@.messages == before.messages);
        let ghost uncached = self@;
        assert(self.wf()) by {
            assert forall|id: MessageId| #[trigger]
                self@.cache.contains_key(id) implies before.cache.contains_key(id) by {}
        }
        if from_cache {
            // The messages have been removed from TDLib's local cache. They
            // are still available on the server, so this doesn't affect
            // anybody. They just can't be looked up anymore, to stay in sync
            // with TDLib's cache.
            return;
        }
        let mut k: usize = 0;
        assert(uncached.events + deletions(deleted@.take(0)) =~= uncached.events);
        while k < deleted.len()
            invariant
                k <= deleted@.len(),
                self.wf(),
                self@ == (ChatView {
                    events: uncached.events + deletions(deleted@.take(k as int)),
                    ..uncached
                }),
            decreases deleted@.len() - k,
        {
            self.push_event(ChatEvent::DeletedMessage(deleted[k]));
            k = k + 1;
            assert(self@.events =~= uncached.events + deletions(deleted@.take(k as int)));
        }
        assert(deleted@.take(deleted@.len() as int) =~= deleted@);
    }

    fn update_message(&mut self, message_id: MessageId, update: MessageUpdate)
        requires
            old(self).wf(),
        ensures
            final(self).wf(),
            final(self)@ == old(self)@.update_message(message_id, update),
    {
        broadcast use vstd::std_specs::hash::group_hash_axioms;

        let ghost before = self@;
        let serial = match self.cache.get(&message_id) {
            Some(serial) => *serial,
            None => return,
        };
        assert(before.messages.contains_key(serial));
        let taken = self.messages.remove(&serial);
        if let Some(message) = taken {
            let mut message = message;
            let changes = message.handle_update(update);
            let ghost updated = message@;
            self.messages.insert(serial, message);
            assert(self@.messages =~= before.messages.insert(serial, updated));
            assert(self.wf());
            if changes.content || changes.is_edited || changes.reply_count || changes.reactions {
                self.push_event(ChatEvent::MessageChanged(serial, changes));
            }
        }
    }

    fn replace_sent(&mut self, old_message_id: MessageId, data: MessageData)
        requires
            old(self).wf(),
            old(self)@.next_serial < u64::MAX,
        ensures
            final(self).wf(),
            final(self)@ == old(self)@.replace_sent(old_message_id, data),
    {
        broadcast use vstd::std_specs::hash::group_hash_axioms;

        let ghost before = self@;
        let old_message = self.cache.remove(&old_message_id);
        assert(self@.messages == before.messages);
        assert(self@ =~= ChatView { cache: before.cache.remove(old_message_id), ..before });
        assert(self.wf()) by {
            assert forall|id: MessageId| #[trigger]
                self@.cache.contains_key(id) implies before.cache.contains_key(id) by {}
        }
        let serial = self.insert_message(data);
        if let Some(old_message) = old_message {
            self.push_event(ChatEvent::DeletedMessage(old_message));
        }
        self.push_event(ChatEvent::NewMessage(serial));
    }

    fn set_block_list(&mut self, block_list: Option<BlockList>)
        requires
            old(self).wf(),
        ensures
            final(self).wf(),
            final(self)@ == old(self)@.set_block_list(block_list),
    {
        if self.block_list == block_list {
            return;
        }
        let ghost before = self@;
        self.block_list = block_list;
        assert(self@.messages == before.messages);
        self.notify(ChatProperty::BlockList);
    }

    fn set_title(&mut self, title: String)
        requires
            old(self).wf(),
        ensures
            final(self).wf(),
            final(self)@ == old(self)@.set_title(title@),
    {
        if self.title == title {
            return;
        }
        let ghost before = self@;
        self.title = title;
        assert(self@.messages == before.messages);
        self.notify(ChatProperty::Title);
    }

    fn set_avatar(&mut self, avatar: Option<u64>)
        requires
            old(self).wf(),
        ensures
            final(self).wf(),
            final(self)@ == old(self)@.set_avatar(avatar),
    {
        if self.avatar == avatar {
            return;
        }
        let ghost before = self@;
        self.avatar = avatar;
        assert(self@.messages == before.messages);
        self.notify(ChatProperty::Avatar);
    }

    fn set_last_read_inbox_message_id(&mut self, id: MessageId)
        requires
            old(self).wf(),
        ensures
            final(self).wf(),
            final(self)@ == old(self)@.set_last_read_inbox_message_id(id),
    {
        if self.last_read_inbox_message_id == id {
            return;
        }
        let ghost before = self@;
        self.last_read_inbox_message_id = id;
        assert(self@.messages == before.messages);
        self.notify(ChatProperty::LastReadInboxMessageId);
    }

    fn set_last_read_outbox_message_id(&mut self, id: MessageId)
        requires
            old(self).wf(),
        ensures
            final(self).wf(),
            final(self)@ == old(self)@.set_last_read_outbox_message_id(id),
    {
        if self.last_read_outbox_message_id == id {
            return;
        }
        let ghost before = self@;
        self.last_read_outbox_message_id = id;
        assert(self@.messages == before.messages);
        self.notify(ChatProperty::LastReadOutboxMessageId);
    }

    fn set_marked_as_unread(&mut self, is_marked_as_unread: bool)
        requires
            old(self).wf(),
        ensures
            final(self).wf(),
            final(self)@ == old(self)@.set_marked_as_unread(is_marked_as_unread),
    {
        if self.is_marked_as_unread == is_marked_as_unread {
            return;
        }
        let ghost before = self@;
        self.is_marked_as_unread = is_marked_as_unread;
        assert(self@.messages == before.messages);
        self.notify(ChatProperty::IsMarkedAsUnread);
    }

    fn set_last_message(&mut self, last_message: Option<u64>)
        requires
            old(self).wf(),
            last_message matches Some(serial) ==> old(self)@.messages.contains_key(serial),
        ensures
            final(self).wf(),
            final(self)@ == old(self)@.set_last_message(last_message),
    {
        if self.last_message == last_message {
            return;
        }
        let ghost before = self@;
        self.last_message = last_message;
        assert(self@.messages == before.messages);
        self.notify(ChatProperty::LastMessage);
    }

    fn set_unread_mention_count(&mut self, unread_mention_count: i32)
        requires
            old(self).wf(),
        ensures
            final(self).wf(),
            final(self)@ == old(self)@.set_unread_mention_count(unread_mention_count),
    {
        if self.unread_mention_count == unread_mention_count {
            return;
        }
        let ghost before = self@;
        self.unread_mention_count = unread_mention_count;
        assert(self@.messages == before.messages);
        self.notify(ChatProperty::UnreadMentionCount);
    }

    fn set_unread_count(&mut self, unread_count: i32)
        requires
            old(self).wf(),
        ensures
            final(self).wf(),
            final(self)@ == old(self)@.set_unread_count(unread_count),
    {
        if self.unread_count == unread_count {
            return;
        }
        let ghost before = self@;
        self.unread_count = unread_count;
        assert(self@.messages == before.messages);
        self.notify(ChatProperty::UnreadCount);
    }

    fn set_draft_message(&mut self, draft_message: Option<u64>)
        requires
            old(self).wf(),
        ensures
            final(self).wf(),
            final(self)@ == old(self)@.set_draft_message(draft_message),
    {
        if self.draft_message == draft_message {
            return;
        }
        let ghost before = self@;
        self.draft_message = draft_message;
        assert(self@.messages == before.messages);
        self.notify(ChatProperty::DraftMessage);
    }

    fn set_notification_settings(&mut self, notification_settings: u64)
        requires
            old(self).wf(),
        ensures
            final(self).wf(),
            final(self)@ == old(self)@.set_notification_settings(notification_settings),
    {
        if self.notification_settings == notification_settings {
            return;
        }
        let ghost before = self@;
        self.notification_settings = notification_settings;
        assert(self@.messages == before.messages);
        self.notify(ChatProperty::NotificationSettings);
    }

    fn set_permissions(&mut self, permissions: u64)
        requires
            old(self).wf(),
        ensures
            final(self).wf(),
            final(self)@ == old(self)@.set_permissions(permissions),
    {
        if self.permissions == permissions {
            return;
        }
        let ghost before = self@;
        self.permissions = permissions;
        assert(self@.messages == before.messages);
        self.notify(ChatProperty::Permissions);
    }

    /// The serial number of the message of the specified id, if it can be
    /// looked up.
    pub fn message(&self, id: MessageId) -> (serial: Option<u64>)
        ensures
            serial == if self@.cache.contains_key(id) {
                Some(self@.cache[id])
            } else {
                None
            },
    {
        broadcast use vstd::std_specs::hash::group_hash_axioms;

        match self.cache.get(&id) {
            Some(serial) => Some(*serial),
            None => None,
        }
    }

    /// The message with the given serial number, if it is in use.
    pub fn get(&self, serial: u64) -> (message: Option<&Message>)
        ensures
            match message {
                Some(message) => self@.messages.contains_key(serial) && message@
                    == self@.messages[serial],
                None => !self@.messages.contains_key(serial),
            },
    {
        broadcast use vstd::std_specs::hash::group_hash_axioms;

        self.messages.get(&serial)
    }

    /// What the chat history knows about the message with the given serial
    /// number, if it is in use.
    pub fn history_message(&self, serial: u64) -> (message: Option<HistoryMessage>)
        ensures
            message == if self@.messages.contains_key(serial) {
                Some(self@.messages[serial].in_history(serial))
            } else {
                None
            },
    {
        match self.get(serial) {
            Some(message) => Some(message.history_message(serial)),
            None => None,
        }
    }

    /// Notes that the properties of a message are being fetched. Returns
    /// whether this is the first time, so that they have to be.
    pub fn fetch_properties(&mut self, serial: u64) -> (must_fetch: bool)
        requires
            old(self).wf(),
        ensures
            final(self).wf(),
            must_fetch == (old(self)@.messages.contains_key(serial) && !old(
                self,
            )@.messages[serial].properties_fetched),
            final(self)@ == if old(self)@.messages.contains_key(serial) {
                (ChatView {
                    messages: old(self)@.messages.insert(
                        serial,
                        (MessageView {
                            properties_fetched: true,
                            ..old(self)@.messages[serial]
                        }),
                    ),
                    ..old(self)@
                })
            } else {
                old(self)@
            },
    {
        broadcast use vstd::std_specs::hash::group_hash_axioms;

        let ghost before = self@;
        let taken = self.messages.remove(&serial);
        match taken {
            Some(message) => {
                let mut message = message;
                let must_fetch = message.fetch_properties();
                let ghost fetched = message@;
                self.messages.insert(serial, message);
                assert(self@.messages =~= before.messages.insert(serial, fetched));
                must_fetch
            },
            None => {
                assert(self@.messages =~= before.messages);
                false
            },
        }
    }

    /// Takes the properties of a message that were fetched.
    pub fn set_message_properties(&mut self, serial: u64, properties: MessageProperties)
        requires
            old(self).wf(),
        ensures
            final(self).wf(),
            final(self)@ == if old(self)@.messages.contains_key(serial) {
                (ChatView {
                    messages: old(self)@.messages.insert(
                        serial,
                        (MessageView { properties, ..old(self)@.messages[serial] }),
                    ),
                    ..old(self)@
                })
            } else {
                old(self)@
            },
    {
        broadcast use vstd::std_specs::hash::group_hash_axioms;

        let ghost before = self@;
        let taken = self.messages.remove(&serial);
        match taken {
            Some(message) => {
                let mut message = message;
                message.set_properties(properties);
                let ghost updated = message@;
                self.messages.insert(serial, message);
                assert(self@.messages =~= before.messages.insert(serial, updated));
            },
            None => {
                assert(self@.messages =~= before.messages);
            },
        }
    }

    /// Takes the messages of the chat that TDLib answered a request for the
    /// history with, and returns their serial numbers. Messages that are
    /// missing in the answer are left out.
    pub fn history_loaded(&mut self, messages: Vec<Option<MessageData>>) -> (serials: Vec<u64>)
        requires
            old(self).wf(),
            old(self)@.next_serial + messages@.len() <= u64::MAX,
        ensures
            final(self).wf(),
            final(self)@ == old(self)@.insert_messages(present(messages@)),
            serials@ == old(self)@.serials_of(present(messages@)),
    {
        let ghost before = self@;
        let ghost all = messages@;
        let mut messages = messages;
        let mut serials: Vec<u64> = Vec::with_capacity(messages.len());
        let len = messages.len();
        let mut i: usize = 0;
        assert(all.take(0) =~= Seq::empty());
        assert(all.skip(0) =~= all);
        while i < len
            invariant
                i <= len,
                len == all.len(),
                messages@ == all.skip(i as int),
                self.wf(),
                self@ == before.insert_messages(present(all.take(i as int))),
                serials@ == before.serials_of(present(all.take(i as int))),
                self@.next_serial + (len - i) <= u64::MAX,
            decreases len - i,
        {
            let ghost done = all.take(i as int);
            let message = messages.remove(0);
            assert(message == all[i as int]);
            assert(messages@ =~= all.skip(i + 1));
            assert(all.take(i + 1).drop_last() =~= done);
            assert(all.take(i + 1).last() == message);
            if let Some(data) = message {
                assert(present(done).push(data).drop_last() =~= present(done));
                let serial = self.insert_message(data);
                serials.push(serial);
            }
            i = i + 1;
        }
        assert(all.take(len as int) =~= all);
        serials
    }

    /// Takes a page of the photo and video messages of the chat that TDLib
    /// answered a search with.
    pub fn media_messages_found(
        &mut self,
        messages: Vec<MessageData>,
        next_from_message_id: MessageId,
    ) -> (page: MediaSearchPage)
        requires
            old(self).wf(),
            old(self)@.next_serial + messages@.len() <= u64::MAX,
        ensures
            final(self).wf(),
            final(self)@ == old(self)@.insert_messages(messages@),
            page.messages@ == old(self)@.serials_of(messages@),
            page.next_from_message_id == next_from_message_id,
    {
        let ghost before = self@;
        let ghost all = messages@;
        let mut messages = messages;
        let mut serials: Vec<u64> = Vec::with_capacity(messages.len());
        let len = messages.len();
        let mut i: usize = 0;
        assert(all.take(0) =~= Seq::empty());
        assert(all.skip(0) =~= all);
        while i < len
            invariant
                i <= len,
                len == all.len(),
                messages@ == all.skip(i as int),
                self.wf(),
                self@ == before.insert_messages(all.take(i as int)),
                serials@ == before.serials_of(all.take(i as int)),
                self@.next_serial + (len - i) <= u64::MAX,
            decreases len - i,
        {
            let ghost done = all.take(i as int);
            let data = messages.remove(0);
            assert(data == all[i as int]);
            assert(messages@ =~= all.skip(i + 1));
            assert(all.take(i + 1).drop_last() =~= done);
            let serial = self.insert_message(data);
            serials.push(serial);
            i = i + 1;
        }
        assert(all.take(len as int) =~= all);
        MediaSearchPage { messages: serials, next_from_message_id }
    }

    /// Where to look for a message that is replied to.
    ///
    /// Note that the replied message can belong to another chat, e.g. for
    /// replies to messages in channels' comment sections.
    pub fn fetch_reply_target(&self, chat_id: ChatId, message_id: MessageId) -> (lookup:
        ReplyLookup)
        requires
            self.wf(),
        ensures
            lookup == if self@.replied.contains_key((chat_id, message_id)) {
                ReplyLookup::Known(self@.replied[(chat_id, message_id)])
            } else if chat_id == 0 || chat_id == self@.id {
                ReplyLookup::ThisChat
            } else {
                ReplyLookup::OtherChat(chat_id)
            },
    {
        if let Some(cached) = self.replied_messages.get(chat_id, message_id) {
            return ReplyLookup::Known(cached);
        }
        if chat_id == 0 || chat_id == self.id {
            ReplyLookup::ThisChat
        } else {
            ReplyLookup::OtherChat(chat_id)
        }
    }

    /// Takes what became of the search for a message that is replied to. It is
    /// `None` if the message doesn't exist, e.g. because its chat doesn't.
    ///
    /// The result, including negative ones, is cached, so that reply previews
    /// don't issue a TDLib request every time they are shown.
    pub fn reply_target_fetched(
        &mut self,
        chat_id: ChatId,
        message_id: MessageId,
        answer: Result<Option<MessageRef>, TdlibError>,
    ) -> (result: Result<Option<MessageRef>, TdlibError>)
        requires
            old(self).wf(),
        ensures
            final(self).wf(),
            final(self)@ == old(self)@.remember_reply(chat_id, message_id, answer),
            final(self)@.replied.dom().finite(),
            final(self)@.replied.dom().len() <= MAX_CACHED_REPLIED_MESSAGES,
            result == match answer {
                Ok(message) => Ok(message),
                Err(error) => if error.code == 400 {
                    Ok(None)
                } else {
                    Err(error)
                },
            },
    {
        let ghost before = self@;
        self.replied_messages.prune();
        assert(self@.messages == before.messages);
        let result = match answer {
            Ok(message) => {
                self.replied_messages.insert(chat_id, message_id, message);
                Ok(message)
            },
            Err(error) => {
                // This error means that the message doesn't exist anymore
                // (e.g. it was deleted), so the negative result can be cached.
                if error.code == 400 {
                    self.replied_messages.insert(chat_id, message_id, None);
                    Ok(None)
                } else {
                    Err(error)
                }
            },
        };
        proof {
            assert(self@.messages == before.messages);
            self.replied_messages.law_cache_is_bounded();
        }
        result
    }

    /// The id of the message that must be viewed to mark the chat as read, if
    /// there is one.
    pub fn message_to_mark_as_read(&self) -> (id: Option<MessageId>)
        requires
            self.wf(),
        ensures
            id == match self@.last_message {
                Some(serial) => Some(self@.messages[serial].id),
                None => None,
            },
    {
        match self.last_message {
            Some(serial) => match self.get(serial) {
                Some(message) => Some(message.id()),
                None => None,
            },
            None => None,
        }
    }

    /// What the observers must be told about, in order. It is handed out
    /// once.
    pub fn take_events(&mut self) -> (events: Vec<ChatEvent>)
        requires
            old(self).wf(),
        ensures
            final(self).wf(),
            events@ == old(self)@.events,
            final(self)@ == (ChatView { events: Seq::empty(), ..old(self)@ }),
    {
        let ghost before = self@;
        let mut events: Vec<ChatEvent> = Vec::new();
        std::mem::swap(&mut events, &mut self.events);
        assert(self@ =~= ChatView { events: Seq::empty(), ..before });
        events
    }

    pub fn is_blocked(&self) -> (result: bool)
        ensures
            result == (self@.block_list == Some(BlockList::Main)),
    {
        matches!(self.block_list, Some(BlockList::Main))
    }

    /// Whether this is the chat of the given user with themselves.
    pub fn is_own_chat(&self, me: i64) -> (result: bool)
        ensures
            result == (self@.chat_type.spec_user() == Some(me)),
    {
        match self.chat_type.user() {
            Some(user) => user == me,
            None => false,
        }
    }

    pub fn id(&self) -> (id: ChatId)
        ensures
            id == self@.id,
    {
        self.id
    }

    pub fn chat_type(&self) -> (chat_type: ChatType)
        ensures
            chat_type == self@.chat_type,
    {
        self.chat_type
    }

    pub fn block_list(&self) -> (block_list: Option<BlockList>)
        ensures
            block_list == self@.block_list,
    {
        self.block_list
    }

    pub fn title(&self) -> (title: &String)
        ensures
            title@ == self@.title,
    {
        &self.title
    }

    pub fn avatar(&self) -> (avatar: Option<u64>)
        ensures
            avatar == self@.avatar,
    {
        self.avatar
    }

    pub fn last_read_inbox_message_id(&self) -> (id: MessageId)
        ensures
            id == self@.last_read_inbox_message_id,
    {
        self.last_read_inbox_message_id
    }

    pub fn last_read_outbox_message_id(&self) -> (id: MessageId)
        ensures
            id == self@.last_read_outbox_message_id,
    {
        self.last_read_outbox_message_id
    }

    pub fn is_marked_as_unread(&self) -> (result: bool)
        ensures
            result == self@.is_marked_as_unread,
    {
        self.is_marked_as_unread
    }

    /// The serial number of the last message of the chat, if there is one.
    pub fn last_message(&self) -> (serial: Option<u64>)
        ensures
            serial == self@.last_message,
    {
        self.last_message
    }

    pub fn unread_mention_count(&self) -> (count: i32)
        ensures
            count == self@.unread_mention_count,
    {
        self.unread_mention_count
    }

    pub fn unread_count(&self) -> (count: i32)
        ensures
            count == self@.unread_count,
    {
        self.unread_count
    }

    pub fn draft_message(&self) -> (draft_message: Option<u64>)
        ensures
            draft_message == self@.draft_message,
    {
        self.draft_message
    }

    pub fn notification_settings(&self) -> (settings: u64)
        ensures
            settings == self@.notification_settings,
    {
        self.notification_settings
    }

    pub fn permissions(&self) -> (permissions: u64)
        ensures
            permissions == self@.permissions,
    {
        self.permissions
    }
}

/// Repeating an update that only sets properties changes nothing and tells
/// nobody.
pub proof fn law_repeated_update_is_silent(chat: ChatView, update: ChatUpdate)
    requires
        !(update is Action),
        !(update is DeleteMessages),
        !(update is MessageSendSucceeded),
        !(update is NewMessage),
        chat.wf(),
    ensures
        chat.handle_update(update).handle_update(update) == chat.handle_update(update),
{
    let once = chat.handle_update(update);
    match update {
        ChatUpdate::Message { message_id, update } => {
            if chat.cache.contains_key(message_id) {
                let serial = chat.cache[message_id];
                let message = chat.messages[serial];
                assert(message.updated(update).updated(update) == message.updated(update));
                assert(once.messages.insert(serial, message.updated(update)) =~= once.messages);
            }
        },
        _ => {},
    }
}

/// A message that was inserted can be looked up, and looking it up gives what
/// was inserted unless it was in use before. A message that is in use is kept
/// as it is, and so are all the other ones.
pub proof fn law_inserted_message_is_found(chat: ChatView, data: MessageData)
    requires
        chat.wf(),
        chat.cache.contains_key(data.id) || chat.next_serial < u64::MAX,
    ensures
        chat.insert_message(data).wf(),
        chat.insert_message(data).cache.contains_key(data.id),
        chat.insert_message(data).cache[data.id] == chat.serial_of(data.id),
        chat.insert_message(data).messages[chat.serial_of(data.id)].id == data.id,
        !chat.cache.contains_key(data.id) ==> chat.insert_message(
            data,
        ).messages[chat.serial_of(data.id)] == message_of(data),
        chat.cache.contains_key(data.id) ==> chat.insert_message(data) == chat,
        forall|id: MessageId|
            id != data.id ==> (#[trigger] chat.insert_message(data).cache.contains_key(id)
                <==> chat.cache.contains_key(id)),
        forall|id: MessageId| #[trigger]
            chat.cache.contains_key(id) ==> chat.insert_message(data).cache[id] == chat.cache[id],
        forall|serial: u64| #[trigger]
            chat.messages.contains_key(serial) ==> chat.insert_message(data).messages.contains_key(
                serial,
            ) && chat.insert_message(data).messages[serial] == chat.messages[serial],
{
}

/// A message that went out of use is dropped and can't be looked up anymore,
/// and the other ones stay as they are.
pub proof fn law_released_message_is_dropped(chat: ChatView, serial: u64)
    requires
        chat.wf(),
        !chat.holds(serial),
    ensures
        chat.release(serial).wf(),
        !chat.release(serial).messages.contains_key(serial),
        forall|id: MessageId| #[trigger]
            chat.release(serial).cache.contains_key(id) <==> chat.cache.contains_key(id)
                && chat.cache[id] != serial,
        forall|id: MessageId| #[trigger]
            chat.release(serial).cache.contains_key(id) ==> chat.release(serial).cache[id]
                == chat.cache[id],
        forall|other: u64|
            other != serial && #[trigger] chat.messages.contains_key(other) ==> chat.release(
                serial,
            ).messages.contains_key(other) && chat.release(serial).messages[other]
                == chat.messages[other],
{
}

/// Deleted messages can't be looked up anymore, the others still can.
pub proof fn law_deleted_messages_are_gone(
    chat: ChatView,
    ids: Seq<MessageId>,
    from_cache: bool,
    id: MessageId,
)
    ensures
        chat.delete_messages(ids, from_cache).cache.contains_key(id) <==> chat.cache.contains_key(
            id,
        ) && !ids.contains(id),
{
}

proof fn lemma_looked_up_none(cache: Map<MessageId, u64>, ids: Seq<MessageId>)
    requires
        forall|i: int| 0 <= i < ids.len() ==> !cache.contains_key(#[trigger] ids[i]),
    ensures
        looked_up(cache, ids) == Seq::<u64>::empty(),
    decreases ids.len(),
{
    if ids.len() > 0 {
        let rest = ids.drop_last();
        assert forall|i: int| 0 <= i < rest.len() implies !cache.contains_key(
            #[trigger] rest[i],
        ) by {
            assert(rest[i] == ids[i]);
        }
        lemma_looked_up_none(cache, rest);
        assert(!cache.contains_key(ids[ids.len() - 1]));
    }
}

/// Nobody is told twice that a message was deleted.
pub proof fn law_deletion_is_told_once(chat: ChatView, ids: Seq<MessageId>)
    ensures
        ({
            let once = chat.delete_messages(ids, false);
            once.delete_messages(ids, false) == once
        }),
{
    let once = chat.delete_messages(ids, false);
    assert forall|i: int| 0 <= i < ids.len() implies !once.cache.contains_key(
        #[trigger] ids[i],
    ) by {
        assert(ids.contains(ids[i]));
    }
    lemma_looked_up_none(once.cache, ids);
    assert(deletions(Seq::<u64>::empty()) =~= Seq::empty());
    assert(once.events + Seq::<ChatEvent>::empty() =~= once.events);
    assert(once.cache.remove_keys(ids.to_set()) =~= once.cache);
}

/// Once it is known whether a replied message exists, nothing has to be
/// fetched for it until the cache is emptied.
pub proof fn law_replies_are_remembered(
    chat: ChatView,
    chat_id: ChatId,
    message_id: MessageId,
    answer: Result<Option<MessageRef>, TdlibError>,
)
    requires
        answer is Ok || answer->Err_0.code == 400,
    ensures
        chat.remember_reply(chat_id, message_id, answer).replied.contains_key(
            (chat_id, message_id),
        ),
        chat.remember_reply(chat_id, message_id, answer).replied[(chat_id, message_id)] == (
        match answer {
            Ok(message) => message,
            Err(_) => None,
        }),
{
}

} // verus!
