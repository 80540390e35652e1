//! What the operations of a chat promise.

use vstd::prelude::*;

use crate::model::chat::{chat_of, ChatData};
use crate::model::chat_view::{
    deletions, looked_up, present, ChatEvent, ChatProperty, ChatType, ChatUpdate,
    ChatView,
};
use crate::model::message::{message_of, MessageData, MessageUpdate};
use crate::model::reply_cache::{MessageRef, MAX_CACHED_REPLIED_MESSAGES};
use crate::types::{ChatId, MessageId, TdlibError};

verus! {

/// A new chat has the properties that TDLib says. Nobody has to be told about
/// them, and no message is known yet.
pub proof fn law_new_chat_carries_data(data: ChatData)
    ensures
        ({
            let chat = chat_of(data);
            &&& chat.id == data.id
            &&& chat.chat_type == data.chat_type
            &&& chat.block_list == data.block_list
            &&& chat.title == data.title@
            &&& chat.avatar == data.photo
            &&& chat.last_read_inbox_message_id == data.last_read_inbox_message_id
            &&& chat.last_read_outbox_message_id == data.last_read_outbox_message_id
            &&& chat.is_marked_as_unread == data.is_marked_as_unread
            &&& chat.unread_mention_count == data.unread_mention_count
            &&& chat.unread_count == data.unread_count
            &&& chat.draft_message == data.draft_message
            &&& chat.notification_settings == data.notification_settings
            &&& chat.permissions == data.permissions
            &&& chat.last_message is None
            &&& chat.events.len() == 0
            &&& forall|serial: u64| !#[trigger] chat.messages.contains_key(serial)
            &&& forall|id: MessageId| !#[trigger] chat.cache.contains_key(id)
            &&& forall|key: (ChatId, MessageId)| !#[trigger] chat.replied.contains_key(key)
        }),
{
}

/// A private chat is with its user and a secret one with its partner. A group
/// is with nobody in particular.
pub proof fn law_chat_is_with_user(user_id: i64, secret_chat_id: i32, group_id: i64)
    ensures
        (ChatType::Private { user_id }).spec_user() == Some(user_id),
        (ChatType::Secret { secret_chat_id, partner_id: user_id }).spec_user() == Some(user_id),
        (ChatType::BasicGroup { basic_group_id: group_id }).spec_user() is None,
        (ChatType::Supergroup { supergroup_id: group_id }).spec_user() is None,
{
}

/// An update that sets a property sets it to the value that it carries, and
/// leaves all the others as they are.
pub proof fn law_update_sets_its_property(chat: ChatView, update: ChatUpdate)
    ensures
        ({
            let after = chat.handle_update(update);
            &&& after.id == chat.id
            &&& after.chat_type == chat.chat_type
            &&& after.replied == chat.replied
            &&& after.block_list == match update {
                ChatUpdate::BlockList(block_list) => block_list,
                _ => chat.block_list,
            }
            &&& after.title == match update {
                ChatUpdate::Title(title) => title@,
                _ => chat.title,
            }
            &&& after.avatar == match update {
                ChatUpdate::Photo(photo) => photo,
                _ => chat.avatar,
            }
            &&& after.last_read_inbox_message_id == match update {
                ChatUpdate::ReadInbox { last_read_inbox_message_id, .. } => {
                    last_read_inbox_message_id
                },
                _ => chat.last_read_inbox_message_id,
            }
            &&& after.unread_count == match update {
                ChatUpdate::ReadInbox { unread_count, .. } => unread_count,
                _ => chat.unread_count,
            }
            &&& after.last_read_outbox_message_id == match update {
                ChatUpdate::ReadOutbox { last_read_outbox_message_id } => {
                    last_read_outbox_message_id
                },
                _ => chat.last_read_outbox_message_id,
            }
            &&& after.is_marked_as_unread == match update {
                ChatUpdate::IsMarkedAsUnread(is_marked) => is_marked,
                _ => chat.is_marked_as_unread,
            }
            &&& after.unread_mention_count == match update {
                ChatUpdate::UnreadMentionCount(count) => count,
                ChatUpdate::MessageMentionRead { unread_mention_count } => unread_mention_count,
                _ => chat.unread_mention_count,
            }
            &&& after.draft_message == match update {
                ChatUpdate::DraftMessage(draft_message) => draft_message,
                _ => chat.draft_message,
            }
            &&& after.notification_settings == match update {
                ChatUpdate::NotificationSettings(settings) => settings,
                _ => chat.notification_settings,
            }
            &&& after.permissions == match update {
                ChatUpdate::Permissions(permissions) => permissions,
                _ => chat.permissions,
            }
            &&& !(update is LastMessage) ==> after.last_message == chat.last_message
        }),
{
}

/// Whether the update is about the messages of the chat.
pub open spec fn concerns_messages(update: ChatUpdate) -> bool {
    ||| update is LastMessage
    ||| update is DeleteMessages
    ||| update is Message
    ||| update is MessageSendSucceeded
    ||| update is NewMessage
}

/// An update that is not about messages leaves them as they are.
pub proof fn law_other_updates_keep_messages(chat: ChatView, update: ChatUpdate)
    requires
        !concerns_messages(update),
    ensures
        chat.handle_update(update).messages == chat.messages,
        chat.handle_update(update).cache == chat.cache,
        chat.handle_update(update).next_serial == chat.next_serial,
{
}

/// Whether the observers are told about the event after the update, but were
/// not yet before.
pub open spec fn tells(before: ChatView, after: ChatView, event: ChatEvent) -> bool {
    exists|i: int| before.events.len() <= i < after.events.len() && after.events[i] == event
}

/// The observers are told about everything in the order in which it happened.
pub proof fn law_told_events_stay(chat: ChatView, update: ChatUpdate)
    ensures
        chat.events.len() <= chat.handle_update(update).events.len(),
        chat.handle_update(update).events.take(chat.events.len() as int) == chat.events,
{
    let after = chat.handle_update(update);
    assert(after.events.take(chat.events.len() as int) =~= chat.events);
}

/// The observers are told that a property changed if and only if it did, once
/// each. They are always told that an action happened.
pub proof fn law_changed_properties_are_told(chat: ChatView, update: ChatUpdate)
    requires
        !concerns_messages(update),
    ensures
        ({
            let after = chat.handle_update(update);
            let told = |property: ChatProperty| tells(chat, after, ChatEvent::Notify(property));
            &&& told(ChatProperty::BlockList) <==> after.block_list != chat.block_list
            &&& told(ChatProperty::Title) <==> after.title != chat.title
            &&& told(ChatProperty::Avatar) <==> after.avatar != chat.avatar
            &&& told(ChatProperty::LastReadInboxMessageId) <==> after.last_read_inbox_message_id
                != chat.last_read_inbox_message_id
            &&& told(ChatProperty::LastReadOutboxMessageId) <==> after.last_read_outbox_message_id
                != chat.last_read_outbox_message_id
            &&& told(ChatProperty::IsMarkedAsUnread) <==> after.is_marked_as_unread
                != chat.is_marked_as_unread
            &&& told(ChatProperty::UnreadMentionCount) <==> after.unread_mention_count
                != chat.unread_mention_count
            &&& told(ChatProperty::UnreadCount) <==> after.unread_count != chat.unread_count
            &&& told(ChatProperty::DraftMessage) <==> after.draft_message != chat.draft_message
            &&& told(ChatProperty::NotificationSettings) <==> after.notification_settings
                != chat.notification_settings
            &&& told(ChatProperty::Permissions) <==> after.permissions != chat.permissions
            &&& told(ChatProperty::Actions) <==> update is Action
            &&& !told(ChatProperty::LastMessage)
            &&& forall|i: int|
                chat.events.len() <= i < after.events.len() ==> #[trigger] after.events[i] is Notify
            &&& forall|i: int, j: int|
                #![trigger after.events[i], after.events[j]]
                chat.events.len() <= i < j < after.events.len() ==> after.events[i]
                    != after.events[j]
        }),
{
    let after = chat.handle_update(update);
    let start = chat.events.len() as int;
    if after.events.len() > start {
        assert(after.events[start] == after.events[start]);
        let first = after.events[start];
        assert(tells(chat, after, first));
    }
    if after.events.len() > start + 1 {
        assert(tells(chat, after, after.events[start + 1]));
    }
}

/// The last message is the one that the update carries. It can be looked up,
/// and it is what TDLib says unless it was in use before. The observers are
/// told if and only if it is another one.
pub proof fn law_last_message_is_set(chat: ChatView, update: ChatUpdate)
    requires
        chat.wf(),
        chat.next_serial < u64::MAX,
        update is LastMessage,
    ensures
        ({
            let after = chat.handle_update(update);
            &&& update->LastMessage_0 is None ==> after.last_message is None && after.messages
                == chat.messages && after.cache == chat.cache
            &&& update->LastMessage_0 matches Some(data) ==> {
                &&& after.last_message is Some
                &&& after.cache.contains_key(data.id)
                &&& after.cache[data.id] == after.last_message->0
                &&& after.messages.contains_key(after.last_message->0)
                &&& after.messages[after.last_message->0].id == data.id
                &&& chat.cache.contains_key(data.id) ==> after.messages == chat.messages
                    && after.cache == chat.cache
                &&& !chat.cache.contains_key(data.id) ==> after.messages[after.last_message->0]
                    == message_of(data)
            }
            &&& forall|id: MessageId| #[trigger]
                chat.cache.contains_key(id) ==> after.cache.contains_key(id) && after.cache[id]
                    == chat.cache[id]
            &&& forall|serial: u64| #[trigger]
                chat.messages.contains_key(serial) ==> after.messages.contains_key(serial)
                    && after.messages[serial] == chat.messages[serial]
            &&& after.events == if after.last_message == chat.last_message {
                chat.events
            } else {
                chat.events.push(ChatEvent::Notify(ChatProperty::LastMessage))
            }
        }),
{
}

/// The observers are told about a message that arrived, which can be looked up.
/// It is what TDLib says unless it was in use before, and the other messages
/// stay as they are.
pub proof fn law_new_message_is_told(chat: ChatView, data: MessageData)
    requires
        chat.wf(),
        chat.next_serial < u64::MAX,
    ensures
        ({
            let after = chat.handle_update(ChatUpdate::NewMessage(data));
            &&& after.cache.contains_key(data.id)
            &&& after.messages.contains_key(after.cache[data.id])
            &&& after.messages[after.cache[data.id]].id == data.id
            &&& after.events == chat.events.push(ChatEvent::NewMessage(after.cache[data.id]))
            &&& chat.cache.contains_key(data.id) ==> after.messages == chat.messages
            &&& !chat.cache.contains_key(data.id) ==> after.messages[after.cache[data.id]]
                == message_of(data)
            &&& forall|id: MessageId|
                id != data.id ==> (#[trigger] after.cache.contains_key(id)
                    <==> chat.cache.contains_key(id))
            &&& forall|id: MessageId| #[trigger]
                chat.cache.contains_key(id) ==> after.cache[id] == chat.cache[id]
            &&& forall|serial: u64| #[trigger]
                chat.messages.contains_key(serial) ==> after.messages.contains_key(serial)
                    && after.messages[serial] == chat.messages[serial]
        }),
{
}

proof fn lemma_looked_up(cache: Map<MessageId, u64>, ids: Seq<MessageId>)
    ensures
        forall|i: int|
            0 <= i < looked_up(cache, ids).len() ==> exists|k: int|
                #![trigger ids[k]]
                0 <= k < ids.len() && cache.contains_key(ids[k]) && cache[ids[k]]
                    == #[trigger] looked_up(cache, ids)[i],
        forall|k: int|
            0 <= k < ids.len() && cache.contains_key(#[trigger] ids[k]) ==> looked_up(
                cache,
                ids,
            ).contains(cache[ids[k]]),
        (forall|a: MessageId, b: MessageId|
            #![trigger cache[a], cache[b]]
            cache.contains_key(a) && cache.contains_key(b) && cache[a] == cache[b] ==> a == b)
            ==> looked_up(cache, ids).no_duplicates(),
    decreases ids.len(),
{
    if ids.len() > 0 {
        let rest = ids.drop_last();
        let end = ids.len() - 1;
        let before = looked_up(cache, rest);
        let found = looked_up(cache, ids);
        lemma_looked_up(cache, rest);
        assert forall|i: int| 0 <= i < before.len() implies exists|k: int|
            #![trigger ids[k]]
            0 <= k < end && cache.contains_key(ids[k]) && cache[ids[k]]
                == #[trigger] before[i] by {
            let k = choose|k: int|
                #![trigger rest[k]]
                0 <= k < rest.len() && cache.contains_key(rest[k]) && cache[rest[k]] == before[i];
            assert(ids[k] == rest[k]);
        }
        assert forall|i: int| 0 <= i < found.len() implies exists|k: int|
            #![trigger ids[k]]
            0 <= k < ids.len() && cache.contains_key(ids[k]) && cache[ids[k]]
                == #[trigger] found[i] by {
            if i < before.len() {
                assert(found[i] == before[i]);
                let k = choose|k: int|
                    #![trigger ids[k]]
                    0 <= k < end && cache.contains_key(ids[k]) && cache[ids[k]] == before[i];
                assert(cache[ids[k]] == found[i]);
            } else {
                assert(cache[ids[end]] == found[i]);
            }
        }
        assert forall|k: int|
            0 <= k < ids.len() && cache.contains_key(#[trigger] ids[k]) implies found.contains(
            cache[ids[k]],
        ) by {
            if rest.contains(ids[k]) {
                let j = choose|j: int| 0 <= j < rest.len() && rest[j] == ids[k];
                assert(before.contains(cache[rest[j]]));
                let i = choose|i: int| 0 <= i < before.len() && before[i] == cache[ids[k]];
                assert(found[i] == cache[ids[k]]);
            } else {
                if k < end {
                    assert(rest[k] == ids[k]);
                }
                assert(found[before.len() as int] == cache[ids[k]]);
            }
        }
        if forall|a: MessageId, b: MessageId|
            #![trigger cache[a], cache[b]]
            cache.contains_key(a) && cache.contains_key(b) && cache[a] == cache[b] ==> a == b {
            assert forall|i: int, j: int|
                0 <= i < found.len() && 0 <= j < found.len() && i != j implies found[i]
                != found[j] by {
                if i < before.len() && j < before.len() {
                    assert(found[i] == before[i] && found[j] == before[j]);
                } else {
                    let other = if i < before.len() {
                        i
                    } else {
                        j
                    };
                    assert(found[other] == before[other]);
                    let k = choose|k: int|
                        #![trigger ids[k]]
                        0 <= k < end && cache.contains_key(ids[k]) && cache[ids[k]]
                            == before[other];
                    assert(rest[k] == ids[k]);
                    assert(rest.contains(ids[k]));
                    assert(cache[ids[k]] == found[other] && cache[ids[end]] == found[
                        before.len() as int]);
                }
            }
        }
    }
}

/// Messages that were deleted can't be looked up anymore, whereas the others
/// can. The observers are told about each one of them that could be looked up,
/// once, unless they only left the local cache of TDLib.
pub proof fn law_deleted_messages_are_told(
    chat: ChatView,
    message_ids: Vec<MessageId>,
    from_cache: bool,
)
    requires
        chat.wf(),
    ensures
        ({
            let after = chat.handle_update(ChatUpdate::DeleteMessages { message_ids, from_cache });
            let start = chat.events.len();
            &&& forall|id: MessageId| #[trigger]
                after.cache.contains_key(id) <==> chat.cache.contains_key(id)
                    && !message_ids@.contains(id)
            &&& forall|id: MessageId| #[trigger]
                after.cache.contains_key(id) ==> after.cache[id] == chat.cache[id]
            &&& after.messages == chat.messages
            &&& after.next_serial == chat.next_serial
            &&& from_cache ==> after.events == chat.events
            &&& !from_cache ==> {
                &&& forall|i: int|
                    start <= i < after.events.len() ==> exists|id: MessageId| #[trigger]
                        chat.cache.contains_key(id) && message_ids@.contains(id)
                            && #[trigger] after.events[i] == ChatEvent::DeletedMessage(
                            chat.cache[id],
                        )
                &&& forall|id: MessageId| #[trigger]
                    chat.cache.contains_key(id) && message_ids@.contains(id) ==> tells(
                        chat,
                        after,
                        ChatEvent::DeletedMessage(chat.cache[id]),
                    )
                &&& forall|i: int, j: int|
                    #![trigger after.events[i], after.events[j]]
                    start <= i < j < after.events.len() ==> after.events[i] != after.events[j]
            }
        }),
{
    let ids = message_ids@;
    let after = chat.handle_update(ChatUpdate::DeleteMessages { message_ids, from_cache });
    let start = chat.events.len() as int;
    let found = looked_up(chat.cache, ids);
    lemma_looked_up(chat.cache, ids);
    if !from_cache {
        assert(after.events == chat.events + deletions(found));
        assert forall|a: MessageId, b: MessageId|
            #![trigger chat.cache[a], chat.cache[b]]
            chat.cache.contains_key(a) && chat.cache.contains_key(b) && chat.cache[a]
                == chat.cache[b] implies a == b by {
            assert(chat.messages[chat.cache[a]].id == a && chat.messages[chat.cache[b]].id == b);
        }
        assert forall|i: int| start <= i < after.events.len() implies exists|id: MessageId|
            #[trigger] chat.cache.contains_key(id) && ids.contains(id)
                && #[trigger] after.events[i] == ChatEvent::DeletedMessage(chat.cache[id]) by {
            let k = choose|k: int|
                #![trigger ids[k]]
                0 <= k < ids.len() && chat.cache.contains_key(ids[k]) && chat.cache[ids[k]]
                    == found[i - start];
            assert(ids.contains(ids[k]) && chat.cache.contains_key(ids[k]));
            assert(after.events[i] == ChatEvent::DeletedMessage(chat.cache[ids[k]]));
        }
        assert forall|id: MessageId| #[trigger]
            chat.cache.contains_key(id) && ids.contains(id) implies tells(
            chat,
            after,
            ChatEvent::DeletedMessage(chat.cache[id]),
        ) by {
            let k = choose|k: int| 0 <= k < ids.len() && ids[k] == id;
            assert(found.contains(chat.cache[ids[k]]));
            let i = choose|i: int| 0 <= i < found.len() && found[i] == chat.cache[id];
            assert(after.events[start + i] == ChatEvent::DeletedMessage(chat.cache[id]));
        }
        assert forall|i: int, j: int|
            #![trigger after.events[i], after.events[j]]
            start <= i < j < after.events.len() implies after.events[i] != after.events[j] by {
            assert(found[i - start] != found[j - start]);
        }
    }
}

/// An update of a message changes that message and no other one. The observers
/// are told what changed if something did. A message that can't be looked up is
/// not touched.
pub proof fn law_message_is_updated(chat: ChatView, message_id: MessageId, update: MessageUpdate)
    requires
        chat.wf(),
    ensures
        ({
            let after = chat.handle_update(ChatUpdate::Message { message_id, update });
            &&& after.cache == chat.cache
            &&& after.next_serial == chat.next_serial
            &&& !chat.cache.contains_key(message_id) ==> after.messages == chat.messages
                && after.events == chat.events
            &&& chat.cache.contains_key(message_id) ==> {
                let serial = chat.cache[message_id];
                let changes = after.messages[serial].changes_from(chat.messages[serial]);
                &&& after.messages.dom() == chat.messages.dom()
                &&& after.messages[serial] == chat.messages[serial].updated(update)
                &&& forall|other: u64|
                    other != serial && #[trigger] chat.messages.contains_key(other)
                        ==> after.messages[other] == chat.messages[other]
                &&& after.events == if changes.content || changes.is_edited || changes.reply_count
                    || changes.reactions {
                    chat.events.push(ChatEvent::MessageChanged(serial, changes))
                } else {
                    chat.events
                }
            }
        }),
{
    let after = chat.handle_update(ChatUpdate::Message { message_id, update });
    if chat.cache.contains_key(message_id) {
        assert(after.messages.dom() =~= chat.messages.dom());
    }
}

/// A message that was being sent is found under its final id once it was sent,
/// and not under the old one anymore. The observers are told that the old
/// message is gone, if it could be looked up, and about the new one.
pub proof fn law_sent_message_replaces_old(
    chat: ChatView,
    old_message_id: MessageId,
    message: MessageData,
)
    requires
        chat.wf(),
        chat.next_serial < u64::MAX,
    ensures
        ({
            let after = chat.handle_update(
                ChatUpdate::MessageSendSucceeded { old_message_id, message },
            );
            &&& old_message_id != message.id ==> !after.cache.contains_key(old_message_id)
            &&& after.cache.contains_key(message.id)
            &&& after.messages.contains_key(after.cache[message.id])
            &&& after.messages[after.cache[message.id]].id == message.id
            &&& !chat.cache.contains_key(message.id) ==> after.messages[after.cache[message.id]]
                == message_of(message)
            &&& forall|id: MessageId|
                id != old_message_id && id != message.id ==> (
                #[trigger] after.cache.contains_key(id) <==> chat.cache.contains_key(id))
            &&& forall|id: MessageId|
                id != old_message_id && #[trigger] chat.cache.contains_key(id) ==> after.cache[id]
                    == chat.cache[id]
            &&& forall|serial: u64| #[trigger]
                chat.messages.contains_key(serial) ==> after.messages.contains_key(serial)
                    && after.messages[serial] == chat.messages[serial]
            &&& after.events == if chat.cache.contains_key(old_message_id) {
                chat.events.push(ChatEvent::DeletedMessage(chat.cache[old_message_id])).push(
                    ChatEvent::NewMessage(after.cache[message.id]),
                )
            } else {
                chat.events.push(ChatEvent::NewMessage(after.cache[message.id]))
            }
        }),
{
}

/// The chat holds on to its last message and to the messages of its own that it
/// remembers as replied to, and to no other ones.
pub proof fn law_held_messages(chat: ChatView, serial: u64)
    ensures
        chat.last_message == Some(serial) ==> chat.holds(serial),
        forall|key: (ChatId, MessageId)| #[trigger]
            chat.replied.contains_key(key) && chat.replied[key] == Some(
                MessageRef { chat_id: chat.id, serial },
            ) ==> chat.holds(serial),
        chat.last_message != Some(serial) && (forall|key: (ChatId, MessageId)| #[trigger]
            chat.replied.contains_key(key) ==> chat.replied[key] != Some(
                MessageRef { chat_id: chat.id, serial },
            )) ==> !chat.holds(serial),
{
}

/// Giving up a message changes nothing but the messages: it is not there anymore
/// and is not found by its id, while all others are and stay as they are.
pub proof fn law_release_keeps_the_rest(chat: ChatView, serial: u64, other: u64, id: MessageId)
    ensures
        ({
            let after = chat.release(serial);
            &&& after == (ChatView { messages: after.messages, cache: after.cache, ..chat })
            &&& !after.messages.contains_key(serial)
            &&& other != serial ==> (after.messages.contains_key(other)
                <==> chat.messages.contains_key(other))
            &&& after.messages.contains_key(other) ==> after.messages[other]
                == chat.messages[other]
            &&& chat.messages.contains_key(serial) && chat.messages[serial].id == id
                && after.cache.contains_key(id) ==> after.cache[id] != serial
            &&& chat.cache.contains_key(id) && chat.cache[id] != serial
                ==> after.cache.contains_key(id) && after.cache[id] == chat.cache[id]
            &&& after.cache.contains_key(id) ==> chat.cache.contains_key(id) && after.cache[id]
                == chat.cache[id]
        }),
{
}

/// What is remembered about other replied messages stays, unless the cache is
/// full, in which case it is emptied. Nothing is remembered if the search failed
/// for another reason than that the message doesn't exist.
pub proof fn law_other_replies_are_kept(
    chat: ChatView,
    chat_id: ChatId,
    message_id: MessageId,
    answer: Result<Option<MessageRef>, TdlibError>,
)
    ensures
        ({
            let after = chat.remember_reply(chat_id, message_id, answer);
            let is_full = chat.replied.dom().len() >= MAX_CACHED_REPLIED_MESSAGES;
            &&& after == (ChatView { replied: after.replied, ..chat })
            &&& forall|key: (ChatId, MessageId)|
                key != (chat_id, message_id) ==> (#[trigger] after.replied.contains_key(key)
                    <==> chat.replied.contains_key(key) && !is_full)
            &&& forall|key: (ChatId, MessageId)|
                key != (chat_id, message_id) && #[trigger] after.replied.contains_key(key)
                    ==> after.replied[key] == chat.replied[key]
            &&& answer matches Err(error) ==> error.code != 400 ==> (after.replied.contains_key(
                (chat_id, message_id),
            ) ==> chat.replied.contains_key((chat_id, message_id))
                && after.replied[(chat_id, message_id)] == chat.replied[(chat_id, message_id)])
        }),
{
}

/// The messages that are there are taken, in order, and the missing ones are
/// left out.
pub proof fn law_present_messages_are_taken(messages: Seq<Option<MessageData>>)
    ensures
        present(messages).len() == messages.filter(|message: Option<MessageData>| message is Some).len(),
        forall|i: int|
            0 <= i < present(messages).len() ==> Some(#[trigger] present(messages)[i])
                == messages.filter(|message: Option<MessageData>| message is Some)[i],
    decreases messages.len(),
{
    reveal(Seq::filter);
    if messages.len() > 0 {
        law_present_messages_are_taken(messages.drop_last());
    }
}

/// Taking messages keeps the messages that are in use as they are and changes
/// nothing but the messages.
pub proof fn law_taken_messages_keep_others(chat: ChatView, messages: Seq<MessageData>)
    requires
        chat.wf(),
        chat.next_serial + messages.len() <= u64::MAX,
    ensures
        ({
            let after = chat.insert_messages(messages);
            &&& after.wf()
            &&& chat.next_serial <= after.next_serial <= chat.next_serial + messages.len()
            &&& after == (ChatView {
                messages: after.messages,
                cache: after.cache,
                next_serial: after.next_serial,
                ..chat
            })
            &&& forall|id: MessageId| #[trigger]
                after.cache.contains_key(id) ==> chat.cache.contains_key(id) || exists|i: int|
                    0 <= i < messages.len() && (#[trigger] messages[i]).id == id
            &&& forall|id: MessageId| #[trigger]
                chat.cache.contains_key(id) ==> after.cache.contains_key(id) && after.cache[id]
                    == chat.cache[id]
            &&& forall|serial: u64| #[trigger]
                chat.messages.contains_key(serial) ==> after.messages.contains_key(serial)
                    && after.messages[serial] == chat.messages[serial]
        }),
    decreases messages.len(),
{
    if messages.len() > 0 {
        let rest = messages.drop_last();
        let end = messages.len() - 1;
        let before = chat.insert_messages(rest);
        let after = chat.insert_messages(messages);
        law_taken_messages_keep_others(chat, rest);
        assert forall|id: MessageId| #[trigger]
            after.cache.contains_key(id) implies chat.cache.contains_key(id) || exists|i: int|
            0 <= i < messages.len() && (#[trigger] messages[i]).id == id by {
            if before.cache.contains_key(id) {
                if !chat.cache.contains_key(id) {
                    let k = choose|k: int| 0 <= k < rest.len() && (#[trigger] rest[k]).id == id;
                    assert(messages[k].id == id);
                }
            } else {
                assert(messages[end].id == id);
            }
        }
    }
}

/// Each one of the messages that were taken can be looked up under its id
/// afterwards. It is what TDLib says, unless it was in use before or was taken
/// more than once. The serial numbers are those of the messages, in order.
pub proof fn law_taken_messages_are_found(chat: ChatView, messages: Seq<MessageData>, i: int)
    requires
        chat.wf(),
        chat.next_serial + messages.len() <= u64::MAX,
        0 <= i < messages.len(),
    ensures
        ({
            let after = chat.insert_messages(messages);
            let serials = chat.serials_of(messages);
            let id = messages[i].id;
            &&& serials.len() == messages.len()
            &&& after.cache.contains_key(id)
            &&& after.cache[id] == serials[i]
            &&& after.messages.contains_key(serials[i])
            &&& after.messages[serials[i]].id == id
            &&& !chat.cache.contains_key(id) && (forall|k: int|
                0 <= k < i ==> (#[trigger] messages[k]).id != id) ==> after.messages[serials[i]]
                == message_of(messages[i])
        }),
    decreases messages.len(),
{
    let rest = messages.drop_last();
    let end = messages.len() - 1;
    let id = messages[i].id;
    let before = chat.insert_messages(rest);
    lemma_serials(chat, messages);
    law_taken_messages_keep_others(chat, rest);
    if i < end {
        assert(rest[i] == messages[i]);
        law_taken_messages_are_found(chat, rest, i);
        assert(chat.serials_of(messages)[i] == chat.serials_of(rest)[i]);
        if forall|k: int| 0 <= k < i ==> (#[trigger] messages[k]).id != id {
            assert forall|k: int| 0 <= k < i implies (#[trigger] rest[k]).id != id by {
                assert(rest[k] == messages[k]);
            }
        }
    } else {
        assert(chat.serials_of(messages)[i] == before.serial_of(id));
        if before.cache.contains_key(id) && !chat.cache.contains_key(id) {
            let k = choose|k: int| 0 <= k < rest.len() && (#[trigger] rest[k]).id == id;
            assert(messages[k].id == id);
        }
    }
}

proof fn lemma_serials(chat: ChatView, messages: Seq<MessageData>)
    ensures
        chat.serials_of(messages).len() == messages.len(),
    decreases messages.len(),
{
    if messages.len() > 0 {
        lemma_serials(chat, messages.drop_last());
    }
}

} // verus!
