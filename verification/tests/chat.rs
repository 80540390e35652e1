use paper_plane::model::chat::{Chat, ChatData, ReplyLookup};
use paper_plane::model::chat_view::{BlockList, ChatEvent, ChatProperty, ChatType, ChatUpdate};
use paper_plane::model::message::{
    ContentKind, MessageContent, MessageData, MessageProperties, MessageSender, MessageUpdate,
};
use paper_plane::model::reply_cache::MessageRef;
use paper_plane::types::{CalendarDay, TdlibError, Timestamp};

fn message(id: i64) -> MessageData {
    MessageData {
        id,
        sender: MessageSender::User(1),
        is_outgoing: false,
        sending_state: None,
        date: Timestamp { unix: 1000, day: CalendarDay { year: 1970, month: 1, day: 1 } },
        edit_date: 0,
        interaction_info: None,
        forward_origin: None,
        reply_to: None,
        media_album_id: 0,
        content: MessageContent { kind: ContentKind::Other, photo_sizes: 0, snapshot: 1 },
    }
}

fn chat_with(chat_type: ChatType, last_message: Option<MessageData>) -> Chat {
    Chat::new(ChatData {
        id: 50,
        chat_type,
        block_list: None,
        title: String::from("Group"),
        photo: None,
        last_read_inbox_message_id: 3,
        last_read_outbox_message_id: 4,
        is_marked_as_unread: false,
        last_message,
        unread_mention_count: 0,
        unread_count: 2,
        draft_message: None,
        notification_settings: 1,
        permissions: 1,
    })
}

fn chat() -> Chat {
    chat_with(ChatType::BasicGroup { basic_group_id: 8 }, None)
}

fn events_of(chat: &mut Chat, update: ChatUpdate) -> Vec<ChatEvent> {
    chat.handle_update(update);
    chat.take_events()
}

#[test]
fn chat_tells_what_it_was_made_of() {
    let chat = chat_with(ChatType::Private { user_id: 6 }, Some(message(30)));
    assert_eq!(chat.id(), 50);
    assert_eq!(chat.title(), "Group");
    assert_eq!(chat.chat_type().user(), Some(6));
    assert_eq!(chat.chat_type().basic_group(), None);
    assert_eq!(chat.last_read_inbox_message_id(), 3);
    assert_eq!(chat.last_read_outbox_message_id(), 4);
    assert_eq!(chat.unread_count(), 2);
    assert_eq!(chat.message_to_mark_as_read(), Some(30));
    assert!(chat.is_own_chat(6));
    assert!(!chat.is_own_chat(7));
    assert!(!chat.is_blocked());
    assert_eq!(ChatType::Supergroup { supergroup_id: 4 }.supergroup(), Some(4));
    assert_eq!(ChatType::BasicGroup { basic_group_id: 4 }.basic_group(), Some(4));
    assert_eq!(ChatType::Secret { secret_chat_id: 1, partner_id: 9 }.user(), Some(9));
    assert_eq!(ChatType::BasicGroup { basic_group_id: 4 }.user(), None);
}

#[test]
fn updates_of_a_chat_are_told_once() {
    let mut chat = chat();
    let notify = |property| vec![ChatEvent::Notify(property)];
    assert_eq!(
        events_of(&mut chat, ChatUpdate::Title(String::from("New"))),
        notify(ChatProperty::Title),
    );
    assert_eq!(chat.title(), "New");
    assert_eq!(events_of(&mut chat, ChatUpdate::Title(String::from("New"))), []);
    assert_eq!(
        events_of(&mut chat, ChatUpdate::BlockList(Some(BlockList::Main))),
        notify(ChatProperty::BlockList),
    );
    assert!(chat.is_blocked());
    assert_eq!(events_of(&mut chat, ChatUpdate::BlockList(Some(BlockList::Main))), []);
    assert_eq!(
        events_of(&mut chat, ChatUpdate::IsMarkedAsUnread(true)),
        notify(ChatProperty::IsMarkedAsUnread),
    );
    assert_eq!(
        events_of(&mut chat, ChatUpdate::Photo(Some(2))),
        notify(ChatProperty::Avatar),
    );
    assert_eq!(
        events_of(&mut chat, ChatUpdate::DraftMessage(Some(2))),
        notify(ChatProperty::DraftMessage),
    );
    assert_eq!(
        events_of(&mut chat, ChatUpdate::NotificationSettings(2)),
        notify(ChatProperty::NotificationSettings),
    );
    assert_eq!(
        events_of(&mut chat, ChatUpdate::Permissions(2)),
        notify(ChatProperty::Permissions),
    );
    assert_eq!(
        events_of(&mut chat, ChatUpdate::UnreadMentionCount(2)),
        notify(ChatProperty::UnreadMentionCount),
    );
    assert_eq!(
        events_of(&mut chat, ChatUpdate::MessageMentionRead { unread_mention_count: 1 }),
        notify(ChatProperty::UnreadMentionCount),
    );
    assert_eq!(
        events_of(
            &mut chat,
            ChatUpdate::ReadInbox { last_read_inbox_message_id: 9, unread_count: 0 },
        ),
        [
            ChatEvent::Notify(ChatProperty::LastReadInboxMessageId),
            ChatEvent::Notify(ChatProperty::UnreadCount),
        ],
    );
    assert_eq!(
        events_of(&mut chat, ChatUpdate::ReadOutbox { last_read_outbox_message_id: 9 }),
        notify(ChatProperty::LastReadOutboxMessageId),
    );
    assert_eq!(events_of(&mut chat, ChatUpdate::Action), notify(ChatProperty::Actions));
    assert_eq!(events_of(&mut chat, ChatUpdate::Other), []);
}

#[test]
fn messages_are_looked_up_by_their_ids() {
    let mut chat = chat();
    let first = chat.insert_message(message(10));
    let second = chat.insert_message(message(11));
    assert_ne!(first, second);
    assert_eq!(chat.insert_message(message(10)), first);
    assert_eq!(chat.message(10), Some(first));
    assert_eq!(chat.message(12), None);
    assert_eq!(chat.get(second).unwrap().id(), 11);
    assert_eq!(chat.history_message(second).unwrap().id, 11);
    assert!(chat.release(first));
    assert_eq!(chat.message(10), None);
    assert!(chat.get(first).is_none());
}

#[test]
fn new_messages_are_told() {
    let mut chat = chat();
    let events = events_of(&mut chat, ChatUpdate::NewMessage(message(20)));
    let serial = chat.message(20).unwrap();
    assert_eq!(events, [ChatEvent::NewMessage(serial)]);
}

#[test]
fn last_message_is_kept_in_use() {
    let mut chat = chat();
    let events = events_of(&mut chat, ChatUpdate::LastMessage(Some(message(20))));
    assert_eq!(events, [ChatEvent::Notify(ChatProperty::LastMessage)]);
    assert_eq!(chat.last_message(), chat.message(20));
    assert_eq!(chat.message_to_mark_as_read(), Some(20));
    assert_eq!(events_of(&mut chat, ChatUpdate::LastMessage(Some(message(20)))), []);
    assert!(!chat.release(chat.last_message().unwrap()));
    assert_eq!(chat.message_to_mark_as_read(), Some(20));
    assert_eq!(
        events_of(&mut chat, ChatUpdate::LastMessage(None)),
        [ChatEvent::Notify(ChatProperty::LastMessage)],
    );
    assert_eq!(chat.message_to_mark_as_read(), None);
}

#[test]
fn deleted_messages_are_told_unless_they_left_the_cache() {
    let mut chat = chat();
    let serial = chat.insert_message(message(20));
    let events = events_of(
        &mut chat,
        ChatUpdate::DeleteMessages { message_ids: vec![20], from_cache: true },
    );
    // The message is still shown, but it cannot be looked up anymore.
    assert_eq!(events, []);
    assert_eq!(chat.message(20), None);
    assert_eq!(chat.get(serial).unwrap().id(), 20);

    let serial = chat.insert_message(message(20));
    let delete = || ChatUpdate::DeleteMessages { message_ids: vec![19, 20], from_cache: false };
    assert_eq!(events_of(&mut chat, delete()), [ChatEvent::DeletedMessage(serial)]);
    assert_eq!(chat.message(20), None);
    assert_eq!(events_of(&mut chat, delete()), []);
}

#[test]
fn sent_messages_replace_their_drafts() {
    let mut chat = chat();
    let sending = chat.insert_message(message(20));
    let events = events_of(
        &mut chat,
        ChatUpdate::MessageSendSucceeded { old_message_id: 20, message: message(21) },
    );
    let sent = chat.message(21).unwrap();
    assert_eq!(events, [ChatEvent::DeletedMessage(sending), ChatEvent::NewMessage(sent)]);
    assert_eq!(chat.message(20), None);
}

#[test]
fn updates_of_messages_reach_them() {
    let mut chat = chat();
    let serial = chat.insert_message(message(20));
    let events = events_of(
        &mut chat,
        ChatUpdate::Message { message_id: 20, update: MessageUpdate::Edited { edit_date: 4 } },
    );
    assert_eq!(events.len(), 1);
    match events[0] {
        ChatEvent::MessageChanged(changed, changes) => {
            assert_eq!(changed, serial);
            assert!(changes.is_edited);
        }
        _ => panic!("the message changed"),
    }
    assert!(chat.get(serial).unwrap().is_edited());
    let events = events_of(
        &mut chat,
        ChatUpdate::Message { message_id: 99, update: MessageUpdate::Edited { edit_date: 4 } },
    );
    assert_eq!(events, []);
}

#[test]
fn history_and_media_are_taken_over() {
    let mut chat = chat();
    let known = chat.insert_message(message(8));
    let serials = chat.history_loaded(vec![Some(message(9)), None, Some(message(8))]);
    assert_eq!(serials, [chat.message(9).unwrap(), known]);
    let page = chat.media_messages_found(vec![message(7)], 6);
    assert_eq!(page.messages, [chat.message(7).unwrap()]);
    assert_eq!(page.next_from_message_id, 6);
}

#[test]
fn properties_of_messages_are_fetched_once() {
    let mut chat = chat();
    let serial = chat.insert_message(message(8));
    assert!(chat.fetch_properties(serial));
    assert!(!chat.fetch_properties(serial));
    let properties = MessageProperties {
        can_be_edited: true,
        can_be_deleted_only_for_self: true,
        can_be_deleted_for_all_users: false,
    };
    chat.set_message_properties(serial, properties);
    assert_eq!(chat.get(serial).unwrap().properties(), properties);
}

#[test]
fn replied_messages_are_remembered() {
    let mut chat = chat();
    assert_eq!(chat.fetch_reply_target(0, 5), ReplyLookup::ThisChat);
    assert_eq!(chat.fetch_reply_target(50, 5), ReplyLookup::ThisChat);
    assert_eq!(chat.fetch_reply_target(51, 5), ReplyLookup::OtherChat(51));

    let serial = chat.insert_message(message(5));
    let found = MessageRef { chat_id: 50, serial };
    assert_eq!(chat.reply_target_fetched(0, 5, Ok(Some(found))), Ok(Some(found)));
    assert_eq!(chat.fetch_reply_target(0, 5), ReplyLookup::Known(Some(found)));
    assert!(!chat.release(serial));

    let gone = || TdlibError { code: 400, message: String::from("Message not found") };
    assert_eq!(chat.reply_target_fetched(0, 6, Err(gone())), Ok(None));
    assert_eq!(chat.fetch_reply_target(0, 6), ReplyLookup::Known(None));

    let offline = || TdlibError { code: 500, message: String::from("offline") };
    assert_eq!(chat.reply_target_fetched(0, 7, Err(offline())), Err(offline()));
    assert_eq!(chat.fetch_reply_target(0, 7), ReplyLookup::ThisChat);
}

#[test]
fn replied_messages_are_forgotten_when_there_are_too_many() {
    let mut chat = chat();
    for id in 0..150 {
        assert_eq!(chat.reply_target_fetched(0, id, Ok(None)), Ok(None));
    }
    let known = (0..150)
        .filter(|id| chat.fetch_reply_target(0, *id) == ReplyLookup::Known(None))
        .count();
    assert!(known <= 100);
    assert_eq!(chat.fetch_reply_target(0, 149), ReplyLookup::Known(None));
}
