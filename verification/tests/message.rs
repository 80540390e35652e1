use paper_plane::model::media_manager::{MediaSettings, MediaType};
use paper_plane::model::message::{
    available_reactions, AvailableReaction, ContentKind, DisplayName, Message, MessageContent,
    MessageData, MessageForwardOrigin, MessageProperties, MessageSender, MessageUpdate,
    ReactionToggle, ReplyTarget,
};
use paper_plane::model::message_interaction_info::{
    InteractionUpdate, MessageReaction, ReactionType,
};
use paper_plane::types::{CalendarDay, Timestamp};

fn content(kind: ContentKind, snapshot: u64) -> MessageContent {
    MessageContent { kind, photo_sizes: 3, snapshot }
}

fn data(id: i64) -> MessageData {
    MessageData {
        id,
        sender: MessageSender::User(77),
        is_outgoing: true,
        sending_state: None,
        date: Timestamp { unix: 1000, day: CalendarDay { year: 1970, month: 1, day: 1 } },
        edit_date: 0,
        interaction_info: None,
        forward_origin: None,
        reply_to: Some(ReplyTarget { chat_id: 0, message_id: 4 }),
        media_album_id: 9,
        content: content(ContentKind::Video, 1),
    }
}

fn reaction(emoji: &str, count: i32, is_chosen: bool) -> MessageReaction {
    MessageReaction {
        reaction_type: ReactionType::Emoji(String::from(emoji)),
        total_count: count,
        is_chosen,
        used_sender_id: None,
        recent_sender_ids: vec![],
    }
}

fn info(reply_count: Option<i32>, reactions: Vec<MessageReaction>) -> MessageUpdate {
    MessageUpdate::InteractionInfo(Some(InteractionUpdate {
        reply_count,
        reactions: Some(reactions),
    }))
}

#[test]
fn message_tells_what_it_was_made_of() {
    let message = Message::new(MessageData { edit_date: 5, ..data(12) });
    assert_eq!(message.id(), 12);
    assert_eq!(message.sender(), MessageSender::User(77));
    assert_eq!(message.sender().as_user(), Some(77));
    assert_eq!(MessageSender::Chat(-5).as_user(), None);
    assert_eq!(MessageSender::Chat(-5).id(), -5);
    assert!(message.is_outgoing());
    assert!(message.is_edited());
    assert!(!message.is_forwarded());
    assert_eq!(message.reply_to(), Some(ReplyTarget { chat_id: 0, message_id: 4 }));
    assert_eq!(message.interaction_info().reply_count(), 0);

    let in_history = message.history_message(3);
    assert_eq!((in_history.id, in_history.serial), (12, 3));
    assert_eq!(in_history.media_album_id, 9);
    assert!(in_history.is_groupable);
}

#[test]
fn only_media_can_be_grouped() {
    assert!(content(ContentKind::Photo, 1).is_groupable());
    assert!(content(ContentKind::Video, 1).is_groupable());
    assert!(content(ContentKind::Animation, 1).is_groupable());
    assert!(!content(ContentKind::Other, 1).is_groupable());
}

#[test]
fn updates_of_a_message_tell_what_changed() {
    let mut message = Message::new(data(12));
    let changes = message.handle_update(MessageUpdate::Content(content(ContentKind::Photo, 2)));
    assert!(changes.content && !changes.is_edited && !changes.reply_count && !changes.reactions);
    assert_eq!(message.content().kind, ContentKind::Photo);

    let changes = message.handle_update(MessageUpdate::Content(content(ContentKind::Photo, 2)));
    assert!(!changes.content);

    let changes = message.handle_update(MessageUpdate::Edited { edit_date: 9 });
    assert!(changes.is_edited);
    assert!(message.is_edited());
    let changes = message.handle_update(MessageUpdate::Edited { edit_date: 10 });
    assert!(!changes.is_edited);

    let changes = message.handle_update(info(Some(4), vec![reaction("A", 2, false)]));
    assert!(changes.reply_count && changes.reactions);
    assert_eq!(message.interaction_info().reply_count(), 4);
    let changes = message.handle_update(info(Some(4), vec![reaction("A", 3, false)]));
    assert!(!changes.reply_count && changes.reactions);
    let changes = message.handle_update(info(Some(4), vec![reaction("A", 3, false)]));
    assert!(!changes.reply_count && !changes.reactions);
    let changes = message.handle_update(MessageUpdate::InteractionInfo(None));
    assert!(changes.reply_count && changes.reactions);
    assert!(message.interaction_info().reactions().is_empty());
}

#[test]
fn chosen_reactions_are_removed() {
    let mut message = Message::new(data(12));
    let heart = String::from("heart");
    assert_eq!(message.toggle_reaction(&heart), ReactionToggle::Add);
    message.handle_update(info(None, vec![reaction("heart", 2, false)]));
    assert_eq!(message.toggle_reaction(&heart), ReactionToggle::Add);
    message.handle_update(info(None, vec![reaction("fire", 1, true), reaction("heart", 2, true)]));
    assert_eq!(message.toggle_reaction(&heart), ReactionToggle::Remove);
    assert_eq!(message.toggle_reaction(&String::from("fire")), ReactionToggle::Remove);
    assert_eq!(message.toggle_reaction(&String::from("wave")), ReactionToggle::Add);
}

#[test]
fn properties_are_fetched_once() {
    let mut message = Message::new(data(12));
    assert!(message.fetch_properties());
    assert!(!message.fetch_properties());
    let properties = MessageProperties {
        can_be_edited: true,
        can_be_deleted_only_for_self: false,
        can_be_deleted_for_all_users: true,
    };
    message.set_properties(properties);
    assert_eq!(message.properties(), properties);
}

#[test]
fn forwarded_messages_in_the_own_chat_show_their_origin() {
    let message = Message::new(data(12));
    assert!(matches!(message.sender_name(), DisplayName::User(77)));
    assert!(matches!(message.sender_display_name(false), DisplayName::User(77)));

    let shown = |origin| {
        Message::new(MessageData { forward_origin: Some(origin), ..data(12) })
            .sender_display_name(true)
    };
    assert!(matches!(shown(MessageForwardOrigin::User(5)), DisplayName::User(5)));
    assert!(matches!(shown(MessageForwardOrigin::Chat(6)), DisplayName::Chat(6)));
    assert!(matches!(shown(MessageForwardOrigin::Channel(7)), DisplayName::Chat(7)));
    match shown(MessageForwardOrigin::HiddenUser(String::from("Ann"))) {
        DisplayName::Text(name) => assert_eq!(name, "Ann"),
        _ => panic!("the name of a hidden user is shown"),
    }

    let from_chat = Message::new(MessageData { sender: MessageSender::Chat(3), ..data(12) });
    assert!(matches!(from_chat.sender_name(), DisplayName::Chat(3)));
}

#[test]
fn available_reactions_occur_once() {
    let offer = |emoji: &str, needs_premium| AvailableReaction {
        reaction_type: ReactionType::Emoji(String::from(emoji)),
        needs_premium,
    };
    let paid = || AvailableReaction { reaction_type: ReactionType::Paid, needs_premium: false };
    let offered = available_reactions(
        vec![offer("a", false), offer("b", true), paid()],
        vec![offer("c", false), offer("a", true), paid()],
    );
    let shown: Vec<(&ReactionType, bool)> =
        offered.iter().map(|r| (&r.reaction_type, r.needs_premium)).collect();
    assert_eq!(
        shown,
        [
            (&ReactionType::Emoji(String::from("a")), false),
            (&ReactionType::Emoji(String::from("b")), true),
            (&ReactionType::Paid, false),
            (&ReactionType::Emoji(String::from("c")), false),
        ],
    );
}

#[test]
fn media_is_downloaded_as_configured() {
    let settings = MediaSettings {
        auto_download_media: true,
        auto_download_photos: true,
        auto_download_videos: true,
        auto_download_videos_max_size: 1000,
        auto_download_files: false,
        auto_download_files_max_size: 1000,
        autoplay_videos: true,
    };
    assert!(settings.should_auto_download(MediaType::Photo, u64::MAX));
    assert!(settings.should_auto_download(MediaType::Video, 1000));
    assert!(!settings.should_auto_download(MediaType::Video, 1001));
    assert!(!settings.should_auto_download(MediaType::File, 1));
    assert!(settings.should_autoplay_videos());
    let off = MediaSettings { auto_download_media: false, ..settings };
    assert!(!off.should_auto_download(MediaType::Photo, 1));
    let files = MediaSettings { auto_download_files: true, ..settings };
    assert!(files.should_auto_download(MediaType::File, 1000));
    assert!(!files.should_auto_download(MediaType::File, 1001));
}
