use paper_plane::model::media_manager::MediaSettings;
use paper_plane::model::message::{AvailableReaction, ContentKind};
use paper_plane::model::message_interaction_info::{MessageReaction, ReactionType};
use paper_plane::ui::media_viewer_view::{ViewerEntry, ViewerItem};
use paper_plane::ui::message_row::document::{
    size_label, DocumentAction, DocumentData, DocumentThumbnail, MessageDocument, SizeLabel,
};
use paper_plane::ui::message_row::file_status::{FileStatus, Progress};
use paper_plane::ui::message_row::media_album::{
    tile_kind, viewer_contexts, AlbumAction, AlbumMember, AlbumTile, MessageMediaAlbum, TileKind,
};
use paper_plane::ui::message_row::media_loader::FileData;
use paper_plane::ui::message_row::photo::{MediaRowAction, MessagePhoto};
use paper_plane::ui::message_row::reactions::{chip_label, MessageReactions, MessageStep};
use paper_plane::ui::message_row::reactions_chooser::reaction_buttons;
use paper_plane::ui::message_row::reply::{
    color_class, user_color, MessageReply, RepliedMessage, ReplyAction, ReplyOutcome,
};
use paper_plane::ui::message_row::video::MessageVideo;

fn settings(enabled: bool) -> MediaSettings {
    MediaSettings {
        auto_download_media: enabled,
        auto_download_photos: true,
        auto_download_videos: true,
        auto_download_videos_max_size: 1000,
        auto_download_files: true,
        auto_download_files_max_size: 1000,
        autoplay_videos: false,
    }
}

fn document(status: FileStatus, thumbnail: Option<DocumentThumbnail>) -> DocumentData {
    DocumentData {
        file: FileData {
            id: 6,
            size: 500,
            expected_size: 0,
            status,
            is_downloading_completed: matches!(status, FileStatus::Downloaded),
            path: String::from("/tmp/document"),
            snapshot: 1,
        },
        thumbnail,
        has_minithumbnail: true,
    }
}

#[test]
fn document_is_downloaded_even_if_it_is_not_shown() {
    let mut row = MessageDocument::new();
    row.set_message(&settings(true), 1, Some(document(FileStatus::CanBeDownloaded, None)), false);
    let actions = row.take_actions();
    assert!(actions.contains(&DocumentAction::StartDownload(6)));
    assert!(actions.contains(&DocumentAction::SetIndicatorMasked(true)));
    assert!(actions.contains(&DocumentAction::ClearThumbnail));
    assert_eq!(*actions.last().unwrap(), DocumentAction::NotifyMessage);
    // Clicks are ignored while it is downloaded automatically.
    assert_eq!(row.handle_click(), None);
    assert_eq!(row.take_actions(), []);
    row.set_message(&settings(true), 1, None, false);
    assert_eq!(row.take_actions(), []);
}

#[test]
fn downloaded_document_is_opened() {
    let mut row = MessageDocument::new();
    row.set_message(&settings(false), 1, Some(document(FileStatus::CanBeDownloaded, None)), true);
    row.take_actions();
    assert_eq!(row.handle_click(), None);
    assert!(row.take_actions().contains(&DocumentAction::StartDownload(6)));
    assert_eq!(row.handle_click(), None);
    assert_eq!(row.take_actions()[0], DocumentAction::CancelDownload(6));
    row.handle_file_update(document(FileStatus::Downloaded, None).file);
    assert_eq!(
        row.take_actions(),
        [
            DocumentAction::SetIndicatorStatus(FileStatus::Downloaded),
            DocumentAction::UpdateSizeLabel,
            DocumentAction::HideIndicatorOnThumbnail,
        ],
    );
    assert_eq!(row.handle_click().unwrap(), "/tmp/document");
    assert_eq!(row.size_label(), SizeLabel::Whole { size: 500 });
}

#[test]
fn thumbnail_of_a_document_is_downloaded_when_it_is_shown() {
    let thumbnail = DocumentThumbnail { file_id: 8, is_downloading_completed: false };
    let mut row = MessageDocument::new();
    row.set_message(
        &settings(false),
        1,
        Some(document(FileStatus::CanBeDownloaded, Some(thumbnail))),
        false,
    );
    let actions = row.take_actions();
    assert!(actions.contains(&DocumentAction::ShowMinithumbnail));
    assert!(!actions.contains(&DocumentAction::DownloadThumbnail(8)));
    row.map();
    assert_eq!(row.take_actions(), [DocumentAction::DownloadThumbnail(8)]);
    row.map();
    assert_eq!(row.take_actions(), []);

    let downloaded = DocumentThumbnail { file_id: 8, is_downloading_completed: true };
    row.update_document(
        &settings(false),
        document(FileStatus::CanBeDownloaded, Some(downloaded)),
        true,
    );
    assert!(row.take_actions().contains(&DocumentAction::ShowThumbnailFile));

    // Nor is the thumbnail of a document that was only scrolled past.
    let pending = document(FileStatus::CanBeDownloaded, Some(thumbnail));
    row.update_document(&settings(false), pending, false);
    row.update_document(&settings(false), document(FileStatus::CanBeDownloaded, None), false);
    row.take_actions();
    row.map();
    assert_eq!(row.take_actions(), []);

    // Nothing is downloaded for a message that is gone.
    row.release_message();
    row.update_document(
        &settings(false),
        document(FileStatus::CanBeDownloaded, Some(thumbnail)),
        true,
    );
    assert!(!row.take_actions().contains(&DocumentAction::DownloadThumbnail(8)));
}

#[test]
fn size_label_tells_what_was_transferred() {
    let half = Progress { bits: 0.5f64.to_bits() };
    assert_eq!(
        size_label(FileStatus::Downloading(half), 10),
        SizeLabel::Transferred { progress: half, of: 10 },
    );
    assert_eq!(
        size_label(FileStatus::Uploading(half), 10),
        SizeLabel::Transferred { progress: half, of: 10 },
    );
    assert_eq!(size_label(FileStatus::CanBeDownloaded, 10), SizeLabel::Whole { size: 10 });
}

#[test]
fn tiles_fit_their_content() {
    assert_eq!(tile_kind(ContentKind::Photo), TileKind::Photo);
    assert_eq!(tile_kind(ContentKind::Video), TileKind::Video);
    assert_eq!(tile_kind(ContentKind::Animation), TileKind::Animation);
    assert_eq!(tile_kind(ContentKind::Other), TileKind::Unsupported);
}

#[test]
fn tiles_of_an_album_open_the_viewer_on_the_whole_album() {
    let photo = ViewerItem::Photo { size: 1 };
    let video = ViewerItem::Video { is_animation: false };
    let tile = |item| Some(AlbumTile { is_media: true, item });
    let member = |id, tile, content_item| AlbumMember { id, serial: id as u64, tile, content_item };
    let contexts = viewer_contexts(&vec![
        member(1, tile(Some(photo)), None),
        member(2, None, Some(video)),
        member(3, Some(AlbumTile { is_media: false, item: None }), None),
        member(4, tile(None), Some(video)),
        member(5, tile(None), None),
    ]);
    assert_eq!(
        contexts.entries,
        [
            ViewerEntry { item: photo, message_id: 1, serial: 1 },
            ViewerEntry { item: video, message_id: 2, serial: 2 },
            ViewerEntry { item: video, message_id: 4, serial: 4 },
        ],
    );
    assert_eq!(contexts.indices, [Some(0), None, None, Some(2), None]);
}

#[test]
fn appended_messages_keep_the_tiles_of_an_album() {
    let mut row = MessageMediaAlbum::new();
    row.set_message(1, 70, &vec![4, 5]);
    assert_eq!(
        row.take_actions(),
        [
            AlbumAction::UpdateBubble,
            AlbumAction::UpdateCaption,
            AlbumAction::ClearGrid,
            AlbumAction::AppendTile(4),
            AlbumAction::AppendTile(5),
            AlbumAction::UpdateViewerContexts,
            AlbumAction::ConnectAlbum(70),
            AlbumAction::NotifyMessage,
        ],
    );
    row.handle_items_changed(&vec![4, 5, 6], 2, 0, 1);
    assert_eq!(
        row.take_actions(),
        [
            AlbumAction::UpdateCaption,
            AlbumAction::AppendTile(6),
            AlbumAction::UpdateViewerContexts,
        ],
    );
    row.handle_items_changed(&vec![3, 4, 5, 6], 0, 0, 1);
    assert_eq!(row.take_actions()[1], AlbumAction::ClearGrid);
    assert_eq!(*row.tiles(), [3, 4, 5, 6]);
    row.handle_items_changed(&vec![3, 5, 6], 1, 1, 0);
    assert_eq!(*row.tiles(), [3, 5, 6]);
    row.handle_items_changed(&vec![], 0, 3, 0);
    assert!(row.tiles().is_empty());
}

#[test]
fn row_of_an_album_is_rebound_to_another_album() {
    let mut row = MessageMediaAlbum::new();
    row.set_message(1, 70, &vec![4, 5]);
    row.take_actions();
    row.set_message(1, 70, &vec![4]);
    assert_eq!(row.take_actions(), []);
    row.set_message(1, 71, &vec![8]);
    assert!(row.take_actions().contains(&AlbumAction::DisconnectAlbum(70)));
    row.set_message(2, 71, &vec![8]);
    assert_eq!(row.take_actions(), [AlbumAction::UpdateBubble, AlbumAction::NotifyMessage]);
    row.dispose();
    assert_eq!(row.take_actions(), [AlbumAction::DisconnectAlbum(71)]);
}

#[test]
fn rows_of_single_media_are_rebound() {
    let mut row = MessagePhoto::new();
    row.set_message(1);
    assert_eq!(
        row.take_actions(),
        [
            MediaRowAction::UpdateBubble,
            MediaRowAction::BindCaption,
            MediaRowAction::ConnectMessage,
            MediaRowAction::SetTileMessage,
            MediaRowAction::SetPhoto,
            MediaRowAction::NotifyMessage,
        ],
    );
    row.set_message(1);
    assert_eq!(row.take_actions(), []);
    row.set_message(2);
    assert_eq!(
        row.take_actions()[..2],
        [MediaRowAction::UnbindCaption, MediaRowAction::DisconnectMessage],
    );
    row.update_photo(ContentKind::Video);
    assert_eq!(row.take_actions(), []);
    row.release_message();
    row.set_message(3);
    assert_eq!(
        row.take_actions()[..2],
        [MediaRowAction::UnbindCaption, MediaRowAction::UpdateBubble],
    );

    let mut row = MessageVideo::new();
    row.set_message(1, ContentKind::Animation);
    assert!(row.take_actions().contains(&MediaRowAction::SetAnimation));
    row.update_content(ContentKind::Video);
    assert_eq!(row.take_actions(), [MediaRowAction::SetTileMessage, MediaRowAction::SetVideo]);
    row.release_message();
}

fn reaction(reaction_type: ReactionType, total_count: i32, is_chosen: bool) -> MessageReaction {
    MessageReaction {
        reaction_type,
        total_count,
        is_chosen,
        used_sender_id: None,
        recent_sender_ids: vec![],
    }
}

fn emoji(text: &str) -> ReactionType {
    ReactionType::Emoji(String::from(text))
}

#[test]
fn reactions_are_shown_as_chips() {
    let mut strip = MessageReactions::new();
    assert!(strip.set_reactions(vec![]).is_none());
    let shown = strip
        .set_reactions(vec![
            reaction(emoji("A"), 3, true),
            reaction(ReactionType::CustomEmoji(4), 2, false),
            reaction(ReactionType::Paid, 2, false),
            reaction(emoji("B"), 1, false),
        ])
        .unwrap();
    assert!(shown.is_visible);
    let chips: Vec<(&str, i32, bool)> = shown
        .chips
        .iter()
        .map(|chip| (chip.emoji.as_str(), chip.total_count, chip.is_chosen))
        .collect();
    assert_eq!(chips, [("A", 3, true), ("B", 1, false)]);
    assert!(!strip.set_reactions(vec![]).unwrap().is_visible);
    // The strip is visible even if none of the reactions is shown.
    let shown = strip.set_reactions(vec![reaction(ReactionType::Paid, 2, false)]).unwrap();
    assert!(shown.is_visible && shown.chips.is_empty());
    assert_eq!(chip_label("A", -12), "A -12");
}

#[test]
fn reactions_of_a_message_are_followed() {
    let mut strip = MessageReactions::new();
    let step = |unbind, bind, clear| MessageStep { unbind, bind, clear };
    assert_eq!(strip.set_message(Some(4)), step(false, true, false));
    assert_eq!(strip.set_message(Some(4)), step(false, false, false));
    assert_eq!(strip.set_message(Some(5)), step(true, true, false));
    assert_eq!(strip.message(), Some(5));
    assert_eq!(strip.set_message(None), step(true, false, true));
    assert_eq!(strip.set_message(None), step(false, false, true));
}

#[test]
fn plain_emojis_can_be_chosen_as_reactions() {
    let offer = |reaction_type, needs_premium| AvailableReaction { reaction_type, needs_premium };
    let buttons = reaction_buttons(&vec![
        offer(emoji("A"), true),
        offer(ReactionType::CustomEmoji(1), false),
        offer(ReactionType::Paid, false),
        offer(emoji("B"), false),
    ]);
    let shown: Vec<(&str, bool)> =
        buttons.iter().map(|button| (button.emoji.as_str(), button.is_premium)).collect();
    assert_eq!(shown, [("A", true), ("B", false)]);
}

#[test]
fn replied_message_is_fetched_when_it_is_shown() {
    let mut reply = MessageReply::new();
    assert_eq!(reply.jump_target(1, Some(10)), None);
    reply.map(0, 33);
    assert_eq!(reply.take_actions(), [ReplyAction::Fetch { chat_id: 0, message_id: 33 }]);
    reply.map(0, 33);
    assert_eq!(reply.take_actions(), []);
    // A failed fetch is made again.
    reply.handle_loaded(ReplyOutcome::Failed, false);
    reply.map(0, 33);
    assert_eq!(reply.take_actions(), [ReplyAction::Fetch { chat_id: 0, message_id: 33 }]);
    let replied = RepliedMessage { is_in_channel: false, user_id: Some(9) };
    reply.handle_loaded(ReplyOutcome::Found(replied), false);
    assert_eq!(
        reply.take_actions(),
        [
            ReplyAction::BindSender,
            ReplyAction::AddColor(2),
            ReplyAction::ShowSender,
            ReplyAction::ShowContent,
        ],
    );
    reply.map(0, 33);
    assert_eq!(reply.take_actions(), []);
    assert_eq!(reply.jump_target(1, Some(10)), Some(33));
    assert_eq!(reply.jump_target(2, Some(10)), None);
    assert_eq!(reply.jump_target(1, None), None);
}

#[test]
fn replies_without_a_sender_or_a_message_are_shown() {
    let mut reply = MessageReply::new();
    reply.map(99, 33);
    reply.take_actions();
    let in_channel = RepliedMessage { is_in_channel: true, user_id: Some(9) };
    reply.handle_loaded(ReplyOutcome::Found(in_channel), false);
    assert_eq!(reply.take_actions(), [ReplyAction::ShowContent]);
    // Jumping to another chat is not supported.
    assert_eq!(reply.jump_target(1, Some(10)), None);
    assert_eq!(reply.jump_target(1, Some(99)), Some(33));

    let mut reply = MessageReply::new();
    reply.map(0, 33);
    reply.take_actions();
    reply.handle_loaded(ReplyOutcome::Deleted, false);
    assert_eq!(reply.take_actions(), [ReplyAction::ShowDeleted]);

    // The sender of a message that is replied to by the user has no color.
    let mut reply = MessageReply::new();
    reply.map(0, 33);
    reply.take_actions();
    let replied = RepliedMessage { is_in_channel: false, user_id: Some(9) };
    reply.handle_loaded(ReplyOutcome::Found(replied), true);
    assert_eq!(
        reply.take_actions(),
        [ReplyAction::BindSender, ReplyAction::ShowSender, ReplyAction::ShowContent],
    );
}

#[test]
fn users_have_one_of_seven_colors() {
    assert_eq!(user_color(0), 0);
    assert_eq!(user_color(13), 6);
    assert_eq!(user_color(-1), u64::MAX % 7);
    let classes: Vec<&str> = (0..7).map(color_class).collect();
    assert_eq!(
        classes,
        [
            "sender-text-red",
            "sender-text-orange",
            "sender-text-violet",
            "sender-text-green",
            "sender-text-cyan",
            "sender-text-blue",
            "sender-text-pink",
        ],
    );
}
