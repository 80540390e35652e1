use paper_plane::model::media_manager::MediaSettings;
use paper_plane::ui::media_viewer_page::{MediaViewerPage, PageAction};
use paper_plane::ui::media_viewer_view::ViewerItem;
use paper_plane::ui::message_row::file_status::FileStatus;
use paper_plane::ui::message_row::media_loader::FileData;
use paper_plane::ui::message_row::voice::{waveform_progress, MessageVoiceNote, VoiceAction};
use paper_plane::ui::playback_manager::{PlaybackAction, PlaybackHook, PlaybackManager};

fn hook(owner: u64) -> PlaybackHook {
    PlaybackHook { owner, generation: 0 }
}

fn settings(enabled: bool) -> MediaSettings {
    MediaSettings {
        auto_download_media: enabled,
        auto_download_photos: true,
        auto_download_videos: true,
        auto_download_videos_max_size: 1000,
        auto_download_files: true,
        auto_download_files_max_size: 1000,
        autoplay_videos: false,
    }
}

fn file(id: i32, status: FileStatus, path: &str) -> FileData {
    FileData {
        id,
        size: 500,
        expected_size: 500,
        status,
        is_downloading_completed: matches!(status, FileStatus::Downloaded),
        path: String::from(path),
        snapshot: 1,
    }
}

const VIDEO: ViewerItem = ViewerItem::Video { is_animation: false };
const PHOTO: ViewerItem = ViewerItem::Photo { size: 0 };

#[test]
fn playback_is_taken_over() {
    let mut manager = PlaybackManager::new();
    manager.play_file("/a", hook(1));
    assert_eq!(
        manager.take_actions(),
        [
            PlaybackAction::Pause,
            PlaybackAction::Clear,
            PlaybackAction::Load,
            PlaybackAction::CheckPrepared,
        ],
    );
    assert!(manager.is_current("/a"));
    assert_eq!(manager.current_path().unwrap(), "/a");
    manager.connect_playing(hook(1));
    manager.take_actions();

    manager.play_file("/b", hook(2));
    let actions = manager.take_actions();
    assert_eq!(
        actions[..2],
        [PlaybackAction::Reset(hook(1)), PlaybackAction::DisconnectPlaying(hook(1))],
    );
    assert!(!manager.is_current("/a"));
    assert_eq!(manager.handle_prepared(true), Some(hook(2)));
    assert_eq!(manager.handle_prepared(false), None);
    assert_eq!(manager.handle_error(true), Some(hook(2)));
    assert_eq!(manager.handle_error(false), None);
}

#[test]
fn stopped_playback_frees_the_stream() {
    let mut manager = PlaybackManager::new();
    manager.play_file("/a", hook(1));
    manager.toggle_pause();
    manager.take_actions();
    manager.stop();
    assert_eq!(
        manager.take_actions(),
        [PlaybackAction::Reset(hook(1)), PlaybackAction::Pause, PlaybackAction::Clear],
    );
    assert!(!manager.is_current("/a"));
    assert_eq!(manager.handle_prepared(true), None);
    manager.stop();
    assert_eq!(manager.take_actions(), [PlaybackAction::Pause, PlaybackAction::Clear]);
}

#[test]
fn connection_to_the_playing_state_is_replaced() {
    let mut manager = PlaybackManager::new();
    manager.connect_playing(hook(1));
    manager.connect_playing(hook(2));
    manager.dispose();
    assert_eq!(
        manager.take_actions(),
        [
            PlaybackAction::ConnectPlaying(hook(1)),
            PlaybackAction::DisconnectPlaying(hook(1)),
            PlaybackAction::ConnectPlaying(hook(2)),
            PlaybackAction::DisconnectPlaying(hook(2)),
        ],
    );
}

#[test]
fn voice_note_is_played_once_it_is_downloaded() {
    let mut manager = PlaybackManager::new();
    let mut row = MessageVoiceNote::new(1);
    row.set_message(&settings(false), 9, file(3, FileStatus::CanBeDownloaded, ""));
    let actions = row.take_actions();
    assert_eq!(actions[0], VoiceAction::ConnectMessage);
    assert_eq!(*actions.last().unwrap(), VoiceAction::NotifyMessage);
    assert!(!row.toggle_playback(&mut manager));

    row.handle_click();
    assert!(row.take_actions().contains(&VoiceAction::StartDownload(3)));
    row.handle_file_update(file(3, FileStatus::Downloaded, "/voice"));
    assert_eq!(
        row.take_actions(),
        [VoiceAction::SetButtonVisible(false), VoiceAction::TogglePlayback],
    );

    assert!(row.toggle_playback(&mut manager));
    assert!(manager.is_current("/voice"));
    assert_eq!(
        manager.take_actions()[0],
        PlaybackAction::Configure { muted: false, looped: false },
    );
    row.playback_started(&mut manager);
    assert_eq!(row.take_actions(), [VoiceAction::ConnectProgress, VoiceAction::SetPlayIcon(true)]);
    row.handle_prepared();
    assert_eq!(row.take_actions(), [VoiceAction::UpdateProgress, VoiceAction::Play]);
    manager.take_actions();

    // Toggling again pauses it.
    assert!(!row.toggle_playback(&mut manager));
    assert_eq!(manager.take_actions(), [PlaybackAction::TogglePlaying]);
    row.handle_playing(false);
    assert_eq!(row.take_actions(), [VoiceAction::SetPlayIcon(false)]);
}

#[test]
fn voice_note_that_was_downloaded_automatically_does_not_play() {
    let mut row = MessageVoiceNote::new(1);
    row.set_message(&settings(true), 9, file(3, FileStatus::CanBeDownloaded, ""));
    assert!(row.take_actions().contains(&VoiceAction::StartDownload(3)));
    row.handle_file_update(file(3, FileStatus::Downloaded, "/voice"));
    assert_eq!(row.take_actions(), [VoiceAction::SetButtonVisible(false)]);
    // The same message is not set again.
    row.set_message(&settings(true), 9, file(4, FileStatus::CanBeDownloaded, ""));
    assert_eq!(row.take_actions(), []);
}

#[test]
fn clicked_voice_note_can_be_canceled() {
    let mut row = MessageVoiceNote::new(1);
    row.set_message(&settings(false), 9, file(3, FileStatus::CanBeDownloaded, ""));
    row.handle_click();
    row.take_actions();
    row.handle_click();
    assert_eq!(row.take_actions()[0], VoiceAction::CancelDownload(3));
}

#[test]
fn voice_note_that_lost_the_stream_resets_its_ui() {
    let mut manager = PlaybackManager::new();
    let mut row = MessageVoiceNote::new(1);
    row.set_message(&settings(false), 9, file(3, FileStatus::Downloaded, "/voice"));
    row.toggle_playback(&mut manager);
    row.playback_started(&mut manager);
    row.take_actions();
    row.reset_playback_ui();
    assert_eq!(
        row.take_actions(),
        [
            VoiceAction::DisconnectProgress,
            VoiceAction::SetPlayIcon(false),
            VoiceAction::ResetProgress,
        ],
    );
    row.dispose(&mut manager);
    assert!(!manager.is_current("/voice"));
}

#[test]
fn waveform_progress_needs_a_duration() {
    assert_eq!(waveform_progress(5, 10), Some((5, 10)));
    assert_eq!(waveform_progress(5, 0), None);
}

#[test]
fn active_page_plays_its_video() {
    let mut manager = PlaybackManager::new();
    let mut page = MediaViewerPage::new(7);
    page.set_item(&mut manager, &settings(false), VIDEO, file(3, FileStatus::Downloaded, "/v"), true);
    assert_eq!(manager.take_actions(), []);
    page.take_actions();
    page.activate(&mut manager);
    let played = PlaybackHook { owner: 7, generation: 1 };
    assert_eq!(manager.handle_prepared(true), Some(played));
    assert_eq!(
        manager.take_actions()[0],
        PlaybackAction::Configure { muted: false, looped: false },
    );
    page.take_actions();
    page.handle_prepared(1);
    assert_eq!(page.take_actions(), [PageAction::BindVideo, PageAction::Play]);

    page.deactivate(&mut manager);
    assert!(!manager.is_current("/v"));
    assert_eq!(
        page.take_actions(),
        [
            PageAction::UnbindVideo,
            PageAction::ShowPlaceholder,
            PageAction::ShowPicture,
            PageAction::StorePlaceholder,
            PageAction::ShowPlaceholder,
        ],
    );
    page.handle_prepared(1);
    assert_eq!(page.take_actions(), []);
}

#[test]
fn animations_are_muted_and_looped_in_the_viewer() {
    let mut manager = PlaybackManager::new();
    let mut page = MediaViewerPage::new(7);
    let item = ViewerItem::Video { is_animation: true };
    page.set_item(&mut manager, &settings(false), item, file(3, FileStatus::Downloaded, "/v"), true);
    page.activate(&mut manager);
    assert_eq!(
        manager.take_actions()[0],
        PlaybackAction::Configure { muted: true, looped: true },
    );
}

#[test]
fn active_page_downloads_its_video() {
    let mut manager = PlaybackManager::new();
    let mut page = MediaViewerPage::new(7);
    let missing = file(3, FileStatus::CanBeDownloaded, "");
    page.set_item(&mut manager, &settings(false), VIDEO, missing, true);
    assert!(!page.take_actions().contains(&PageAction::StartDownload(3)));
    page.activate(&mut manager);
    assert!(page.take_actions().contains(&PageAction::StartDownload(3)));
    page.handle_file_update(&mut manager, file(3, FileStatus::Downloaded, "/v"));
    assert!(manager.is_current("/v"));
}

#[test]
fn clicked_page_downloads_or_cancels() {
    let mut manager = PlaybackManager::new();
    let mut page = MediaViewerPage::new(7);
    let missing = file(3, FileStatus::CanBeDownloaded, "");
    page.set_item(&mut manager, &settings(false), PHOTO, missing, true);
    page.take_actions();
    page.handle_click(&mut manager);
    assert!(page.take_actions().contains(&PageAction::StartDownload(3)));
    page.handle_click(&mut manager);
    assert_eq!(page.take_actions()[0], PageAction::CancelDownload(3));
}

#[test]
fn photos_are_decoded_once_and_shown_while_displayed() {
    let mut manager = PlaybackManager::new();
    let mut page = MediaViewerPage::new(7);
    page.set_item(&mut manager, &settings(false), PHOTO, file(3, FileStatus::Downloaded, "/p"), true);
    let decode = PageAction::DecodePhoto { generation: 1 };
    assert_eq!(page.take_actions().iter().filter(|action| **action == decode).count(), 1);
    page.handle_decoded(1, true);
    assert_eq!(page.take_actions(), [PageAction::StoreDecoded]);
    page.activate(&mut manager);
    assert_eq!(page.take_actions(), [PageAction::ShowPlaceholder]);
    page.handle_decoded(1, true);
    assert_eq!(page.take_actions(), [PageAction::ShowDecoded]);
    page.handle_decoded(0, true);
    page.handle_decoded(1, false);
    assert_eq!(page.take_actions(), []);
    // The photo stays when the page is activated again.
    page.activate(&mut manager);
    assert_eq!(page.take_actions(), []);
}

#[test]
fn left_pages_drop_their_photos() {
    let mut manager = PlaybackManager::new();
    let mut page = MediaViewerPage::new(7);
    page.set_item(&mut manager, &settings(false), PHOTO, file(3, FileStatus::Downloaded, "/p"), true);
    page.activate(&mut manager);
    page.take_actions();
    page.handle_decoded(1, true);
    assert_eq!(page.take_actions(), [PageAction::ShowDecoded]);
    page.deactivate(&mut manager);
    let dropped = [PageAction::StorePlaceholder, PageAction::ShowPlaceholder];
    assert_eq!(page.take_actions(), dropped);

    // It is decoded anew once the page is displayed again.
    page.activate(&mut manager);
    let decode = PageAction::DecodePhoto { generation: 1 };
    assert_eq!(page.take_actions(), [PageAction::ShowPlaceholder, decode]);

    // What arrives after the page was left is its preview from then on.
    page.deactivate(&mut manager);
    assert_eq!(page.take_actions(), dropped);
    page.handle_decoded(1, true);
    assert_eq!(page.take_actions(), [PageAction::StoreDecoded]);
    page.activate(&mut manager);
    assert_eq!(page.take_actions(), [PageAction::ShowPlaceholder]);
}
