use paper_plane::model::media_manager::MediaSettings;
use paper_plane::ui::media_viewer_view::{ViewerEntry, ViewerItem};
use paper_plane::ui::message_row::file_status::{FileStatus, Progress};
use paper_plane::ui::message_row::media_loader::FileData;
use paper_plane::ui::message_row::media_photo_tile::MediaPhotoTile;
use paper_plane::ui::message_row::media_video_tile::{MediaVideoTile, StreamState};
use paper_plane::ui::message_row::tile::{TileAction, TileMessage, ViewerContext};

const IDLE: StreamState = StreamState { is_prepared: false, is_playing: false };
const READY: StreamState = StreamState { is_prepared: true, is_playing: false };
const PLAYING: StreamState = StreamState { is_prepared: true, is_playing: true };

fn settings(enabled: bool) -> MediaSettings {
    MediaSettings {
        auto_download_media: enabled,
        auto_download_photos: true,
        auto_download_videos: true,
        auto_download_videos_max_size: 1000,
        auto_download_files: true,
        auto_download_files_max_size: 1000,
        autoplay_videos: false,
    }
}

fn file(id: i32, status: FileStatus) -> FileData {
    FileData {
        id,
        size: 500,
        expected_size: 500,
        status,
        is_downloading_completed: matches!(status, FileStatus::Downloaded),
        path: String::from("/tmp/media"),
        snapshot: 1,
    }
}

fn message() -> TileMessage {
    TileMessage { id: 44, serial: 2 }
}

fn animation(status: FileStatus) -> MediaVideoTile {
    let mut tile = MediaVideoTile::new();
    tile.update_media(&settings(false), file(3, status), 0, true, true);
    tile.set_visible_on_screen(true, IDLE);
    tile.take_actions();
    tile
}

#[test]
fn photo_is_downloaded_on_click() {
    let mut tile = MediaPhotoTile::new();
    tile.set_photo(&settings(false), 3, Some(file(5, FileStatus::CanBeDownloaded)), true);
    let actions = tile.take_actions();
    assert!(actions.contains(&TileAction::ShowPreview));
    assert!(actions.contains(&TileAction::SetButtonVisible(true)));
    assert!(!actions.contains(&TileAction::StartDownload(5)));

    assert!(tile.handle_click().is_none());
    assert!(tile.take_actions().contains(&TileAction::StartDownload(5)));
    // Another click cancels the download.
    tile.handle_click();
    assert_eq!(tile.take_actions()[0], TileAction::CancelDownload(5));
    tile.handle_click();
    tile.take_actions();
    tile.handle_file_update(file(5, FileStatus::Downloaded));
    assert_eq!(
        tile.take_actions(),
        [TileAction::SetButtonVisible(false), TileAction::LoadImage],
    );
}

#[test]
fn photo_is_downloaded_automatically_when_it_is_shown() {
    let mut tile = MediaPhotoTile::new();
    tile.set_photo(&settings(true), 3, Some(file(5, FileStatus::CanBeDownloaded)), false);
    assert!(!tile.take_actions().contains(&TileAction::StartDownload(5)));
    tile.map();
    let actions = tile.take_actions();
    assert!(actions.contains(&TileAction::StartDownload(5)));
    assert!(actions.contains(&TileAction::SetButtonVisible(false)));
    // Clicks are ignored meanwhile.
    assert!(tile.handle_click().is_none());
    assert_eq!(tile.take_actions(), []);
}

#[test]
fn downloaded_photo_opens_the_viewer() {
    let mut tile = MediaPhotoTile::new();
    tile.set_photo(&settings(false), 3, Some(file(5, FileStatus::Downloaded)), true);
    assert!(tile.handle_click().is_none());
    tile.set_message(Some(message()));
    let opened = tile.handle_click().unwrap();
    assert_eq!(opened.index, 0);
    let entry = ViewerEntry { item: ViewerItem::Photo { size: 2 }, message_id: 44, serial: 2 };
    assert_eq!(opened.entries, [entry]);

    let other = ViewerEntry { message_id: 43, ..entry };
    tile.set_viewer_context(ViewerContext { entries: vec![other, entry], index: 1 });
    let opened = tile.handle_click().unwrap();
    assert_eq!((opened.entries.len(), opened.index), (2, 1));
}

#[test]
fn photo_without_sizes_shows_nothing() {
    let mut tile = MediaPhotoTile::new();
    assert_eq!(tile.viewer_item(), None);
    tile.set_photo(&settings(true), 0, None, true);
    assert_eq!(tile.take_actions(), [TileAction::BumpThumbnail, TileAction::ClearPicture]);
    assert_eq!(tile.viewer_item(), None);
}

#[test]
fn scale_factor_changes_the_size_of_a_photo() {
    let mut tile = MediaPhotoTile::new();
    tile.update_photo_size(&settings(true), Some(file(6, FileStatus::Downloaded)), true);
    assert_eq!(tile.take_actions(), []);
    tile.set_photo(&settings(true), 2, Some(file(5, FileStatus::Downloaded)), true);
    tile.take_actions();
    tile.update_photo_size(&settings(true), Some(file(6, FileStatus::Downloaded)), true);
    assert_eq!(tile.loader().file_id(), 6);
    assert_eq!(
        tile.take_actions(),
        [TileAction::BindThumbnail, TileAction::SetButtonVisible(false), TileAction::LoadImage],
    );
}

#[test]
fn clicked_animation_plays_as_soon_as_it_is_ready() {
    let mut tile = animation(FileStatus::Downloaded);
    tile.handle_click(IDLE);
    let actions = tile.take_actions();
    assert!(actions.contains(&TileAction::OpenStream { looped: true }));
    assert!(!actions.contains(&TileAction::PlayStream));
    tile.handle_prepared(READY);
    assert_eq!(tile.take_actions(), [TileAction::PlayStream]);
    // Clicking again pauses it.
    tile.handle_click(PLAYING);
    assert_eq!(tile.take_actions(), [TileAction::PauseStream]);
    // It stays paused when it comes in sight again.
    tile.set_visible_on_screen(false, READY);
    tile.set_visible_on_screen(true, READY);
    assert_eq!(tile.take_actions(), []);
    tile.handle_click(READY);
    assert_eq!(tile.take_actions(), [TileAction::PlayStream]);
}

#[test]
fn animation_out_of_sight_is_paused() {
    let mut tile = animation(FileStatus::Downloaded);
    tile.handle_click(IDLE);
    tile.take_actions();
    // The playback that was asked for waits until the content is in sight.
    tile.set_visible_on_screen(false, IDLE);
    tile.handle_prepared(READY);
    assert_eq!(tile.take_actions(), []);
    tile.set_visible_on_screen(true, READY);
    assert_eq!(tile.take_actions(), [TileAction::PlayStream]);
    tile.set_visible_on_screen(false, PLAYING);
    assert_eq!(tile.take_actions(), [TileAction::PauseStream]);
}

#[test]
fn hidden_animation_is_closed() {
    let mut tile = animation(FileStatus::Downloaded);
    tile.handle_click(IDLE);
    tile.take_actions();
    tile.unmap(PLAYING);
    assert_eq!(tile.take_actions(), [TileAction::CloseStream, TileAction::TryShowThumbnail]);
    // It is played again by another click.
    tile.map();
    tile.set_visible_on_screen(true, IDLE);
    tile.take_actions();
    tile.handle_click(IDLE);
    assert!(tile.take_actions().contains(&TileAction::OpenStream { looped: true }));
    tile.handle_prepared(READY);
    assert_eq!(tile.take_actions(), [TileAction::PlayStream]);
}

#[test]
fn downloaded_video_opens_the_viewer() {
    let mut tile = MediaVideoTile::new();
    tile.set_message(Some(message()));
    tile.update_media(&settings(false), file(3, FileStatus::Downloaded), 65, false, true);
    let opened = tile.handle_click(IDLE).unwrap();
    assert_eq!(opened.entries[0].item, ViewerItem::Video { is_animation: false });
    assert!(!tile.take_actions().iter().any(|action| matches!(
        action,
        TileAction::OpenStream { .. }
    )));
}

#[test]
fn indicator_tells_duration_and_size() {
    let mut tile = MediaVideoTile::new();
    tile.update_media(&settings(false), file(3, FileStatus::CanBeDownloaded), 65, false, true);
    let indicator = tile.indicator();
    assert_eq!((indicator.text.as_str(), indicator.size), ("1:05", Some(500)));
    tile.handle_file_update(file(3, FileStatus::Downloading(Progress::zero())));
    assert_eq!(tile.indicator().size, None);
    let indicator = animation(FileStatus::CanBeDownloaded).indicator();
    assert_eq!((indicator.text.as_str(), indicator.size), ("GIF", None));
}

#[test]
fn video_is_downloaded_when_it_is_mapped() {
    let mut tile = MediaVideoTile::new();
    tile.update_media(&settings(true), file(3, FileStatus::CanBeDownloaded), 65, false, false);
    assert!(!tile.take_actions().contains(&TileAction::StartDownload(3)));
    tile.map();
    let actions = tile.take_actions();
    assert!(actions.contains(&TileAction::StartDownload(3)));
    assert!(actions.contains(&TileAction::DownloadThumbnail));
    assert_eq!(*actions.last().unwrap(), TileAction::TryShowThumbnail);
}
