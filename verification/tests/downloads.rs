use paper_plane::model::media_manager::{MediaSettings, MediaType};
use paper_plane::ui::message_row::file_status::{FileStatus, Progress};
use paper_plane::ui::message_row::media_download_button::DownloadButton;
use paper_plane::ui::message_row::media_loader::{FileData, LoaderActions, MediaLoader};
use paper_plane::ui::message_row::media_thumbnail::{ImageSource, MediaThumbnail, ThumbnailAction};

fn settings(enabled: bool) -> MediaSettings {
    MediaSettings {
        auto_download_media: enabled,
        auto_download_photos: true,
        auto_download_videos: true,
        auto_download_videos_max_size: 1000,
        auto_download_files: true,
        auto_download_files_max_size: 1000,
        autoplay_videos: false,
    }
}

fn file(id: i32, status: FileStatus) -> FileData {
    FileData {
        id,
        size: 500,
        expected_size: 600,
        status,
        is_downloading_completed: matches!(status, FileStatus::Downloaded),
        path: String::from("/tmp/file"),
        snapshot: 1,
    }
}

fn progress(value: f64) -> Progress {
    Progress { bits: value.to_bits() }
}

fn nothing() -> LoaderActions {
    LoaderActions { notify_status: false, download: None, cancel: None }
}

#[test]
fn progress_is_compared_as_a_number() {
    assert!(progress(0.5).is_equal(&progress(0.5)));
    assert!(!progress(0.5).is_equal(&progress(0.25)));
    assert!(progress(0.0).is_equal(&progress(-0.0)));
    assert!(!progress(f64::NAN).is_equal(&progress(f64::NAN)));
    assert!(Progress::zero().is_equal(&progress(0.0)));
}

#[test]
fn statuses_are_compared_with_their_progress() {
    let downloading = FileStatus::Downloading(progress(0.5));
    assert!(downloading.is_equal(&FileStatus::Downloading(progress(0.5))));
    assert!(!downloading.is_equal(&FileStatus::Downloading(progress(0.6))));
    assert!(!downloading.is_equal(&FileStatus::Uploading(progress(0.5))));
    assert!(FileStatus::Downloaded.is_equal(&FileStatus::Downloaded));
    assert!(!FileStatus::Downloaded.is_equal(&FileStatus::CanBeDownloaded));
}

#[test]
fn download_button_shows_the_status() {
    assert_eq!(
        DownloadButton::for_status(FileStatus::Downloading(progress(0.5))),
        DownloadButton::Loading(progress(0.5)),
    );
    assert_eq!(
        DownloadButton::for_status(FileStatus::CanBeDownloaded),
        DownloadButton::Download,
    );
    assert_eq!(DownloadButton::for_status(FileStatus::Downloaded), DownloadButton::Hidden);
}

#[test]
fn file_is_downloaded_automatically_when_it_is_shown() {
    let mut loader = MediaLoader::new();
    assert_eq!(loader.maybe_start_auto_download(), nothing());
    assert!(!loader.bind(&settings(true), MediaType::Video, file(7, FileStatus::CanBeDownloaded)));
    assert_eq!(loader.size(), 600);
    assert_eq!(
        loader.maybe_start_auto_download(),
        LoaderActions { notify_status: true, download: Some(7), cancel: None },
    );
    assert!(loader.is_auto());
    assert_eq!(loader.maybe_start_auto_download(), nothing());

    assert!(loader.handle_file_update(file(7, FileStatus::Downloading(progress(0.5)))));
    assert!(loader.path().is_none());
    assert!(loader.handle_file_update(file(7, FileStatus::Downloaded)));
    assert!(!loader.handle_file_update(file(7, FileStatus::Downloaded)));
    assert_eq!(loader.downloaded_path().unwrap(), "/tmp/file");
}

#[test]
fn file_is_not_downloaded_automatically_against_the_settings() {
    let mut loader = MediaLoader::new();
    loader.bind(&settings(false), MediaType::Video, file(7, FileStatus::CanBeDownloaded));
    assert_eq!(loader.maybe_start_auto_download(), nothing());
    let mut large = file(8, FileStatus::CanBeDownloaded);
    large.size = 1001;
    loader.bind(&settings(true), MediaType::Video, large);
    assert_eq!(loader.maybe_start_auto_download(), nothing());
}

#[test]
fn download_can_be_canceled() {
    let mut loader = MediaLoader::new();
    assert_eq!(loader.request_download(), nothing());
    loader.bind(&settings(false), MediaType::File, file(7, FileStatus::CanBeDownloaded));
    assert_eq!(
        loader.request_download(),
        LoaderActions { notify_status: true, download: Some(7), cancel: None },
    );
    assert!(!loader.is_auto());
    assert_eq!(
        loader.cancel_download(),
        LoaderActions { notify_status: true, download: None, cancel: Some(7) },
    );
    assert_eq!(loader.status(), FileStatus::CanBeDownloaded);
    loader.detach();
    assert_eq!(loader.request_download(), nothing());
}

#[test]
fn updates_of_other_files_are_ignored() {
    let mut loader = MediaLoader::new();
    loader.bind(&settings(false), MediaType::File, file(7, FileStatus::CanBeDownloaded));
    assert!(!loader.handle_file_update(file(8, FileStatus::Downloaded)));
    assert_eq!(loader.status(), FileStatus::CanBeDownloaded);
}

#[test]
fn bound_file_takes_its_status_over() {
    let mut loader = MediaLoader::new();
    assert!(loader.bind(&settings(true), MediaType::File, file(7, FileStatus::Downloaded)));
    assert_eq!(loader.downloaded_path().unwrap(), "/tmp/file");
    // A download that is under way is started anew by the loader.
    let downloading = FileStatus::Downloading(progress(0.5));
    assert!(loader.bind(&settings(false), MediaType::File, file(8, downloading)));
    assert_eq!(loader.status(), FileStatus::CanBeDownloaded);
    assert!(loader.path().is_none());
    let uploading = FileStatus::Uploading(progress(0.5));
    assert!(loader.bind(&settings(true), MediaType::File, file(9, uploading)));
    assert_eq!(loader.status(), uploading);
}

#[test]
fn negative_sizes_wrap() {
    let mut loader = MediaLoader::new();
    let mut odd = file(7, FileStatus::CanBeDownloaded);
    odd.size = -1;
    odd.expected_size = -2;
    loader.bind(&settings(true), MediaType::File, odd);
    assert_eq!(loader.size(), u64::MAX);
}

#[test]
fn thumbnail_is_downloaded_when_it_is_shown() {
    let mut thumbnail = MediaThumbnail::new();
    assert!(matches!(thumbnail.try_show_thumbnail(), ThumbnailAction::ShowPreview));
    thumbnail.set_thumbnail(Some(file(3, FileStatus::CanBeDownloaded)));
    thumbnail.bump_generation();
    assert!(matches!(thumbnail.try_show_thumbnail(), ThumbnailAction::ShowPreview));
    assert!(matches!(
        thumbnail.maybe_download_thumbnail(false, &settings(true)),
        ThumbnailAction::Nothing
    ));
    assert!(matches!(
        thumbnail.maybe_download_thumbnail(true, &settings(true)),
        ThumbnailAction::Download { file_id: 3, generation: 1 }
    ));
    assert!(matches!(
        thumbnail.maybe_download_thumbnail(true, &settings(true)),
        ThumbnailAction::Nothing
    ));
    match thumbnail.handle_downloaded(1, Some(file(3, FileStatus::Downloaded))) {
        ThumbnailAction::Decode { path, source: ImageSource::Thumbnail, generation } => {
            assert_eq!((path.as_str(), generation), ("/tmp/file", 1));
        }
        _ => panic!("the thumbnail is decoded"),
    }
    let decoded = |is_ok| thumbnail.handle_decoded(ImageSource::Thumbnail, 1, is_ok);
    assert!(matches!(decoded(true), ThumbnailAction::ShowImage));
    assert!(matches!(decoded(false), ThumbnailAction::ShowPreview));
}

#[test]
fn outdated_thumbnails_are_discarded() {
    let mut thumbnail = MediaThumbnail::new();
    thumbnail.set_thumbnail(Some(file(3, FileStatus::Downloaded)));
    match thumbnail.try_show_thumbnail() {
        ThumbnailAction::Decode { path, generation: 0, .. } => assert_eq!(path, "/tmp/file"),
        _ => panic!("the thumbnail is decoded"),
    }
    thumbnail.bump_generation();
    assert!(matches!(
        thumbnail.handle_decoded(ImageSource::Thumbnail, 0, true),
        ThumbnailAction::Nothing
    ));
    assert!(matches!(
        thumbnail.handle_downloaded(0, Some(file(3, FileStatus::Downloaded))),
        ThumbnailAction::Nothing
    ));
}

#[test]
fn images_of_changed_media_fall_back_to_the_preview() {
    let mut thumbnail = MediaThumbnail::new();
    match thumbnail.load_image(String::from("/tmp/other")) {
        ThumbnailAction::Decode { path, source: ImageSource::File, generation: 0 } => {
            assert_eq!(path, "/tmp/other");
        }
        _ => panic!("the image is decoded"),
    }
    let decoded = thumbnail.handle_decoded(ImageSource::File, 0, true);
    assert!(matches!(decoded, ThumbnailAction::ShowImage));
    let decoded = thumbnail.handle_decoded(ImageSource::File, 0, false);
    assert!(matches!(decoded, ThumbnailAction::ShowPreview));
    thumbnail.bump_generation();
    let decoded = thumbnail.handle_decoded(ImageSource::File, 0, true);
    assert!(matches!(decoded, ThumbnailAction::ShowPreview));
}
