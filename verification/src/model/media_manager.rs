//! Deciding whether media should be downloaded or played automatically.

use vstd::prelude::*;

verus! {

/// The kind of media that can be downloaded.
#[derive(Clone, Copy, Debug, PartialEq, Eq, Structural)]
pub enum MediaType {
    /// A photo.
    Photo,
    /// A video or an animation (GIF).
    Video,
    /// A regular file.
    File,
}

/// The settings of the application that concern media.
#[derive(Clone, Copy, Debug, PartialEq, Eq, Structural)]
pub struct MediaSettings {
    pub auto_download_media: bool,
    pub auto_download_photos: bool,
    pub auto_download_videos: bool,
    pub auto_download_videos_max_size: u32,
    pub auto_download_files: bool,
    pub auto_download_files_max_size: u32,
    pub autoplay_videos: bool,
}

impl MediaSettings {
    /// Whether media of the given kind and size should be downloaded
    /// automatically.
    pub open spec fn allows_download(self, kind: MediaType, size: u64) -> bool {
        &&& self.auto_download_media
        &&& match kind {
            MediaType::Photo => self.auto_download_photos,
            MediaType::Video => self.auto_download_videos && size
                <= self.auto_download_videos_max_size,
            MediaType::File => self.auto_download_files && size
                <= self.auto_download_files_max_size,
        }
    }

    /// Returns whether media of the given `kind` and `size` should be
    /// downloaded automatically.
    ///
    /// When the master switch is disabled, nothing is downloaded
    /// automatically. When the per-content switch is disabled, or when the
    /// file is too large for the configured limit (videos and files only), the
    /// media is not downloaded automatically either.
    pub fn should_auto_download(&self, kind: MediaType, size: u64) -> (result: bool)
        ensures
            result == self.allows_download(kind, size),
    {
        if !self.auto_download_media {
            return false;
        }
        match kind {
            MediaType::Photo => self.auto_download_photos,
            MediaType::Video => {
                if !self.auto_download_videos {
                    return false;
                }
                size <= self.auto_download_videos_max_size as u64
            },
            MediaType::File => {
                if !self.auto_download_files {
                    return false;
                }
                size <= self.auto_download_files_max_size as u64
            },
        }
    }

    /// Returns whether videos should be played automatically as soon as they
    /// become visible.
    ///
    /// This does not affect animations (GIFs), which are always played
    /// automatically when they are visible.
    pub fn should_autoplay_videos(&self) -> (result: bool)
        ensures
            result == self.autoplay_videos,
    {
        self.autoplay_videos
    }
}

/// Media that is downloaded automatically still is if it were smaller.
pub proof fn law_smaller_media_is_downloaded(
    settings: MediaSettings,
    kind: MediaType,
    size: u64,
    smaller: u64,
)
    requires
        settings.allows_download(kind, size),
        smaller <= size,
    ensures
        settings.allows_download(kind, smaller),
{
}

/// Nothing is downloaded automatically unless that is wanted at all and for the
/// kind of the media. Videos and files are limited in size, each by their own
/// limit, and photos are not.
pub proof fn law_settings_allow_downloads(settings: MediaSettings, kind: MediaType, size: u64)
    ensures
        !settings.auto_download_media ==> !settings.allows_download(kind, size),
        settings.auto_download_media ==> {
            &&& settings.allows_download(MediaType::Photo, size) <==> settings.auto_download_photos
            &&& settings.allows_download(MediaType::Video, size) <==> settings.auto_download_videos
                && size <= settings.auto_download_videos_max_size
            &&& settings.allows_download(MediaType::File, size) <==> settings.auto_download_files
                && size <= settings.auto_download_files_max_size
        },
{
}

} // verus!
