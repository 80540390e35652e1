//! The preview of media that has a low-resolution minithumbnail and an
//! optional high-resolution thumbnail.

use vstd::prelude::*;

use crate::model::media_manager::{MediaSettings, MediaType};
use crate::ui::message_row::media_loader::{size_of_file, FileData};

verus! {

/// What an image that is decoded was asked for.
#[derive(Clone, Copy, Debug, PartialEq, Eq, Structural)]
pub enum ImageSource {
    /// The high-resolution thumbnail, as a better preview.
    Thumbnail,
    /// The file of the media itself.
    File,
}

/// What the preview has to do.
#[derive(Debug)]
pub enum ThumbnailAction {
    Nothing,
    /// Show the low-resolution preview, or nothing if there is none.
    ShowPreview,
    /// Show the image that was decoded.
    ShowImage,
    /// Decode the image at the path and hand the outcome back together with
    /// the source and the generation.
    Decode { path: String, source: ImageSource, generation: u64 },
    /// Download the file and hand it back together with the generation.
    Download { file_id: i32, generation: u64 },
}

/// What the preview has to do.
pub enum ThumbnailActionView {
    Nothing,
    ShowPreview,
    ShowImage,
    Decode { path: Seq<char>, source: ImageSource, generation: u64 },
    Download { file_id: i32, generation: u64 },
}

impl View for ThumbnailAction {
    type V = ThumbnailActionView;

    open spec fn view(&self) -> ThumbnailActionView {
        match *self {
            ThumbnailAction::Nothing => ThumbnailActionView::Nothing,
            ThumbnailAction::ShowPreview => ThumbnailActionView::ShowPreview,
            ThumbnailAction::ShowImage => ThumbnailActionView::ShowImage,
            ThumbnailAction::Decode { path, source, generation } => ThumbnailActionView::Decode {
                path: path@,
                source,
                generation,
            },
            ThumbnailAction::Download { file_id, generation } => ThumbnailActionView::Download {
                file_id,
                generation,
            },
        }
    }
}

/// The state of the preview.
///
/// The minithumbnail is shown while the high-resolution thumbnail is not
/// downloaded yet, so that the tile is never empty. Once the high-resolution
/// thumbnail is available, it is decoded and shown instead, falling back to
/// the minithumbnail on error.
#[derive(Debug)]
pub struct MediaThumbnail {
    /// The file of the high-resolution thumbnail, if any. The thumbnail is
    /// downloaded on show and used as a higher-quality preview once it is
    /// ready.
    thumbnail: Option<FileData>,
    /// The file id of the thumbnail that should be downloaded once the widget
    /// is shown, or 0 if there is none.
    pending_thumbnail_file_id: i32,
    /// Incremented every time new media is set, used to discard the results of
    /// asynchronous operations that became out-of-date.
    generation: u64,
}

impl MediaThumbnail {
    /// The file of the high-resolution thumbnail.
    pub closed spec fn file(self) -> Option<FileData> {
        self.thumbnail
    }

    /// The id of the file that should be downloaded, or 0.
    pub closed spec fn pending(self) -> i32 {
        self.pending_thumbnail_file_id
    }

    /// How often new media was set.
    pub closed spec fn age(self) -> u64 {
        self.generation
    }

    pub fn new() -> (thumbnail: MediaThumbnail)
        ensures
            thumbnail.file() is None,
            thumbnail.pending() == 0,
            thumbnail.age() == 0,
    {
        MediaThumbnail { thumbnail: None, pending_thumbnail_file_id: 0, generation: 0 }
    }

    /// Stores the high-resolution thumbnail, if any, so that a higher-quality
    /// preview can be shown once it is downloaded.
    pub fn set_thumbnail(&mut self, thumbnail: Option<FileData>)
        ensures
            final(self).file() == thumbnail,
            final(self).pending() == match thumbnail {
                Some(file) => if file.is_downloading_completed {
                    0
                } else {
                    file.id
                },
                None => 0,
            },
            final(self).age() == old(self).age(),
    {
        self.pending_thumbnail_file_id = match &thumbnail {
            Some(file) => {
                if file.is_downloading_completed {
                    0
                } else {
                    file.id
                }
            },
            None => 0,
        };
        self.thumbnail = thumbnail;
    }

    /// Increments the generation counter, used to discard the results of
    /// asynchronous operations that became out-of-date.
    pub fn bump_generation(&mut self)
        requires
            old(self).age() < u64::MAX,
        ensures
            final(self).age() == old(self).age() + 1,
            final(self).file() == old(self).file(),
            final(self).pending() == old(self).pending(),
    {
        self.generation = self.generation + 1;
    }

    /// Shows the thumbnail as a higher-quality preview if it has been
    /// downloaded, falling back to the minithumbnail preview.
    pub fn try_show_thumbnail(&self) -> (action: ThumbnailAction)
        ensures
            action@ == match self.file() {
                Some(file) => if file.is_downloading_completed {
                    ThumbnailActionView::Decode {
                        path: file.path@,
                        source: ImageSource::Thumbnail,
                        generation: self.age(),
                    }
                } else {
                    ThumbnailActionView::ShowPreview
                },
                None => ThumbnailActionView::ShowPreview,
            },
    {
        match &self.thumbnail {
            Some(file) => {
                if file.is_downloading_completed {
                    ThumbnailAction::Decode {
                        path: file.path.clone(),
                        source: ImageSource::Thumbnail,
                        generation: self.generation,
                    }
                } else {
                    ThumbnailAction::ShowPreview
                }
            },
            None => ThumbnailAction::ShowPreview,
        }
    }

    /// Decodes the image at the path and shows it, falling back to the
    /// minithumbnail preview on error or if the media changed meanwhile.
    pub fn load_image(&self, path: String) -> (action: ThumbnailAction)
        ensures
            action@ == (ThumbnailActionView::Decode {
                path: path@,
                source: ImageSource::File,
                generation: self.age(),
            }),
    {
        ThumbnailAction::Decode { path, source: ImageSource::File, generation: self.generation }
    }

    /// Handles that an image was decoded, or that it couldn't be, in which
    /// case it falls back to the minithumbnail preview. If the media changed
    /// meanwhile, an image of a file falls back to it as well, while a
    /// thumbnail is discarded.
    pub fn handle_decoded(&self, source: ImageSource, generation: u64, is_ok: bool) -> (action:
        ThumbnailAction)
        ensures
            action@ == if generation == self.age() && is_ok {
                ThumbnailActionView::ShowImage
            } else if generation == self.age() || source == ImageSource::File {
                ThumbnailActionView::ShowPreview
            } else {
                ThumbnailActionView::Nothing
            },
    {
        if self.generation == generation {
            if is_ok {
                ThumbnailAction::ShowImage
            } else {
                ThumbnailAction::ShowPreview
            }
        } else {
            match source {
                ImageSource::File => ThumbnailAction::ShowPreview,
                ImageSource::Thumbnail => ThumbnailAction::Nothing,
            }
        }
    }

    /// Whether the thumbnail is to be downloaded.
    pub open spec fn wants_download(self, is_mapped: bool, settings: MediaSettings) -> bool {
        &&& is_mapped
        &&& self.pending() != 0
        &&& self.file() matches Some(file) && settings.allows_download(
            MediaType::Photo,
            size_of_file(file) as u64,
        )
    }

    /// Downloads the thumbnail, if the widget is shown, a thumbnail is pending
    /// and the auto-download settings allow it.
    ///
    /// This is called when the widget is mapped, so that thumbnails that are
    /// only scrolled past are not downloaded. The thumbnail download is
    /// governed by the photo download settings, in contrast to the media file
    /// itself, which is governed by its own settings.
    pub fn maybe_download_thumbnail(&mut self, is_mapped: bool, settings: &MediaSettings) -> (
    action: ThumbnailAction)
        ensures
            final(self).file() == old(self).file(),
            final(self).age() == old(self).age(),
            old(self).wants_download(is_mapped, *settings) ==> {
                &&& action@ == (ThumbnailActionView::Download {
                    file_id: old(self).pending(),
                    generation: old(self).age(),
                })
                &&& final(self).pending() == 0
            },
            !old(self).wants_download(is_mapped, *settings) ==> {
                &&& action@ == ThumbnailActionView::Nothing
                &&& final(self).pending() == old(self).pending()
            },
    {
        if !is_mapped || self.pending_thumbnail_file_id == 0 {
            return ThumbnailAction::Nothing;
        }
        let size: i64 = match &self.thumbnail {
            Some(file) => {
                if file.size > file.expected_size {
                    file.size
                } else {
                    file.expected_size
                }
            },
            None => return ThumbnailAction::Nothing,
        };
        assert(size < 0 ==> #[verifier::truncate] (size as u64) == size + 0x1_0000_0000_0000_0000)
            by (bit_vector);
        let size: u64 = #[verifier::truncate]
        (size as u64);
        if !settings.should_auto_download(MediaType::Photo, size) {
            return ThumbnailAction::Nothing;
        }
        let file_id = self.pending_thumbnail_file_id;
        self.pending_thumbnail_file_id = 0;
        ThumbnailAction::Download { file_id, generation: self.generation }
    }

    /// Handles that the thumbnail was downloaded, or that it couldn't be. The
    /// result is discarded if new media was set in the meantime.
    pub fn handle_downloaded(&mut self, generation: u64, file: Option<FileData>) -> (action:
        ThumbnailAction)
        ensures
            final(self).age() == old(self).age(),
            final(self).pending() == old(self).pending(),
            file is None || generation != old(self).age() || old(self).file() is None ==> {
                &&& action@ == ThumbnailActionView::Nothing
                &&& final(self).file() == old(self).file()
            },
            file is Some && generation == old(self).age() && old(self).file() is Some ==> {
                &&& action@ == (ThumbnailActionView::Decode {
                    path: file->0.path@,
                    source: ImageSource::Thumbnail,
                    generation,
                })
                &&& final(self).file() == file
            },
    {
        match file {
            None => ThumbnailAction::Nothing,
            Some(file) => {
                if self.generation != generation || self.thumbnail.is_none() {
                    return ThumbnailAction::Nothing;
                }
                let path = file.path.clone();
                self.thumbnail = Some(file);
                ThumbnailAction::Decode { path, source: ImageSource::Thumbnail, generation }
            },
        }
    }
}

/// A thumbnail is downloaded if and only if it is missing, can be seen, and the
/// settings allow it.
pub proof fn law_visible_thumbnail_is_downloaded(
    thumbnail: MediaThumbnail,
    settings: MediaSettings,
)
    ensures
        !thumbnail.wants_download(false, settings),
        thumbnail.pending() == 0 ==> !thumbnail.wants_download(true, settings),
        thumbnail.file() is None ==> !thumbnail.wants_download(true, settings),
        thumbnail.file() matches Some(file) ==> (thumbnail.pending() != 0
            ==> thumbnail.wants_download(true, settings) == settings.allows_download(
            MediaType::Photo,
            size_of_file(file) as u64,
        )),
{
}

} // verus!
