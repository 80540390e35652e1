//! A tile of a media album (or a single media message) showing a photo.

use vstd::prelude::*;

use crate::model::media_manager::{MediaSettings, MediaType};
use crate::ui::media_viewer_view::ViewerItem;
use crate::ui::message_row::file_status::FileStatus;
use crate::ui::message_row::media_loader::{FileData, LoaderView, MediaLoader};
use crate::ui::message_row::tile::{
    context_view, open_viewer, opened_by, ClickAction, TileAction, TileMessage, ViewerContext,
    ViewerContextView,
};

verus! {

/// The state of the tile.
#[derive(Debug)]
pub struct MediaPhotoTile {
    loader: MediaLoader,
    /// The number of sizes of the photo that is currently displayed.
    photo: Option<usize>,
    /// The message this tile displays.
    ///
    /// The media viewer needs it for browsing the media of the chat of the
    /// message.
    message: Option<TileMessage>,
    /// The entries of the media album this tile belongs to, together with the
    /// index of this tile's entry, used to open the media viewer on the whole
    /// album.
    ///
    /// This is only set for the tiles of a media album; the tiles of single
    /// media messages open the viewer on their own media only.
    viewer_context: Option<ViewerContext>,
    click: ClickAction,
    actions: Vec<TileAction>,
}

/// The state of the tile.
#[verifier::ext_equal]
pub struct PhotoTileView {
    pub loader: LoaderView,
    pub photo: Option<usize>,
    pub message: Option<TileMessage>,
    pub context: Option<ViewerContextView>,
    pub click: ClickAction,
    pub actions: Seq<TileAction>,
}

impl View for MediaPhotoTile {
    type V = PhotoTileView;

    closed spec fn view(&self) -> PhotoTileView {
        PhotoTileView {
            loader: self.loader@,
            photo: self.photo,
            message: self.message,
            context: context_view(self.viewer_context),
            click: self.click,
            actions: self.actions@,
        }
    }
}

impl PhotoTileView {
    pub open spec fn act(self, action: TileAction) -> PhotoTileView {
        PhotoTileView { actions: self.actions.push(action), ..self }
    }

    /// The state after the widgets were updated according to the status of the
    /// loader.
    pub open spec fn update_status(self) -> PhotoTileView {
        match self.loader.status {
            FileStatus::Downloaded => {
                let hidden = self.act(TileAction::SetButtonVisible(false));
                PhotoTileView {
                    click: ClickAction::OpenViewer,
                    ..if self.loader.path is Some {
                        hidden.act(TileAction::LoadImage)
                    } else {
                        hidden
                    }
                }
            },
            FileStatus::Downloading(_) => PhotoTileView {
                click: if self.loader.is_auto {
                    ClickAction::Nothing
                } else {
                    ClickAction::CancelDownload
                },
                ..self.act(TileAction::SetButtonVisible(!self.loader.is_auto)).act(
                    TileAction::SetButtonStatus(self.loader.status),
                )
            },
            FileStatus::CanBeDownloaded => PhotoTileView {
                click: ClickAction::RequestDownload,
                ..self.act(TileAction::ShowPreview).act(TileAction::SetButtonVisible(true)).act(
                    TileAction::SetButtonStatus(self.loader.status),
                )
            },
            FileStatus::Uploading(_) => self,
        }
    }

    /// The state with a loader that may have changed its status.
    pub open spec fn with_loader(self, loader: LoaderView, notify: bool) -> PhotoTileView {
        let loaded = PhotoTileView { loader, ..self };
        if notify {
            loaded.update_status()
        } else {
            loaded
        }
    }

    /// The state after a download was started.
    pub open spec fn start_download(self, auto: bool) -> PhotoTileView {
        let actions = self.loader.download_actions();
        let loaded = self.with_loader(self.loader.downloading(auto), actions.notify_status);
        match actions.download {
            Some(file_id) => loaded.act(TileAction::StartDownload(file_id)),
            None => loaded,
        }
    }

    /// The state after the pending download was started, if there is one.
    pub open spec fn start_auto_download(self) -> PhotoTileView {
        let taken = PhotoTileView {
            loader: LoaderView { auto_download_pending: false, ..self.loader },
            ..self
        };
        if self.loader.wants_auto_download() {
            taken.start_download(true)
        } else {
            taken
        }
    }

    /// The state after the download was canceled.
    pub open spec fn cancel_download(self) -> PhotoTileView {
        let told = if self.loader.has_session {
            self.act(TileAction::CancelDownload(self.loader.file_id))
        } else {
            self
        };
        told.with_loader(
            self.loader.with_status(FileStatus::CanBeDownloaded),
            !self.loader.status.equals(FileStatus::CanBeDownloaded),
        )
    }

    /// The state after one of the sizes of the photo was bound, if there is
    /// one.
    pub open spec fn update_photo_size(
        self,
        settings: MediaSettings,
        file: Option<FileData>,
        is_mapped: bool,
    ) -> PhotoTileView {
        if self.photo is None {
            self
        } else {
            match file {
                None => self,
                Some(file) => {
                    let told = self.act(TileAction::BindThumbnail);
                    let bound = told.with_loader(
                        told.loader.bound_to(settings, MediaType::Photo, file),
                        !told.loader.status.equals(
                            match file.status {
                                FileStatus::Downloading(_) => FileStatus::CanBeDownloaded,
                                _ => file.status,
                            },
                        ),
                    );
                    let shown = if bound.loader.status is Downloaded {
                        bound
                    } else {
                        bound.act(TileAction::ShowPreview)
                    };
                    let updated = shown.update_status();
                    if is_mapped {
                        updated.start_auto_download()
                    } else {
                        updated
                    }
                },
            }
        }
    }

    /// The state after another photo was set.
    pub open spec fn set_photo(
        self,
        settings: MediaSettings,
        size_count: usize,
        file: Option<FileData>,
        is_mapped: bool,
    ) -> PhotoTileView {
        PhotoTileView { photo: Some(size_count), click: ClickAction::Nothing, ..self }.act(
            TileAction::BumpThumbnail,
        ).act(TileAction::ClearPicture).update_photo_size(settings, file, is_mapped)
    }

    /// The viewer item of the photo.
    pub open spec fn viewer_item(self) -> Option<ViewerItem> {
        match self.photo {
            Some(size_count) => if size_count > 0 {
                Some(ViewerItem::Photo { size: (size_count - 1) as usize })
            } else {
                None
            },
            None => None,
        }
    }
}

impl MediaPhotoTile {
    pub fn new() -> (tile: MediaPhotoTile)
        ensures
            tile@ == (PhotoTileView {
                loader: LoaderView::empty(),
                photo: None,
                message: None,
                context: None,
                click: ClickAction::Nothing,
                actions: Seq::empty(),
            }),
    {
        let tile = MediaPhotoTile {
            loader: MediaLoader::new(),
            photo: None,
            message: None,
            viewer_context: None,
            click: ClickAction::Nothing,
            actions: Vec::new(),
        };
        assert(tile@.actions =~= Seq::empty());
        tile
    }

    fn act(&mut self, action: TileAction)
        ensures
            final(self)@ == old(self)@.act(action),
    {
        self.actions.push(action);
    }

    /// Shows a photo with the given number of sizes, of which the one that
    /// fits the scale factor is given, if there is one.
    pub fn set_photo(
        &mut self,
        settings: &MediaSettings,
        size_count: usize,
        file: Option<FileData>,
        is_mapped: bool,
    )
        ensures
            final(self)@ == old(self)@.set_photo(*settings, size_count, file, is_mapped),
    {
        self.click = ClickAction::Nothing;
        self.photo = Some(size_count);
        self.act(TileAction::BumpThumbnail);
        self.act(TileAction::ClearPicture);
        self.bind_photo_size(settings, file, is_mapped);
    }

    /// Shows another size of the photo, after the scale factor changed.
    ///
    /// There is nothing to do if the session doesn't exist anymore.
    pub fn update_photo_size(
        &mut self,
        settings: &MediaSettings,
        file: Option<FileData>,
        is_mapped: bool,
    )
        ensures
            final(self)@ == if old(self)@.loader.has_session {
                old(self)@.update_photo_size(*settings, file, is_mapped)
            } else {
                old(self)@
            },
    {
        if !self.loader.has_session() {
            return;
        }
        self.bind_photo_size(settings, file, is_mapped);
    }

    fn bind_photo_size(
        &mut self,
        settings: &MediaSettings,
        file: Option<FileData>,
        is_mapped: bool,
    )
        ensures
            final(self)@ == old(self)@.update_photo_size(*settings, file, is_mapped),
    {
        if self.photo.is_none() {
            return;
        }
        let file = match file {
            Some(file) => file,
            None => return,
        };
        self.act(TileAction::BindThumbnail);
        let notify = self.loader.bind(settings, MediaType::Photo, file);
        if notify {
            self.update_status();
        }
        // Show a low-resolution preview of the photo while it is not
        // downloaded.

        if !matches!(self.loader.status(), FileStatus::Downloaded) {
            self.act(TileAction::ShowPreview);
        }
        self.update_status();
        // If the widget is already shown, the pending auto-download must be
        // started right away instead of waiting for the next mapping.
        if is_mapped {
            self.maybe_start_auto_download();
        }
    }

    /// Updates the widgets according to the status of the loader.
    fn update_status(&mut self)
        ensures
            final(self)@ == old(self)@.update_status(),
    {
        let status = self.loader.status();
        match status {
            FileStatus::Downloaded => {
                self.act(TileAction::SetButtonVisible(false));
                if self.loader.path().is_some() {
                    self.act(TileAction::LoadImage);
                }
                // Downloaded photos are opened in the media viewer.

                self.click = ClickAction::OpenViewer;
            },
            FileStatus::Downloading(_) => {
                let manual = !self.loader.is_auto();
                self.act(TileAction::SetButtonVisible(manual));
                self.act(TileAction::SetButtonStatus(status));
                self.click = if manual {
                    // Clicking again cancels the download.
                    ClickAction::CancelDownload
                } else {
                    ClickAction::Nothing
                };
            },
            FileStatus::CanBeDownloaded => {
                self.act(TileAction::ShowPreview);
                self.act(TileAction::SetButtonVisible(true));
                self.act(TileAction::SetButtonStatus(status));
                self.click = ClickAction::RequestDownload;
            },
            // Photos are never uploaded by this client.
            FileStatus::Uploading(_) => {},
        }
    }

    /// Takes what TDLib reported about a file.
    pub fn handle_file_update(&mut self, file: FileData)
        ensures
            final(self)@ == old(self)@.with_loader(
                old(self)@.loader.updated(file),
                old(self)@.loader.file_id == file.id && !old(self)@.loader.status.equals(
                    file.status,
                ),
            ),
    {
        if self.loader.handle_file_update(file) {
            self.update_status();
        }
    }

    fn maybe_start_auto_download(&mut self)
        ensures
            final(self)@ == old(self)@.start_auto_download(),
    {
        let actions = self.loader.maybe_start_auto_download();
        if actions.notify_status {
            self.update_status();
        }
        if let Some(file_id) = actions.download {
            self.act(TileAction::StartDownload(file_id));
        }
    }

    /// Handles that the widget is shown.
    ///
    /// The download is started then, so that photos that are only scrolled
    /// past are not downloaded.
    pub fn map(&mut self)
        ensures
            final(self)@ == old(self)@.start_auto_download(),
    {
        self.maybe_start_auto_download();
    }

    /// Handles a click on the photo. Returns what the viewer is opened on, if
    /// it is.
    pub fn handle_click(&mut self) -> (opened: Option<ViewerContext>)
        ensures
            final(self)@ == match old(self)@.click {
                ClickAction::RequestDownload => old(self)@.start_download(false),
                ClickAction::CancelDownload => old(self)@.cancel_download(),
                _ => old(self)@,
            },
            context_view(opened) == if old(self)@.click == ClickAction::OpenViewer {
                opened_by(old(self)@.message, old(self)@.context, old(self)@.viewer_item())
            } else {
                None
            },
    {
        match self.click {
            ClickAction::RequestDownload => {
                let actions = self.loader.request_download();
                if actions.notify_status {
                    self.update_status();
                }
                if let Some(file_id) = actions.download {
                    self.act(TileAction::StartDownload(file_id));
                }
            },
            ClickAction::CancelDownload => {
                let actions = self.loader.cancel_download();
                if let Some(file_id) = actions.cancel {
                    self.act(TileAction::CancelDownload(file_id));
                }
                if actions.notify_status {
                    self.update_status();
                }
            },
            ClickAction::OpenViewer => return self.open_viewer(),
            _ => {},
        }
        None
    }

    /// Sets the message this tile displays.
    pub fn set_message(&mut self, message: Option<TileMessage>)
        ensures
            final(self)@ == (PhotoTileView { message, ..old(self)@ }),
    {
        self.message = message;
    }

    /// Sets the entries of the media album this tile belongs to, together with
    /// the index of this tile's entry.
    ///
    /// Clicking the tile opens the media viewer on the whole album, at the
    /// entry of this tile.
    pub fn set_viewer_context(&mut self, context: ViewerContext)
        ensures
            final(self)@ == (PhotoTileView { context: Some(context@), ..old(self)@ }),
    {
        self.viewer_context = Some(context);
    }

    /// The viewer item of the photo of this tile.
    ///
    /// The viewer shows the full-resolution version of the photo, which may
    /// still have to be downloaded.
    pub fn viewer_item(&self) -> (item: Option<ViewerItem>)
        ensures
            item == self@.viewer_item(),
    {
        match self.photo {
            Some(size_count) => if size_count > 0 {
                Some(ViewerItem::Photo { size: size_count - 1 })
            } else {
                None
            },
            None => None,
        }
    }

    /// What the media viewer is opened on with the photo of this tile: the
    /// whole media album at its own entry, for the tile of an album.
    fn open_viewer(&self) -> (opened: Option<ViewerContext>)
        ensures
            context_view(opened) == opened_by(self@.message, self@.context, self@.viewer_item()),
    {
        open_viewer(self.message, &self.viewer_context, self.viewer_item())
    }

    /// What the widgets have to do, in order. It is handed out once.
    pub fn take_actions(&mut self) -> (actions: Vec<TileAction>)
        ensures
            actions@ == old(self)@.actions,
            final(self)@ == (PhotoTileView { actions: Seq::empty(), ..old(self)@ }),
    {
        let mut actions: Vec<TileAction> = Vec::new();
        std::mem::swap(&mut actions, &mut self.actions);
        assert(self@.actions =~= Seq::empty());
        actions
    }

    pub fn loader(&self) -> (loader: &MediaLoader)
        ensures
            loader@ == self@.loader,
    {
        &self.loader
    }
}

/// A photo that was downloaded opens the viewer, and one that is to be
/// downloaded by hand asks for the download, whatever was shown before.
pub proof fn law_click_fits_status(
    tile: PhotoTileView,
    settings: MediaSettings,
    size_count: usize,
    file: FileData,
)
    ensures
        ({
            let set = tile.set_photo(settings, size_count, Some(file), false);
            &&& file.status is Downloaded ==> set.click == ClickAction::OpenViewer
            &&& file.status is CanBeDownloaded ==> set.click == ClickAction::RequestDownload
        }),
{
}

/// No download is started for a photo before its tile is shown.
pub proof fn law_hidden_photo_is_not_downloaded(
    tile: PhotoTileView,
    settings: MediaSettings,
    size_count: usize,
    file: Option<FileData>,
    i: int,
)
    requires
        ({
            let set = tile.set_photo(settings, size_count, file, false);
            tile.actions.len() <= i < set.actions.len()
        }),
    ensures
        !(tile.set_photo(settings, size_count, file, false).actions[i] is StartDownload),
{
}

/// A click opens a photo that is downloaded, downloads one that can be, and
/// cancels a download that was asked for. The button and the picture fit.
pub proof fn law_tile_fits_status(tile: PhotoTileView)
    ensures
        ({
            let after = tile.update_status();
            let status = tile.loader.status;
            &&& status is Downloaded ==> {
                &&& after.click == ClickAction::OpenViewer
                &&& tile.loader.path is Some ==> after.actions == tile.actions + seq![
                    TileAction::SetButtonVisible(false),
                    TileAction::LoadImage,
                ]
                &&& tile.loader.path is None ==> after.actions == tile.actions.push(
                    TileAction::SetButtonVisible(false),
                )
            }
            &&& status is Downloading ==> {
                &&& after.click == if tile.loader.is_auto {
                    ClickAction::Nothing
                } else {
                    ClickAction::CancelDownload
                }
                &&& after.actions == tile.actions + seq![
                    TileAction::SetButtonVisible(!tile.loader.is_auto),
                    TileAction::SetButtonStatus(status),
                ]
            }
            &&& status is CanBeDownloaded ==> {
                &&& after.click == ClickAction::RequestDownload
                &&& after.actions == tile.actions + seq![
                    TileAction::ShowPreview,
                    TileAction::SetButtonVisible(true),
                    TileAction::SetButtonStatus(status),
                ]
            }
            &&& status is Uploading ==> after == tile
            &&& after == (PhotoTileView { click: after.click, actions: after.actions, ..tile })
        }),
        tile.with_loader(tile.loader, true) == tile.update_status(),
        tile.with_loader(tile.loader, false) == tile,
{
    let after = tile.update_status();
    let status = tile.loader.status;
    if status is Downloaded && tile.loader.path is Some {
        assert(after.actions =~= tile.actions + seq![
            TileAction::SetButtonVisible(false),
            TileAction::LoadImage,
        ]);
    }
    if status is Downloading {
        assert(after.actions =~= tile.actions + seq![
            TileAction::SetButtonVisible(!tile.loader.is_auto),
            TileAction::SetButtonStatus(status),
        ]);
    }
    if status is CanBeDownloaded {
        assert(after.actions =~= tile.actions + seq![
            TileAction::ShowPreview,
            TileAction::SetButtonVisible(true),
            TileAction::SetButtonStatus(status),
        ]);
    }
}

/// A download that is started or cancelled is one of the file of the photo.
pub proof fn law_photo_is_downloaded(tile: PhotoTileView, auto: bool)
    ensures
        ({
            let after = tile.start_download(auto);
            &&& after.loader == tile.loader.downloading(auto)
            &&& tile.loader.has_session ==> after.loader.status is Downloading
                && after.actions.last() == TileAction::StartDownload(tile.loader.file_id)
            &&& !tile.loader.has_session ==> after == tile
        }),
        ({
            let after = tile.start_auto_download();
            &&& after.loader == tile.loader.auto_downloading()
            &&& tile.loader.auto_download_pending && tile.loader.status is CanBeDownloaded
                && tile.loader.has_session ==> after.actions.last() == TileAction::StartDownload(
                tile.loader.file_id,
            )
            &&& !tile.loader.auto_download_pending || !(tile.loader.status is CanBeDownloaded)
                ==> after.actions == tile.actions
        }),
        ({
            let after = tile.cancel_download();
            &&& after.loader.status is CanBeDownloaded
            &&& tile.loader.has_session ==> after.actions[tile.actions.len() as int]
                == TileAction::CancelDownload(tile.loader.file_id)
            &&& !(tile.loader.status is CanBeDownloaded) ==> after.click
                == ClickAction::RequestDownload
        }),
{
}

/// A tile that gets a photo shows nothing of the previous one, knows the file of
/// the photo, and shows what is there. A tile that is mapped starts the download
/// at once if the settings allow it.
pub proof fn law_tile_takes_photo(
    tile: PhotoTileView,
    settings: MediaSettings,
    size_count: usize,
    file: FileData,
    is_mapped: bool,
)
    ensures
        ({
            let after = tile.set_photo(settings, size_count, Some(file), is_mapped);
            let bound = tile.loader.bound_to(settings, MediaType::Photo, file);
            let count = tile.actions.len() as int;
            &&& after.photo == Some(size_count)
            &&& after.message == tile.message
            &&& after.context == tile.context
            &&& after.loader == if is_mapped {
                bound.auto_downloading()
            } else {
                bound
            }
            &&& after.actions[count] == TileAction::BumpThumbnail
            &&& after.actions[count + 1] == TileAction::ClearPicture
            &&& after.actions[count + 2] == TileAction::BindThumbnail
            &&& file.status is Downloaded ==> after.actions.last() == TileAction::LoadImage
            &&& is_mapped && bound.wants_auto_download() ==> after.actions.last()
                == TileAction::StartDownload(file.id)
        }),
        ({
            let after = tile.set_photo(settings, size_count, None, is_mapped);
            &&& after.photo == Some(size_count)
            &&& after.click == ClickAction::Nothing
            &&& after.loader == tile.loader
            &&& after.actions == tile.actions + seq![
                TileAction::BumpThumbnail,
                TileAction::ClearPicture,
            ]
        }),
        tile.photo is None ==> tile.update_photo_size(settings, Some(file), is_mapped) == tile,
{
    let cleared = PhotoTileView { photo: Some(size_count), click: ClickAction::Nothing, ..tile }.act(
        TileAction::BumpThumbnail,
    ).act(TileAction::ClearPicture);
    assert(cleared.actions =~= tile.actions + seq![
        TileAction::BumpThumbnail,
        TileAction::ClearPicture,
    ]);
}

/// The viewer shows the largest size of the photo, which is the last one.
pub proof fn law_viewer_shows_largest_size(tile: PhotoTileView)
    ensures
        tile.photo is None ==> tile.viewer_item() is None,
        tile.photo matches Some(size_count) ==> (size_count == 0 ==> tile.viewer_item() is None)
            && (size_count > 0 ==> (tile.viewer_item() matches Some(ViewerItem::Photo { size })
            && size + 1 == size_count)),
{
}

} // verus!
