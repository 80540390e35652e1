//! A page of the media viewer, showing a single photo or video.
//!
//! The page is self-contained: it shows the low-resolution preview of its item
//! until it is displayed, decodes its photo or plays its video on the shared
//! playback stream of the session. Videos are never played on a pipeline of
//! their own: the playback engine of the session owns the single media stream,
//! which the page binds to its video widget while it is displayed.

use vstd::prelude::*;

use crate::model::media_manager::{MediaSettings, MediaType};
use crate::ui::media_viewer_view::ViewerItem;
use crate::ui::message_row::file_status::FileStatus;
use crate::ui::message_row::media_loader::{FileData, LoaderView, MediaLoader};
use crate::ui::playback_manager::{PlaybackAction, PlaybackHook, PlaybackManager, PlaybackView};

verus! {

/// Something that the widgets of the page have to do.
#[derive(Clone, Copy, Debug, PartialEq, Eq, Structural)]
pub enum PageAction {
    /// Keep the low-resolution preview of the item, and drop a decoded photo.
    StorePlaceholder,
    /// Show the preview that is kept as the picture.
    ShowPlaceholder,
    /// Decode the photo and hand the outcome back with the generation.
    DecodePhoto { generation: u64 },
    /// Keep the decoded photo as the preview.
    StoreDecoded,
    /// Show the decoded photo as the picture.
    ShowDecoded,
    /// Take the stream from the video widget and hide it.
    UnbindVideo,
    /// Show the picture.
    ShowPicture,
    /// Clear and hide the picture, and show the stream in the video widget.
    BindVideo,
    /// Play the stream.
    Play,
    SetButtonVisible(bool),
    SetButtonStatus(FileStatus),
    /// Start to download the file with the given id.
    StartDownload(i32),
    /// Cancel the download of the file with the given id.
    CancelDownload(i32),
}

/// The state of the page.
#[derive(Debug)]
pub struct MediaViewerPage {
    loader: MediaLoader,
    /// The page among the widgets that play media.
    owner: u64,
    /// The item shown by this page.
    item: Option<ViewerItem>,
    /// Whether there is a shared playback engine to play the video of this
    /// page.
    has_playback: bool,
    /// Whether this page is the one displayed by the viewer.
    displayed: bool,
    /// Whether the photo of this page has been decoded already, and not been
    /// dropped since.
    photo_decoded: bool,
    /// Whether the page shows the media stream of the playback engine, in which
    /// case it must be restored to the preview when the playback is taken over
    /// or stopped.
    is_stream_bound: bool,
    /// Incremented every time new media is set, used to discard the results of
    /// asynchronous operations that became out-of-date.
    generation: u64,
    actions: Vec<PageAction>,
}

/// The state of the page.
#[verifier::ext_equal]
pub struct PageView {
    pub loader: LoaderView,
    pub owner: u64,
    pub item: Option<ViewerItem>,
    pub has_playback: bool,
    pub displayed: bool,
    pub photo_decoded: bool,
    pub is_stream_bound: bool,
    pub generation: u64,
    pub actions: Seq<PageAction>,
}

impl View for MediaViewerPage {
    type V = PageView;

    closed spec fn view(&self) -> PageView {
        PageView {
            loader: self.loader@,
            owner: self.owner,
            item: self.item,
            has_playback: self.has_playback,
            displayed: self.displayed,
            photo_decoded: self.photo_decoded,
            is_stream_bound: self.is_stream_bound,
            generation: self.generation,
            actions: self.actions@,
        }
    }
}

/// The states of a page and of the playback engine.
#[verifier::ext_equal]
pub struct PageStage {
    pub page: PageView,
    pub manager: PlaybackView,
}

impl PageView {
    pub open spec fn act(self, action: PageAction) -> PageView {
        PageView { actions: self.actions.push(action), ..self }
    }

    /// The path of the media file, if it has been downloaded.
    pub open spec fn media_path(self) -> Option<Seq<char>> {
        if self.loader.status is Downloaded {
            self.loader.path
        } else {
            None
        }
    }

    /// Who is told about the playback of the video.
    pub open spec fn hook(self) -> PlaybackHook {
        PlaybackHook { owner: self.owner, generation: self.generation }
    }

    /// The state after the photo began to be decoded, if it has been
    /// downloaded and is not decoded yet.
    pub open spec fn maybe_decode_photo(self) -> PageView {
        if self.photo_decoded || self.loader.path is None {
            self
        } else {
            PageView {
                photo_decoded: true,
                ..self.act(PageAction::DecodePhoto { generation: self.generation })
            }
        }
    }

    /// The state after the stream was unbound.
    pub open spec fn reset_playback_ui(self) -> PageView {
        if self.is_stream_bound {
            PageView {
                is_stream_bound: false,
                ..self.act(PageAction::UnbindVideo).act(PageAction::ShowPlaceholder).act(
                    PageAction::ShowPicture,
                )
            }
        } else {
            self
        }
    }

    /// The state after the stream was prepared for a generation.
    pub open spec fn prepared(self, generation: u64) -> PageView {
        if self.displayed && self.generation == generation {
            PageView {
                is_stream_bound: true,
                ..self.act(PageAction::BindVideo).act(PageAction::Play)
            }
        } else {
            self
        }
    }

    /// The state after a photo of a generation was decoded, or couldn't be.
    pub open spec fn decoded(self, generation: u64, is_ok: bool) -> PageView {
        if self.generation != generation || !is_ok {
            self
        } else {
            PageView { photo_decoded: true, ..self }.act(
                if self.displayed {
                    PageAction::ShowDecoded
                } else {
                    PageAction::StoreDecoded
                },
            )
        }
    }
}

/// What a page shows or keeps of its item.
pub enum PageImage {
    Nothing,
    /// The low-resolution preview.
    Preview,
    /// The decoded photo.
    Photo,
}

/// The images of a page.
pub struct PageImages {
    /// The preview that is kept.
    pub kept: PageImage,
    /// The picture that is shown.
    pub shown: PageImage,
}

impl PageImages {
    /// The images after the widgets did something.
    pub open spec fn after(self, action: PageAction) -> PageImages {
        match action {
            PageAction::StorePlaceholder => PageImages { kept: PageImage::Preview, ..self },
            PageAction::ShowPlaceholder => PageImages { shown: self.kept, ..self },
            PageAction::StoreDecoded => PageImages { kept: PageImage::Photo, ..self },
            PageAction::ShowDecoded => PageImages { shown: PageImage::Photo, ..self },
            PageAction::BindVideo => PageImages { shown: PageImage::Nothing, ..self },
            _ => self,
        }
    }
}

/// The images of a page after its widgets did everything that they had to do.
pub open spec fn images_after(actions: Seq<PageAction>) -> PageImages
    decreases actions.len(),
{
    if actions.len() == 0 {
        PageImages { kept: PageImage::Nothing, shown: PageImage::Nothing }
    } else {
        images_after(actions.drop_last()).after(actions.last())
    }
}

impl PageStage {
    pub open spec fn act(self, action: PageAction) -> PageStage {
        PageStage { page: self.page.act(action), ..self }
    }

    /// The states after the video was played, if there is one and it has been
    /// downloaded.
    pub open spec fn start_playback(self) -> PageStage {
        match (self.page.item, self.page.media_path()) {
            (Some(ViewerItem::Video { is_animation }), Some(path)) => {
                if self.page.has_playback {
                    PageStage {
                        page: PageView {
                            is_stream_bound: false,
                            ..self.page.act(PageAction::ShowPlaceholder)
                        },
                        manager: self.manager.act(
                            PlaybackAction::Configure {
                                muted: is_animation,
                                looped: is_animation,
                            },
                        ).play_file(path, self.page.hook()),
                    }
                } else {
                    self
                }
            },
            _ => self,
        }
    }

    /// The states after the widgets were updated according to the status of
    /// the loader.
    pub open spec fn update_status(self) -> PageStage {
        match self.page.loader.status {
            FileStatus::Downloaded => {
                let hidden = self.act(PageAction::SetButtonVisible(false));
                match self.page.item {
                    Some(ViewerItem::Photo { .. }) => PageStage {
                        page: hidden.page.maybe_decode_photo(),
                        ..hidden
                    },
                    Some(ViewerItem::Video { .. }) => if self.page.displayed {
                        hidden.start_playback()
                    } else {
                        hidden
                    },
                    None => hidden,
                }
            },
            FileStatus::Uploading(_) => self,
            _ => self.act(PageAction::SetButtonVisible(true)).act(
                PageAction::SetButtonStatus(self.page.loader.status),
            ),
        }
    }

    /// The states with a loader that may have changed its status.
    pub open spec fn with_loader(self, loader: LoaderView, notify: bool) -> PageStage {
        let loaded = PageStage { page: PageView { loader, ..self.page }, ..self };
        if notify {
            loaded.update_status()
        } else {
            loaded
        }
    }

    /// The states after a download was started.
    pub open spec fn start_download(self, auto: bool) -> PageStage {
        let actions = self.page.loader.download_actions();
        let loaded = self.with_loader(self.page.loader.downloading(auto), actions.notify_status);
        match actions.download {
            Some(file_id) => loaded.act(PageAction::StartDownload(file_id)),
            None => loaded,
        }
    }

    /// The states after the pending download was started, if there is one.
    pub open spec fn start_auto_download(self) -> PageStage {
        let taken = PageStage {
            page: PageView {
                loader: LoaderView { auto_download_pending: false, ..self.page.loader },
                ..self.page
            },
            ..self
        };
        if self.page.loader.wants_auto_download() {
            taken.start_download(true)
        } else {
            taken
        }
    }

    /// The states after the download was canceled.
    pub open spec fn cancel_download(self) -> PageStage {
        let told = if self.page.loader.has_session {
            self.act(PageAction::CancelDownload(self.page.loader.file_id))
        } else {
            self
        };
        told.with_loader(
            self.page.loader.with_status(FileStatus::CanBeDownloaded),
            !self.page.loader.status.equals(FileStatus::CanBeDownloaded),
        )
    }

    /// The states after another item was set.
    pub open spec fn set_item(
        self,
        settings: MediaSettings,
        item: ViewerItem,
        file: FileData,
        has_playback: bool,
    ) -> PageStage {
        let fresh = PageStage {
            page: PageView {
                generation: (self.page.generation + 1) as u64,
                displayed: false,
                photo_decoded: false,
                is_stream_bound: false,
                has_playback,
                ..self.page
            },
            ..self
        }.act(PageAction::StorePlaceholder).act(PageAction::ShowPlaceholder);
        let media_type = match item {
            ViewerItem::Photo { .. } => MediaType::Photo,
            ViewerItem::Video { .. } => MediaType::Video,
        };
        let bound = fresh.with_loader(
            fresh.page.loader.bound_to(settings, media_type, file),
            !fresh.page.loader.status.equals(
                match file.status {
                    FileStatus::Downloading(_) => FileStatus::CanBeDownloaded,
                    _ => file.status,
                },
            ),
        );
        PageStage { page: PageView { item: Some(item), ..bound.page }, ..bound }.act(
            PageAction::UnbindVideo,
        ).update_status()
    }

    /// The states after the page became the active one.
    pub open spec fn activate(self) -> PageStage {
        let started = PageStage {
            page: PageView { displayed: true, ..self.page },
            ..self
        }.start_auto_download();
        match self.page.item {
            Some(ViewerItem::Photo { .. }) => {
                let shown = if self.page.displayed {
                    started
                } else {
                    started.act(PageAction::ShowPlaceholder)
                };
                PageStage { page: shown.page.maybe_decode_photo(), ..shown }
            },
            Some(ViewerItem::Video { .. }) => {
                let requested = if started.page.loader.status is CanBeDownloaded {
                    started.start_download(false)
                } else {
                    started
                };
                requested.start_playback()
            },
            None => started,
        }
    }

    /// The states after the page stopped being the active one.
    pub open spec fn deactivate(self) -> PageStage {
        let manager = match self.page.media_path() {
            Some(path) => if self.page.has_playback && self.manager.is_current(path) {
                self.manager.stop()
            } else {
                self.manager
            },
            None => self.manager,
        };
        PageStage {
            page: PageView {
                displayed: false,
                photo_decoded: false,
                ..self.page
            }.reset_playback_ui().act(PageAction::StorePlaceholder).act(
                PageAction::ShowPlaceholder,
            ),
            manager,
        }
    }
}

impl MediaViewerPage {
    pub fn new(owner: u64) -> (page: MediaViewerPage)
        ensures
            page@ == (PageView {
                loader: LoaderView::empty(),
                owner,
                item: None,
                has_playback: false,
                displayed: false,
                photo_decoded: false,
                is_stream_bound: false,
                generation: 0,
                actions: Seq::empty(),
            }),
    {
        let page = MediaViewerPage {
            loader: MediaLoader::new(),
            owner,
            item: None,
            has_playback: false,
            displayed: false,
            photo_decoded: false,
            is_stream_bound: false,
            generation: 0,
            actions: Vec::new(),
        };
        assert(page@.actions =~= Seq::empty());
        page
    }

    /// The states of this page and of the playback engine.
    pub open spec fn stage(self, manager: PlaybackManager) -> PageStage {
        PageStage { page: self@, manager: manager@ }
    }

    fn act(&mut self, action: PageAction)
        ensures
            final(self)@ == old(self)@.act(action),
    {
        self.actions.push(action);
    }

    /// Shows the given item.
    pub fn set_item(
        &mut self,
        manager: &mut PlaybackManager,
        settings: &MediaSettings,
        item: ViewerItem,
        file: FileData,
        has_playback: bool,
    )
        requires
            old(self)@.generation < u64::MAX,
        ensures
            final(self).stage(*final(manager)) == old(self).stage(*old(manager)).set_item(
                *settings,
                item,
                file,
                has_playback,
            ),
    {
        self.generation = self.generation + 1;
        self.displayed = false;
        self.photo_decoded = false;
        self.is_stream_bound = false;
        self.has_playback = has_playback;
        self.act(PageAction::StorePlaceholder);
        self.act(PageAction::ShowPlaceholder);
        let media_type = match item {
            ViewerItem::Photo { .. } => MediaType::Photo,
            ViewerItem::Video { .. } => MediaType::Video,
        };
        let notify = self.loader.bind(settings, media_type, file);
        if notify {
            self.update_status(manager);
        }
        self.item = Some(item);
        self.act(PageAction::UnbindVideo);
        self.update_status(manager);
    }

    /// Displays the media of this page.
    ///
    /// This is called by the viewer when this page becomes the active one. The
    /// download of the media is started here as well, so that the media of the
    /// pages that are only swiped past is not downloaded.
    pub fn activate(&mut self, manager: &mut PlaybackManager)
        ensures
            final(self).stage(*final(manager)) == old(self).stage(*old(manager)).activate(),
    {
        let was_displayed = self.displayed;
        self.displayed = true;
        let actions = self.loader.maybe_start_auto_download();
        if actions.notify_status {
            self.update_status(manager);
        }
        if let Some(file_id) = actions.download {
            self.act(PageAction::StartDownload(file_id));
        }
        match self.item {
            Some(ViewerItem::Photo { .. }) => {
                if !was_displayed {
                    self.act(PageAction::ShowPlaceholder);
                }
                self.maybe_decode_photo();
            },
            Some(ViewerItem::Video { .. }) => {
                if matches!(self.loader.status(), FileStatus::CanBeDownloaded) {
                    self.request_download(manager);
                }
                self.start_playback(manager);
            },
            None => {},
        }
    }

    /// Stops displaying the media of this page.
    ///
    /// The decoded photo or the video frame bound by the playback is dropped,
    /// and the playback of the video is stopped if this page owns the shared
    /// media stream. The page shows its low-resolution preview again.
    pub fn deactivate(&mut self, manager: &mut PlaybackManager)
        ensures
            final(self).stage(*final(manager)) == old(self).stage(*old(manager)).deactivate(),
    {
        self.displayed = false;
        if self.has_playback {
            if let Some(path) = self.loader.downloaded_path() {
                if manager.is_current(path.as_str()) {
                    manager.stop();
                }
            }
        }
        self.reset_playback_ui();
        self.photo_decoded = false;
        self.act(PageAction::StorePlaceholder);
        self.act(PageAction::ShowPlaceholder);
    }

    /// Unbinds the media stream and hides the video widget of this page.
    pub fn reset_playback_ui(&mut self)
        ensures
            final(self)@ == old(self)@.reset_playback_ui(),
    {
        if self.is_stream_bound {
            self.is_stream_bound = false;
            self.act(PageAction::UnbindVideo);
            self.act(PageAction::ShowPlaceholder);
            self.act(PageAction::ShowPicture);
        }
    }

    /// Plays the video of this page on the shared media stream of the session.
    ///
    /// Animations loop and stay muted, while videos are played with sound.
    fn start_playback(&mut self, manager: &mut PlaybackManager)
        ensures
            final(self).stage(*final(manager)) == old(self).stage(*old(manager)).start_playback(),
    {
        let is_animation = match self.item {
            Some(ViewerItem::Video { is_animation }) => is_animation,
            _ => return,
        };
        if !self.has_playback {
            return;
        }
        let hook = PlaybackHook { owner: self.owner, generation: self.generation };
        match self.loader.downloaded_path() {
            Some(path) => {
                manager.configure(is_animation, is_animation);
                manager.play_file(path.as_str(), hook);
            },
            None => return,
        }
        self.is_stream_bound = false;
        self.act(PageAction::ShowPlaceholder);
    }

    /// Handles that the stream of the playback is prepared that the page
    /// started in the given generation.
    pub fn handle_prepared(&mut self, generation: u64)
        ensures
            final(self)@ == old(self)@.prepared(generation),
    {
        if !self.displayed || self.generation != generation {
            return;
        }
        self.is_stream_bound = true;
        self.act(PageAction::BindVideo);
        self.act(PageAction::Play);
    }

    /// Updates the widgets according to the status of the loader.
    fn update_status(&mut self, manager: &mut PlaybackManager)
        ensures
            final(self).stage(*final(manager)) == old(self).stage(*old(manager)).update_status(),
    {
        let status = self.loader.status();
        match status {
            FileStatus::Downloaded => {
                self.act(PageAction::SetButtonVisible(false));
                match self.item {
                    Some(ViewerItem::Photo { .. }) => self.maybe_decode_photo(),
                    Some(ViewerItem::Video { .. }) => {
                        if self.displayed {
                            self.start_playback(manager);
                        }
                    },
                    None => {},
                }
            },
            FileStatus::Downloading(_) | FileStatus::CanBeDownloaded => {
                self.act(PageAction::SetButtonVisible(true));
                self.act(PageAction::SetButtonStatus(status));
            },
            FileStatus::Uploading(_) => {},
        }
    }

    /// Takes what TDLib reported about a file.
    pub fn handle_file_update(&mut self, manager: &mut PlaybackManager, file: FileData)
        ensures
            final(self).stage(*final(manager)) == old(self).stage(*old(manager)).with_loader(
                old(self)@.loader.updated(file),
                old(self)@.loader.file_id == file.id && !old(self)@.loader.status.equals(
                    file.status,
                ),
            ),
    {
        if self.loader.handle_file_update(file) {
            self.update_status(manager);
        }
    }

    /// Decodes the photo of this page, if it has been downloaded and not
    /// decoded yet.
    ///
    /// Pages that are not displayed are decoded too, so that the neighbors of
    /// the displayed page have the full images of the media that is already
    /// downloaded instead of the low-resolution previews when they are swiped
    /// to. The result of a page that is not displayed, or stopped being so in
    /// the meantime, is stored as its preview rather than bound to its picture.
    fn maybe_decode_photo(&mut self)
        ensures
            final(self)@ == old(self)@.maybe_decode_photo(),
    {
        if self.photo_decoded {
            return;
        }
        if self.loader.path().is_none() {
            return;
        }
        self.photo_decoded = true;
        self.act(PageAction::DecodePhoto { generation: self.generation });
    }

    /// Handles that a photo was decoded for the given generation, or that it
    /// couldn't be.
    pub fn handle_decoded(&mut self, generation: u64, is_ok: bool)
        ensures
            final(self)@ == old(self)@.decoded(generation, is_ok),
    {
        if self.generation != generation {
            return;
        }
        if !is_ok {
            return;
        }
        self.photo_decoded = true;
        if self.displayed {
            self.act(PageAction::ShowDecoded);
        } else {
            self.act(PageAction::StoreDecoded);
        }
    }

    fn request_download(&mut self, manager: &mut PlaybackManager)
        ensures
            final(self).stage(*final(manager)) == old(self).stage(*old(manager)).start_download(
                false,
            ),
    {
        let actions = self.loader.request_download();
        if actions.notify_status {
            self.update_status(manager);
        }
        if let Some(file_id) = actions.download {
            self.act(PageAction::StartDownload(file_id));
        }
    }

    /// Clicking the page downloads its media, or cancels an ongoing manual
    /// download.
    pub fn handle_click(&mut self, manager: &mut PlaybackManager)
        ensures
            final(self).stage(*final(manager)) == match old(self)@.loader.status {
                FileStatus::CanBeDownloaded => old(self).stage(*old(manager)).start_download(false),
                FileStatus::Downloading(_) => if old(self)@.loader.is_auto {
                    old(self).stage(*old(manager))
                } else {
                    old(self).stage(*old(manager)).cancel_download()
                },
                _ => old(self).stage(*old(manager)),
            },
    {
        match self.loader.status() {
            FileStatus::CanBeDownloaded => self.request_download(manager),
            FileStatus::Downloading(_) => {
                if self.loader.is_auto() {
                    return;
                }
                let actions = self.loader.cancel_download();
                if let Some(file_id) = actions.cancel {
                    self.act(PageAction::CancelDownload(file_id));
                }
                if actions.notify_status {
                    self.update_status(manager);
                }
            },
            _ => {},
        }
    }

    /// What the widgets have to do, in order. It is handed out once.
    pub fn take_actions(&mut self) -> (actions: Vec<PageAction>)
        ensures
            actions@ == old(self)@.actions,
            final(self)@ == (PageView { actions: Seq::empty(), ..old(self)@ }),
    {
        let mut actions: Vec<PageAction> = Vec::new();
        std::mem::swap(&mut actions, &mut self.actions);
        assert(self@.actions =~= Seq::empty());
        actions
    }

    pub fn loader(&self) -> (loader: &MediaLoader)
        ensures
            loader@ == self@.loader,
    {
        &self.loader
    }
}

/// What was started for another item is discarded.
pub proof fn law_outdated_results_are_discarded(page: PageView, generation: u64, is_ok: bool)
    requires
        generation != page.generation,
    ensures
        page.prepared(generation) == page,
        page.decoded(generation, is_ok) == page,
{
}

/// A photo is not decoded again unless it was dropped.
pub proof fn law_photo_is_decoded_once(page: PageView)
    ensures
        page.maybe_decode_photo().maybe_decode_photo() == page.maybe_decode_photo(),
{
}

proof fn lemma_images_after()
    ensures
        forall|actions: Seq<PageAction>, action: PageAction| #[trigger]
            images_after(actions.push(action)) == images_after(actions).after(action),
{
    assert forall|actions: Seq<PageAction>, action: PageAction| #[trigger]
        images_after(actions.push(action)) == images_after(actions).after(action) by {
        assert(actions.push(action).drop_last() =~= actions);
    }
}

/// A page that stops being displayed drops its decoded photo: it keeps and
/// shows the low-resolution preview of its item again, and its photo has to be
/// decoded anew.
pub proof fn law_left_page_drops_photo(stage: PageStage)
    ensures
        ({
            let left = stage.deactivate().page;
            let last = left.actions.len() - 1;
            &&& left.actions[last - 1] == PageAction::StorePlaceholder
            &&& left.actions[last] == PageAction::ShowPlaceholder
            &&& images_after(left.actions).kept is Preview
            &&& images_after(left.actions).shown is Preview
            &&& !left.photo_decoded
            &&& left.loader.path is Some ==> left.maybe_decode_photo().actions
                == left.actions.push(PageAction::DecodePhoto { generation: left.generation })
        }),
{
    lemma_images_after();
}

/// A photo that was decoded is shown by a page that is displayed, which keeps
/// no more than its preview. A page that is not displayed keeps the photo as
/// its preview and goes on to show what it showed.
pub proof fn law_decoded_photo_is_shown_while_displayed(page: PageView)
    ensures
        ({
            let before = images_after(page.actions);
            let after = images_after(page.decoded(page.generation, true).actions);
            if page.displayed {
                after.shown is Photo && after.kept == before.kept
            } else {
                after.kept is Photo && after.shown == before.shown
            }
        }),
{
    lemma_images_after();
}

/// A page shows the preview that it keeps when it becomes the active one, and
/// goes on to show its photo when it is activated again.
pub proof fn law_active_photo_is_shown(stage: PageStage)
    requires
        stage.page.item matches Some(ViewerItem::Photo { .. }),
    ensures
        ({
            let before = images_after(stage.page.actions);
            let after = images_after(stage.activate().page.actions);
            &&& after.kept == before.kept
            &&& after.shown == if stage.page.displayed {
                before.shown
            } else {
                before.kept
            }
        }),
{
    lemma_images_after();
}

/// A page that is not active plays nothing: its stream is not bound, the path
/// of its video is not the current one, and a stream that is prepared later is
/// not played.
pub proof fn law_inactive_page_plays_nothing(stage: PageStage, path: Seq<char>, generation: u64)
    requires
        stage.page.has_playback,
        stage.page.media_path() == Some(path),
    ensures
        ({
            let left = stage.deactivate();
            &&& !left.page.is_stream_bound
            &&& !left.manager.is_current(path)
            &&& left.page.prepared(generation) == left.page
        }),
{
}

/// Activating the page of a downloaded video plays it, muted and looped if and
/// only if it is an animation.
pub proof fn law_active_video_plays(stage: PageStage, is_animation: bool, path: Seq<char>)
    requires
        stage.page.item == Some(ViewerItem::Video { is_animation }),
        stage.page.has_playback,
        stage.page.media_path() == Some(path),
    ensures
        stage.activate().manager.is_current(path),
        stage.activate().manager.hook() == Some(stage.page.hook()),
        stage.activate().manager.actions[stage.manager.actions.len() as int]
            == (PlaybackAction::Configure { muted: is_animation, looped: is_animation }),
{
}

/// No download is started by a page before it is active.
pub proof fn law_page_swiped_past_is_not_downloaded(
    stage: PageStage,
    settings: MediaSettings,
    item: ViewerItem,
    file: FileData,
    has_playback: bool,
    i: int,
)
    requires
        ({
            let set = stage.set_item(settings, item, file, has_playback);
            stage.page.actions.len() <= i < set.page.actions.len()
        }),
    ensures
        !(stage.set_item(settings, item, file, has_playback).page.actions[i] is StartDownload),
{
}

/// There is something to show at full size if and only if the file is
/// downloaded. What comes from the playback or the decoder names the item that
/// it is about.
pub proof fn law_downloaded_media_has_path(page: PageView)
    ensures
        page.loader.status is Downloaded ==> page.media_path() == page.loader.path,
        !(page.loader.status is Downloaded) ==> page.media_path() is None,
        page.hook().owner == page.owner,
        page.hook().generation == page.generation,
{
}

/// A photo is decoded as soon as its file is there, unless it is decoded already.
pub proof fn law_photo_is_decoded(page: PageView)
    ensures
        ({
            let after = page.maybe_decode_photo();
            let is_due = !page.photo_decoded && page.loader.path is Some;
            &&& is_due ==> after == (PageView {
                photo_decoded: true,
                actions: page.actions.push(PageAction::DecodePhoto { generation: page.generation }),
                ..page
            })
            &&& !is_due ==> after == page
        }),
{
}

/// A stream that is ready is shown and played by the page that is displayed and
/// still waits for it.
pub proof fn law_prepared_stream_is_played(page: PageView, generation: u64)
    ensures
        page.displayed && generation == page.generation ==> page.prepared(generation) == (
        PageView {
            is_stream_bound: true,
            actions: page.actions + seq![PageAction::BindVideo, PageAction::Play],
            ..page
        }),
        !page.displayed || generation != page.generation ==> page.prepared(generation) == page,
{
    assert(page.actions.push(PageAction::BindVideo).push(PageAction::Play) =~= page.actions + seq![
        PageAction::BindVideo,
        PageAction::Play,
    ]);
}

/// A photo that could be decoded counts as decoded, and nothing else changes but
/// what is shown. Nothing is shown of one that could not.
pub proof fn law_decoded_photo_counts(page: PageView)
    ensures
        page.decoded(page.generation, true) == (PageView {
            photo_decoded: true,
            actions: page.decoded(page.generation, true).actions,
            ..page
        }),
        page.decoded(page.generation, true).actions.drop_last() == page.actions,
        page.decoded(page.generation, false) == page,
{
    assert(page.decoded(page.generation, true).actions.drop_last() =~= page.actions);
}

/// A page that loses the stream shows its picture again in place of the video.
pub proof fn law_released_stream_is_unbound(page: PageView)
    ensures
        !page.reset_playback_ui().is_stream_bound,
        page.is_stream_bound ==> page.reset_playback_ui() == (PageView {
            is_stream_bound: false,
            actions: page.actions + seq![
                PageAction::UnbindVideo,
                PageAction::ShowPlaceholder,
                PageAction::ShowPicture,
            ],
            ..page
        }),
        !page.is_stream_bound ==> page.reset_playback_ui() == page,
{
    assert(page.actions.push(PageAction::UnbindVideo).push(PageAction::ShowPlaceholder).push(
        PageAction::ShowPicture,
    ) =~= page.actions + seq![
        PageAction::UnbindVideo,
        PageAction::ShowPlaceholder,
        PageAction::ShowPicture,
    ]);
}

/// A video that is downloaded is played from its file for the page, muted and in
/// a loop if and only if it is an animation. Nothing else is played.
pub proof fn law_downloaded_video_is_played(stage: PageStage)
    ensures
        ({
            let after = stage.start_playback();
            let is_playable = stage.page.item matches Some(ViewerItem::Video { .. });
            if is_playable && stage.page.loader.status is Downloaded && stage.page.loader.path
                is Some && stage.page.has_playback {
                let is_animation = stage.page.item->0->is_animation;
                &&& after.manager == stage.manager.act(
                    PlaybackAction::Configure { muted: is_animation, looped: is_animation },
                ).play_file(
                    stage.page.loader.path->0,
                    PlaybackHook { owner: stage.page.owner, generation: stage.page.generation },
                )
                &&& after.page == (PageView {
                    is_stream_bound: false,
                    actions: stage.page.actions.push(PageAction::ShowPlaceholder),
                    ..stage.page
                })
            } else {
                after == stage
            }
        }),
{
}

/// The button shows the status of a file that is not there, and is hidden for
/// one that is. Then a photo is decoded, and a video that is displayed is played.
pub proof fn law_button_shows_status(stage: PageStage)
    ensures
        ({
            let after = stage.update_status();
            let count = stage.page.actions.len() as int;
            let status = stage.page.loader.status;
            let is_photo = stage.page.item matches Some(ViewerItem::Photo { .. });
            let is_video = stage.page.item matches Some(ViewerItem::Video { .. });
            &&& status is CanBeDownloaded || status is Downloading ==> {
                &&& after.page == (PageView {
                    actions: stage.page.actions + seq![
                        PageAction::SetButtonVisible(true),
                        PageAction::SetButtonStatus(status),
                    ],
                    ..stage.page
                })
                &&& after.manager == stage.manager
            }
            &&& status is Uploading ==> after == stage
            &&& status is Downloaded ==> {
                &&& after.page.actions[count] == PageAction::SetButtonVisible(false)
                &&& after.page.loader == stage.page.loader
                &&& after.page.item == stage.page.item
                &&& after.page.displayed == stage.page.displayed
                &&& after.page.generation == stage.page.generation
                &&& is_photo && stage.page.loader.path is Some ==> after.page.photo_decoded
                &&& is_photo && stage.page.loader.path is Some && !stage.page.photo_decoded
                    ==> after.page.actions.last() == PageAction::DecodePhoto {
                    generation: stage.page.generation,
                }
                &&& is_video && stage.page.displayed && stage.page.has_playback
                    && stage.page.loader.path is Some ==> after.manager.is_current(
                    stage.page.loader.path->0,
                )
                &&& !is_video || !stage.page.displayed ==> after.manager == stage.manager
            }
        }),
{
    let status = stage.page.loader.status;
    assert(stage.page.actions.push(PageAction::SetButtonVisible(true)).push(
        PageAction::SetButtonStatus(status),
    ) =~= stage.page.actions + seq![
        PageAction::SetButtonVisible(true),
        PageAction::SetButtonStatus(status),
    ]);
}

/// A download that is started is one of the file of the item, and what is known
/// about the file is what its loader knows.
pub proof fn law_page_downloads_its_file(stage: PageStage, auto: bool)
    ensures
        ({
            let after = stage.start_download(auto);
            &&& after.page.loader == stage.page.loader.downloading(auto)
            &&& after.manager == stage.manager
            &&& stage.page.loader.has_session ==> after.page.loader.status is Downloading
                && after.page.actions.last() == PageAction::StartDownload(
                stage.page.loader.file_id,
            )
            &&& !stage.page.loader.has_session ==> after == stage
        }),
        ({
            let after = stage.start_auto_download();
            &&& after.page.loader == stage.page.loader.auto_downloading()
            &&& after.manager == stage.manager
            &&& stage.page.loader.auto_download_pending
                && stage.page.loader.status is CanBeDownloaded && stage.page.loader.has_session
                ==> after.page.actions.last() == PageAction::StartDownload(
                stage.page.loader.file_id,
            )
            &&& !stage.page.loader.auto_download_pending || !(
            stage.page.loader.status is CanBeDownloaded) ==> after.page.actions
                == stage.page.actions
        }),
{
}

/// A download that is cancelled is one of the file of the item, which can be
/// downloaded again.
pub proof fn law_page_cancels_its_download(stage: PageStage)
    ensures
        ({
            let after = stage.cancel_download();
            &&& after.page.loader.status is CanBeDownloaded
            &&& after.manager == stage.manager
            &&& after.page.item == stage.page.item
            &&& stage.page.loader.has_session
                ==> after.page.actions[stage.page.actions.len() as int]
                == PageAction::CancelDownload(stage.page.loader.file_id)
        }),
{
}

/// What is known about the file is told to the button if there is something to
/// tell.
pub proof fn law_page_takes_loader(stage: PageStage, loader: LoaderView, notify: bool)
    ensures
        ({
            let known = PageStage { page: PageView { loader, ..stage.page }, ..stage };
            let after = stage.with_loader(loader, notify);
            &&& notify ==> after == known.update_status()
            &&& !notify ==> after == known
        }),
{
}

/// A page that gets an item shows its preview and nothing of another one. It is
/// not displayed and plays nothing, and results for the previous item are
/// outdated.
pub proof fn law_page_takes_item(
    stage: PageStage,
    settings: MediaSettings,
    item: ViewerItem,
    file: FileData,
    has_playback: bool,
)
    requires
        stage.page.generation < u64::MAX,
    ensures
        ({
            let after = stage.set_item(settings, item, file, has_playback);
            let media_type = match item {
                ViewerItem::Photo { .. } => MediaType::Photo,
                ViewerItem::Video { .. } => MediaType::Video,
            };
            &&& after.page.item == Some(item)
            &&& after.page.owner == stage.page.owner
            &&& after.page.generation == stage.page.generation + 1
            &&& after.page.has_playback == has_playback
            &&& !after.page.displayed
            &&& !after.page.is_stream_bound
            &&& after.page.loader == stage.page.loader.bound_to(settings, media_type, file)
            &&& (item matches ViewerItem::Photo { .. }) && file.status is Downloaded
                ==> after.page.photo_decoded
            &&& after.manager == stage.manager
            &&& after.page.actions.contains(PageAction::UnbindVideo)
            &&& images_after(after.page.actions).kept is Preview
            &&& images_after(after.page.actions).shown is Preview
        }),
{
    lemma_images_after();
    let after = stage.set_item(settings, item, file, has_playback);
    let fresh = PageStage {
        page: PageView {
            generation: (stage.page.generation + 1) as u64,
            displayed: false,
            photo_decoded: false,
            is_stream_bound: false,
            has_playback,
            ..stage.page
        },
        ..stage
    }.act(PageAction::StorePlaceholder).act(PageAction::ShowPlaceholder);
    let media_type = match item {
        ViewerItem::Photo { .. } => MediaType::Photo,
        ViewerItem::Video { .. } => MediaType::Video,
    };
    let bound = fresh.with_loader(
        fresh.page.loader.bound_to(settings, media_type, file),
        !fresh.page.loader.status.equals(
            match file.status {
                FileStatus::Downloading(_) => FileStatus::CanBeDownloaded,
                _ => file.status,
            },
        ),
    );
    assert(after.page.actions[bound.page.actions.len() as int] == PageAction::UnbindVideo);
}

/// A page that is displayed is so until it is left, with its item. A pending
/// download is started, a photo whose file is there is decoded, and a video that
/// can be downloaded is downloaded in any case.
pub proof fn law_active_page_is_displayed(stage: PageStage)
    ensures
        ({
            let after = stage.activate();
            let is_photo = stage.page.item matches Some(ViewerItem::Photo { .. });
            let is_video = stage.page.item matches Some(ViewerItem::Video { .. });
            let loader = stage.page.loader;
            &&& after.page.displayed
            &&& after.page.item == stage.page.item
            &&& after.page.generation == stage.page.generation
            &&& after.page.loader.file_id == loader.file_id
            &&& after.page.loader.path == loader.path
            &&& !after.page.loader.auto_download_pending
            &&& is_photo && loader.path is Some ==> after.page.photo_decoded
            &&& is_photo ==> after.manager == stage.manager && after.page.loader
                == loader.auto_downloading()
            &&& is_video && loader.has_session && loader.status is CanBeDownloaded
                ==> after.page.loader.status is Downloading && after.manager == stage.manager
            &&& loader.has_session && loader.status is CanBeDownloaded && (is_video
                || loader.auto_download_pending) ==> after.page.actions.contains(
                PageAction::StartDownload(loader.file_id),
            )
            &&& is_video && !(loader.status is CanBeDownloaded) ==> after == PageStage {
                page: PageView {
                    displayed: true,
                    loader: LoaderView { auto_download_pending: false, ..loader },
                    ..stage.page
                },
                ..stage
            }.start_playback()
        }),
{
    let loader = stage.page.loader;
    let started = PageStage {
        page: PageView { displayed: true, ..stage.page },
        ..stage
    }.start_auto_download();
    let after = stage.activate();
    if loader.has_session && loader.status is CanBeDownloaded {
        if loader.auto_download_pending {
            let i = started.page.actions.len() - 1;
            assert(after.page.actions[i] == PageAction::StartDownload(loader.file_id));
        } else if stage.page.item matches Some(ViewerItem::Video { .. }) {
            assert(after.page.actions.last() == PageAction::StartDownload(loader.file_id));
            let i = after.page.actions.len() - 1;
            assert(after.page.actions[i] == PageAction::StartDownload(loader.file_id));
        }
    }
}

/// A page that is left is not displayed and shows no video. What other pages
/// play is not stopped.
pub proof fn law_left_page_is_not_displayed(stage: PageStage)
    ensures
        ({
            let after = stage.deactivate();
            let count = stage.page.actions.len() as int;
            &&& !after.page.displayed
            &&& !after.page.is_stream_bound
            &&& after.page.item == stage.page.item
            &&& after.page.loader == stage.page.loader
            &&& after.page.generation == stage.page.generation
            &&& stage.page.is_stream_bound ==> after.page.actions[count] == PageAction::UnbindVideo
                && after.page.actions[count + 2] == PageAction::ShowPicture
            &&& stage.page.has_playback && stage.page.loader.status is Downloaded && (
            stage.page.loader.path matches Some(path) && stage.manager.is_current(path))
                ==> after.manager == stage.manager.stop()
            &&& !stage.page.has_playback || !(stage.page.loader.status is Downloaded) || !(
            stage.page.loader.path matches Some(path) && stage.manager.is_current(path))
                ==> after.manager == stage.manager
        }),
{
}

} // verus!
