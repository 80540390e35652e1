//! A tile of a media album (or a single media message) showing a video or an
//! animation (GIF).

use vstd::prelude::*;

use crate::format::{duration_text, format_duration};
use crate::model::media_manager::{MediaSettings, MediaType};
use crate::ui::media_viewer_view::ViewerItem;
use crate::ui::message_row::file_status::FileStatus;
use crate::ui::message_row::media_loader::{FileData, LoaderView, MediaLoader};
use crate::ui::message_row::tile::{
    context_view, open_viewer, opened_by, ClickAction, TileAction, TileMessage, ViewerContext,
    ViewerContextView,
};

verus! {

/// What the stream of a tile is doing.
#[derive(Clone, Copy, Debug, PartialEq, Eq, Structural)]
pub struct StreamState {
    pub is_prepared: bool,
    pub is_playing: bool,
}

/// The label of the indicator.
#[derive(Debug)]
pub struct Indicator {
    pub text: String,
    /// The size of a file to be appended, behind a space.
    pub size: Option<u64>,
}

/// The state of the tile.
#[derive(Debug)]
pub struct MediaVideoTile {
    loader: MediaLoader,
    /// Whether the current media is an animation (GIF).
    is_animation: bool,
    /// The duration of the video in seconds. Always zero for animations.
    video_duration_secs: i64,
    message: Option<TileMessage>,
    viewer_context: Option<ViewerContext>,
    /// Whether there is a media stream. Only animations own a stream in the
    /// chat; videos are played in the media viewer.
    has_stream: bool,
    /// Whether the playback should start as soon as the media stream is ready,
    /// as a result of an explicit user action.
    pending_play: bool,
    /// Whether the playback was paused with an explicit user action.
    ///
    /// A playback paused this way is never resumed automatically, in contrast
    /// to a playback paused because the content went out of sight.
    user_paused: bool,
    /// Whether enough of the preview intersects with the visible area of the
    /// chat history.
    visible_on_screen: bool,
    click: ClickAction,
    actions: Vec<TileAction>,
}

/// The state of the tile.
#[verifier::ext_equal]
pub struct VideoTileView {
    pub loader: LoaderView,
    pub is_animation: bool,
    pub duration: i64,
    pub message: Option<TileMessage>,
    pub context: Option<ViewerContextView>,
    pub has_stream: bool,
    pub pending_play: bool,
    pub user_paused: bool,
    pub visible_on_screen: bool,
    pub click: ClickAction,
    pub actions: Seq<TileAction>,
}

impl View for MediaVideoTile {
    type V = VideoTileView;

    closed spec fn view(&self) -> VideoTileView {
        VideoTileView {
            loader: self.loader@,
            is_animation: self.is_animation,
            duration: self.video_duration_secs,
            message: self.message,
            context: context_view(self.viewer_context),
            has_stream: self.has_stream,
            pending_play: self.pending_play,
            user_paused: self.user_paused,
            visible_on_screen: self.visible_on_screen,
            click: self.click,
            actions: self.actions@,
        }
    }
}

impl VideoTileView {
    pub open spec fn act(self, action: TileAction) -> VideoTileView {
        VideoTileView { actions: self.actions.push(action), ..self }
    }

    /// The state after the thumbnail is shown, unless there is a stream.
    pub open spec fn try_show_thumbnail(self) -> VideoTileView {
        if self.has_stream {
            self
        } else {
            self.act(TileAction::TryShowThumbnail)
        }
    }

    /// The state after the widgets were updated according to the status of the
    /// loader.
    pub open spec fn update_status(self) -> VideoTileView {
        match self.loader.status {
            FileStatus::Downloaded => VideoTileView {
                click: if self.is_animation {
                    ClickAction::TogglePlayback
                } else {
                    ClickAction::OpenViewer
                },
                ..self.act(TileAction::SetButtonVisible(false)).try_show_thumbnail()
            },
            FileStatus::Downloading(_) => VideoTileView {
                click: if self.loader.is_auto {
                    ClickAction::Nothing
                } else {
                    ClickAction::CancelDownload
                },
                ..self.act(TileAction::SetButtonVisible(!self.loader.is_auto)).act(
                    TileAction::SetButtonStatus(self.loader.status),
                )
            },
            FileStatus::CanBeDownloaded => VideoTileView {
                click: ClickAction::RequestDownload,
                ..self.act(TileAction::SetButtonVisible(true)).act(
                    TileAction::SetButtonStatus(self.loader.status),
                )
            },
            FileStatus::Uploading(_) => self,
        }.act(TileAction::UpdateIndicator)
    }

    /// The state with a loader that may have changed its status.
    pub open spec fn with_loader(self, loader: LoaderView, notify: bool) -> VideoTileView {
        let loaded = VideoTileView { loader, ..self };
        if notify {
            loaded.update_status()
        } else {
            loaded
        }
    }

    /// The state after the stream was closed. It can be opened again by a
    /// click.
    pub open spec fn close_media(self) -> VideoTileView {
        let closed = if self.has_stream {
            VideoTileView { has_stream: false, ..self }.act(TileAction::CloseStream)
        } else {
            self
        };
        VideoTileView { pending_play: false, ..closed }.act(TileAction::TryShowThumbnail)
    }

    /// The state after the playback was stopped and the media dropped.
    pub open spec fn reset_media_state(self) -> VideoTileView {
        VideoTileView { user_paused: false, click: ClickAction::Nothing, ..self.close_media() }
    }

    /// The state after a download was started.
    pub open spec fn start_download(self, auto: bool) -> VideoTileView {
        let actions = self.loader.download_actions();
        let loaded = self.with_loader(self.loader.downloading(auto), actions.notify_status);
        match actions.download {
            Some(file_id) => loaded.act(TileAction::StartDownload(file_id)),
            None => loaded,
        }
    }

    /// The state after the pending download was started, if there is one.
    pub open spec fn start_auto_download(self) -> VideoTileView {
        let taken = VideoTileView {
            loader: LoaderView { auto_download_pending: false, ..self.loader },
            ..self
        };
        if self.loader.wants_auto_download() {
            taken.start_download(true)
        } else {
            taken
        }
    }

    /// The state after the download was canceled.
    pub open spec fn cancel_download(self) -> VideoTileView {
        let told = if self.loader.has_session {
            self.act(TileAction::CancelDownload(self.loader.file_id))
        } else {
            self
        };
        told.with_loader(
            self.loader.with_status(FileStatus::CanBeDownloaded),
            !self.loader.status.equals(FileStatus::CanBeDownloaded),
        )
    }

    /// The viewer item of the media of the tile.
    pub open spec fn viewer_item(self) -> Option<ViewerItem> {
        if self.loader.file is Some {
            Some(ViewerItem::Video { is_animation: self.is_animation })
        } else {
            None
        }
    }

    /// The state after other media was set.
    pub open spec fn update_media(
        self,
        settings: MediaSettings,
        file: FileData,
        duration: i64,
        is_animation: bool,
        is_mapped: bool,
    ) -> VideoTileView {
        let described = VideoTileView {
            is_animation,
            duration,
            ..self.reset_media_state()
        }.act(TileAction::UpdateIndicator).act(TileAction::ClearPicture);
        let bound = described.with_loader(
            described.loader.bound_to(settings, MediaType::Video, file),
            !described.loader.status.equals(
                match file.status {
                    FileStatus::Downloading(_) => FileStatus::CanBeDownloaded,
                    _ => file.status,
                },
            ),
        ).update_status().act(TileAction::BindThumbnail).act(TileAction::BumpThumbnail);
        if is_mapped {
            bound.start_auto_download().act(TileAction::DownloadThumbnail)
        } else {
            bound
        }
    }

    /// The state after a stream was created for the downloaded file.
    ///
    /// A playback that was requested starts as soon as the stream is ready,
    /// and clicking toggles it.
    pub open spec fn prepare_video(self) -> VideoTileView {
        VideoTileView {
            has_stream: true,
            pending_play: self.pending_play,
            click: ClickAction::TogglePlayback,
            ..self.reset_media_state().act(TileAction::SetButtonVisible(false)).act(
                TileAction::OpenStream { looped: self.is_animation },
            )
        }
    }

    /// The state after a stream was created, if the file has been downloaded
    /// and there is none yet.
    pub open spec fn maybe_prepare_media(self) -> VideoTileView {
        if self.has_stream {
            self
        } else {
            let prepared = if self.loader.status is Downloaded && self.loader.path is Some {
                self.prepare_video()
            } else {
                self
            };
            prepared.try_show_thumbnail()
        }
    }

    /// The state after the playback was started, if it has been requested and
    /// the current state allows it.
    pub open spec fn maybe_start_playback(self, stream: StreamState) -> VideoTileView {
        if self.pending_play && self.visible_on_screen && !self.user_paused && self.has_stream
            && stream.is_prepared && !stream.is_playing {
            VideoTileView { pending_play: false, ..self.act(TileAction::PlayStream) }
        } else {
            self
        }
    }

    /// The state after the user asked to start or pause the playback.
    pub open spec fn toggle_playback(self, stream: StreamState) -> VideoTileView {
        if !self.has_stream {
            VideoTileView { pending_play: true, ..self }.maybe_prepare_media()
        } else if stream.is_playing {
            VideoTileView { user_paused: true, pending_play: false, ..self }.act(
                TileAction::PauseStream,
            )
        } else if stream.is_prepared {
            VideoTileView { user_paused: false, pending_play: false, ..self }.act(
                TileAction::PlayStream,
            )
        } else {
            VideoTileView { user_paused: false, pending_play: true, ..self }
        }
    }

    /// The state after the content came in sight or went out of it.
    pub open spec fn set_visible_on_screen(
        self,
        visible: bool,
        stream: StreamState,
    ) -> VideoTileView {
        let seen = VideoTileView { visible_on_screen: visible, ..self };
        if self.visible_on_screen == visible {
            self
        } else if visible {
            seen.maybe_start_playback(stream)
        } else if self.has_stream && stream.is_playing {
            seen.act(TileAction::PauseStream)
        } else {
            seen
        }
    }

    /// The state after the widget was shown.
    pub open spec fn map(self) -> VideoTileView {
        let started = self.start_auto_download();
        let asked = if started.loader.has_session {
            started.act(TileAction::DownloadThumbnail)
        } else {
            started
        };
        asked.try_show_thumbnail()
    }

    /// The state after the widget was hidden.
    pub open spec fn unmap(self, stream: StreamState) -> VideoTileView {
        let closed = if self.is_animation {
            self.close_media()
        } else {
            self
        };
        closed.set_visible_on_screen(false, stream)
    }
}

impl MediaVideoTile {
    pub fn new() -> (tile: MediaVideoTile)
        ensures
            tile@ == (VideoTileView {
                loader: LoaderView::empty(),
                is_animation: false,
                duration: 0,
                message: None,
                context: None,
                has_stream: false,
                pending_play: false,
                user_paused: false,
                visible_on_screen: false,
                click: ClickAction::Nothing,
                actions: Seq::empty(),
            }),
    {
        let tile = MediaVideoTile {
            loader: MediaLoader::new(),
            is_animation: false,
            video_duration_secs: 0,
            message: None,
            viewer_context: None,
            has_stream: false,
            pending_play: false,
            user_paused: false,
            visible_on_screen: false,
            click: ClickAction::Nothing,
            actions: Vec::new(),
        };
        assert(tile@.actions =~= Seq::empty());
        tile
    }

    fn act(&mut self, action: TileAction)
        ensures
            final(self)@ == old(self)@.act(action),
    {
        self.actions.push(action);
    }

    /// Shows the given media. It may have been shown on a widget that is
    /// mapped already, in which case pending downloads are started right away.
    pub fn update_media(
        &mut self,
        settings: &MediaSettings,
        file: FileData,
        duration_secs: i64,
        is_animation: bool,
        is_mapped: bool,
    )
        ensures
            final(self)@ == old(self)@.update_media(
                *settings,
                file,
                duration_secs,
                is_animation,
                is_mapped,
            ),
    {
        // This widget may be reused for other media, in which case the
        // playback of the previous media needs to be stopped.
        self.reset_media_state();
        self.is_animation = is_animation;
        self.video_duration_secs = duration_secs;
        // The loader still refers to the previous media here, so the indicator
        // is finalized after binding below.
        self.act(TileAction::UpdateIndicator);
        self.act(TileAction::ClearPicture);
        let notify = self.loader.bind(settings, MediaType::Video, file);
        if notify {
            self.update_status();
        }
        self.update_status();
        self.act(TileAction::BindThumbnail);
        self.act(TileAction::BumpThumbnail);
        if is_mapped {
            self.maybe_start_auto_download();
            self.act(TileAction::DownloadThumbnail);
        }
    }

    /// Updates the widgets according to the status of the loader.
    fn update_status(&mut self)
        ensures
            final(self)@ == old(self)@.update_status(),
    {
        let status = self.loader.status();
        match status {
            FileStatus::Downloaded => {
                self.act(TileAction::SetButtonVisible(false));
                // Show the preview until the media is playing, so that the
                // tile is not empty.
                self.try_show_thumbnail();
                self.click = if self.is_animation {
                    // Animations are played manually by clicking.
                    ClickAction::TogglePlayback
                } else {
                    // Videos are opened in the media viewer on click.
                    ClickAction::OpenViewer
                };
            },
            FileStatus::Downloading(_) => {
                let manual = !self.loader.is_auto();
                self.act(TileAction::SetButtonVisible(manual));
                self.act(TileAction::SetButtonStatus(status));
                self.click = if manual {
                    // Clicking again cancels the download.
                    ClickAction::CancelDownload
                } else {
                    ClickAction::Nothing
                };
            },
            FileStatus::CanBeDownloaded => {
                self.act(TileAction::SetButtonVisible(true));
                self.act(TileAction::SetButtonStatus(status));
                self.click = ClickAction::RequestDownload;
            },
            // Videos are never uploaded by this client.
            FileStatus::Uploading(_) => {},
        }
        // The indicator depends on the loader status: it shows the file size
        // while the download is pending.

        self.act(TileAction::UpdateIndicator);
    }

    /// Takes what TDLib reported about a file.
    pub fn handle_file_update(&mut self, file: FileData)
        ensures
            final(self)@ == old(self)@.with_loader(
                old(self)@.loader.updated(file),
                old(self)@.loader.file_id == file.id && !old(self)@.loader.status.equals(
                    file.status,
                ),
            ),
    {
        if self.loader.handle_file_update(file) {
            self.update_status();
        }
    }

    fn maybe_start_auto_download(&mut self)
        ensures
            final(self)@ == old(self)@.start_auto_download(),
    {
        let actions = self.loader.maybe_start_auto_download();
        if actions.notify_status {
            self.update_status();
        }
        if let Some(file_id) = actions.download {
            self.act(TileAction::StartDownload(file_id));
        }
    }

    /// Starts the download as a result of a user action.
    fn request_download(&mut self)
        ensures
            final(self)@ == old(self)@.start_download(false),
    {
        let actions = self.loader.request_download();
        if actions.notify_status {
            self.update_status();
        }
        if let Some(file_id) = actions.download {
            self.act(TileAction::StartDownload(file_id));
        }
    }

    /// Cancels the download.
    fn cancel_download(&mut self)
        ensures
            final(self)@ == old(self)@.cancel_download(),
    {
        let actions = self.loader.cancel_download();
        if let Some(file_id) = actions.cancel {
            self.act(TileAction::CancelDownload(file_id));
        }
        if actions.notify_status {
            self.update_status();
        }
    }

    /// Handles a click on the preview. Returns what the viewer is opened on, if
    /// it is.
    pub fn handle_click(&mut self, stream: StreamState) -> (opened: Option<ViewerContext>)
        ensures
            final(self)@ == match old(self)@.click {
                ClickAction::RequestDownload => old(self)@.start_download(false),
                ClickAction::CancelDownload => old(self)@.cancel_download(),
                ClickAction::TogglePlayback => old(self)@.toggle_playback(stream),
                _ => old(self)@,
            },
            context_view(opened) == if old(self)@.click == ClickAction::OpenViewer {
                opened_by(old(self)@.message, old(self)@.context, old(self)@.viewer_item())
            } else {
                None
            },
    {
        match self.click {
            ClickAction::RequestDownload => self.request_download(),
            ClickAction::CancelDownload => self.cancel_download(),
            ClickAction::TogglePlayback => self.toggle_playback(stream),
            ClickAction::OpenViewer => return self.open_viewer(),
            ClickAction::Nothing | ClickAction::OpenFile => {},
        }
        None
    }

    /// Loads the downloaded file into a media stream without starting the
    /// playback.
    ///
    /// The playback is started as soon as the stream is ready, if a playback
    /// was requested meanwhile. Clicking the preview toggles the playback.
    ///
    /// Only animations reach this: videos are opened in the media viewer
    /// instead.
    fn prepare_video(&mut self)
        ensures
            final(self)@ == old(self)@.prepare_video(),
    {
        let is_requested = self.pending_play;
        self.reset_media_state();
        // The media may have been downloaded right before this call.
        self.act(TileAction::SetButtonVisible(false));
        self.act(TileAction::OpenStream { looped: self.is_animation });
        self.has_stream = true;
        self.pending_play = is_requested;
        self.click = ClickAction::TogglePlayback;
    }

    /// Stops the playback and drops the current media, resetting all
    /// associated state.
    fn reset_media_state(&mut self)
        ensures
            final(self)@ == old(self)@.reset_media_state(),
    {
        self.close_media();
        self.user_paused = false;
        self.click = ClickAction::Nothing;
    }

    /// Stops the playback and closes the current media stream, freeing the
    /// resources of the underlying pipeline.
    ///
    /// Closing the stream is essential: merely pausing it would leave a full
    /// media pipeline behind, whose teardown happens synchronously on the main
    /// thread when the stream is eventually dropped. If such a leftover
    /// pipeline got stuck, the whole UI would freeze. The loader binding, the
    /// media metadata and what a click does are kept, so that the stream can
    /// be prepared again later.
    fn close_media(&mut self)
        ensures
            final(self)@ == old(self)@.close_media(),
    {
        if self.has_stream {
            self.has_stream = false;
            self.act(TileAction::CloseStream);
        }
        self.pending_play = false;
        // Show the preview, so that the tile is not empty once the media
        // stream is closed.
        self.try_show_thumbnail();
    }

    /// Prepares the media stream from the bound file if it has been downloaded
    /// and the stream has not been prepared yet.
    ///
    /// This is only called when the user explicitly clicks to play, so that
    /// videos that are merely shown on screen do not keep a pipeline alive.
    fn maybe_prepare_media(&mut self)
        ensures
            final(self)@ == old(self)@.maybe_prepare_media(),
    {
        if self.has_stream {
            return;
        }
        if self.loader.downloaded_path().is_some() {
            self.prepare_video();
        }
        // The thumbnail may have been downloaded already.

        self.try_show_thumbnail();
    }

    /// Shows the thumbnail as a preview if it has been downloaded already.
    ///
    /// The video stream is not replaced while it is playing, so that the
    /// playback is not interrupted.
    fn try_show_thumbnail(&mut self)
        ensures
            final(self)@ == old(self)@.try_show_thumbnail(),
    {
        if self.has_stream {
            return;
        }
        self.act(TileAction::TryShowThumbnail);
    }

    /// Handles that the stream became ready.
    pub fn handle_prepared(&mut self, stream: StreamState)
        ensures
            final(self)@ == old(self)@.maybe_start_playback(stream),
    {
        self.maybe_start_playback(stream);
    }

    /// Starts the playback if it has been explicitly requested and the current
    /// state allows it: the media must be prepared and visible on screen, not
    /// paused by the user.
    fn maybe_start_playback(&mut self, stream: StreamState)
        ensures
            final(self)@ == old(self)@.maybe_start_playback(stream),
    {
        if !self.pending_play {
            return;
        }
        if !self.visible_on_screen || self.user_paused {
            return;
        }
        if !self.has_stream || !stream.is_prepared || stream.is_playing {
            return;
        }
        self.act(TileAction::PlayStream);
        self.pending_play = false;
    }

    /// Clicking the media preview starts or pauses the playback.
    ///
    /// If the video has not been loaded into a media stream yet, the stream is
    /// created on demand and playback starts as soon as it is ready.
    fn toggle_playback(&mut self, stream: StreamState)
        ensures
            final(self)@ == old(self)@.toggle_playback(stream),
    {
        if !self.has_stream {
            self.pending_play = true;
            self.maybe_prepare_media();
            return;
        }
        if stream.is_playing {
            self.user_paused = true;
            self.pending_play = false;
            self.act(TileAction::PauseStream);
        } else {
            self.user_paused = false;
            self.pending_play = false;
            // If the stream is not ready yet, the playback starts as soon as
            // it is.
            if stream.is_prepared {
                self.act(TileAction::PlayStream);
            } else {
                self.pending_play = true;
            }
        }
    }

    /// The label of the indicator according to the current media and the
    /// status of the loader.
    ///
    /// Animations show a static label. Videos show their duration, plus the
    /// file size as long as the file has to be downloaded manually.
    pub fn indicator(&self) -> (indicator: Indicator)
        ensures
            indicator.text@ == if self@.is_animation {
                "GIF"@
            } else {
                duration_text(self@.duration as int)
            },
            indicator.size == if !self@.is_animation && self@.loader.status is CanBeDownloaded {
                Some(self@.loader.size as u64)
            } else {
                None
            },
    {
        if self.is_animation {
            return Indicator { text: "GIF".to_owned(), size: None };
        }
        let size = if matches!(self.loader.status(), FileStatus::CanBeDownloaded) {
            Some(self.loader.size())
        } else {
            None
        };
        Indicator { text: format_duration(self.video_duration_secs), size }
    }

    /// Sets whether this widget is sufficiently visible on screen and pauses
    /// the playback when it goes out of sight. A playback that was requested
    /// by the user while the content was off screen is resumed once the
    /// content becomes visible again.
    pub fn set_visible_on_screen(&mut self, visible_on_screen: bool, stream: StreamState)
        ensures
            final(self)@ == old(self)@.set_visible_on_screen(visible_on_screen, stream),
    {
        if self.visible_on_screen == visible_on_screen {
            return;
        }
        self.visible_on_screen = visible_on_screen;
        if visible_on_screen {
            self.maybe_start_playback(stream);
        } else if self.has_stream && stream.is_playing {
            self.act(TileAction::PauseStream);
        }
    }

    /// Handles that the widget is shown.
    pub fn map(&mut self)
        ensures
            final(self)@ == old(self)@.map(),
    {
        // The download is started when the widget is shown, so that videos
        // that are only scrolled past are not downloaded.
        self.maybe_start_auto_download();
        if self.loader.has_session() {
            self.act(TileAction::DownloadThumbnail);
        }
        self.try_show_thumbnail();
    }

    /// Handles that the widget is hidden.
    ///
    /// The media pipeline is stopped as soon as the widget goes out of sight.
    pub fn unmap(&mut self, stream: StreamState)
        ensures
            final(self)@ == old(self)@.unmap(stream),
    {
        // Only animations own a media stream in the chat.
        if self.is_animation {
            self.close_media();
        }
        self.set_visible_on_screen(false, stream);
    }

    /// Sets the message this tile displays.
    pub fn set_message(&mut self, message: Option<TileMessage>)
        ensures
            final(self)@ == (VideoTileView { message, ..old(self)@ }),
    {
        self.message = message;
    }

    /// Sets the entries of the media album this tile belongs to, together with
    /// the index of this tile's entry.
    ///
    /// Clicking the tile opens the media viewer on the whole album, at the
    /// entry of this tile.
    pub fn set_viewer_context(&mut self, context: ViewerContext)
        ensures
            final(self)@ == (VideoTileView { context: Some(context@), ..old(self)@ }),
    {
        self.viewer_context = Some(context);
    }

    /// The viewer item of the media of this tile.
    pub fn viewer_item(&self) -> (item: Option<ViewerItem>)
        ensures
            item == self@.viewer_item(),
    {
        if self.loader.file().is_some() {
            Some(ViewerItem::Video { is_animation: self.is_animation })
        } else {
            None
        }
    }

    /// What the media viewer is opened on with the media of this tile.
    fn open_viewer(&self) -> (opened: Option<ViewerContext>)
        ensures
            context_view(opened) == opened_by(self@.message, self@.context, self@.viewer_item()),
    {
        open_viewer(self.message, &self.viewer_context, self.viewer_item())
    }

    /// What the widgets have to do, in order. It is handed out once.
    pub fn take_actions(&mut self) -> (actions: Vec<TileAction>)
        ensures
            actions@ == old(self)@.actions,
            final(self)@ == (VideoTileView { actions: Seq::empty(), ..old(self)@ }),
    {
        let mut actions: Vec<TileAction> = Vec::new();
        std::mem::swap(&mut actions, &mut self.actions);
        assert(self@.actions =~= Seq::empty());
        actions
    }

    pub fn loader(&self) -> (loader: &MediaLoader)
        ensures
            loader@ == self@.loader,
    {
        &self.loader
    }
}

/// Clicking on an animation that is not loaded yet plays it as soon as it is
/// ready, provided that it is still visible.
pub proof fn law_clicked_animation_plays(tile: VideoTileView, idle: StreamState, ready: StreamState)
    requires
        !tile.has_stream,
        tile.loader.status is Downloaded,
        tile.loader.path is Some,
        tile.visible_on_screen,
        ready.is_prepared,
        !ready.is_playing,
    ensures
        ({
            let clicked = tile.toggle_playback(idle);
            &&& clicked.has_stream
            &&& clicked.maybe_start_playback(ready).actions == clicked.actions.push(
                TileAction::PlayStream,
            )
        }),
{
}

/// A playback that the user paused is not resumed, unless the user asks for it
/// or other media is set.
pub proof fn law_paused_playback_stays_paused(
    tile: VideoTileView,
    playing: StreamState,
    later: StreamState,
    visible: bool,
    loader: LoaderView,
    notify: bool,
)
    requires
        tile.has_stream,
        playing.is_playing || tile.user_paused,
    ensures
        ({
            let paused = if tile.user_paused {
                tile
            } else {
                tile.toggle_playback(playing)
            };
            let moved = paused.set_visible_on_screen(visible, later);
            &&& paused.user_paused
            &&& paused.maybe_start_playback(later) == paused
            &&& moved.user_paused
            &&& moved.actions == paused.actions || moved.actions == paused.actions.push(
                TileAction::PauseStream,
            )
            &&& paused.with_loader(loader, notify).user_paused
        }),
{
}

/// No stream is left behind when an animation is hidden.
pub proof fn law_hidden_animation_has_no_stream(tile: VideoTileView, stream: StreamState)
    requires
        tile.is_animation,
    ensures
        !tile.unmap(stream).has_stream,
        !tile.unmap(stream).visible_on_screen,
{
}

/// An animation that was hidden can be played again with a click once it is
/// shown again.
pub proof fn law_hidden_animation_plays_again(
    tile: VideoTileView,
    stream: StreamState,
    idle: StreamState,
    ready: StreamState,
)
    requires
        tile.is_animation,
        tile.loader.status is Downloaded,
        tile.loader.path is Some,
        tile.click == ClickAction::TogglePlayback,
        ready.is_prepared,
        !ready.is_playing,
    ensures
        ({
            let shown = tile.unmap(stream).map().set_visible_on_screen(true, idle);
            let clicked = shown.toggle_playback(idle);
            &&& shown.click == ClickAction::TogglePlayback
            &&& clicked.has_stream
            &&& clicked.maybe_start_playback(ready).actions == clicked.actions.push(
                TileAction::PlayStream,
            )
        }),
{
}

/// A click plays an animation that is downloaded and opens such a video,
/// downloads one that can be, and cancels a download that was asked for. The
/// button fits, and the indicator is updated last in any case.
pub proof fn law_tile_fits_status(tile: VideoTileView)
    ensures
        ({
            let after = tile.update_status();
            let status = tile.loader.status;
            let told = after.actions.drop_last();
            &&& after.actions.last() == TileAction::UpdateIndicator
            &&& status is Downloaded ==> {
                &&& after.click == if tile.is_animation {
                    ClickAction::TogglePlayback
                } else {
                    ClickAction::OpenViewer
                }
                &&& tile.has_stream ==> told == tile.actions.push(
                    TileAction::SetButtonVisible(false),
                )
                &&& !tile.has_stream ==> told == tile.actions + seq![
                    TileAction::SetButtonVisible(false),
                    TileAction::TryShowThumbnail,
                ]
            }
            &&& status is Downloading ==> {
                &&& after.click == if tile.loader.is_auto {
                    ClickAction::Nothing
                } else {
                    ClickAction::CancelDownload
                }
                &&& told == tile.actions + seq![
                    TileAction::SetButtonVisible(!tile.loader.is_auto),
                    TileAction::SetButtonStatus(status),
                ]
            }
            &&& status is CanBeDownloaded ==> {
                &&& after.click == ClickAction::RequestDownload
                &&& told == tile.actions + seq![
                    TileAction::SetButtonVisible(true),
                    TileAction::SetButtonStatus(status),
                ]
            }
            &&& status is Uploading ==> after.click == tile.click && told == tile.actions
            &&& after == (VideoTileView { click: after.click, actions: after.actions, ..tile })
        }),
        tile.with_loader(tile.loader, true) == tile.update_status(),
        tile.with_loader(tile.loader, false) == tile,
{
    let after = tile.update_status();
    let status = tile.loader.status;
    let told = after.actions.drop_last();
    if status is Downloaded && !tile.has_stream {
        assert(told =~= tile.actions + seq![
            TileAction::SetButtonVisible(false),
            TileAction::TryShowThumbnail,
        ]);
    }
    if status is Downloaded && tile.has_stream {
        assert(told =~= tile.actions.push(TileAction::SetButtonVisible(false)));
    }
    if status is Downloading {
        assert(told =~= tile.actions + seq![
            TileAction::SetButtonVisible(!tile.loader.is_auto),
            TileAction::SetButtonStatus(status),
        ]);
    }
    if status is CanBeDownloaded {
        assert(told =~= tile.actions + seq![
            TileAction::SetButtonVisible(true),
            TileAction::SetButtonStatus(status),
        ]);
    }
    if status is Uploading {
        assert(told =~= tile.actions);
    }
}

/// A stream that is closed is not played later, and the thumbnail is shown in
/// its place. A tile that is reset takes no clicks and forgets that it was
/// paused.
pub proof fn law_closed_media_is_not_played(tile: VideoTileView, stream: StreamState)
    ensures
        ({
            let closed = tile.close_media();
            &&& !closed.has_stream
            &&& !closed.pending_play
            &&& closed.maybe_start_playback(stream) == closed
            &&& tile.has_stream ==> closed.actions == tile.actions + seq![
                TileAction::CloseStream,
                TileAction::TryShowThumbnail,
            ]
            &&& !tile.has_stream ==> closed.actions == tile.actions.push(
                TileAction::TryShowThumbnail,
            )
            &&& closed == (VideoTileView {
                has_stream: false,
                pending_play: false,
                actions: closed.actions,
                ..tile
            })
            &&& tile.reset_media_state() == (VideoTileView {
                user_paused: false,
                click: ClickAction::Nothing,
                ..closed
            })
        }),
{
    let closed = tile.close_media();
    if tile.has_stream {
        assert(closed.actions =~= tile.actions + seq![
            TileAction::CloseStream,
            TileAction::TryShowThumbnail,
        ]);
    }
}

/// A download that is started or cancelled is one of the file of the video.
pub proof fn law_video_is_downloaded(tile: VideoTileView, auto: bool)
    ensures
        ({
            let after = tile.start_download(auto);
            &&& after.loader == tile.loader.downloading(auto)
            &&& tile.loader.has_session ==> after.loader.status is Downloading
                && after.actions.last() == TileAction::StartDownload(tile.loader.file_id)
            &&& !tile.loader.has_session ==> after == tile
        }),
        ({
            let after = tile.start_auto_download();
            &&& after.loader == tile.loader.auto_downloading()
            &&& tile.loader.auto_download_pending && tile.loader.status is CanBeDownloaded
                && tile.loader.has_session ==> after.actions.last() == TileAction::StartDownload(
                tile.loader.file_id,
            )
            &&& !tile.loader.auto_download_pending || !(tile.loader.status is CanBeDownloaded)
                ==> after.actions == tile.actions
        }),
        ({
            let after = tile.cancel_download();
            &&& after.loader.status is CanBeDownloaded
            &&& tile.loader.has_session ==> after.actions[tile.actions.len() as int]
                == TileAction::CancelDownload(tile.loader.file_id)
            &&& !(tile.loader.status is CanBeDownloaded) ==> after.click
                == ClickAction::RequestDownload
        }),
{
}

/// The viewer shows a video as soon as its file is known.
pub proof fn law_viewer_shows_video(tile: VideoTileView)
    ensures
        tile.loader.file is Some ==> tile.viewer_item() == Some(
            ViewerItem::Video { is_animation: tile.is_animation },
        ),
        tile.loader.file is None ==> tile.viewer_item() is None,
{
}

/// A tile that gets a video plays and shows nothing of the previous one, and
/// knows the file and the length of the video. A tile that is mapped starts the
/// downloads at once, as far as the settings allow them.
pub proof fn law_tile_takes_video(
    tile: VideoTileView,
    settings: MediaSettings,
    file: FileData,
    duration: i64,
    is_animation: bool,
    is_mapped: bool,
)
    ensures
        ({
            let after = tile.update_media(settings, file, duration, is_animation, is_mapped);
            let bound = tile.loader.bound_to(settings, MediaType::Video, file);
            &&& after.is_animation == is_animation
            &&& after.duration == duration
            &&& after.message == tile.message
            &&& after.context == tile.context
            &&& after.visible_on_screen == tile.visible_on_screen
            &&& !after.has_stream
            &&& !after.pending_play
            &&& !after.user_paused
            &&& after.loader == if is_mapped {
                bound.auto_downloading()
            } else {
                bound
            }
            &&& tile.has_stream ==> after.actions[tile.actions.len() as int]
                == TileAction::CloseStream
            &&& after.actions.contains(TileAction::ClearPicture)
            &&& after.actions.contains(TileAction::BindThumbnail)
            &&& after.actions.contains(TileAction::BumpThumbnail)
            &&& is_mapped ==> after.actions.last() == TileAction::DownloadThumbnail
            &&& is_mapped && bound.wants_auto_download() ==> after.actions[after.actions.len() - 2]
                == TileAction::StartDownload(file.id)
            &&& file.status is Downloaded ==> after.click == if is_animation {
                ClickAction::TogglePlayback
            } else {
                ClickAction::OpenViewer
            }
        }),
{
    let described = VideoTileView {
        is_animation,
        duration,
        ..tile.reset_media_state()
    }.act(TileAction::UpdateIndicator).act(TileAction::ClearPicture);
    let shown = described.with_loader(
        described.loader.bound_to(settings, MediaType::Video, file),
        !described.loader.status.equals(
            match file.status {
                FileStatus::Downloading(_) => FileStatus::CanBeDownloaded,
                _ => file.status,
            },
        ),
    ).update_status();
    let after = tile.update_media(settings, file, duration, is_animation, is_mapped);
    let cleared = described.actions.len() - 1;
    let bound = shown.actions.len() as int;
    assert(described.actions[cleared] == TileAction::ClearPicture);
    assert(shown.actions[cleared] == TileAction::ClearPicture);
    assert(after.actions[cleared] == TileAction::ClearPicture);
    assert(after.actions[bound] == TileAction::BindThumbnail);
    assert(after.actions[bound + 1] == TileAction::BumpThumbnail);
    if tile.has_stream {
        let first = tile.actions.len() as int;
        assert(described.actions[first] == TileAction::CloseStream);
        assert(shown.actions[first] == TileAction::CloseStream);
        assert(after.actions[first] == TileAction::CloseStream);
    }
}

/// A stream is opened for a video that is downloaded, looped if and only if it
/// is an animation, and not opened again while it is open. The thumbnail is
/// shown while there is none.
pub proof fn law_stream_is_opened(tile: VideoTileView)
    ensures
        ({
            let after = tile.maybe_prepare_media();
            &&& tile.has_stream ==> after == tile
            &&& !tile.has_stream && tile.loader.status is Downloaded && tile.loader.path is Some
                ==> {
                &&& after.has_stream
                &&& !after.user_paused
                &&& after.pending_play == tile.pending_play
                &&& after.click == ClickAction::TogglePlayback
                &&& after.actions == tile.actions + seq![
                    TileAction::TryShowThumbnail,
                    TileAction::SetButtonVisible(false),
                    TileAction::OpenStream { looped: tile.is_animation },
                ]
                &&& after == (VideoTileView {
                    has_stream: true,
                    user_paused: false,
                    click: after.click,
                    actions: after.actions,
                    ..tile
                })
            }
            &&& !tile.has_stream && (!(tile.loader.status is Downloaded)
                || tile.loader.path is None) ==> after == (VideoTileView {
                actions: tile.actions.push(TileAction::TryShowThumbnail),
                ..tile
            })
        }),
{
    let after = tile.maybe_prepare_media();
    if !tile.has_stream && tile.loader.status is Downloaded && tile.loader.path is Some {
        assert(after.actions =~= tile.actions + seq![
            TileAction::TryShowThumbnail,
            TileAction::SetButtonVisible(false),
            TileAction::OpenStream { looped: tile.is_animation },
        ]);
    }
}

/// A click plays, pauses or resumes: it opens a stream where there is none,
/// pauses one that is played, plays one that is ready, and waits for one that is
/// not.
pub proof fn law_click_toggles_playback(tile: VideoTileView, stream: StreamState)
    ensures
        ({
            let after = tile.toggle_playback(stream);
            &&& !tile.has_stream ==> after == VideoTileView {
                pending_play: true,
                ..tile
            }.maybe_prepare_media()
            &&& tile.has_stream && stream.is_playing ==> after == (VideoTileView {
                user_paused: true,
                pending_play: false,
                actions: tile.actions.push(TileAction::PauseStream),
                ..tile
            })
            &&& tile.has_stream && !stream.is_playing && stream.is_prepared ==> after == (
            VideoTileView {
                user_paused: false,
                pending_play: false,
                actions: tile.actions.push(TileAction::PlayStream),
                ..tile
            })
            &&& tile.has_stream && !stream.is_playing && !stream.is_prepared ==> after == (
            VideoTileView { user_paused: false, pending_play: true, ..tile })
        }),
{
}

/// A stream that someone waits for is played once it is ready and can be seen,
/// and only then.
pub proof fn law_awaited_stream_is_played(tile: VideoTileView, stream: StreamState)
    ensures
        ({
            let after = tile.maybe_start_playback(stream);
            let is_due = tile.pending_play && tile.has_stream && tile.visible_on_screen
                && !tile.user_paused && stream.is_prepared && !stream.is_playing;
            &&& is_due ==> after == (VideoTileView {
                pending_play: false,
                actions: tile.actions.push(TileAction::PlayStream),
                ..tile
            })
            &&& !is_due ==> after == tile
        }),
{
}

/// What is played is paused when it is scrolled out of view, and what is waited
/// for is played when it is scrolled into view.
pub proof fn law_visible_tile_is_played(tile: VideoTileView, visible: bool, stream: StreamState)
    ensures
        ({
            let after = tile.set_visible_on_screen(visible, stream);
            let seen = VideoTileView { visible_on_screen: visible, ..tile };
            &&& after.visible_on_screen == visible
            &&& visible == tile.visible_on_screen ==> after == tile
            &&& visible && !tile.visible_on_screen ==> after == seen.maybe_start_playback(stream)
            &&& !visible && tile.visible_on_screen && tile.has_stream && stream.is_playing
                ==> after == (VideoTileView {
                actions: tile.actions.push(TileAction::PauseStream),
                ..seen
            })
            &&& !visible && tile.visible_on_screen && !(tile.has_stream && stream.is_playing)
                ==> after == seen
        }),
{
}

/// A tile that is mapped starts the download that waited for it and shows its
/// thumbnail, unless it has a stream to show.
pub proof fn law_mapped_tile_shows_thumbnail(tile: VideoTileView)
    ensures
        ({
            let after = tile.map();
            let count = after.actions.len() as int;
            &&& after.loader == tile.loader.auto_downloading()
            &&& after.has_stream == tile.has_stream
            &&& !tile.has_stream ==> after.actions.last() == TileAction::TryShowThumbnail
            &&& tile.loader.has_session && !tile.has_stream ==> after.actions[count - 2]
                == TileAction::DownloadThumbnail
            &&& tile.loader.has_session && tile.has_stream ==> after.actions[count - 1]
                == TileAction::DownloadThumbnail
        }),
{
}

/// A video keeps its stream when its tile is unmapped, but is not played
/// further. An animation does not.
pub proof fn law_unmapped_video_is_paused(tile: VideoTileView, stream: StreamState)
    ensures
        ({
            let after = tile.unmap(stream);
            &&& !after.visible_on_screen
            &&& !tile.is_animation ==> after == tile.set_visible_on_screen(false, stream)
            &&& tile.is_animation ==> after == (VideoTileView {
                visible_on_screen: false,
                ..tile.close_media()
            })
        }),
{
}

} // verus!
