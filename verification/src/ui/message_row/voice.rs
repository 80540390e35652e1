//! A row that shows a message with a voice note.

use vstd::prelude::*;

use crate::model::media_manager::{MediaSettings, MediaType};
use crate::ui::message_row::file_status::FileStatus;
use crate::ui::message_row::media_loader::{FileData, LoaderView, MediaLoader};
use crate::ui::playback_manager::{PlaybackAction, PlaybackHook, PlaybackManager, PlaybackView};

verus! {

/// Something that the widgets of the row have to do.
#[derive(Clone, Copy, Debug, PartialEq, Eq, Structural)]
pub enum VoiceAction {
    /// Stop listening to the content of the previous message.
    DisconnectMessage,
    /// Show the sender of the message and listen to its content.
    ConnectMessage,
    /// Show the waveform, the duration and the caption of the voice note.
    UpdateLabels,
    SetButtonVisible(bool),
    SetButtonStatus(FileStatus),
    /// Start to download the file with the given id.
    StartDownload(i32),
    /// Cancel the download of the file with the given id.
    CancelDownload(i32),
    /// Play or pause the voice note, if there is a playback manager.
    TogglePlayback,
    /// Show the icon to pause (`true`) or to play (`false`).
    SetPlayIcon(bool),
    /// Show the position of the stream in the waveform.
    UpdateProgress,
    /// Show the beginning in the waveform.
    ResetProgress,
    /// Follow the position of the stream.
    ConnectProgress,
    /// Stop following the position of the stream.
    DisconnectProgress,
    /// Play the stream.
    Play,
    /// Tell that there is another message.
    NotifyMessage,
}

/// The state of the row.
#[derive(Debug)]
pub struct MessageVoiceNote {
    loader: MediaLoader,
    /// The row among those that play media.
    owner: u64,
    /// The number of the message among those that its chat holds.
    message: Option<u64>,
    /// Whether the row follows the position of the shared media stream. It
    /// doesn't anymore when the playback is taken over or stopped.
    has_progress_handlers: bool,
    /// Whether the playback should start once the download of the voice note
    /// finishes.
    play_when_downloaded: bool,
    actions: Vec<VoiceAction>,
}

/// The state of the row.
#[verifier::ext_equal]
pub struct VoiceView {
    pub loader: LoaderView,
    pub owner: u64,
    pub message: Option<u64>,
    pub has_progress_handlers: bool,
    pub play_when_downloaded: bool,
    pub actions: Seq<VoiceAction>,
}

impl View for MessageVoiceNote {
    type V = VoiceView;

    closed spec fn view(&self) -> VoiceView {
        VoiceView {
            loader: self.loader@,
            owner: self.owner,
            message: self.message,
            has_progress_handlers: self.has_progress_handlers,
            play_when_downloaded: self.play_when_downloaded,
            actions: self.actions@,
        }
    }
}

impl VoiceView {
    pub open spec fn act(self, action: VoiceAction) -> VoiceView {
        VoiceView { actions: self.actions.push(action), ..self }
    }

    /// Who is told about the playback of the voice note.
    pub open spec fn hook(self) -> PlaybackHook {
        PlaybackHook { owner: self.owner, generation: 0 }
    }

    /// The path of the voice note, if it has been downloaded.
    pub open spec fn media_path(self) -> Option<Seq<char>> {
        if self.loader.status is Downloaded {
            self.loader.path
        } else {
            None
        }
    }

    /// The state after the widgets were updated according to the status of the
    /// loader.
    pub open spec fn update_status_ui(self) -> VoiceView {
        match self.loader.status {
            FileStatus::Downloaded => {
                let hidden = VoiceView {
                    play_when_downloaded: false,
                    ..self.act(VoiceAction::SetButtonVisible(false))
                };
                if self.play_when_downloaded {
                    hidden.act(VoiceAction::TogglePlayback)
                } else {
                    hidden
                }
            },
            FileStatus::Uploading(_) => self.act(VoiceAction::SetButtonVisible(false)),
            _ => self.act(VoiceAction::SetButtonVisible(true)).act(
                VoiceAction::SetButtonStatus(self.loader.status),
            ),
        }
    }

    /// The state with a loader that may have changed its status.
    pub open spec fn with_loader(self, loader: LoaderView, notify: bool) -> VoiceView {
        let loaded = VoiceView { loader, ..self };
        if notify {
            loaded.update_status_ui()
        } else {
            loaded
        }
    }

    /// The state after a download was started.
    pub open spec fn start_download(self, auto: bool) -> VoiceView {
        let actions = self.loader.download_actions();
        let loaded = self.with_loader(self.loader.downloading(auto), actions.notify_status);
        match actions.download {
            Some(file_id) => loaded.act(VoiceAction::StartDownload(file_id)),
            None => loaded,
        }
    }

    /// The state after the pending download was started, if there is one.
    pub open spec fn start_auto_download(self) -> VoiceView {
        let taken = VoiceView {
            loader: LoaderView { auto_download_pending: false, ..self.loader },
            ..self
        };
        if self.loader.wants_auto_download() {
            taken.start_download(true)
        } else {
            taken
        }
    }

    /// The state after the download was canceled.
    pub open spec fn cancel_download(self) -> VoiceView {
        let told = if self.loader.has_session {
            self.act(VoiceAction::CancelDownload(self.loader.file_id))
        } else {
            self
        };
        told.with_loader(
            self.loader.with_status(FileStatus::CanBeDownloaded),
            !self.loader.status.equals(FileStatus::CanBeDownloaded),
        )
    }

    /// The state after a voice note was shown.
    pub open spec fn update_row(self, settings: MediaSettings, file: FileData) -> VoiceView {
        let told = VoiceView {
            play_when_downloaded: false,
            ..self.act(VoiceAction::UpdateLabels)
        };
        told.with_loader(
            told.loader.bound_to(settings, MediaType::File, file),
            !told.loader.status.equals(
                match file.status {
                    FileStatus::Downloading(_) => FileStatus::CanBeDownloaded,
                    _ => file.status,
                },
            ),
        ).start_auto_download().update_status_ui()
    }

    /// The state after a message was set.
    pub open spec fn set_message(
        self,
        settings: MediaSettings,
        message: u64,
        file: FileData,
    ) -> VoiceView {
        if self.message == Some(message) {
            self
        } else {
            let left = if self.message is Some {
                self.act(VoiceAction::DisconnectMessage)
            } else {
                self
            };
            VoiceView {
                message: Some(message),
                ..left.act(VoiceAction::ConnectMessage).update_row(settings, file)
            }.act(VoiceAction::NotifyMessage)
        }
    }

    /// The state after a click.
    pub open spec fn handle_click(self) -> VoiceView {
        match self.loader.status {
            FileStatus::Downloading(_) => self.cancel_download(),
            FileStatus::CanBeDownloaded => VoiceView {
                play_when_downloaded: true,
                ..self
            }.start_download(false),
            FileStatus::Uploading(_) => self,
            FileStatus::Downloaded => self.act(VoiceAction::TogglePlayback),
        }
    }

    /// Whether the voice note takes the stream over when its playback is
    /// toggled.
    pub open spec fn takes_over(self, manager: PlaybackView) -> bool {
        match self.media_path() {
            Some(path) => !manager.is_current(path),
            None => false,
        }
    }

    /// The state of the manager after the playback was toggled.
    pub open spec fn toggled(self, manager: PlaybackView) -> PlaybackView {
        match self.media_path() {
            Some(path) => if manager.is_current(path) {
                manager.act(PlaybackAction::TogglePlaying)
            } else {
                manager.act(PlaybackAction::Configure { muted: false, looped: false }).play_file(
                    path,
                    self.hook(),
                )
            },
            None => manager,
        }
    }

    /// The state after the voice note took the stream over.
    pub open spec fn playback_started(self) -> VoiceView {
        VoiceView { has_progress_handlers: true, ..self }.act(VoiceAction::ConnectProgress).act(
            VoiceAction::SetPlayIcon(true),
        )
    }

    /// The state after the UI of the playback was reset.
    pub open spec fn reset_playback_ui(self) -> VoiceView {
        let left = if self.has_progress_handlers {
            VoiceView { has_progress_handlers: false, ..self }.act(VoiceAction::DisconnectProgress)
        } else {
            self
        };
        left.act(VoiceAction::SetPlayIcon(false)).act(VoiceAction::ResetProgress)
    }
}

/// The position and the duration that the waveform shows, unless the duration
/// is not known.
pub fn waveform_progress(timestamp: i64, duration: i64) -> (progress: Option<(i64, i64)>)
    ensures
        progress == if duration > 0 {
            Some((timestamp, duration))
        } else {
            None
        },
{
    if duration > 0 {
        Some((timestamp, duration))
    } else {
        None
    }
}

impl MessageVoiceNote {
    pub fn new(owner: u64) -> (row: MessageVoiceNote)
        ensures
            row@ == (VoiceView {
                loader: LoaderView::empty(),
                owner,
                message: None,
                has_progress_handlers: false,
                play_when_downloaded: false,
                actions: Seq::empty(),
            }),
    {
        let row = MessageVoiceNote {
            loader: MediaLoader::new(),
            owner,
            message: None,
            has_progress_handlers: false,
            play_when_downloaded: false,
            actions: Vec::new(),
        };
        assert(row@.actions =~= Seq::empty());
        row
    }

    fn act(&mut self, action: VoiceAction)
        ensures
            final(self)@ == old(self)@.act(action),
    {
        self.actions.push(action);
    }

    fn hook(&self) -> (hook: PlaybackHook)
        ensures
            hook == self@.hook(),
    {
        PlaybackHook { owner: self.owner, generation: 0 }
    }

    /// Sets the message of this row, whose voice note is in the given file.
    pub fn set_message(&mut self, settings: &MediaSettings, message: u64, file: FileData)
        ensures
            final(self)@ == old(self)@.set_message(*settings, message, file),
    {
        if let Some(current) = self.message {
            if current == message {
                return;
            }
            self.act(VoiceAction::DisconnectMessage);
        }
        self.act(VoiceAction::ConnectMessage);
        self.update_row(settings, file);
        self.message = Some(message);
        self.act(VoiceAction::NotifyMessage);
    }

    /// Tells that the message of this row doesn't exist anymore.
    pub fn release_message(&mut self)
        ensures
            final(self)@ == (VoiceView { message: None, ..old(self)@ }),
    {
        self.message = None;
    }

    /// Shows the voice note in the given file, which is the content of the
    /// message.
    pub fn update_row(&mut self, settings: &MediaSettings, file: FileData)
        ensures
            final(self)@ == old(self)@.update_row(*settings, file),
    {
        self.act(VoiceAction::UpdateLabels);
        self.play_when_downloaded = false;
        let notify = self.loader.bind(settings, MediaType::File, file);
        if notify {
            self.update_status_ui();
        }
        let actions = self.loader.maybe_start_auto_download();
        if actions.notify_status {
            self.update_status_ui();
        }
        if let Some(file_id) = actions.download {
            self.act(VoiceAction::StartDownload(file_id));
        }
        self.update_status_ui();
    }

    /// Takes what TDLib reported about a file.
    pub fn handle_file_update(&mut self, file: FileData)
        ensures
            final(self)@ == old(self)@.with_loader(
                old(self)@.loader.updated(file),
                old(self)@.loader.file_id == file.id && !old(self)@.loader.status.equals(
                    file.status,
                ),
            ),
    {
        if self.loader.handle_file_update(file) {
            self.update_status_ui();
        }
    }

    /// Updates the widgets according to the status of the loader.
    fn update_status_ui(&mut self)
        ensures
            final(self)@ == old(self)@.update_status_ui(),
    {
        let status = self.loader.status();
        match status {
            FileStatus::Downloaded => {
                self.act(VoiceAction::SetButtonVisible(false));
                let is_wanted = self.play_when_downloaded;
                self.play_when_downloaded = false;
                if is_wanted {
                    self.act(VoiceAction::TogglePlayback);
                }
            },
            // Uploads are driven by the sender side, so there is nothing to
            // react to.
            FileStatus::Uploading(_) => self.act(VoiceAction::SetButtonVisible(false)),
            _ => {
                self.act(VoiceAction::SetButtonVisible(true));
                self.act(VoiceAction::SetButtonStatus(status));
            },
        }
    }

    /// Handles a click on the voice note.
    pub fn handle_click(&mut self)
        ensures
            final(self)@ == old(self)@.handle_click(),
    {
        match self.loader.status() {
            // Clicking again cancels the download.
            FileStatus::Downloading(_) => {
                let actions = self.loader.cancel_download();
                if let Some(file_id) = actions.cancel {
                    self.act(VoiceAction::CancelDownload(file_id));
                }
                if actions.notify_status {
                    self.update_status_ui();
                }
            },
            // Download the voice note and start playing it as soon as it is
            // done.
            FileStatus::CanBeDownloaded => {
                self.play_when_downloaded = true;
                let actions = self.loader.request_download();
                if actions.notify_status {
                    self.update_status_ui();
                }
                if let Some(file_id) = actions.download {
                    self.act(VoiceAction::StartDownload(file_id));
                }
            },
            // Uploads are driven by the sender side, so there is nothing to
            // react to.
            FileStatus::Uploading(_) => {},
            FileStatus::Downloaded => self.act(VoiceAction::TogglePlayback),
        }
    }

    /// Plays or pauses the voice note on the shared media stream of the
    /// session. Returns whether the voice note took the stream over.
    ///
    /// If so, the actions of the manager have to be run before
    /// `playback_started` is called, since the row may be the one that is told
    /// to reset its UI.
    pub fn toggle_playback(&self, manager: &mut PlaybackManager) -> (takes_over: bool)
        ensures
            takes_over == self@.takes_over(old(manager)@),
            final(manager)@ == self@.toggled(old(manager)@),
    {
        let path = match self.loader.downloaded_path() {
            Some(path) => path,
            None => return false,
        };
        if manager.is_current(path.as_str()) {
            manager.toggle_pause();
            return false;
        }
        manager.configure(false, false);
        manager.play_file(path.as_str(), self.hook());
        true
    }

    /// Handles that the voice note took the stream over.
    ///
    /// The row follows the position of the stream as long as it owns the
    /// playback.
    pub fn playback_started(&mut self, manager: &mut PlaybackManager)
        ensures
            final(self)@ == old(self)@.playback_started(),
            final(manager)@ == old(manager)@.connect_playing(old(self)@.hook()),
    {
        manager.connect_playing(self.hook());
        self.has_progress_handlers = true;
        self.act(VoiceAction::ConnectProgress);
        // The stream is paused until it is prepared, so the icon reflects the
        // upcoming playback rather than the current state.
        self.act(VoiceAction::SetPlayIcon(true));
    }

    /// Handles that the stream is prepared.
    pub fn handle_prepared(&mut self)
        ensures
            final(self)@ == old(self)@.act(VoiceAction::UpdateProgress).act(VoiceAction::Play),
    {
        self.act(VoiceAction::UpdateProgress);
        self.act(VoiceAction::Play);
    }

    /// Handles that the stream plays or doesn't.
    pub fn handle_playing(&mut self, is_playing: bool)
        ensures
            final(self)@ == old(self)@.act(VoiceAction::SetPlayIcon(is_playing)),
    {
        self.act(VoiceAction::SetPlayIcon(is_playing));
    }

    /// Restores the play icon and the waveform progress.
    ///
    /// This is called when another playback takes over the shared stream, or
    /// when the playback of this voice note is stopped or fails.
    pub fn reset_playback_ui(&mut self)
        ensures
            final(self)@ == old(self)@.reset_playback_ui(),
    {
        if self.has_progress_handlers {
            self.has_progress_handlers = false;
            self.act(VoiceAction::DisconnectProgress);
        }
        self.act(VoiceAction::SetPlayIcon(false));
        self.act(VoiceAction::ResetProgress);
    }

    /// Handles that the row is disposed of, which stops its playback.
    pub fn dispose(&self, manager: &mut PlaybackManager)
        ensures
            final(manager)@ == match self@.media_path() {
                Some(path) => if old(manager)@.is_current(path) {
                    old(manager)@.stop()
                } else {
                    old(manager)@
                },
                None => old(manager)@,
            },
    {
        if let Some(path) = self.loader.downloaded_path() {
            if manager.is_current(path.as_str()) {
                manager.stop();
            }
        }
    }

    /// What the widgets have to do, in order. It is handed out once.
    pub fn take_actions(&mut self) -> (actions: Vec<VoiceAction>)
        ensures
            actions@ == old(self)@.actions,
            final(self)@ == (VoiceView { actions: Seq::empty(), ..old(self)@ }),
    {
        let mut actions: Vec<VoiceAction> = Vec::new();
        std::mem::swap(&mut actions, &mut self.actions);
        assert(self@.actions =~= Seq::empty());
        actions
    }

    pub fn loader(&self) -> (loader: &MediaLoader)
        ensures
            loader@ == self@.loader,
    {
        &self.loader
    }
}

/// A voice note that the user asked for is played once its download is done.
pub proof fn law_requested_voice_note_plays(row: VoiceView, file: FileData)
    requires
        row.loader.status is CanBeDownloaded,
        file.id == row.loader.file_id,
        file.status is Downloaded,
    ensures
        row.handle_click().with_loader(
            row.handle_click().loader.updated(file),
            !row.handle_click().loader.status.equals(file.status),
        ).actions.last() == VoiceAction::TogglePlayback,
{
}

/// A voice note that was downloaded automatically is not played by itself.
pub proof fn law_shown_voice_note_does_not_play(
    row: VoiceView,
    settings: MediaSettings,
    file: FileData,
)
    ensures
        !row.update_row(settings, file).play_when_downloaded,
        row.update_row(settings, file).actions.last() != VoiceAction::TogglePlayback,
{
}

/// Toggling the playback twice resumes or pauses what the first time loaded.
pub proof fn law_second_toggle_pauses(row: VoiceView, manager: PlaybackView)
    requires
        row.media_path() is Some,
    ensures
        ({
            let played = row.toggled(manager);
            &&& !row.takes_over(played)
            &&& row.toggled(played) == played.act(PlaybackAction::TogglePlaying)
        }),
{
}

/// A voice note can be played if and only if it is downloaded.
pub proof fn law_downloaded_voice_note_has_path(row: VoiceView)
    ensures
        row.loader.status is Downloaded ==> row.media_path() == row.loader.path,
        !(row.loader.status is Downloaded) ==> row.media_path() is None,
        row.hook().owner == row.owner,
        row.hook().generation == 0,
{
}

/// The button shows the status of a voice note that is not there, and is hidden
/// for one that is or is uploaded. A voice note that someone waits for is played
/// as soon as it is there.
pub proof fn law_button_shows_status(row: VoiceView)
    ensures
        ({
            let after = row.update_status_ui();
            let status = row.loader.status;
            &&& status is Downloaded ==> {
                &&& !after.play_when_downloaded
                &&& row.play_when_downloaded ==> after.actions == row.actions + seq![
                    VoiceAction::SetButtonVisible(false),
                    VoiceAction::TogglePlayback,
                ]
                &&& !row.play_when_downloaded ==> after.actions == row.actions.push(
                    VoiceAction::SetButtonVisible(false),
                )
            }
            &&& !(status is Downloaded) ==> after.play_when_downloaded == row.play_when_downloaded
            &&& status is Uploading ==> after.actions == row.actions.push(
                VoiceAction::SetButtonVisible(false),
            )
            &&& status is CanBeDownloaded || status is Downloading ==> after.actions == row.actions
                + seq![VoiceAction::SetButtonVisible(true), VoiceAction::SetButtonStatus(status)]
            &&& after == (VoiceView {
                play_when_downloaded: after.play_when_downloaded,
                actions: after.actions,
                ..row
            })
        }),
        row.with_loader(row.loader, true) == row.update_status_ui(),
        row.with_loader(row.loader, false) == row,
{
    let after = row.update_status_ui();
    let status = row.loader.status;
    if status is Downloaded && row.play_when_downloaded {
        assert(after.actions =~= row.actions + seq![
            VoiceAction::SetButtonVisible(false),
            VoiceAction::TogglePlayback,
        ]);
    }
    if status is CanBeDownloaded || status is Downloading {
        assert(after.actions =~= row.actions + seq![
            VoiceAction::SetButtonVisible(true),
            VoiceAction::SetButtonStatus(status),
        ]);
    }
}

/// A download that is started or cancelled is one of the file of the voice note.
pub proof fn law_voice_note_is_downloaded(row: VoiceView, auto: bool)
    ensures
        ({
            let after = row.start_download(auto);
            &&& after.loader == row.loader.downloading(auto)
            &&& after.message == row.message
            &&& row.loader.has_session ==> after.loader.status is Downloading
                && after.actions.last() == VoiceAction::StartDownload(row.loader.file_id)
            &&& !row.loader.has_session ==> after == row
        }),
        ({
            let after = row.start_auto_download();
            &&& after.loader == row.loader.auto_downloading()
            &&& after.message == row.message
            &&& row.loader.auto_download_pending && row.loader.status is CanBeDownloaded
                && row.loader.has_session ==> after.actions.last() == VoiceAction::StartDownload(
                row.loader.file_id,
            )
            &&& !row.loader.auto_download_pending || !(row.loader.status is CanBeDownloaded)
                ==> after.actions == row.actions
        }),
        ({
            let after = row.cancel_download();
            &&& after.loader.status is CanBeDownloaded
            &&& after.message == row.message
            &&& row.loader.has_session ==> after.actions[row.actions.len() as int]
                == VoiceAction::CancelDownload(row.loader.file_id)
        }),
{
}

/// A row that gets a voice note knows its file, whose download begins at once if
/// the settings allow it.
pub proof fn law_row_takes_voice_note(row: VoiceView, settings: MediaSettings, file: FileData)
    ensures
        ({
            let after = row.update_row(settings, file);
            let bound = row.loader.bound_to(settings, MediaType::File, file);
            &&& after.loader == bound.auto_downloading()
            &&& after.message == row.message
            &&& after.owner == row.owner
            &&& after.has_progress_handlers == row.has_progress_handlers
            &&& after.actions[row.actions.len() as int] == VoiceAction::UpdateLabels
            &&& bound.wants_auto_download() ==> after.actions.contains(
                VoiceAction::StartDownload(file.id),
            )
        }),
{
    let told = VoiceView {
        play_when_downloaded: false,
        ..row.act(VoiceAction::UpdateLabels)
    };
    let bound = told.with_loader(
        told.loader.bound_to(settings, MediaType::File, file),
        !told.loader.status.equals(
            match file.status {
                FileStatus::Downloading(_) => FileStatus::CanBeDownloaded,
                _ => file.status,
            },
        ),
    );
    let started = bound.start_auto_download();
    let after = row.update_row(settings, file);
    assert(bound.actions[row.actions.len() as int] == VoiceAction::UpdateLabels);
    assert(started.actions[row.actions.len() as int] == VoiceAction::UpdateLabels);
    if bound.loader.wants_auto_download() {
        let i = started.actions.len() - 1;
        assert(started.actions[i] == VoiceAction::StartDownload(file.id));
        assert(after.actions[i] == VoiceAction::StartDownload(file.id));
    }
}

/// A row that gets another message leaves the previous one, follows the new one,
/// shows its voice note and tells about it last. The same message changes
/// nothing.
pub proof fn law_row_takes_message(
    row: VoiceView,
    settings: MediaSettings,
    message: u64,
    file: FileData,
)
    ensures
        ({
            let after = row.set_message(settings, message, file);
            let count = row.actions.len() as int;
            &&& after.message == Some(message)
            &&& row.message == Some(message) ==> after == row
            &&& row.message != Some(message) ==> {
                &&& after.loader == row.loader.bound_to(
                    settings,
                    MediaType::File,
                    file,
                ).auto_downloading()
                &&& row.message is Some ==> after.actions[count] == VoiceAction::DisconnectMessage
                    && after.actions[count + 1] == VoiceAction::ConnectMessage
                &&& row.message is None ==> after.actions[count] == VoiceAction::ConnectMessage
                &&& after.actions.last() == VoiceAction::NotifyMessage
            }
        }),
{
}

/// A click plays or pauses a voice note that is there, downloads one that can be
/// downloaded to play it, and cancels a download.
pub proof fn law_click_fits_status(row: VoiceView)
    ensures
        ({
            let after = row.handle_click();
            let status = row.loader.status;
            &&& status is Downloaded ==> after == (VoiceView {
                actions: row.actions.push(VoiceAction::TogglePlayback),
                ..row
            })
            &&& status is Uploading ==> after == row
            &&& status is CanBeDownloaded ==> after.play_when_downloaded && after.loader
                == row.loader.downloading(false) && (row.loader.has_session
                ==> after.actions.last() == VoiceAction::StartDownload(row.loader.file_id))
            &&& status is Downloading ==> after.loader.status is CanBeDownloaded && (
            row.loader.has_session ==> after.actions[row.actions.len() as int]
                == VoiceAction::CancelDownload(row.loader.file_id))
        }),
{
}

/// A voice note takes the stream over from what else is played, unmuted and not
/// looped, and pauses or resumes its own.
pub proof fn law_voice_note_takes_stream(row: VoiceView, manager: PlaybackView)
    ensures
        row.media_path() is None ==> !row.takes_over(manager) && row.toggled(manager) == manager,
        row.media_path() matches Some(path) ==> {
            &&& row.takes_over(manager) <==> !manager.is_current(path)
            &&& manager.is_current(path) ==> row.toggled(manager) == manager.act(
                PlaybackAction::TogglePlaying,
            )
            &&& !manager.is_current(path) ==> row.toggled(manager) == manager.act(
                PlaybackAction::Configure { muted: false, looped: false },
            ).play_file(path, PlaybackHook { owner: row.owner, generation: 0 })
        },
{
}

/// While its voice note is played, the row follows the progress. Once the stream
/// is lost, it does not anymore and shows none.
pub proof fn law_progress_is_followed(row: VoiceView)
    ensures
        row.playback_started() == (VoiceView {
            has_progress_handlers: true,
            actions: row.actions + seq![
                VoiceAction::ConnectProgress,
                VoiceAction::SetPlayIcon(true),
            ],
            ..row
        }),
        ({
            let after = row.reset_playback_ui();
            &&& after == (VoiceView {
                has_progress_handlers: false,
                actions: after.actions,
                ..row
            })
            &&& row.has_progress_handlers ==> after.actions == row.actions + seq![
                VoiceAction::DisconnectProgress,
                VoiceAction::SetPlayIcon(false),
                VoiceAction::ResetProgress,
            ]
            &&& !row.has_progress_handlers ==> after.actions == row.actions + seq![
                VoiceAction::SetPlayIcon(false),
                VoiceAction::ResetProgress,
            ]
        }),
{
    assert(row.playback_started().actions =~= row.actions + seq![
        VoiceAction::ConnectProgress,
        VoiceAction::SetPlayIcon(true),
    ]);
    let after = row.reset_playback_ui();
    if row.has_progress_handlers {
        assert(after.actions =~= row.actions + seq![
            VoiceAction::DisconnectProgress,
            VoiceAction::SetPlayIcon(false),
            VoiceAction::ResetProgress,
        ]);
    } else {
        assert(after.actions =~= row.actions + seq![
            VoiceAction::SetPlayIcon(false),
            VoiceAction::ResetProgress,
        ]);
    }
}

} // verus!
