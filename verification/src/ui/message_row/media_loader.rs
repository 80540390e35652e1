//! The download of a single media file.

use vstd::prelude::*;

use crate::model::media_manager::{MediaSettings, MediaType};
use crate::ui::message_row::file_status::{FileStatus, Progress};

verus! {

/// A file as TDLib describes it.
#[derive(Debug)]
pub struct FileData {
    pub id: i32,
    pub size: i64,
    pub expected_size: i64,
    pub status: FileStatus,
    pub is_downloading_completed: bool,
    /// The local path of the file, which is only valid if it was downloaded.
    pub path: String,
    /// Stands for everything else there is to know about the file.
    pub snapshot: u64,
}

/// The size of the file in bytes, as an unsigned number.
pub open spec fn size_of_file(file: FileData) -> int {
    let size = if file.size > file.expected_size {
        file.size
    } else {
        file.expected_size
    };
    if size >= 0 {
        size as int
    } else {
        size + 0x1_0000_0000_0000_0000
    }
}

/// What has to be done about the download of a file.
#[derive(Clone, Copy, Debug, PartialEq, Eq, Structural)]
pub struct LoaderActions {
    /// Tell that the status changed.
    pub notify_status: bool,
    /// Start to download the file with the given id.
    pub download: Option<i32>,
    /// Cancel the download of the file with the given id.
    pub cancel: Option<i32>,
}

/// The download state machine of a single media file.
#[derive(Debug)]
pub struct MediaLoader {
    /// Whether the session used to download the bound file exists.
    has_session: bool,
    /// The id of the bound file.
    file_id: i32,
    /// The size of the bound file in bytes.
    size: u64,
    /// The current status of the bound file.
    status: FileStatus,
    /// The local path of the bound file, if it has been downloaded.
    path: Option<String>,
    /// The most recent state of the bound file, as reported by TDLib.
    ///
    /// This is more recent than the file snapshot of the message content,
    /// which is not updated when the file is downloaded.
    file: Option<u64>,
    /// Whether the ongoing download was started automatically according to the
    /// auto-download settings instead of a user action.
    is_auto: bool,
    /// Whether the bound file should be downloaded automatically according to
    /// the auto-download settings, but the download has not been started yet.
    ///
    /// Downloads are not started when the file is bound, but when the widget
    /// showing the file is mapped, so that media that is only scrolled past is
    /// not downloaded.
    auto_download_pending: bool,
}

/// The state of a download.
#[verifier::ext_equal]
pub struct LoaderView {
    pub has_session: bool,
    pub file_id: i32,
    pub size: int,
    pub status: FileStatus,
    pub path: Option<Seq<char>>,
    pub file: Option<u64>,
    pub is_auto: bool,
    pub auto_download_pending: bool,
}

/// The path as a plain value.
pub open spec fn path_view(path: Option<String>) -> Option<Seq<char>> {
    match path {
        Some(path) => Some(path@),
        None => None,
    }
}

impl View for MediaLoader {
    type V = LoaderView;

    closed spec fn view(&self) -> LoaderView {
        LoaderView {
            has_session: self.has_session,
            file_id: self.file_id,
            size: self.size as int,
            status: self.status,
            path: path_view(self.path),
            file: self.file,
            is_auto: self.is_auto,
            auto_download_pending: self.auto_download_pending,
        }
    }
}

impl LoaderView {
    /// The state without a file.
    pub open spec fn empty() -> LoaderView {
        LoaderView {
            has_session: false,
            file_id: 0,
            size: 0,
            status: FileStatus::CanBeDownloaded,
            path: None,
            file: None,
            is_auto: false,
            auto_download_pending: false,
        }
    }

    /// The state with another status, which stays as it is if it is equal.
    pub open spec fn with_status(self, status: FileStatus) -> LoaderView {
        if self.status.equals(status) {
            self
        } else {
            LoaderView { status, ..self }
        }
    }

    /// The state after a file was bound.
    pub open spec fn bound_to(
        self,
        settings: MediaSettings,
        media_type: MediaType,
        file: FileData,
    ) -> LoaderView {
        let bound = LoaderView {
            has_session: true,
            file_id: file.id,
            size: size_of_file(file),
            path: if file.status is Downloaded {
                Some(file.path@)
            } else {
                None
            },
            file: Some(file.snapshot),
            is_auto: false,
            auto_download_pending: (file.status is Downloading || file.status is CanBeDownloaded)
                && settings.allows_download(media_type, size_of_file(file) as u64),
            ..self
        };
        match file.status {
            FileStatus::Downloading(_) => bound.with_status(FileStatus::CanBeDownloaded),
            _ => bound.with_status(file.status),
        }
    }

    /// The state after the download was started.
    pub open spec fn downloading(self, auto: bool) -> LoaderView {
        if self.has_session {
            LoaderView { is_auto: auto, ..self }.with_status(
                FileStatus::Downloading(Progress { bits: 0 }),
            )
        } else {
            self
        }
    }

    /// Whether an automatic download is to be started.
    pub open spec fn wants_auto_download(self) -> bool {
        self.auto_download_pending && self.status is CanBeDownloaded
    }

    /// The state after the pending download was started, if there is one.
    pub open spec fn auto_downloading(self) -> LoaderView {
        let taken = LoaderView { auto_download_pending: false, ..self };
        if self.wants_auto_download() {
            taken.downloading(true)
        } else {
            taken
        }
    }

    /// The state after TDLib reported about a file.
    pub open spec fn updated(self, file: FileData) -> LoaderView {
        if self.file_id != file.id {
            self
        } else {
            LoaderView {
                path: if file.is_downloading_completed {
                    Some(file.path@)
                } else {
                    self.path
                },
                file: Some(file.snapshot),
                ..self
            }.with_status(file.status)
        }
    }

    /// What has to be done when a download is started.
    pub open spec fn download_actions(self) -> LoaderActions {
        LoaderActions {
            notify_status: self.has_session && !self.status.equals(
                FileStatus::Downloading(Progress { bits: 0 }),
            ),
            download: if self.has_session {
                Some(self.file_id)
            } else {
                None
            },
            cancel: None,
        }
    }
}

impl MediaLoader {
    /// A loader without a file.
    pub fn new() -> (loader: MediaLoader)
        ensures
            loader@ == LoaderView::empty(),
    {
        MediaLoader {
            has_session: false,
            file_id: 0,
            size: 0,
            status: FileStatus::CanBeDownloaded,
            path: None,
            file: None,
            is_auto: false,
            auto_download_pending: false,
        }
    }

    fn set_status(&mut self, status: FileStatus) -> (notify: bool)
        ensures
            final(self)@ == old(self)@.with_status(status),
            notify == !old(self)@.status.equals(status),
    {
        if self.status.is_equal(&status) {
            return false;
        }
        self.status = status;
        true
    }

    /// Binds this loader to the given file, resetting all previous state.
    /// Returns whether the status changed.
    ///
    /// If the file has already been downloaded, its path becomes available and
    /// the status is set to `Downloaded`. Otherwise, the auto-download
    /// settings are checked: if they allow it, the download is marked as
    /// pending and is started by `maybe_start_auto_download`; if not, the
    /// status stays at `CanBeDownloaded` until `request_download` is called by
    /// the user.
    pub fn bind(&mut self, settings: &MediaSettings, media_type: MediaType, file: FileData) -> (
    notify_status: bool)
        ensures
            final(self)@ == old(self)@.bound_to(*settings, media_type, file),
            notify_status == !old(self)@.status.equals(
                match file.status {
                    FileStatus::Downloading(_) => FileStatus::CanBeDownloaded,
                    _ => file.status,
                },
            ),
    {
        let size: i64 = if file.size > file.expected_size {
            file.size
        } else {
            file.expected_size
        };
        assert(size < 0 ==> #[verifier::truncate] (size as u64) == size + 0x1_0000_0000_0000_0000)
            by (bit_vector);
        self.has_session = true;
        self.file_id = file.id;
        self.size = #[verifier::truncate]
        (size as u64);
        self.is_auto = false;
        self.auto_download_pending = false;
        self.path = None;
        self.file = Some(file.snapshot);
        match file.status {
            FileStatus::Downloaded => {
                self.path = Some(file.path);
                self.set_status(FileStatus::Downloaded)
            },
            // Uploads are driven by the sender side, so there is nothing to do
            // here but reflect the progress.
            FileStatus::Uploading(_) => self.set_status(file.status),
            FileStatus::Downloading(_) | FileStatus::CanBeDownloaded => {
                if settings.should_auto_download(media_type, self.size) {
                    self.auto_download_pending = true;
                }
                self.set_status(FileStatus::CanBeDownloaded)
            },
        }
    }

    /// Starts the download of the bound file, if it should be downloaded
    /// automatically and the download has not been started yet.
    ///
    /// This is called when the widget showing the file is mapped, so that
    /// media that is only scrolled past is not downloaded.
    pub fn maybe_start_auto_download(&mut self) -> (actions: LoaderActions)
        ensures
            final(self)@ == old(self)@.auto_downloading(),
            actions == if old(self)@.wants_auto_download() {
                old(self)@.download_actions()
            } else {
                (LoaderActions { notify_status: false, download: None, cancel: None })
            },
    {
        let is_pending = self.auto_download_pending;
        self.auto_download_pending = false;
        if !is_pending || !matches!(self.status, FileStatus::CanBeDownloaded) {
            return LoaderActions { notify_status: false, download: None, cancel: None };
        }
        self.start_download(true)
    }

    /// Starts downloading the bound file as a result of a user action.
    ///
    /// The progress is reported through the status until the file is fully
    /// downloaded or the download is canceled.
    pub fn request_download(&mut self) -> (actions: LoaderActions)
        ensures
            final(self)@ == old(self)@.downloading(false),
            actions == old(self)@.download_actions(),
    {
        self.start_download(false)
    }

    /// Cancels the download of the bound file.
    pub fn cancel_download(&mut self) -> (actions: LoaderActions)
        ensures
            final(self)@ == old(self)@.with_status(FileStatus::CanBeDownloaded),
            actions == (LoaderActions {
                notify_status: !old(self)@.status.equals(FileStatus::CanBeDownloaded),
                download: None,
                cancel: if old(self)@.has_session {
                    Some(old(self)@.file_id)
                } else {
                    None
                },
            }),
    {
        let cancel = if self.has_session {
            Some(self.file_id)
        } else {
            None
        };
        let notify_status = self.set_status(FileStatus::CanBeDownloaded);
        LoaderActions { notify_status, download: None, cancel }
    }

    fn start_download(&mut self, auto: bool) -> (actions: LoaderActions)
        ensures
            final(self)@ == old(self)@.downloading(auto),
            actions == old(self)@.download_actions(),
    {
        if !self.has_session {
            return LoaderActions { notify_status: false, download: None, cancel: None };
        }
        self.is_auto = auto;
        let notify_status = self.set_status(FileStatus::Downloading(Progress::zero()));
        LoaderActions { notify_status, download: Some(self.file_id), cancel: None }
    }

    /// Takes what TDLib reported about a file. Returns whether the status
    /// changed.
    pub fn handle_file_update(&mut self, file: FileData) -> (notify_status: bool)
        ensures
            final(self)@ == old(self)@.updated(file),
            notify_status == (old(self)@.file_id == file.id && !old(self)@.status.equals(
                file.status,
            )),
    {
        // The loader may have been rebound to another file while an old
        // subscription was still active.
        if self.file_id != file.id {
            return false;
        }
        if file.is_downloading_completed {
            self.path = Some(file.path);
        }
        self.file = Some(file.snapshot);
        self.set_status(file.status)
    }

    /// Tells that the session doesn't exist anymore.
    pub fn detach(&mut self)
        ensures
            final(self)@ == (LoaderView { has_session: false, ..old(self)@ }),
    {
        self.has_session = false;
    }

    /// Whether the session used to download the bound file exists.
    pub fn has_session(&self) -> (result: bool)
        ensures
            result == self@.has_session,
    {
        self.has_session
    }

    pub fn file_id(&self) -> (id: i32)
        ensures
            id == self@.file_id,
    {
        self.file_id
    }

    /// The size of the bound file in bytes.
    pub fn size(&self) -> (size: u64)
        ensures
            size == self@.size,
    {
        self.size
    }

    /// The current status of the bound file.
    pub fn status(&self) -> (status: FileStatus)
        ensures
            status == self@.status,
    {
        self.status
    }

    /// The local path of the bound file, if it has been downloaded.
    pub fn path(&self) -> (path: Option<&String>)
        ensures
            match path {
                Some(path) => self@.path == Some(path@),
                None => self@.path is None,
            },
    {
        match &self.path {
            Some(path) => Some(path),
            None => None,
        }
    }

    /// The path of the file, if it has been downloaded according to its
    /// status.
    pub fn downloaded_path(&self) -> (path: Option<&String>)
        ensures
            match path {
                Some(path) => self@.status is Downloaded && self@.path == Some(path@),
                None => !(self@.status is Downloaded) || self@.path is None,
            },
    {
        if !matches!(self.status, FileStatus::Downloaded) {
            return None;
        }
        self.path()
    }

    /// Stands for the most recent state of the bound file.
    pub fn file(&self) -> (file: Option<u64>)
        ensures
            file == self@.file,
    {
        self.file
    }

    /// Whether the ongoing download was started automatically.
    pub fn is_auto(&self) -> (result: bool)
        ensures
            result == self@.is_auto,
    {
        self.is_auto
    }
}

/// An automatic download is started at most once for a file that was bound.
pub proof fn law_auto_download_starts_once(loader: LoaderView)
    ensures
        !loader.auto_downloading().wants_auto_download(),
{
}

/// Reports about other files than the bound one are ignored.
pub proof fn law_other_files_are_ignored(loader: LoaderView, file: FileData)
    requires
        file.id != loader.file_id,
    ensures
        loader.updated(file) == loader,
{
}

/// Canceling a download that the user requested gives the status back as it
/// was.
pub proof fn law_cancel_undoes_request(loader: LoaderView)
    requires
        loader.status is CanBeDownloaded,
    ensures
        loader.downloading(false).with_status(FileStatus::CanBeDownloaded).status
            == loader.status,
{
}

/// A loader without a file has nothing to download.
pub proof fn law_empty_loader_rests()
    ensures
        ({
            let loader = LoaderView::empty();
            &&& !loader.has_session
            &&& loader.file_id == 0
            &&& loader.size == 0
            &&& loader.status is CanBeDownloaded
            &&& loader.path is None
            &&& loader.file is None
            &&& !loader.is_auto
            &&& !loader.wants_auto_download()
        }),
{
}

/// The size of a file is the greater one of its size and what it is expected to
/// be.
pub proof fn law_greater_size_counts(file: FileData)
    ensures
        file.size >= 0 || file.expected_size >= 0 ==> size_of_file(file) >= file.size
            && size_of_file(file) >= file.expected_size && (size_of_file(file) == file.size
            || size_of_file(file) == file.expected_size),
        0 <= size_of_file(file) <= u64::MAX,
{
}

/// A status that is set is the one that is known afterwards, and nothing else
/// changes.
pub proof fn law_status_is_set(loader: LoaderView, status: FileStatus)
    ensures
        ({
            let after = loader.with_status(status);
            &&& loader.status.equals(status) ==> after == loader
            &&& !loader.status.equals(status) ==> after.status == status
            &&& status is Downloaded ==> after.status is Downloaded
            &&& status is CanBeDownloaded ==> after.status is CanBeDownloaded
            &&& after == (LoaderView { status: after.status, ..loader })
        }),
{
}

/// A file that is bound replaces everything that was known. Only the path of a
/// file that is downloaded is known. A download that is not finished is to be
/// started automatically if and only if the settings allow it.
pub proof fn law_bound_file_is_known(
    loader: LoaderView,
    settings: MediaSettings,
    media_type: MediaType,
    file: FileData,
)
    ensures
        ({
            let after = loader.bound_to(settings, media_type, file);
            &&& after.has_session
            &&& after.file_id == file.id
            &&& after.size == size_of_file(file)
            &&& after.file == Some(file.snapshot)
            &&& !after.is_auto
            &&& file.status is Downloaded ==> after.path == Some(file.path@) && after.status
                == FileStatus::Downloaded
            &&& !(file.status is Downloaded) ==> after.path is None
            &&& file.status is CanBeDownloaded || file.status is Downloading
                ==> after.status is CanBeDownloaded
            &&& file.status matches FileStatus::Uploading(progress) ==> after.status is Uploading
            &&& after.wants_auto_download() <==> (file.status is CanBeDownloaded
                || file.status is Downloading) && settings.allows_download(
                media_type,
                size_of_file(file) as u64,
            )
        }),
{
}

/// A download that is started begins with nothing, as long as there is a session
/// to download the file. It is the file that is bound that is downloaded.
pub proof fn law_started_download_begins(loader: LoaderView, auto: bool)
    ensures
        loader.has_session ==> {
            let after = loader.downloading(auto);
            &&& after.status is Downloading
            &&& after.status->Downloading_0.bits == 0 || loader.status.equals(after.status)
            &&& after.is_auto == auto
            &&& after == (LoaderView { status: after.status, is_auto: auto, ..loader })
            &&& loader.download_actions().download == Some(loader.file_id)
            &&& loader.download_actions().notify_status <==> !loader.status.equals(
                FileStatus::Downloading(Progress { bits: 0 }),
            )
        },
        !loader.has_session ==> {
            &&& loader.downloading(auto) == loader
            &&& loader.download_actions().download is None
            &&& !loader.download_actions().notify_status
        },
        loader.download_actions().cancel is None,
{
}

/// A pending download is started if the file can still be downloaded, and is
/// not pending anymore in any case.
pub proof fn law_pending_download_is_started(loader: LoaderView)
    ensures
        ({
            let after = loader.auto_downloading();
            &&& !after.auto_download_pending
            &&& loader.auto_download_pending && loader.status is CanBeDownloaded
                && loader.has_session ==> after.status is Downloading && after.is_auto
            &&& !loader.auto_download_pending || !(loader.status is CanBeDownloaded)
                || !loader.has_session ==> after == (LoaderView {
                auto_download_pending: false,
                ..loader
            })
            &&& loader.wants_auto_download() <==> loader.auto_download_pending
                && loader.status is CanBeDownloaded
        }),
{
}

/// What TDLib reports about the bound file is known afterwards: its status, and
/// its path once it is downloaded.
pub proof fn law_reported_file_is_known(loader: LoaderView, file: FileData)
    requires
        file.id == loader.file_id,
    ensures
        ({
            let after = loader.updated(file);
            &&& after.file == Some(file.snapshot)
            &&& file.is_downloading_completed ==> after.path == Some(file.path@)
            &&& !file.is_downloading_completed ==> after.path == loader.path
            &&& after.status == file.status || loader.status.equals(file.status) && after.status
                == loader.status
            &&& after == (LoaderView {
                status: after.status,
                path: after.path,
                file: after.file,
                ..loader
            })
        }),
{
}

} // verus!
