//! The button that downloads media.

use vstd::prelude::*;

use crate::ui::message_row::file_status::{FileStatus, Progress};

verus! {

/// What the button shows.
#[derive(Clone, Copy, Debug, PartialEq, Eq, Structural)]
pub enum DownloadButton {
    /// The loading indicator, and an icon to stop the download.
    Loading(Progress),
    /// An icon to start the download.
    Download,
    /// The button is hidden.
    Hidden,
}

impl DownloadButton {
    /// What the button shows for the given status.
    ///
    /// - `CanBeDownloaded` shows the download icon.
    /// - `Downloading` shows the loading indicator.
    /// - `Downloaded` and `Uploading` hide the button.
    pub open spec fn of(status: FileStatus) -> DownloadButton {
        match status {
            FileStatus::Downloading(progress) => DownloadButton::Loading(progress),
            FileStatus::CanBeDownloaded => DownloadButton::Download,
            FileStatus::Downloaded | FileStatus::Uploading(_) => DownloadButton::Hidden,
        }
    }

    /// What the button shows for the given status.
    pub fn for_status(status: FileStatus) -> (button: DownloadButton)
        ensures
            button == DownloadButton::of(status),
    {
        match status {
            FileStatus::Downloading(progress) => DownloadButton::Loading(progress),
            FileStatus::CanBeDownloaded => DownloadButton::Download,
            FileStatus::Downloaded | FileStatus::Uploading(_) => DownloadButton::Hidden,
        }
    }

    /// The name of the icon of the button, if it is visible.
    pub fn icon_name(&self) -> (name: Option<&'static str>)
        ensures
            match name {
                Some(name) => match *self {
                    DownloadButton::Loading(_) => name@ == "media-playback-stop-symbolic"@,
                    DownloadButton::Download => name@ == "document-save-symbolic"@,
                    DownloadButton::Hidden => false,
                },
                None => *self == DownloadButton::Hidden,
            },
    {
        match self {
            DownloadButton::Loading(_) => Some("media-playback-stop-symbolic"),
            DownloadButton::Download => Some("document-save-symbolic"),
            DownloadButton::Hidden => None,
        }
    }
}

/// The button offers the download of what can be downloaded, and shows how far a
/// download is. It is hidden otherwise.
pub proof fn law_button_fits_status(progress: Progress)
    ensures
        DownloadButton::of(FileStatus::CanBeDownloaded) == DownloadButton::Download,
        DownloadButton::of(FileStatus::Downloading(progress)) == DownloadButton::Loading(progress),
        DownloadButton::of(FileStatus::Downloaded) == DownloadButton::Hidden,
        DownloadButton::of(FileStatus::Uploading(progress)) == DownloadButton::Hidden,
{
}

} // verus!
