//! A row that shows a message with a document.

use vstd::prelude::*;

use crate::model::media_manager::{MediaSettings, MediaType};
use crate::ui::message_row::file_status::{FileStatus, Progress};
use crate::ui::message_row::media_loader::{FileData, LoaderView, MediaLoader};
use crate::ui::message_row::tile::ClickAction;

verus! {

/// The thumbnail of a document.
#[derive(Clone, Copy, Debug, PartialEq, Eq, Structural)]
pub struct DocumentThumbnail {
    pub file_id: i32,
    pub is_downloading_completed: bool,
}

/// A document as TDLib describes it.
#[derive(Debug)]
pub struct DocumentData {
    pub file: FileData,
    pub thumbnail: Option<DocumentThumbnail>,
    pub has_minithumbnail: bool,
}

/// Something that the widgets of the row have to do.
#[derive(Clone, Copy, Debug, PartialEq, Eq, Structural)]
pub enum DocumentAction {
    /// Write the caption and the name of the file anew.
    UpdateLabels,
    /// Set the status that the indicator shows.
    SetIndicatorStatus(FileStatus),
    /// Write the label that tells the size anew.
    UpdateSizeLabel,
    /// Hide the indicator if the thumbnail shows a file.
    HideIndicatorOnThumbnail,
    SetIndicatorMasked(bool),
    SetThumbnailVisible(bool),
    /// Style the box of the file as one with a thumbnail.
    AddThumbnailClass,
    /// Show the file of the thumbnail.
    ShowThumbnailFile,
    /// Show the low-resolution preview as the thumbnail.
    ShowMinithumbnail,
    /// Show nothing as the thumbnail.
    ClearThumbnail,
    /// Download the thumbnail with the given id and show it.
    DownloadThumbnail(i32),
    /// Start to download the file with the given id.
    StartDownload(i32),
    /// Cancel the download of the file with the given id.
    CancelDownload(i32),
    /// Tell that there is another message.
    NotifyMessage,
}

/// What the label about the size tells.
#[derive(Clone, Copy, Debug, PartialEq, Eq, Structural)]
pub enum SizeLabel {
    /// How much of the size was transferred, and the whole size.
    Transferred { progress: Progress, of: u64 },
    Whole { size: u64 },
}

/// What the label about the size tells.
pub open spec fn size_label_of(status: FileStatus, size: u64) -> SizeLabel {
    match status {
        FileStatus::Downloading(progress) => SizeLabel::Transferred { progress, of: size },
        FileStatus::Uploading(progress) => SizeLabel::Transferred { progress, of: size },
        _ => SizeLabel::Whole { size },
    }
}

/// The state of the row.
#[derive(Debug)]
pub struct MessageDocument {
    loader: MediaLoader,
    /// The number of the message among those that its chat holds.
    message: Option<u64>,
    /// The file id of the thumbnail that should be downloaded once the widget
    /// is shown, or 0 if there is none.
    pending_thumbnail_file_id: i32,
    click: ClickAction,
    actions: Vec<DocumentAction>,
}

/// The state of the row.
#[verifier::ext_equal]
pub struct DocumentView {
    pub loader: LoaderView,
    pub message: Option<u64>,
    pub pending_thumbnail: i32,
    pub click: ClickAction,
    pub actions: Seq<DocumentAction>,
}

impl View for MessageDocument {
    type V = DocumentView;

    closed spec fn view(&self) -> DocumentView {
        DocumentView {
            loader: self.loader@,
            message: self.message,
            pending_thumbnail: self.pending_thumbnail_file_id,
            click: self.click,
            actions: self.actions@,
        }
    }
}

impl DocumentView {
    pub open spec fn act(self, action: DocumentAction) -> DocumentView {
        DocumentView { actions: self.actions.push(action), ..self }
    }

    /// What a click does, according to the status of the loader.
    pub open spec fn click_of_status(self) -> ClickAction {
        match self.loader.status {
            FileStatus::Downloading(_) => if self.loader.is_auto {
                ClickAction::Nothing
            } else {
                ClickAction::CancelDownload
            },
            FileStatus::Uploading(_) => ClickAction::Nothing,
            FileStatus::CanBeDownloaded => ClickAction::RequestDownload,
            FileStatus::Downloaded => if self.loader.path is Some {
                ClickAction::OpenFile
            } else {
                ClickAction::Nothing
            },
        }
    }

    /// The state after the widgets were updated according to the status of the
    /// loader.
    pub open spec fn update_status_ui(self) -> DocumentView {
        let told = self.act(DocumentAction::SetIndicatorStatus(self.loader.status)).act(
            DocumentAction::UpdateSizeLabel,
        );
        DocumentView {
            click: self.click_of_status(),
            ..if self.loader.status is Downloaded {
                told.act(DocumentAction::HideIndicatorOnThumbnail)
            } else {
                told
            }
        }
    }

    /// The state with a loader that may have changed its status.
    pub open spec fn with_loader(self, loader: LoaderView, notify: bool) -> DocumentView {
        let loaded = DocumentView { loader, ..self };
        if notify {
            loaded.update_status_ui()
        } else {
            loaded
        }
    }

    /// The state after a download was started.
    pub open spec fn start_download(self, auto: bool) -> DocumentView {
        let actions = self.loader.download_actions();
        let loaded = self.with_loader(self.loader.downloading(auto), actions.notify_status);
        match actions.download {
            Some(file_id) => loaded.act(DocumentAction::StartDownload(file_id)),
            None => loaded,
        }
    }

    /// The state after the pending download was started, if there is one.
    pub open spec fn start_auto_download(self) -> DocumentView {
        let taken = DocumentView {
            loader: LoaderView { auto_download_pending: false, ..self.loader },
            ..self
        };
        if self.loader.wants_auto_download() {
            taken.start_download(true)
        } else {
            taken
        }
    }

    /// The state after the download was canceled.
    pub open spec fn cancel_download(self) -> DocumentView {
        let told = if self.loader.has_session {
            self.act(DocumentAction::CancelDownload(self.loader.file_id))
        } else {
            self
        };
        told.with_loader(
            self.loader.with_status(FileStatus::CanBeDownloaded),
            !self.loader.status.equals(FileStatus::CanBeDownloaded),
        )
    }

    /// The state after the download of the pending thumbnail was started, if
    /// the widget is shown.
    pub open spec fn maybe_download_thumbnail(self, is_mapped: bool) -> DocumentView {
        if !is_mapped || self.pending_thumbnail == 0 {
            self
        } else {
            let taken = DocumentView { pending_thumbnail: 0, ..self };
            if self.message is Some {
                taken.act(DocumentAction::DownloadThumbnail(self.pending_thumbnail))
            } else {
                taken
            }
        }
    }

    /// The state after the thumbnail of a document was shown.
    pub open spec fn try_load_thumbnail(
        self,
        thumbnail: Option<DocumentThumbnail>,
        has_minithumbnail: bool,
        is_mapped: bool,
    ) -> DocumentView {
        match thumbnail {
            Some(thumbnail) => {
                let told = self.act(DocumentAction::SetIndicatorMasked(false)).act(
                    DocumentAction::SetThumbnailVisible(true),
                ).act(DocumentAction::AddThumbnailClass);
                if thumbnail.is_downloading_completed {
                    DocumentView {
                        pending_thumbnail: 0,
                        ..told.act(DocumentAction::ShowThumbnailFile)
                    }
                } else {
                    let shown = if has_minithumbnail {
                        told.act(DocumentAction::ShowMinithumbnail)
                    } else {
                        told
                    };
                    DocumentView {
                        pending_thumbnail: thumbnail.file_id,
                        ..shown
                    }.maybe_download_thumbnail(is_mapped)
                }
            },
            None => DocumentView { pending_thumbnail: 0, ..self }.act(
                DocumentAction::SetIndicatorMasked(true),
            ).act(DocumentAction::SetThumbnailVisible(false)).act(DocumentAction::ClearThumbnail),
        }
    }

    /// The state after a document was shown.
    pub open spec fn update_document(
        self,
        settings: MediaSettings,
        document: DocumentData,
        is_mapped: bool,
    ) -> DocumentView {
        let told = self.act(DocumentAction::UpdateLabels).try_load_thumbnail(
            document.thumbnail,
            document.has_minithumbnail,
            is_mapped,
        );
        told.with_loader(
            told.loader.bound_to(settings, MediaType::File, document.file),
            !told.loader.status.equals(
                match document.file.status {
                    FileStatus::Downloading(_) => FileStatus::CanBeDownloaded,
                    _ => document.file.status,
                },
            ),
        ).start_auto_download().update_status_ui()
    }

    /// The state after a message was set, whose content is given if it is a
    /// document.
    pub open spec fn set_message(
        self,
        settings: MediaSettings,
        message: u64,
        document: Option<DocumentData>,
        is_mapped: bool,
    ) -> DocumentView {
        if self.message == Some(message) {
            self
        } else {
            let set = DocumentView { message: Some(message), ..self };
            match document {
                Some(document) => set.update_document(settings, document, is_mapped),
                None => set,
            }.act(DocumentAction::NotifyMessage)
        }
    }
}

/// What the label about the size tells.
pub fn size_label(status: FileStatus, size: u64) -> (label: SizeLabel)
    ensures
        label == size_label_of(status, size),
{
    match status {
        FileStatus::Downloading(progress) | FileStatus::Uploading(progress) => {
            SizeLabel::Transferred { progress, of: size }
        },
        FileStatus::CanBeDownloaded | FileStatus::Downloaded => SizeLabel::Whole { size },
    }
}

impl MessageDocument {
    pub fn new() -> (row: MessageDocument)
        ensures
            row@ == (DocumentView {
                loader: LoaderView::empty(),
                message: None,
                pending_thumbnail: 0,
                click: ClickAction::Nothing,
                actions: Seq::empty(),
            }),
    {
        let row = MessageDocument {
            loader: MediaLoader::new(),
            message: None,
            pending_thumbnail_file_id: 0,
            click: ClickAction::Nothing,
            actions: Vec::new(),
        };
        assert(row@.actions =~= Seq::empty());
        row
    }

    fn act(&mut self, action: DocumentAction)
        ensures
            final(self)@ == old(self)@.act(action),
    {
        self.actions.push(action);
    }

    /// Sets the message of this row, whose content is given if it is a
    /// document.
    pub fn set_message(
        &mut self,
        settings: &MediaSettings,
        message: u64,
        document: Option<DocumentData>,
        is_mapped: bool,
    )
        ensures
            final(self)@ == old(self)@.set_message(*settings, message, document, is_mapped),
    {
        if let Some(current) = self.message {
            if current == message {
                return;
            }
        }
        self.message = Some(message);
        if let Some(document) = document {
            self.update_document(settings, document, is_mapped);
        }
        self.act(DocumentAction::NotifyMessage);
    }

    /// Tells that the message of this row doesn't exist anymore.
    pub fn release_message(&mut self)
        ensures
            final(self)@ == (DocumentView { message: None, ..old(self)@ }),
    {
        self.message = None;
    }

    /// Handles that the widget is shown.
    pub fn map(&mut self)
        ensures
            final(self)@ == old(self)@.maybe_download_thumbnail(true),
    {
        self.maybe_download_thumbnail(true);
    }

    /// Downloads the pending thumbnail, if the widget is shown.
    fn maybe_download_thumbnail(&mut self, is_mapped: bool)
        ensures
            final(self)@ == old(self)@.maybe_download_thumbnail(is_mapped),
    {
        if !is_mapped || self.pending_thumbnail_file_id == 0 {
            return;
        }
        let file_id = self.pending_thumbnail_file_id;
        self.pending_thumbnail_file_id = 0;
        if self.message.is_none() {
            return;
        }
        self.act(DocumentAction::DownloadThumbnail(file_id));
    }

    /// Shows the given document, which is the content of the message.
    pub fn update_document(
        &mut self,
        settings: &MediaSettings,
        document: DocumentData,
        is_mapped: bool,
    )
        ensures
            final(self)@ == old(self)@.update_document(*settings, document, is_mapped),
    {
        self.act(DocumentAction::UpdateLabels);
        self.try_load_thumbnail(document.thumbnail, document.has_minithumbnail, is_mapped);
        let notify = self.loader.bind(settings, MediaType::File, document.file);
        if notify {
            self.update_status_ui();
        }
        // In contrast to photos and videos, documents are downloaded as soon as
        // they are shown in the history, even if the widget is not mapped yet.

        let actions = self.loader.maybe_start_auto_download();
        if actions.notify_status {
            self.update_status_ui();
        }
        if let Some(file_id) = actions.download {
            self.act(DocumentAction::StartDownload(file_id));
        }
        self.update_status_ui();
    }

    /// Takes what TDLib reported about a file.
    pub fn handle_file_update(&mut self, file: FileData)
        ensures
            final(self)@ == old(self)@.with_loader(
                old(self)@.loader.updated(file),
                old(self)@.loader.file_id == file.id && !old(self)@.loader.status.equals(
                    file.status,
                ),
            ),
    {
        if self.loader.handle_file_update(file) {
            self.update_status_ui();
        }
    }

    /// Updates the widgets according to the status of the loader.
    fn update_status_ui(&mut self)
        ensures
            final(self)@ == old(self)@.update_status_ui(),
    {
        let status = self.loader.status();
        self.act(DocumentAction::SetIndicatorStatus(status));
        self.act(DocumentAction::UpdateSizeLabel);
        self.click = match status {
            FileStatus::Downloading(_) => {
                if self.loader.is_auto() {
                    // Ignore clicks while the file is downloading
                    // automatically.
                    ClickAction::Nothing
                } else {
                    // Clicking again cancels the download.
                    ClickAction::CancelDownload
                }
            },
            // Uploads are driven by the sender side, so there is nothing to
            // react to.
            FileStatus::Uploading(_) => ClickAction::Nothing,
            FileStatus::CanBeDownloaded => ClickAction::RequestDownload,
            FileStatus::Downloaded => {
                self.act(DocumentAction::HideIndicatorOnThumbnail);
                if self.loader.path().is_some() {
                    ClickAction::OpenFile
                } else {
                    ClickAction::Nothing
                }
            },
        };
    }

    /// What the label about the size tells.
    pub fn size_label(&self) -> (label: SizeLabel)
        ensures
            label == size_label_of(self@.loader.status, self@.loader.size as u64),
    {
        size_label(self.loader.status(), self.loader.size())
    }

    fn try_load_thumbnail(
        &mut self,
        thumbnail: Option<DocumentThumbnail>,
        has_minithumbnail: bool,
        is_mapped: bool,
    )
        ensures
            final(self)@ == old(self)@.try_load_thumbnail(thumbnail, has_minithumbnail, is_mapped),
    {
        // The thumbnail of the previous document was only scrolled past.
        self.pending_thumbnail_file_id = 0;
        if let Some(thumbnail) = thumbnail {
            self.act(DocumentAction::SetIndicatorMasked(false));
            self.act(DocumentAction::SetThumbnailVisible(true));
            self.act(DocumentAction::AddThumbnailClass);
            if thumbnail.is_downloading_completed {
                self.act(DocumentAction::ShowThumbnailFile);
            } else {
                if has_minithumbnail {
                    self.act(DocumentAction::ShowMinithumbnail);
                }
                // The thumbnail is downloaded when the widget is shown, so that
                // thumbnails that are only scrolled past are not downloaded.

                self.pending_thumbnail_file_id = thumbnail.file_id;
                self.maybe_download_thumbnail(is_mapped);
            }
        } else {
            self.act(DocumentAction::SetIndicatorMasked(true));
            self.act(DocumentAction::SetThumbnailVisible(false));
            self.act(DocumentAction::ClearThumbnail);
        }
    }

    /// Handles a click on the file. Returns the path of the file that is to be
    /// opened, if it is.
    pub fn handle_click(&mut self) -> (opened: Option<String>)
        ensures
            final(self)@ == match old(self)@.click {
                ClickAction::RequestDownload => old(self)@.start_download(false),
                ClickAction::CancelDownload => old(self)@.cancel_download(),
                _ => old(self)@,
            },
            match opened {
                Some(path) => old(self)@.click == ClickAction::OpenFile && old(self)@.loader.path
                    == Some(path@),
                None => old(self)@.click != ClickAction::OpenFile || old(self)@.loader.path is None,
            },
    {
        match self.click {
            ClickAction::RequestDownload => {
                let actions = self.loader.request_download();
                if actions.notify_status {
                    self.update_status_ui();
                }
                if let Some(file_id) = actions.download {
                    self.act(DocumentAction::StartDownload(file_id));
                }
                None
            },
            ClickAction::CancelDownload => {
                let actions = self.loader.cancel_download();
                if let Some(file_id) = actions.cancel {
                    self.act(DocumentAction::CancelDownload(file_id));
                }
                if actions.notify_status {
                    self.update_status_ui();
                }
                None
            },
            ClickAction::OpenFile => match self.loader.path() {
                Some(path) => Some(path.as_str().to_owned()),
                None => None,
            },
            _ => None,
        }
    }

    /// What the widgets have to do, in order. It is handed out once.
    pub fn take_actions(&mut self) -> (actions: Vec<DocumentAction>)
        ensures
            actions@ == old(self)@.actions,
            final(self)@ == (DocumentView { actions: Seq::empty(), ..old(self)@ }),
    {
        let mut actions: Vec<DocumentAction> = Vec::new();
        std::mem::swap(&mut actions, &mut self.actions);
        assert(self@.actions =~= Seq::empty());
        actions
    }

    pub fn loader(&self) -> (loader: &MediaLoader)
        ensures
            loader@ == self@.loader,
    {
        &self.loader
    }
}

/// The download of a pending thumbnail is started once.
pub proof fn law_thumbnail_is_downloaded_once(row: DocumentView, is_mapped: bool)
    ensures
        ({
            let mapped = row.maybe_download_thumbnail(true);
            mapped.maybe_download_thumbnail(is_mapped) == mapped
        }),
{
}

/// The thumbnail that is pending after a document was shown is that of the
/// document, if it has to be downloaded, and not that of one that was scrolled
/// past.
pub proof fn law_pending_thumbnail_is_of_document(
    row: DocumentView,
    settings: MediaSettings,
    document: DocumentData,
)
    ensures
        row.update_document(settings, document, false).pending_thumbnail
            == match document.thumbnail {
            Some(thumbnail) => if thumbnail.is_downloading_completed {
                0
            } else {
                thumbnail.file_id
            },
            None => 0,
        },
{
}

/// Setting the same message again changes nothing.
pub proof fn law_same_message_changes_nothing(
    row: DocumentView,
    settings: MediaSettings,
    message: u64,
    first: Option<DocumentData>,
    second: Option<DocumentData>,
    is_mapped: bool,
)
    ensures
        ({
            let set = row.set_message(settings, message, first, is_mapped);
            set.set_message(settings, message, second, is_mapped) == set
        }),
{
}

/// After a document was shown, a click does what fits the status of its file.
pub proof fn law_click_fits_document(
    row: DocumentView,
    settings: MediaSettings,
    document: DocumentData,
    is_mapped: bool,
)
    ensures
        ({
            let updated = row.update_document(settings, document, is_mapped);
            updated.click == updated.click_of_status()
        }),
{
}

/// While a document is transferred, its label tells how much of it was. At any
/// other time it tells the size alone.
pub proof fn law_size_label_fits_status(progress: Progress, size: u64)
    ensures
        size_label_of(FileStatus::Downloading(progress), size) == (SizeLabel::Transferred {
            progress,
            of: size,
        }),
        size_label_of(FileStatus::Uploading(progress), size) == (SizeLabel::Transferred {
            progress,
            of: size,
        }),
        size_label_of(FileStatus::CanBeDownloaded, size) == (SizeLabel::Whole { size }),
        size_label_of(FileStatus::Downloaded, size) == (SizeLabel::Whole { size }),
{
}

/// A click downloads a document that can be downloaded, cancels a download that
/// was asked for, and opens a document that is there. It does nothing else.
pub proof fn law_click_fits_status(row: DocumentView)
    ensures
        ({
            let click = row.update_status_ui().click;
            let status = row.loader.status;
            &&& click == ClickAction::RequestDownload <==> status is CanBeDownloaded
            &&& click == ClickAction::CancelDownload <==> status is Downloading
                && !row.loader.is_auto
            &&& click == ClickAction::OpenFile <==> status is Downloaded && row.loader.path is Some
            &&& click == ClickAction::RequestDownload || click == ClickAction::CancelDownload
                || click == ClickAction::OpenFile || click == ClickAction::Nothing
        }),
{
}

/// The indicator and the label are told about the status. The indicator does
/// not cover the thumbnail of a document that is there.
pub proof fn law_status_is_told(row: DocumentView)
    ensures
        ({
            let after = row.update_status_ui();
            let told = row.actions + seq![
                DocumentAction::SetIndicatorStatus(row.loader.status),
                DocumentAction::UpdateSizeLabel,
            ];
            &&& row.loader.status is Downloaded ==> after.actions == told.push(
                DocumentAction::HideIndicatorOnThumbnail,
            )
            &&& !(row.loader.status is Downloaded) ==> after.actions == told
            &&& after == (DocumentView { click: after.click, actions: after.actions, ..row })
        }),
        ({
            let loader = row.loader;
            &&& row.with_loader(loader, true) == row.update_status_ui()
            &&& row.with_loader(loader, false) == row
        }),
{
    assert(row.actions.push(DocumentAction::SetIndicatorStatus(row.loader.status)).push(
        DocumentAction::UpdateSizeLabel,
    ) =~= row.actions + seq![
        DocumentAction::SetIndicatorStatus(row.loader.status),
        DocumentAction::UpdateSizeLabel,
    ]);
}

/// A download that is started or cancelled is one of the file of the document.
pub proof fn law_document_is_downloaded(row: DocumentView, auto: bool)
    ensures
        ({
            let after = row.start_download(auto);
            &&& after.loader == row.loader.downloading(auto)
            &&& after.message == row.message
            &&& row.loader.has_session ==> after.loader.status is Downloading
                && after.actions.last() == DocumentAction::StartDownload(row.loader.file_id)
            &&& !row.loader.has_session ==> after == row
        }),
        ({
            let after = row.start_auto_download();
            &&& after.loader == row.loader.auto_downloading()
            &&& after.message == row.message
            &&& row.loader.auto_download_pending && row.loader.status is CanBeDownloaded
                && row.loader.has_session ==> after.actions.last() == DocumentAction::StartDownload(
                row.loader.file_id,
            )
            &&& !row.loader.auto_download_pending || !(row.loader.status is CanBeDownloaded)
                ==> after.actions == row.actions
        }),
        ({
            let after = row.cancel_download();
            &&& after.loader.status is CanBeDownloaded
            &&& after.message == row.message
            &&& row.loader.has_session ==> after.actions[row.actions.len() as int]
                == DocumentAction::CancelDownload(row.loader.file_id)
            &&& !(row.loader.status is CanBeDownloaded) ==> after.click
                == ClickAction::RequestDownload
        }),
{
}

/// A thumbnail that waits is downloaded as soon as the row is mapped, and not
/// before.
pub proof fn law_waiting_thumbnail_is_downloaded(row: DocumentView)
    ensures
        row.maybe_download_thumbnail(false) == row,
        row.pending_thumbnail == 0 ==> row.maybe_download_thumbnail(true) == row,
        row.pending_thumbnail != 0 && row.message is Some ==> row.maybe_download_thumbnail(true)
            == (DocumentView {
            pending_thumbnail: 0,
            actions: row.actions.push(DocumentAction::DownloadThumbnail(row.pending_thumbnail)),
            ..row
        }),
        row.maybe_download_thumbnail(true).pending_thumbnail == 0,
{
}

/// A thumbnail that is downloaded is shown. Until then, its low-resolution
/// preview is shown, if there is one. Without a thumbnail, none is shown.
pub proof fn law_thumbnail_is_shown(
    row: DocumentView,
    thumbnail: DocumentThumbnail,
    has_minithumbnail: bool,
)
    ensures
        ({
            let after = row.try_load_thumbnail(Some(thumbnail), has_minithumbnail, false);
            let told = row.actions + seq![
                DocumentAction::SetIndicatorMasked(false),
                DocumentAction::SetThumbnailVisible(true),
                DocumentAction::AddThumbnailClass,
            ];
            if thumbnail.is_downloading_completed {
                &&& after.actions == told.push(DocumentAction::ShowThumbnailFile)
                &&& after.pending_thumbnail == 0
            } else {
                &&& has_minithumbnail ==> after.actions == told.push(
                    DocumentAction::ShowMinithumbnail,
                )
                &&& !has_minithumbnail ==> after.actions == told
                &&& after.pending_thumbnail == thumbnail.file_id
            }
        }),
        row.try_load_thumbnail(Some(thumbnail), has_minithumbnail, true) == row.try_load_thumbnail(
            Some(thumbnail),
            has_minithumbnail,
            false,
        ).maybe_download_thumbnail(true),
        ({
            let after = row.try_load_thumbnail(None, has_minithumbnail, false);
            &&& after.actions == row.actions + seq![
                DocumentAction::SetIndicatorMasked(true),
                DocumentAction::SetThumbnailVisible(false),
                DocumentAction::ClearThumbnail,
            ]
            &&& after.pending_thumbnail == 0
            &&& row.try_load_thumbnail(None, has_minithumbnail, true) == after
        }),
{
    assert(row.actions.push(DocumentAction::SetIndicatorMasked(false)).push(
        DocumentAction::SetThumbnailVisible(true),
    ).push(DocumentAction::AddThumbnailClass) =~= row.actions + seq![
        DocumentAction::SetIndicatorMasked(false),
        DocumentAction::SetThumbnailVisible(true),
        DocumentAction::AddThumbnailClass,
    ]);
    assert(row.actions.push(DocumentAction::SetIndicatorMasked(true)).push(
        DocumentAction::SetThumbnailVisible(false),
    ).push(DocumentAction::ClearThumbnail) =~= row.actions + seq![
        DocumentAction::SetIndicatorMasked(true),
        DocumentAction::SetThumbnailVisible(false),
        DocumentAction::ClearThumbnail,
    ]);
}

/// A row that gets a document knows its file, whose download begins at once if
/// the settings allow it.
pub proof fn law_row_takes_document(
    row: DocumentView,
    settings: MediaSettings,
    document: DocumentData,
    is_mapped: bool,
)
    ensures
        ({
            let after = row.update_document(settings, document, is_mapped);
            let bound = row.loader.bound_to(settings, MediaType::File, document.file);
            &&& after.loader == bound.auto_downloading()
            &&& after.message == row.message
            &&& after.actions[row.actions.len() as int] == DocumentAction::UpdateLabels
            &&& bound.wants_auto_download() ==> after.actions.contains(
                DocumentAction::StartDownload(document.file.id),
            )
            &&& after.click == after.click_of_status()
        }),
{
    let told = row.act(DocumentAction::UpdateLabels).try_load_thumbnail(
        document.thumbnail,
        document.has_minithumbnail,
        is_mapped,
    );
    assert(told.actions[row.actions.len() as int] == DocumentAction::UpdateLabels);
    let bound = told.with_loader(
        told.loader.bound_to(settings, MediaType::File, document.file),
        !told.loader.status.equals(
            match document.file.status {
                FileStatus::Downloading(_) => FileStatus::CanBeDownloaded,
                _ => document.file.status,
            },
        ),
    );
    assert(bound.actions[row.actions.len() as int] == DocumentAction::UpdateLabels);
    let started = bound.start_auto_download();
    assert(started.actions[row.actions.len() as int] == DocumentAction::UpdateLabels);
    let after = row.update_document(settings, document, is_mapped);
    if bound.loader.wants_auto_download() {
        let i = started.actions.len() - 1;
        assert(started.actions[i] == DocumentAction::StartDownload(document.file.id));
        assert(after.actions[i] == DocumentAction::StartDownload(document.file.id));
    }
}

/// A row that gets another message shows its document and tells about it.
pub proof fn law_row_takes_message(
    row: DocumentView,
    settings: MediaSettings,
    message: u64,
    document: DocumentData,
    is_mapped: bool,
)
    requires
        row.message != Some(message),
    ensures
        ({
            let after = row.set_message(settings, message, Some(document), is_mapped);
            let shown = DocumentView { message: Some(message), ..row }.update_document(
                settings,
                document,
                is_mapped,
            );
            &&& after.message == Some(message)
            &&& after == (DocumentView {
                actions: shown.actions.push(DocumentAction::NotifyMessage),
                ..shown
            })
            &&& row.set_message(settings, message, None, is_mapped) == (DocumentView {
                message: Some(message),
                actions: row.actions.push(DocumentAction::NotifyMessage),
                ..row
            })
        }),
{
}

} // verus!
