//! What the tiles of media have in common.

use vstd::prelude::*;

use crate::types::MessageId;
use crate::ui::media_viewer_view::{ViewerEntry, ViewerItem};
use crate::ui::message_row::file_status::FileStatus;

verus! {

/// What a click does.
#[derive(Clone, Copy, Debug, PartialEq, Eq, Structural)]
pub enum ClickAction {
    Nothing,
    RequestDownload,
    CancelDownload,
    TogglePlayback,
    OpenViewer,
    OpenFile,
}

/// Something that the widgets of a tile have to do.
#[derive(Clone, Copy, Debug, PartialEq, Eq, Structural)]
pub enum TileAction {
    /// Show or hide the download button.
    SetButtonVisible(bool),
    /// Set the status that the download button shows.
    SetButtonStatus(FileStatus),
    /// Write the label of the indicator anew.
    UpdateIndicator,
    /// Show nothing as the picture.
    ClearPicture,
    /// Hand the previews of the new media to the thumbnail.
    BindThumbnail,
    /// Tell the thumbnail that there is new media.
    BumpThumbnail,
    /// Download the thumbnail if it should be.
    DownloadThumbnail,
    /// Show the thumbnail, if it is downloaded.
    TryShowThumbnail,
    /// Show the low-resolution preview.
    ShowPreview,
    /// Decode and show the image that was downloaded.
    LoadImage,
    /// Start to download the file with the given id.
    StartDownload(i32),
    /// Cancel the download of the file with the given id.
    CancelDownload(i32),
    /// Create a muted stream for the downloaded file, looped or not, and show
    /// it as the picture.
    OpenStream { looped: bool },
    /// Stop and close the stream.
    CloseStream,
    PlayStream,
    PauseStream,
}

/// The message that a tile displays.
#[derive(Clone, Copy, Debug, PartialEq, Eq, Structural)]
pub struct TileMessage {
    pub id: MessageId,
    /// The number of the message among those that its chat holds.
    pub serial: u64,
}

/// What the viewer is opened on.
#[derive(Debug)]
pub struct ViewerContext {
    pub entries: Vec<ViewerEntry>,
    pub index: usize,
}

/// What the viewer is opened on.
#[verifier::ext_equal]
pub struct ViewerContextView {
    pub entries: Seq<ViewerEntry>,
    pub index: usize,
}

impl View for ViewerContext {
    type V = ViewerContextView;

    open spec fn view(&self) -> ViewerContextView {
        ViewerContextView { entries: self.entries@, index: self.index }
    }
}

/// The context as a plain value.
pub open spec fn context_view(context: Option<ViewerContext>) -> Option<ViewerContextView> {
    match context {
        Some(context) => Some(context@),
        None => None,
    }
}

/// What the viewer is opened on by a tile: the whole album that the tile
/// belongs to, at its own entry, or its own item alone.
pub open spec fn opened_by(
    message: Option<TileMessage>,
    context: Option<ViewerContextView>,
    item: Option<ViewerItem>,
) -> Option<ViewerContextView> {
    match message {
        None => None,
        Some(message) => match context {
            Some(context) => Some(context),
            None => match item {
                Some(item) => Some(
                    ViewerContextView {
                        entries: seq![
                            ViewerEntry { item, message_id: message.id, serial: message.serial },
                        ],
                        index: 0,
                    },
                ),
                None => None,
            },
        },
    }
}

/// What the viewer is opened on by a tile.
pub fn open_viewer(
    message: Option<TileMessage>,
    context: &Option<ViewerContext>,
    item: Option<ViewerItem>,
) -> (opened: Option<ViewerContext>)
    ensures
        context_view(opened) == opened_by(message, context_view(*context), item),
{
    let message = match message {
        Some(message) => message,
        None => return None,
    };
    if let Some(context) = context {
        let mut entries: Vec<ViewerEntry> = Vec::with_capacity(context.entries.len());
        let mut i: usize = 0;
        while i < context.entries.len()
            invariant
                i <= context.entries@.len(),
                entries@ == context.entries@.take(i as int),
            decreases context.entries@.len() - i,
        {
            entries.push(context.entries[i]);
            i = i + 1;
            assert(entries@ =~= context.entries@.take(i as int));
        }
        assert(entries@ =~= context.entries@);
        return Some(ViewerContext { entries, index: context.index });
    }
    match item {
        Some(item) => {
            let mut entries: Vec<ViewerEntry> = Vec::new();
            entries.push(
                ViewerEntry { item, message_id: message.id, serial: message.serial },
            );
            assert(entries@ =~= seq![
                ViewerEntry { item, message_id: message.id, serial: message.serial },
            ]);
            Some(ViewerContext { entries, index: 0 })
        },
        None => None,
    }
}

/// A tile opens the entries it was given, at its own one. Without them, it opens
/// its own item alone. A tile without a message opens nothing.
pub proof fn law_tile_opens_its_item(
    message: TileMessage,
    context: ViewerContextView,
    item: ViewerItem,
)
    ensures
        opened_by(Some(message), Some(context), Some(item)) == Some(context),
        opened_by(Some(message), Some(context), None) == Some(context),
        opened_by(Some(message), None, Some(item)) matches Some(opened) && opened.index == 0
            && opened.entries.len() == 1 && opened.entries[0] == (ViewerEntry {
            item,
            message_id: message.id,
            serial: message.serial,
        }),
        opened_by(Some(message), None, None) is None,
        opened_by(None, Some(context), Some(item)) is None,
        opened_by(None, None, Some(item)) is None,
{
}

} // verus!
