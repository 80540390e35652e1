//! A row that shows a message with a photo.

use vstd::prelude::*;

use crate::model::message::ContentKind;

verus! {

/// Something that the widgets of a row with a single photo or video have to do.
#[derive(Clone, Copy, Debug, PartialEq, Eq, Structural)]
pub enum MediaRowAction {
    /// Stop following the caption of the previous message.
    UnbindCaption,
    /// Stop listening to the content of the previous message.
    DisconnectMessage,
    /// Show the sender and the indicators of the message.
    UpdateBubble,
    /// Follow the caption of the message.
    BindCaption,
    /// Listen to the content of the message.
    ConnectMessage,
    /// Hand the message to the tile.
    SetTileMessage,
    /// Show the photo in the tile.
    SetPhoto,
    /// Show the video in the tile.
    SetVideo,
    /// Show the animation in the tile.
    SetAnimation,
    /// Tell that there is another message.
    NotifyMessage,
}

/// The state of the row.
#[derive(Debug)]
pub struct MessagePhoto {
    /// The number of the message among those that its chat holds.
    message: Option<u64>,
    /// Whether the caption of a message is followed.
    is_caption_bound: bool,
    actions: Vec<MediaRowAction>,
}

/// The state of a row with a single photo or video.
#[verifier::ext_equal]
pub struct MediaRowView {
    pub message: Option<u64>,
    pub is_caption_bound: bool,
    pub actions: Seq<MediaRowAction>,
}

impl View for MessagePhoto {
    type V = MediaRowView;

    closed spec fn view(&self) -> MediaRowView {
        MediaRowView {
            message: self.message,
            is_caption_bound: self.is_caption_bound,
            actions: self.actions@,
        }
    }
}

impl MediaRowView {
    pub open spec fn act(self, action: MediaRowAction) -> MediaRowView {
        MediaRowView { actions: self.actions.push(action), ..self }
    }

    /// The state after the previous message was left and another one was
    /// taken.
    pub open spec fn take_message(self, message: u64) -> MediaRowView {
        let unbound = if self.is_caption_bound {
            self.act(MediaRowAction::UnbindCaption)
        } else {
            self
        };
        let left = if self.message is Some {
            unbound.act(MediaRowAction::DisconnectMessage)
        } else {
            unbound
        };
        MediaRowView { message: Some(message), is_caption_bound: true, ..left }.act(
            MediaRowAction::UpdateBubble,
        ).act(MediaRowAction::BindCaption).act(MediaRowAction::ConnectMessage)
    }

    /// The state after the tile was updated.
    pub open spec fn update_tile(self, kind: ContentKind) -> MediaRowView {
        let told = self.act(MediaRowAction::SetTileMessage);
        match kind {
            ContentKind::Photo => told.act(MediaRowAction::SetPhoto),
            ContentKind::Video => told.act(MediaRowAction::SetVideo),
            ContentKind::Animation => told.act(MediaRowAction::SetAnimation),
            ContentKind::Other => self,
        }
    }

    /// The state after a message was set.
    pub open spec fn set_message(self, message: u64, kind: ContentKind) -> MediaRowView {
        if self.message == Some(message) {
            self
        } else {
            self.take_message(message).update_tile(kind).act(MediaRowAction::NotifyMessage)
        }
    }
}

impl MessagePhoto {
    pub fn new() -> (row: MessagePhoto)
        ensures
            row@ == (MediaRowView {
                message: None,
                is_caption_bound: false,
                actions: Seq::empty(),
            }),
    {
        let row = MessagePhoto { message: None, is_caption_bound: false, actions: Vec::new() };
        assert(row@.actions =~= Seq::empty());
        row
    }

    fn act(&mut self, action: MediaRowAction)
        ensures
            final(self)@ == old(self)@.act(action),
    {
        self.actions.push(action);
    }

    /// Sets the message of this row, whose content is a photo.
    pub fn set_message(&mut self, message: u64)
        ensures
            final(self)@ == old(self)@.set_message(message, ContentKind::Photo),
    {
        if let Some(current) = self.message {
            if current == message {
                return;
            }
        }
        if self.is_caption_bound {
            self.act(MediaRowAction::UnbindCaption);
        }
        if self.message.is_some() {
            self.act(MediaRowAction::DisconnectMessage);
        }
        self.message = Some(message);
        self.is_caption_bound = true;
        self.act(MediaRowAction::UpdateBubble);
        self.act(MediaRowAction::BindCaption);
        self.act(MediaRowAction::ConnectMessage);
        self.update_photo(ContentKind::Photo);
        self.act(MediaRowAction::NotifyMessage);
    }

    /// Handles that the content of the message is of the given kind now.
    pub fn update_photo(&mut self, kind: ContentKind)
        ensures
            final(self)@ == if kind == ContentKind::Photo {
                old(self)@.update_tile(kind)
            } else {
                old(self)@
            },
    {
        if matches!(kind, ContentKind::Photo) {
            self.act(MediaRowAction::SetTileMessage);
            self.act(MediaRowAction::SetPhoto);
        }
    }

    /// Tells that the message of this row doesn't exist anymore.
    pub fn release_message(&mut self)
        ensures
            final(self)@ == (MediaRowView { message: None, ..old(self)@ }),
    {
        self.message = None;
    }

    /// What the widgets have to do, in order. It is handed out once.
    pub fn take_actions(&mut self) -> (actions: Vec<MediaRowAction>)
        ensures
            actions@ == old(self)@.actions,
            final(self)@ == (MediaRowView { actions: Seq::empty(), ..old(self)@ }),
    {
        let mut actions: Vec<MediaRowAction> = Vec::new();
        std::mem::swap(&mut actions, &mut self.actions);
        assert(self@.actions =~= Seq::empty());
        actions
    }
}

/// Setting the same message again changes nothing.
pub proof fn law_same_photo_changes_nothing(
    row: MediaRowView,
    message: u64,
    kind: ContentKind,
    other: ContentKind,
)
    ensures
        row.set_message(message, kind).set_message(message, other) == row.set_message(
            message,
            kind,
        ),
{
}

/// A row that gets another message is disconnected from the previous one, shows
/// the caption of the new one and follows its changes, sets its tile, and tells
/// about it last.
pub proof fn law_row_takes_message(row: MediaRowView, message: u64, kind: ContentKind)
    requires
        row.message != Some(message),
    ensures
        ({
            let after = row.set_message(message, kind);
            let unbind = if row.is_caption_bound {
                seq![MediaRowAction::UnbindCaption]
            } else {
                Seq::empty()
            };
            let disconnect = if row.message is Some {
                seq![MediaRowAction::DisconnectMessage]
            } else {
                Seq::empty()
            };
            let tile = match kind {
                ContentKind::Photo => seq![
                    MediaRowAction::SetTileMessage,
                    MediaRowAction::SetPhoto,
                ],
                ContentKind::Video => seq![
                    MediaRowAction::SetTileMessage,
                    MediaRowAction::SetVideo,
                ],
                ContentKind::Animation => seq![
                    MediaRowAction::SetTileMessage,
                    MediaRowAction::SetAnimation,
                ],
                ContentKind::Other => Seq::empty(),
            };
            &&& after.message == Some(message)
            &&& after.is_caption_bound
            &&& after.actions == row.actions + unbind + disconnect + seq![
                MediaRowAction::UpdateBubble,
                MediaRowAction::BindCaption,
                MediaRowAction::ConnectMessage,
            ] + tile + seq![MediaRowAction::NotifyMessage]
        }),
{
    let after = row.set_message(message, kind);
    let unbind = if row.is_caption_bound {
        seq![MediaRowAction::UnbindCaption]
    } else {
        Seq::empty()
    };
    let disconnect = if row.message is Some {
        seq![MediaRowAction::DisconnectMessage]
    } else {
        Seq::empty()
    };
    let tile = match kind {
        ContentKind::Photo => seq![MediaRowAction::SetTileMessage, MediaRowAction::SetPhoto],
        ContentKind::Video => seq![MediaRowAction::SetTileMessage, MediaRowAction::SetVideo],
        ContentKind::Animation => seq![
            MediaRowAction::SetTileMessage,
            MediaRowAction::SetAnimation,
        ],
        ContentKind::Other => Seq::empty(),
    };
    assert(after.actions =~= row.actions + unbind + disconnect + seq![
        MediaRowAction::UpdateBubble,
        MediaRowAction::BindCaption,
        MediaRowAction::ConnectMessage,
    ] + tile + seq![MediaRowAction::NotifyMessage]);
}

/// A change of the content is shown in the tile as what the content is, and
/// changes nothing but the tile.
pub proof fn law_tile_shows_content(row: MediaRowView)
    ensures
        row.update_tile(ContentKind::Photo) == (MediaRowView {
            actions: row.actions.push(MediaRowAction::SetTileMessage).push(
                MediaRowAction::SetPhoto,
            ),
            ..row
        }),
        row.update_tile(ContentKind::Video) == (MediaRowView {
            actions: row.actions.push(MediaRowAction::SetTileMessage).push(
                MediaRowAction::SetVideo,
            ),
            ..row
        }),
        row.update_tile(ContentKind::Animation) == (MediaRowView {
            actions: row.actions.push(MediaRowAction::SetTileMessage).push(
                MediaRowAction::SetAnimation,
            ),
            ..row
        }),
        row.update_tile(ContentKind::Other) == row,
{
}

} // verus!
