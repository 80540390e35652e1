//! A row that shows a message with a video or an animation.

use vstd::prelude::*;

use crate::model::message::ContentKind;
use crate::ui::message_row::photo::{MediaRowAction, MediaRowView};

verus! {

/// The state of the row.
#[derive(Debug)]
pub struct MessageVideo {
    /// The number of the message among those that its chat holds.
    message: Option<u64>,
    /// Whether the caption of a message is followed.
    is_caption_bound: bool,
    actions: Vec<MediaRowAction>,
}

impl View for MessageVideo {
    type V = MediaRowView;

    closed spec fn view(&self) -> MediaRowView {
        MediaRowView {
            message: self.message,
            is_caption_bound: self.is_caption_bound,
            actions: self.actions@,
        }
    }
}

/// Whether the content can be shown by the row.
pub open spec fn is_video(kind: ContentKind) -> bool {
    kind == ContentKind::Video || kind == ContentKind::Animation
}

impl MessageVideo {
    pub fn new() -> (row: MessageVideo)
        ensures
            row@ == (MediaRowView {
                message: None,
                is_caption_bound: false,
                actions: Seq::empty(),
            }),
    {
        let row = MessageVideo { message: None, is_caption_bound: false, actions: Vec::new() };
        assert(row@.actions =~= Seq::empty());
        row
    }

    fn act(&mut self, action: MediaRowAction)
        ensures
            final(self)@ == old(self)@.act(action),
    {
        self.actions.push(action);
    }

    /// Sets the message of this row, whose content is of the given kind.
    pub fn set_message(&mut self, message: u64, kind: ContentKind)
        requires
            is_video(kind),
        ensures
            final(self)@ == old(self)@.set_message(message, kind),
    {
        if let Some(current) = self.message {
            if current == message {
                return;
            }
        }
        if self.is_caption_bound {
            self.act(MediaRowAction::UnbindCaption);
        }
        if self.message.is_some() {
            self.act(MediaRowAction::DisconnectMessage);
        }
        self.message = Some(message);
        self.is_caption_bound = true;
        self.act(MediaRowAction::UpdateBubble);
        self.act(MediaRowAction::BindCaption);
        self.act(MediaRowAction::ConnectMessage);
        self.update_content(kind);
        self.act(MediaRowAction::NotifyMessage);
    }

    /// Handles that the content of the message changed.
    pub fn update_content(&mut self, kind: ContentKind)
        requires
            is_video(kind),
        ensures
            final(self)@ == old(self)@.update_tile(kind),
    {
        self.act(MediaRowAction::SetTileMessage);
        if matches!(kind, ContentKind::Animation) {
            self.act(MediaRowAction::SetAnimation);
        } else {
            self.act(MediaRowAction::SetVideo);
        }
    }

    /// Tells that the message of this row doesn't exist anymore.
    pub fn release_message(&mut self)
        ensures
            final(self)@ == (MediaRowView { message: None, ..old(self)@ }),
    {
        self.message = None;
    }

    /// What the widgets have to do, in order. It is handed out once.
    pub fn take_actions(&mut self) -> (actions: Vec<MediaRowAction>)
        ensures
            actions@ == old(self)@.actions,
            final(self)@ == (MediaRowView { actions: Seq::empty(), ..old(self)@ }),
    {
        let mut actions: Vec<MediaRowAction> = Vec::new();
        std::mem::swap(&mut actions, &mut self.actions);
        assert(self@.actions =~= Seq::empty());
        actions
    }
}

/// Videos and animations are shown as videos, and nothing else is.
pub proof fn law_videos_and_animations_are_videos()
    ensures
        is_video(ContentKind::Video),
        is_video(ContentKind::Animation),
        !is_video(ContentKind::Photo),
        !is_video(ContentKind::Other),
{
}

} // verus!
