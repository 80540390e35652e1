//! The part of a row that shows the message that is replied to.

use vstd::prelude::*;

use crate::types::{ChatId, MessageId};

verus! {

/// The number of colors of senders.
pub const COLOR_COUNT: u64 = 7;

/// The style of the sender, by its number.
pub open spec fn color_class_of(color: int) -> Seq<char> {
    if color == 0 {
        "sender-text-red"@
    } else if color == 1 {
        "sender-text-orange"@
    } else if color == 2 {
        "sender-text-violet"@
    } else if color == 3 {
        "sender-text-green"@
    } else if color == 4 {
        "sender-text-cyan"@
    } else if color == 5 {
        "sender-text-blue"@
    } else {
        "sender-text-pink"@
    }
}

/// The number of the color of a user, whose id is taken as an unsigned number.
pub open spec fn user_color_of(user_id: i64) -> u64 {
    if user_id >= 0 {
        (user_id % 7) as u64
    } else {
        ((user_id + 0x1_0000_0000_0000_0000) % 7) as u64
    }
}

/// The number of the color of a user.
pub fn user_color(user_id: i64) -> (color: u64)
    ensures
        color == user_color_of(user_id),
        color < COLOR_COUNT,
{
    assert(user_id < 0 ==> #[verifier::truncate] (user_id as u64) == user_id
        + 0x1_0000_0000_0000_0000) by (bit_vector);
    let id: u64 = #[verifier::truncate]
    (user_id as u64);
    id % COLOR_COUNT
}

/// The style of the sender, by its number.
pub fn color_class(color: u64) -> (class: &'static str)
    requires
        color < COLOR_COUNT,
    ensures
        class@ == color_class_of(color as int),
{
    match color {
        0 => "sender-text-red",
        1 => "sender-text-orange",
        2 => "sender-text-violet",
        3 => "sender-text-green",
        4 => "sender-text-cyan",
        5 => "sender-text-blue",
        _ => "sender-text-pink",
    }
}

/// The message that is replied to, as far as its preview is concerned.
#[derive(Clone, Copy, Debug, PartialEq, Eq, Structural)]
pub struct RepliedMessage {
    /// Whether the message is in a channel.
    pub is_in_channel: bool,
    /// The id of the user that sent the message, if it was one.
    pub user_id: Option<i64>,
}

/// What became of the search for the message that is replied to.
#[derive(Clone, Copy, Debug, PartialEq, Eq, Structural)]
pub enum ReplyOutcome {
    Found(RepliedMessage),
    /// The message doesn't exist anymore.
    Deleted,
    /// A transient error (e.g. no network connection). The fetch is retried
    /// when the widget is mapped again.
    Failed,
}

/// Something that the widgets have to do.
#[derive(Clone, Copy, Debug, PartialEq, Eq, Structural)]
pub enum ReplyAction {
    /// Search for the message that is replied to.
    Fetch { chat_id: ChatId, message_id: MessageId },
    /// Show that the message was deleted.
    ShowDeleted,
    /// Stop following the name of the previous sender.
    UnbindSender,
    /// Follow the name of the sender.
    BindSender,
    /// Remove the style with the given number.
    RemoveColor(u64),
    /// Add the style with the given number.
    AddColor(u64),
    ShowSender,
    /// Show the content of the message.
    ShowContent,
}

/// The state of the preview.
#[derive(Debug)]
pub struct MessageReply {
    /// The style of the sender.
    sender_color: Option<u64>,
    /// Whether the name of the sender is followed.
    is_sender_bound: bool,
    reply_to_message_id: MessageId,
    reply_to_chat_id: ChatId,
    /// Whether the replied message is being fetched.
    is_loading: bool,
    /// Whether the replied message has been fetched (or is known to not exist
    /// anymore).
    is_resolved: bool,
    actions: Vec<ReplyAction>,
}

/// The state of the preview.
#[verifier::ext_equal]
pub struct ReplyView {
    pub sender_color: Option<u64>,
    pub is_sender_bound: bool,
    pub message_id: MessageId,
    pub chat_id: ChatId,
    pub is_loading: bool,
    pub is_resolved: bool,
    pub actions: Seq<ReplyAction>,
}

impl View for MessageReply {
    type V = ReplyView;

    closed spec fn view(&self) -> ReplyView {
        ReplyView {
            sender_color: self.sender_color,
            is_sender_bound: self.is_sender_bound,
            message_id: self.reply_to_message_id,
            chat_id: self.reply_to_chat_id,
            is_loading: self.is_loading,
            is_resolved: self.is_resolved,
            actions: self.actions@,
        }
    }
}

impl ReplyView {
    pub open spec fn act(self, action: ReplyAction) -> ReplyView {
        ReplyView { actions: self.actions.push(action), ..self }
    }

    /// The state after the widget was shown, for a reply to the given message.
    pub open spec fn map(self, chat_id: ChatId, message_id: MessageId) -> ReplyView {
        if self.is_loading || self.is_resolved {
            self
        } else {
            ReplyView { is_loading: true, chat_id, message_id, ..self }.act(
                ReplyAction::Fetch { chat_id, message_id },
            )
        }
    }

    /// The state after the message that is replied to was shown.
    pub open spec fn update_from_message(
        self,
        replied: RepliedMessage,
        is_outgoing: bool,
    ) -> ReplyView {
        let unbound = if self.is_sender_bound {
            ReplyView { is_sender_bound: false, ..self }.act(ReplyAction::UnbindSender)
        } else {
            self
        };
        let plain = match self.sender_color {
            Some(color) => unbound.act(ReplyAction::RemoveColor(color)),
            None => unbound,
        };
        if replied.is_in_channel {
            plain
        } else {
            let bound = ReplyView { is_sender_bound: true, ..plain }.act(ReplyAction::BindSender);
            match replied.user_id {
                Some(user_id) => if is_outgoing {
                    bound
                } else {
                    ReplyView { sender_color: Some(user_color_of(user_id)), ..bound }.act(
                        ReplyAction::AddColor(user_color_of(user_id)),
                    )
                },
                None => bound,
            }.act(ReplyAction::ShowSender)
        }.act(ReplyAction::ShowContent)
    }

    /// The state after the search for the message that is replied to ended.
    pub open spec fn loaded(self, outcome: ReplyOutcome, is_outgoing: bool) -> ReplyView {
        let done = ReplyView { is_loading: false, ..self };
        match outcome {
            ReplyOutcome::Found(replied) => ReplyView {
                is_resolved: true,
                ..done.update_from_message(replied, is_outgoing)
            },
            ReplyOutcome::Deleted => ReplyView {
                is_resolved: true,
                ..done.act(ReplyAction::ShowDeleted)
            },
            ReplyOutcome::Failed => done,
        }
    }
}

impl MessageReply {
    pub fn new() -> (reply: MessageReply)
        ensures
            reply@ == (ReplyView {
                sender_color: None,
                is_sender_bound: false,
                message_id: 0,
                chat_id: 0,
                is_loading: false,
                is_resolved: false,
                actions: Seq::empty(),
            }),
    {
        let reply = MessageReply {
            sender_color: None,
            is_sender_bound: false,
            reply_to_message_id: 0,
            reply_to_chat_id: 0,
            is_loading: false,
            is_resolved: false,
            actions: Vec::new(),
        };
        assert(reply@.actions =~= Seq::empty());
        reply
    }

    fn act(&mut self, action: ReplyAction)
        ensures
            final(self)@ == old(self)@.act(action),
    {
        self.actions.push(action);
    }

    /// Handles that the widget is shown, for a reply to the given message.
    ///
    /// The replied message is only fetched when the widget is actually shown.
    /// The result is cached by the chat, so the fetch is done at most once per
    /// replied message.
    pub fn map(&mut self, chat_id: ChatId, message_id: MessageId)
        ensures
            final(self)@ == old(self)@.map(chat_id, message_id),
    {
        if self.is_loading || self.is_resolved {
            return;
        }
        self.is_loading = true;
        self.reply_to_message_id = message_id;
        self.reply_to_chat_id = chat_id;
        self.act(ReplyAction::Fetch { chat_id, message_id });
    }

    /// Handles that the search for the message that is replied to ended.
    pub fn handle_loaded(&mut self, outcome: ReplyOutcome, is_outgoing: bool)
        ensures
            final(self)@ == old(self)@.loaded(outcome, is_outgoing),
    {
        self.is_loading = false;
        match outcome {
            ReplyOutcome::Found(replied) => {
                self.update_from_message(replied, is_outgoing);
                self.is_resolved = true;
            },
            ReplyOutcome::Deleted => {
                self.act(ReplyAction::ShowDeleted);
                self.is_resolved = true;
            },
            ReplyOutcome::Failed => {},
        }
    }

    /// The message that the chat history is asked to show after the given
    /// number of clicks, for a reply in the given chat.
    ///
    /// Jumping is only supported for replies within the same chat.
    pub fn jump_target(&self, click_count: i32, chat_id: Option<ChatId>) -> (
        target: Option<MessageId>)
        ensures
            target == match chat_id {
                Some(chat_id) => if click_count == 1 && self@.message_id != 0 && (self@.chat_id
                    == 0 || self@.chat_id == chat_id) {
                    Some(self@.message_id)
                } else {
                    None
                },
                None => None,
            },
    {
        if click_count != 1 {
            return None;
        }
        if self.reply_to_message_id == 0 {
            return None;
        }
        match chat_id {
            Some(chat_id) => {
                if self.reply_to_chat_id != 0 && self.reply_to_chat_id != chat_id {
                    return None;
                }
                Some(self.reply_to_message_id)
            },
            None => None,
        }
    }

    fn update_from_message(&mut self, replied: RepliedMessage, is_outgoing: bool)
        ensures
            final(self)@ == old(self)@.update_from_message(replied, is_outgoing),
    {
        if self.is_sender_bound {
            self.is_sender_bound = false;
            self.act(ReplyAction::UnbindSender);
        }
        // Remove the previous color css class

        if let Some(color) = self.sender_color {
            self.act(ReplyAction::RemoveColor(color));
        }
        // Show sender label, if needed

        if !replied.is_in_channel {
            self.is_sender_bound = true;
            self.act(ReplyAction::BindSender);
            if !is_outgoing {
                // Color sender label
                if let Some(user_id) = replied.user_id {
                    let color = user_color(user_id);
                    self.sender_color = Some(color);
                    self.act(ReplyAction::AddColor(color));
                }
            }
            self.act(ReplyAction::ShowSender);
        }
        self.act(ReplyAction::ShowContent);
    }

    /// What the widgets have to do, in order. It is handed out once.
    pub fn take_actions(&mut self) -> (actions: Vec<ReplyAction>)
        ensures
            actions@ == old(self)@.actions,
            final(self)@ == (ReplyView { actions: Seq::empty(), ..old(self)@ }),
    {
        let mut actions: Vec<ReplyAction> = Vec::new();
        std::mem::swap(&mut actions, &mut self.actions);
        assert(self@.actions =~= Seq::empty());
        actions
    }
}

/// The message is searched for at most once at a time, and not anymore once it
/// is known what became of it.
pub proof fn law_reply_is_fetched_once(
    reply: ReplyView,
    chat_id: ChatId,
    message_id: MessageId,
    outcome: ReplyOutcome,
    is_outgoing: bool,
)
    ensures
        ({
            let mapped = reply.map(chat_id, message_id);
            &&& mapped.map(chat_id, message_id) == mapped
            &&& outcome != ReplyOutcome::Failed ==> {
                let known = mapped.loaded(outcome, is_outgoing);
                known.map(chat_id, message_id) == known
            }
        }),
{
}

/// A search that failed is made again when the widget is shown again.
pub proof fn law_failed_fetch_is_retried(
    reply: ReplyView,
    chat_id: ChatId,
    message_id: MessageId,
    is_outgoing: bool,
)
    requires
        !reply.is_loading,
        !reply.is_resolved,
    ensures
        reply.map(chat_id, message_id).loaded(ReplyOutcome::Failed, is_outgoing).map(
            chat_id,
            message_id,
        ).actions.last() == (ReplyAction::Fetch { chat_id, message_id }),
{
}

/// The colours of senders have their classes.
pub proof fn law_colors_have_classes(color: int)
    ensures
        color_class_of(0) == "sender-text-red"@,
        color_class_of(1) == "sender-text-orange"@,
        color_class_of(2) == "sender-text-violet"@,
        color_class_of(3) == "sender-text-green"@,
        color_class_of(4) == "sender-text-cyan"@,
        color_class_of(5) == "sender-text-blue"@,
        color != 0 && color != 1 && color != 2 && color != 3 && color != 4 && color != 5
            ==> color_class_of(color) == "sender-text-pink"@,
{
}

/// A user has one of seven colours, and the next user has the next one.
pub proof fn law_users_have_colors(user_id: i64)
    requires
        user_id < i64::MAX,
    ensures
        user_color_of(0) == 0,
        user_color_of(user_id) < 7,
        user_id != -1 ==> user_color_of((user_id + 1) as i64) == (user_color_of(user_id) + 1) % 7,
        user_color_of(-1i64) == u64::MAX % 7,
{
}

/// A reply that is neither known nor being fetched is fetched when it is mapped.
pub proof fn law_mapped_reply_is_fetched(reply: ReplyView, chat_id: ChatId, message_id: MessageId)
    ensures
        ({
            let after = reply.map(chat_id, message_id);
            &&& !reply.is_loading && !reply.is_resolved ==> after == (ReplyView {
                is_loading: true,
                chat_id,
                message_id,
                actions: reply.actions.push(ReplyAction::Fetch { chat_id, message_id }),
                ..reply
            })
            &&& reply.is_loading || reply.is_resolved ==> after == reply
        }),
{
}

/// The replied message is shown with its sender, in the colour of the user
/// unless the reply is an outgoing one. A message in a channel is shown without
/// a sender. What was shown of another sender is taken away first.
pub proof fn law_replied_message_is_shown(
    reply: ReplyView,
    replied: RepliedMessage,
    is_outgoing: bool,
)
    ensures
        ({
            let after = reply.update_from_message(replied, is_outgoing);
            let unbind = if reply.is_sender_bound {
                seq![ReplyAction::UnbindSender]
            } else {
                Seq::empty()
            };
            let remove = match reply.sender_color {
                Some(color) => seq![ReplyAction::RemoveColor(color)],
                None => Seq::empty(),
            };
            let color = match replied.user_id {
                Some(user_id) => if is_outgoing {
                    None
                } else {
                    Some(user_color_of(user_id))
                },
                None => None,
            };
            let add = match color {
                Some(color) => seq![ReplyAction::AddColor(color)],
                None => Seq::empty(),
            };
            let cleared = reply.actions + unbind + remove;
            &&& after.is_sender_bound == !replied.is_in_channel
            &&& replied.is_in_channel ==> after.actions == cleared.push(ReplyAction::ShowContent)
                && after.sender_color == reply.sender_color
            &&& !replied.is_in_channel ==> {
                &&& after.actions == cleared + seq![ReplyAction::BindSender] + add + seq![
                    ReplyAction::ShowSender,
                    ReplyAction::ShowContent,
                ]
                &&& after.sender_color == if color is Some {
                    color
                } else {
                    reply.sender_color
                }
            }
            &&& after.chat_id == reply.chat_id
            &&& after.message_id == reply.message_id
        }),
{
    let after = reply.update_from_message(replied, is_outgoing);
    let unbind = if reply.is_sender_bound {
        seq![ReplyAction::UnbindSender]
    } else {
        Seq::empty()
    };
    let remove = match reply.sender_color {
        Some(color) => seq![ReplyAction::RemoveColor(color)],
        None => Seq::empty(),
    };
    let color = match replied.user_id {
        Some(user_id) => if is_outgoing {
            None
        } else {
            Some(user_color_of(user_id))
        },
        None => None,
    };
    let add = match color {
        Some(color) => seq![ReplyAction::AddColor(color)],
        None => Seq::empty(),
    };
    let cleared = reply.actions + unbind + remove;
    if replied.is_in_channel {
        assert(after.actions =~= cleared.push(ReplyAction::ShowContent));
    } else {
        assert(after.actions =~= cleared + seq![ReplyAction::BindSender] + add + seq![
            ReplyAction::ShowSender,
            ReplyAction::ShowContent,
        ]);
    }
}

/// What came of a fetch is shown, and is known from then on unless the fetch
/// failed.
pub proof fn law_fetched_reply_is_known(
    reply: ReplyView,
    replied: RepliedMessage,
    is_outgoing: bool,
)
    ensures
        ({
            let done = ReplyView { is_loading: false, ..reply };
            &&& reply.loaded(ReplyOutcome::Failed, is_outgoing) == done
            &&& reply.loaded(ReplyOutcome::Deleted, is_outgoing) == (ReplyView {
                is_resolved: true,
                actions: reply.actions.push(ReplyAction::ShowDeleted),
                ..done
            })
            &&& reply.loaded(ReplyOutcome::Found(replied), is_outgoing) == (ReplyView {
                is_resolved: true,
                ..done.update_from_message(replied, is_outgoing)
            })
        }),
{
}

} // verus!
