//! The widget that shows the history of a chat: when messages are loaded,
//! where it scrolls to, and which messages were viewed.

use std::collections::HashSet;

use vstd::prelude::*;

use crate::model::chat_history_model::ChatHistoryError;
use crate::model::chat_view::ChatType;
use crate::types::{ChatId, MessageId};

verus! {

/// The number of messages requested when the viewport is first filled with
/// messages. If it is not enough, smaller chunks are requested until it is.
pub const INITIAL_LOAD_LIMIT: i32 = 30;

/// The delay, in milliseconds, before the viewed messages are sent to TDLib.
/// Messages are accumulated in the meantime, so that scrolling doesn't issue
/// a TDLib request on every change of the visible messages.
pub const VIEW_MESSAGES_DELAY_MS: u64 = 150;

/// The number of older messages that are loaded when the user scrolls.
pub const SCROLL_OLDER_LIMIT: i32 = 30;

/// The number of newer messages that are loaded when the user scrolls.
pub const SCROLL_NEWER_LIMIT: i32 = 50;

/// The delay, in milliseconds, after which a load is tried again that another
/// one was in the way of.
pub const RETRY_DELAY_MS: u64 = 20;

/// Where the viewport is.
#[derive(Clone, Copy, Debug, PartialEq, Eq, Structural)]
pub struct ScrollPosition {
    /// Whether the newest loaded message is visible.
    pub at_end: bool,
    /// Whether the oldest loaded message is close.
    pub near_oldest: bool,
    /// Whether the newest loaded message is close, but not everything fits.
    pub near_newest: bool,
}

/// Messages to be loaded.
#[derive(Clone, Copy, Debug, PartialEq, Eq, Structural)]
pub enum LoadRequest {
    Older(i32),
    Newer(i32),
}

/// What has to be done after the viewport moved.
#[derive(Clone, Copy, Debug, PartialEq, Eq, Structural)]
pub struct ScrollActions {
    /// Flush the viewed messages after a delay.
    pub schedule_view_messages: bool,
    pub notify_sticky: bool,
    pub load: Option<LoadRequest>,
}

/// What the scroll-down button does.
#[derive(Clone, Copy, Debug, PartialEq, Eq, Structural)]
pub enum ScrollDown {
    /// Scroll to the bottom.
    Scroll,
    /// Open the history anew at the first unread message.
    JumpToFirstUnread,
    /// Open the history anew at the newest message.
    GoToNewest,
}

/// What has to be done when another chat is shown.
#[derive(Clone, Copy, Debug, PartialEq, Eq, Structural)]
pub struct ChatSwitch {
    /// Close this chat.
    pub close: Option<ChatId>,
    /// Show the history of this chat and open it.
    pub open: Option<ChatId>,
    /// Whether the user can leave the chat. It stays as it is if there is no
    /// chat.
    pub can_leave: Option<bool>,
}

/// Whether a chat can be left.
pub open spec fn can_be_left(chat_type: ChatType, has_left: bool) -> bool {
    (chat_type is BasicGroup || chat_type is Supergroup) && !has_left
}

/// Whether a chat can be left, given whether the user left it already.
pub fn can_leave(chat_type: ChatType, has_left: bool) -> (result: bool)
    ensures
        result == can_be_left(chat_type, has_left),
{
    match chat_type {
        ChatType::BasicGroup { .. } | ChatType::Supergroup { .. } => !has_left,
        _ => false,
    }
}

/// The state of the widget.
#[derive(Debug)]
pub struct ChatHistory {
    chat: Option<ChatId>,
    has_model: bool,
    is_auto_scrolling: bool,
    is_loading_messages: bool,
    sticky: bool,
    viewed_message_ids: HashSet<MessageId>,
    viewed_message_ids_changed: bool,
    view_messages_scheduled: bool,
}

/// The state of the widget.
#[verifier::ext_equal]
pub struct ChatHistoryView {
    pub chat: Option<ChatId>,
    pub has_model: bool,
    pub is_auto_scrolling: bool,
    pub is_loading_messages: bool,
    pub sticky: bool,
    pub viewed: Set<MessageId>,
    pub viewed_changed: bool,
    pub scheduled: bool,
}

impl View for ChatHistory {
    type V = ChatHistoryView;

    closed spec fn view(&self) -> ChatHistoryView {
        ChatHistoryView {
            chat: self.chat,
            has_model: self.has_model,
            is_auto_scrolling: self.is_auto_scrolling,
            is_loading_messages: self.is_loading_messages,
            sticky: self.sticky,
            viewed: self.viewed_message_ids@,
            viewed_changed: self.viewed_message_ids_changed,
            scheduled: self.view_messages_scheduled,
        }
    }
}

impl ChatHistoryView {
    /// The state after the viewport moved.
    pub open spec fn scrolled(self, position: ScrollPosition) -> ChatHistoryView {
        let scheduled = ChatHistoryView { scheduled: true, ..self };
        if self.is_loading_messages {
            scheduled
        } else if self.is_auto_scrolling {
            if position.at_end {
                ChatHistoryView { is_auto_scrolling: false, sticky: true, ..scheduled }
            } else {
                scheduled
            }
        } else {
            ChatHistoryView {
                sticky: position.at_end,
                is_loading_messages: self.load_for(position) is Some,
                ..scheduled
            }
        }
    }

    /// What is loaded because the viewport moved.
    pub open spec fn load_for(self, position: ScrollPosition) -> Option<LoadRequest> {
        if self.is_loading_messages || self.is_auto_scrolling || !self.has_model {
            None
        } else if position.near_oldest {
            Some(LoadRequest::Older(SCROLL_OLDER_LIMIT))
        } else if position.near_newest {
            Some(LoadRequest::Newer(SCROLL_NEWER_LIMIT))
        } else {
            None
        }
    }
}

impl ChatHistory {
    pub fn new() -> (history: ChatHistory)
        ensures
            history@ == (ChatHistoryView {
                chat: None,
                has_model: false,
                is_auto_scrolling: false,
                is_loading_messages: false,
                sticky: false,
                viewed: Set::empty(),
                viewed_changed: false,
                scheduled: false,
            }),
    {
        let history = ChatHistory {
            chat: None,
            has_model: false,
            is_auto_scrolling: false,
            is_loading_messages: false,
            sticky: false,
            viewed_message_ids: HashSet::new(),
            viewed_message_ids_changed: false,
            view_messages_scheduled: false,
        };
        assert(history@.viewed =~= Set::empty());
        history
    }

    /// Handles that the viewport moved.
    pub fn handle_scroll(&mut self, position: ScrollPosition) -> (actions: ScrollActions)
        ensures
            final(self)@ == old(self)@.scrolled(position),
            actions == (ScrollActions {
                schedule_view_messages: !old(self)@.scheduled,
                notify_sticky: final(self)@.sticky != old(self)@.sticky,
                load: old(self)@.load_for(position),
            }),
    {
        let schedule_view_messages = self.schedule_view_messages();
        let mut actions = ScrollActions {
            schedule_view_messages,
            notify_sticky: false,
            load: None,
        };
        if self.is_loading_messages {
            return actions;
        }
        if self.is_auto_scrolling {
            if position.at_end {
                self.is_auto_scrolling = false;
                actions.notify_sticky = self.set_sticky(true);
            }
            return actions;
        }
        actions.notify_sticky = self.set_sticky(position.at_end);
        if !position.near_oldest && !position.near_newest {
            return actions;
        }
        if self.has_model {
            self.is_loading_messages = true;
            actions.load = Some(
                if position.near_oldest {
                    LoadRequest::Older(SCROLL_OLDER_LIMIT)
                } else {
                    LoadRequest::Newer(SCROLL_NEWER_LIMIT)
                },
            );
        }
        actions
    }

    /// Handles that the messages that were loaded because of scrolling
    /// arrived, or that they couldn't be loaded.
    pub fn handle_load_finished(&mut self)
        ensures
            final(self)@ == (ChatHistoryView { is_loading_messages: false, ..old(self)@ }),
    {
        self.is_loading_messages = false;
    }

    /// Handles that the height of the list changed. Returns whether to scroll
    /// down.
    pub fn handle_upper_changed(&mut self) -> (scroll: bool)
        ensures
            scroll == (old(self)@.sticky || old(self)@.is_auto_scrolling),
            final(self)@ == if scroll {
                (ChatHistoryView { is_auto_scrolling: true, ..old(self)@ })
            } else {
                old(self)@
            },
    {
        if self.sticky || self.is_auto_scrolling {
            self.scroll_down();
            true
        } else {
            false
        }
    }

    /// Starts to scroll down.
    pub fn scroll_down(&mut self)
        ensures
            final(self)@ == (ChatHistoryView { is_auto_scrolling: true, ..old(self)@ }),
    {
        self.is_auto_scrolling = true;
    }

    /// Sets whether the view stays at the newest message. Returns whether that
    /// changed.
    pub fn set_sticky(&mut self, sticky: bool) -> (notify: bool)
        ensures
            final(self)@ == (ChatHistoryView { sticky, ..old(self)@ }),
            notify == (sticky != old(self)@.sticky),
    {
        if self.sticky == sticky {
            return false;
        }
        self.sticky = sticky;
        true
    }

    /// What the scroll-down button does.
    ///
    /// If the chat has unread messages that are not in the loaded history
    /// window, jumps to the first unread message. If the newest messages are
    /// not loaded anymore, e.g. after jumping to an old message, re-opens the
    /// history at the newest message. Otherwise, plain scrolling to the bottom
    /// is used.
    pub fn handle_scroll_down(
        &self,
        unread_count: i32,
        last_read_inbox_message_id: MessageId,
        at_newest: bool,
    ) -> (action: ScrollDown)
        ensures
            action == if self@.chat is None || !self@.has_model || at_newest {
                ScrollDown::Scroll
            } else if unread_count > 0 && last_read_inbox_message_id != 0 {
                ScrollDown::JumpToFirstUnread
            } else {
                ScrollDown::GoToNewest
            },
    {
        if self.chat.is_none() || !self.has_model {
            return ScrollDown::Scroll;
        }
        // The history is anchored at the last read message when there are
        // unread messages. A chat that was never read has no such anchor and
        // jumping to the newest message is used instead.

        if unread_count > 0 && last_read_inbox_message_id != 0 && !at_newest {
            ScrollDown::JumpToFirstUnread
        } else if !at_newest {
            ScrollDown::GoToNewest
        } else {
            ScrollDown::Scroll
        }
    }

    /// Shows another chat, or none. The kind of the chat and whether the user
    /// left it come with it. Returns `None` if nothing changes.
    pub fn set_chat(&mut self, chat: Option<(ChatId, ChatType, bool)>) -> (switch: Option<
        ChatSwitch,
    >)
        ensures
            ({
                let id = match chat {
                    Some((id, _, _)) => Some(id),
                    None => None,
                };
                if id == old(self)@.chat {
                    switch is None && final(self)@ == old(self)@
                } else {
                    &&& switch == Some(
                        ChatSwitch {
                            close: old(self)@.chat,
                            open: id,
                            can_leave: match chat {
                                Some((_, chat_type, has_left)) => Some(
                                    can_be_left(chat_type, has_left),
                                ),
                                None => None,
                            },
                        },
                    )
                    &&& final(self)@ == (ChatHistoryView {
                        chat: id,
                        has_model: old(self)@.has_model || id is Some,
                        is_loading_messages: old(self)@.is_loading_messages || id is Some,
                        ..old(self)@
                    })
                }
            }),
    {
        let id = match chat {
            Some((id, _, _)) => Some(id),
            None => None,
        };
        if id == self.chat {
            return None;
        }
        let close = self.chat;
        let mut can_leave_chat: Option<bool> = None;
        if let Some((_, chat_type, has_left)) = chat {
            can_leave_chat = Some(can_leave(chat_type, has_left));
            self.set_history_model();
        }
        self.chat = id;
        Some(ChatSwitch { close, open: id, can_leave: can_leave_chat })
    }

    /// Installs another model, which is filled asynchronously.
    ///
    /// The loading flag is claimed right away, so that scrolling can't start
    /// a concurrent load before the initial fill had a chance to run.
    pub fn set_history_model(&mut self)
        ensures
            final(self)@ == (ChatHistoryView {
                is_loading_messages: true,
                has_model: true,
                ..old(self)@
            }),
    {
        self.is_loading_messages = true;
        self.has_model = true;
    }

    /// Handles that the model was filled. Returns whether the property that
    /// tells if the view stays at the newest message changed.
    pub fn handle_filled(&mut self, sticky: Option<bool>) -> (notify_sticky: bool)
        ensures
            final(self)@ == (ChatHistoryView {
                sticky: match sticky {
                    Some(sticky) => sticky,
                    None => old(self)@.sticky,
                },
                is_loading_messages: false,
                ..old(self)@
            }),
            notify_sticky == (final(self)@.sticky != old(self)@.sticky),
    {
        let mut notify = false;
        if let Some(sticky) = sticky {
            notify = self.set_sticky(sticky);
        }
        self.is_loading_messages = false;
        notify
    }

    // Viewed messages

    /// Notes that the message became visible.
    pub fn add_to_viewed_message_ids(&mut self, message_id: MessageId)
        ensures
            final(self)@ == (ChatHistoryView {
                viewed: old(self)@.viewed.insert(message_id),
                viewed_changed: old(self)@.viewed_changed || !old(self)@.viewed.contains(
                    message_id,
                ),
                ..old(self)@
            }),
    {
        broadcast use vstd::std_specs::hash::group_hash_axioms;

        if self.viewed_message_ids.insert(message_id) {
            self.viewed_message_ids_changed = true;
        }
    }

    /// Notes that the message became invisible.
    pub fn remove_from_viewed_message_ids(&mut self, message_id: MessageId)
        ensures
            final(self)@ == (ChatHistoryView {
                viewed: old(self)@.viewed.remove(message_id),
                viewed_changed: old(self)@.viewed_changed || old(self)@.viewed.contains(
                    message_id,
                ),
                ..old(self)@
            }),
    {
        broadcast use vstd::std_specs::hash::group_hash_axioms;

        if self.viewed_message_ids.remove(&message_id) {
            self.viewed_message_ids_changed = true;
        }
    }

    /// Schedules a flush of the viewed messages, so that at most one request
    /// is sent per delay interval. Returns whether one must be scheduled.
    pub fn schedule_view_messages(&mut self) -> (schedule: bool)
        ensures
            final(self)@ == (ChatHistoryView { scheduled: true, ..old(self)@ }),
            schedule == !old(self)@.scheduled,
    {
        if self.view_messages_scheduled {
            return false;
        }
        self.view_messages_scheduled = true;
        true
    }

    /// Handles that the delay of a scheduled flush is over.
    pub fn handle_view_messages_due(&mut self)
        ensures
            final(self)@ == (ChatHistoryView { scheduled: false, ..old(self)@ }),
    {
        self.view_messages_scheduled = false;
    }

    /// The ids of the viewed messages, in any order.
    fn viewed_ids(&self) -> (ids: Vec<MessageId>)
        ensures
            ids@.no_duplicates(),
            ids@.to_set() == self@.viewed,
    {
        broadcast use vstd::std_specs::hash::group_hash_axioms;

        let mut ids: Vec<MessageId> = Vec::new();
        let ghost all = vstd::std_specs::iter::IteratorSpec::remaining(
            &self.viewed_message_ids.iter(),
        ).unref();
        for id in iter: self.viewed_message_ids.iter()
            invariant
                iter.seq().unref() == all,
                ids@ == all.take(iter.index()),
        {
            ids.push(*id);
            assert(ids@ =~= all.take(iter.index() + 1));
        }
        assert(ids@ =~= all);
        ids
    }

    /// The ids of the viewed messages that must be reported, together with
    /// the chat they are in, if they changed since the last time.
    pub fn view_messages(&mut self) -> (report: Option<(ChatId, Vec<MessageId>)>)
        requires
            old(self)@.viewed_changed ==> old(self)@.chat is Some,
        ensures
            final(self)@ == (ChatHistoryView { viewed_changed: false, ..old(self)@ }),
            match report {
                Some((chat, ids)) => {
                    &&& old(self)@.viewed_changed
                    &&& old(self)@.chat == Some(chat)
                    &&& ids@.no_duplicates()
                    &&& ids@.to_set() == old(self)@.viewed
                },
                None => !old(self)@.viewed_changed,
            },
    {
        if !self.viewed_message_ids_changed {
            return None;
        }
        self.viewed_message_ids_changed = false;
        match self.chat {
            Some(chat) => Some((chat, self.viewed_ids())),
            None => None,
        }
    }

    /// The chat to open or close, so that notifications are created for it or
    /// not. While a chat is opened in TDLib, no notifications are created for
    /// it.
    pub fn chat(&self) -> (chat: Option<ChatId>)
        ensures
            chat == self@.chat,
    {
        self.chat
    }

    pub fn sticky(&self) -> (sticky: bool)
        ensures
            sticky == self@.sticky,
    {
        self.sticky
    }
}

// Filling the list

/// The number as an unsigned one, which a negative one counts from the end of
/// the range of.
pub open spec fn as_unsigned(count: i32) -> int {
    if count >= 0 {
        count as int
    } else {
        count + 0x1_0000_0000
    }
}

/// The position to scroll to after the messages around the anchor were
/// loaded, in terms of the items of the list.
pub open spec fn anchor_position(
    position: u32,
    is_unread_anchor: bool,
    unread_count: i32,
    sponsored: u32,
) -> int {
    let shown = if !is_unread_anchor {
        position as int
    } else if as_unsigned(unread_count) > position {
        0
    } else {
        position - as_unsigned(unread_count)
    };
    shown + sponsored
}

/// The position to scroll to after the messages around the anchor were
/// loaded. The unread messages below the anchor are shown instead of the
/// anchor itself.
pub fn anchor_scroll_position(
    position: u32,
    is_unread_anchor: bool,
    unread_count: i32,
    sponsored: u32,
) -> (result: u32)
    requires
        anchor_position(position, is_unread_anchor, unread_count, sponsored) <= u32::MAX,
    ensures
        result == anchor_position(position, is_unread_anchor, unread_count, sponsored),
{
    let mut position: u32 = position;
    if is_unread_anchor {
        assert(unread_count < 0 ==> #[verifier::truncate] (unread_count as u32) == unread_count
            + 0x1_0000_0000) by (bit_vector);
        let unread: u32 = #[verifier::truncate]
        (unread_count as u32);
        position = position.saturating_sub(unread);
    }
    position + sponsored
}

/// The number of sponsored messages shown before the chat history in the list
/// view, which has `total` items if it shows such messages at all.
pub fn sponsored_message_count(total: Option<u32>, history_count: u32) -> (count: u32)
    ensures
        count == match total {
            Some(total) => if total > history_count {
                (total - history_count) as u32
            } else {
                0
            },
            None => 0,
        },
{
    match total {
        Some(total) => total.saturating_sub(history_count),
        None => 0,
    }
}

/// What happened while the list is filled.
#[derive(Debug)]
pub enum FillEvent {
    /// Filling the list starts. The model tells whether it is anchored at the
    /// newest message, unless it or the chat is gone.
    Started(Option<bool>),
    /// It was checked whether the viewport is still at its start.
    Checked { is_at_start: bool },
    Loaded(Result<bool, ChatHistoryError>),
    Waited,
    AnchorLoaded,
}

/// What has to be done to fill the list.
#[derive(Clone, Copy, Debug, PartialEq, Eq, Structural)]
pub enum FillAction {
    /// Check whether the viewport is still at its start.
    Check,
    LoadOlder(i32),
    /// Wait for the given number of milliseconds.
    Wait(u64),
    LoadAroundAnchor,
    /// Stop and set whether the view stays at the newest message.
    Finish(Option<bool>),
}

/// Decides how the list is filled.
///
/// If the model is anchored at the newest message, the history is filled from
/// the newest end until the viewport can scroll, using progressively smaller
/// chunks, so that the first paint happens after a single request. Otherwise,
/// a window of messages is loaded around the anchor.
#[derive(Clone, Copy, Debug, PartialEq, Eq, Structural)]
pub struct HistoryFill {
    pub limit: i32,
}

/// The limit of the request after one with the given limit.
pub open spec fn next_limit(limit: i32) -> i32 {
    if limit / 2 > 2 {
        (limit / 2) as i32
    } else {
        2
    }
}

impl HistoryFill {
    pub open spec fn after(self, event: FillEvent) -> HistoryFill {
        match event {
            FillEvent::Loaded(Ok(true)) => HistoryFill { limit: next_limit(self.limit) },
            _ => self,
        }
    }

    pub open spec fn action_for(self, event: FillEvent) -> FillAction {
        match event {
            FillEvent::Started(None) => FillAction::Finish(None),
            FillEvent::Started(Some(true)) => FillAction::Check,
            FillEvent::Started(Some(false)) => FillAction::LoadAroundAnchor,
            FillEvent::Checked { is_at_start } => if is_at_start {
                FillAction::LoadOlder(self.limit)
            } else {
                FillAction::Finish(Some(true))
            },
            FillEvent::Loaded(Ok(true)) => FillAction::Check,
            FillEvent::Loaded(Ok(false)) => FillAction::Finish(Some(true)),
            FillEvent::Loaded(Err(ChatHistoryError::AlreadyLoading)) => {
                FillAction::Wait(RETRY_DELAY_MS)
            },
            FillEvent::Loaded(Err(ChatHistoryError::Tdlib(_))) => FillAction::Finish(Some(true)),
            FillEvent::Waited => FillAction::Check,
            FillEvent::AnchorLoaded => FillAction::Finish(Some(false)),
        }
    }

    pub fn new() -> (fill: HistoryFill)
        ensures
            fill.limit == INITIAL_LOAD_LIMIT,
    {
        HistoryFill { limit: INITIAL_LOAD_LIMIT }
    }

    /// Takes what happened and returns what to do next.
    pub fn step(&mut self, event: FillEvent) -> (action: FillAction)
        requires
            old(self).limit >= 0,
        ensures
            *final(self) == old(self).after(event),
            final(self).limit >= 0,
            action == old(self).action_for(event),
    {
        match event {
            FillEvent::Started(at_newest) => match at_newest {
                None => FillAction::Finish(None),
                Some(true) => FillAction::Check,
                Some(false) => FillAction::LoadAroundAnchor,
            },
            FillEvent::Checked { is_at_start } => {
                if is_at_start {
                    FillAction::LoadOlder(self.limit)
                } else {
                    FillAction::Finish(Some(true))
                }
            },
            FillEvent::Loaded(result) => match result {
                Ok(true) => {
                    let half: i32 = self.limit / 2;
                    self.limit = if half > 2 {
                        half
                    } else {
                        2
                    };
                    FillAction::Check
                },
                Ok(false) => FillAction::Finish(Some(true)),
                // Another load is in flight. Try again after giving it a
                // chance to finish.
                Err(ChatHistoryError::AlreadyLoading) => FillAction::Wait(RETRY_DELAY_MS),
                Err(ChatHistoryError::Tdlib(_)) => FillAction::Finish(Some(true)),
            },
            FillEvent::Waited => FillAction::Check,
            FillEvent::AnchorLoaded => FillAction::Finish(Some(false)),
        }
    }
}

/// The requests get smaller, but never smaller than two messages.
pub proof fn law_requests_get_smaller(fill: HistoryFill)
    requires
        fill.limit >= 2,
    ensures
        fill.after(FillEvent::Loaded(Ok(true))).limit >= 2,
        fill.limit > 2 ==> fill.after(FillEvent::Loaded(Ok(true))).limit < fill.limit,
{
}

/// Groups can be left, as long as they were not left already. Other chats can't.
pub proof fn law_groups_can_be_left(id: i64, secret_chat_id: i32, has_left: bool)
    ensures
        can_be_left(ChatType::BasicGroup { basic_group_id: id }, has_left) == !has_left,
        can_be_left(ChatType::Supergroup { supergroup_id: id }, has_left) == !has_left,
        !can_be_left(ChatType::Private { user_id: id }, has_left),
        !can_be_left(ChatType::Secret { secret_chat_id, partner_id: id }, has_left),
{
}

/// Scrolling close to an end loads messages there, older ones first, unless
/// messages are being loaded already, the list scrolls by itself or there is
/// nothing to load for. While messages are loaded, no others are.
pub proof fn law_scrolling_loads_messages(view: ChatHistoryView, position: ScrollPosition)
    ensures
        ({
            let after = view.scrolled(position);
            let load = view.load_for(position);
            let is_free = !view.is_loading_messages && !view.is_auto_scrolling && view.has_model;
            &&& is_free && position.near_oldest ==> load == Some(
                LoadRequest::Older(SCROLL_OLDER_LIMIT),
            )
            &&& is_free && !position.near_oldest && position.near_newest ==> load == Some(
                LoadRequest::Newer(SCROLL_NEWER_LIMIT),
            )
            &&& is_free && !position.near_oldest && !position.near_newest ==> load is None
            &&& !is_free ==> load is None
            &&& after.is_loading_messages <==> view.is_loading_messages || load is Some
            &&& after.load_for(position) is None || load is None
        }),
{
}

/// Scrolling notes whether the newest message is visible, unless messages are
/// being loaded. Scrolling down by itself ends there. The viewed messages are
/// reported in any case, and nothing else changes.
pub proof fn law_scrolling_notes_position(view: ChatHistoryView, position: ScrollPosition)
    ensures
        ({
            let after = view.scrolled(position);
            &&& after.scheduled
            &&& after.sticky == if view.is_loading_messages {
                view.sticky
            } else if view.is_auto_scrolling {
                view.sticky || position.at_end
            } else {
                position.at_end
            }
            &&& after.is_auto_scrolling == (view.is_auto_scrolling && (view.is_loading_messages
                || !position.at_end))
            &&& after.chat == view.chat
            &&& after.has_model == view.has_model
            &&& after.viewed == view.viewed
            &&& after.viewed_changed == view.viewed_changed
        }),
{
}

/// The list scrolls to the anchor, behind the sponsored messages. If it is the
/// last read message, the unread ones in front of it are shown instead, as far
/// as there are rows in front of it.
pub proof fn law_anchor_is_scrolled_to(position: u32, unread_count: i32, sponsored: u32)
    ensures
        anchor_position(position, false, unread_count, sponsored) == position + sponsored,
        0 <= unread_count <= position ==> anchor_position(position, true, unread_count, sponsored)
            == position - unread_count + sponsored,
        unread_count > position ==> anchor_position(position, true, unread_count, sponsored)
            == sponsored,
        sponsored <= anchor_position(position, true, unread_count, sponsored) <= position
            + sponsored,
{
}

/// A history that is anchored at the newest message is filled with older
/// messages until the viewport can scroll or there are none left. Another one is
/// filled around its anchor. A load that another one was in the way of is tried
/// again, and one that failed is the last one.
pub proof fn law_history_is_filled(fill: HistoryFill, event: FillEvent)
    ensures
        event == FillEvent::Started(None) ==> fill.action_for(event) == FillAction::Finish(None),
        event == FillEvent::Started(Some(true)) ==> fill.action_for(event) == FillAction::Check,
        event == FillEvent::Started(Some(false)) ==> fill.action_for(event)
            == FillAction::LoadAroundAnchor,
        event == (FillEvent::Checked { is_at_start: true }) ==> fill.action_for(event)
            == FillAction::LoadOlder(fill.limit),
        event == (FillEvent::Checked { is_at_start: false }) ==> fill.action_for(event)
            == FillAction::Finish(Some(true)),
        event == FillEvent::Waited ==> fill.action_for(event) == FillAction::Check,
        event == FillEvent::AnchorLoaded ==> fill.action_for(event) == FillAction::Finish(
            Some(false),
        ),
        event matches FillEvent::Loaded(result) ==> match result {
            Ok(is_more) => fill.action_for(event) == if is_more {
                FillAction::Check
            } else {
                FillAction::Finish(Some(true))
            },
            Err(ChatHistoryError::AlreadyLoading) => fill.action_for(event) == FillAction::Wait(
                RETRY_DELAY_MS,
            ),
            Err(_) => fill.action_for(event) == FillAction::Finish(Some(true)),
        },
{
}

/// Each request that brought messages is followed by one for half as many, but
/// for two at least. Nothing else changes the number.
pub proof fn law_next_request_is_half(fill: HistoryFill, event: FillEvent)
    requires
        fill.limit >= 0,
    ensures
        event == FillEvent::Loaded(Ok(true)) ==> fill.after(event).limit == if fill.limit >= 6 {
            fill.limit as int / 2
        } else {
            2
        },
        event != FillEvent::Loaded(Ok(true)) ==> fill.after(event) == fill,
{
}

} // verus!
