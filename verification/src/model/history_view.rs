//! What the operations of a chat history do, as functions on its state.

use vstd::prelude::*;

use crate::model::chat_history_item::{ChatHistoryItem, HistoryMessage};
use crate::model::media_album::{
    has_message, is_ascending, older_count, with_message, without_message,
};
use crate::types::{CalendarDay, MessageId};

verus! {

/// The number of items the list is trimmed down to.
pub const TRIM_TO_ITEMS: usize = 300;

/// The number of items at which the list is trimmed.
pub const TRIM_AT_ITEMS: usize = 500;

/// A change of a chat history that its observers are told about.
#[verifier::ext_equal]
pub enum HistoryChange {
    /// `removed` items of the list at `position` made way for `items`.
    Items { position: int, removed: int, items: Seq<ChatHistoryItem> },
    /// `removed` messages of an album at `position` made way for `messages`.
    Album { album_id: i64, position: int, removed: int, messages: Seq<HistoryMessage> },
    /// The message started or stopped to represent an album.
    Representative { message_id: MessageId, represents: Option<i64> },
}

/// The state of a chat history.
#[verifier::ext_equal]
pub struct HistoryView {
    /// The loaded items, from the newest to the oldest.
    pub list: Seq<ChatHistoryItem>,
    /// The messages of the albums that the list shows, by album id.
    pub albums: Map<i64, Seq<HistoryMessage>>,
    /// The changes that the observers were not told about yet.
    pub changes: Seq<HistoryChange>,
    /// The messages that arrived while newer messages were not loaded.
    pub pending: Seq<HistoryMessage>,
    pub anchor: MessageId,
    pub is_unread_anchor: bool,
    pub at_newest: bool,
    pub is_loading_older: bool,
    pub is_loading_newer: bool,
}

/// The outcome of integrating a message into its media album.
#[derive(Clone, Copy, Debug, PartialEq, Eq, Structural)]
pub enum AlbumHandling {
    /// The message must be inserted into the list as a normal row.
    Row,
    /// The message was merged into its album, which is already displayed by
    /// the row of its representative. Nothing must be inserted.
    Merged,
    /// The message was merged into its album and the row of `replaced` must
    /// be replaced with one on behalf of `representative`.
    Promoted { replaced: HistoryMessage, representative: HistoryMessage },
}

/// Where a message lies, seen from an item of the list.
#[derive(Clone, Copy, Debug, PartialEq, Eq, Structural)]
pub enum Direction {
    /// Towards the front of the list, where the newer items are.
    Newer,
    /// The item shows the message.
    Here,
    /// Towards the back of the list, where the older items are.
    Older,
}

// Rows and day dividers

/// The items that show the given messages.
pub open spec fn rows_of(messages: Seq<HistoryMessage>) -> Seq<ChatHistoryItem> {
    messages.map_values(|message: HistoryMessage| ChatHistoryItem::Message(message))
}

/// The messages shown by `count` items of the list at `position`.
pub open spec fn messages_at(list: Seq<ChatHistoryItem>, position: int, count: int) -> Seq<
    HistoryMessage,
> {
    Seq::new(count as nat, |i: int| list[position + i]->Message_0)
}

/// The day of the message shown at the given position, if there is one.
pub open spec fn day_at(list: Seq<ChatHistoryItem>, position: int) -> Option<CalendarDay> {
    if 0 <= position < list.len() {
        match list[position] {
            ChatHistoryItem::Message(message) => Some(message.timestamp.day),
            ChatHistoryItem::DayDivider(_) => None,
        }
    } else {
        None
    }
}

/// Whether a day divider is found at the given position.
pub open spec fn is_divider(list: Seq<ChatHistoryItem>, position: int) -> bool {
    0 <= position < list.len() && list[position] is DayDivider
}

/// Whether the divider of the day of the message is found at the given
/// position.
pub open spec fn divides_day_of(
    list: Seq<ChatHistoryItem>,
    position: int,
    message: HistoryMessage,
) -> bool {
    is_divider(list, position) && list[position]->DayDivider_0.day == message.timestamp.day
}

/// The rows of the given messages, each followed by a divider for its day
/// unless the next older message is of the same day. `below` is the day of
/// the message after the last row.
pub open spec fn with_dividers(
    messages: Seq<HistoryMessage>,
    below: Option<CalendarDay>,
) -> Seq<ChatHistoryItem>
    decreases messages.len(),
{
    if messages.len() == 0 {
        Seq::empty()
    } else {
        let last = messages.last();
        let newer = with_dividers(messages.drop_last(), Some(last.timestamp.day));
        if below == Some(last.timestamp.day) {
            newer.push(ChatHistoryItem::Message(last))
        } else {
            newer.push(ChatHistoryItem::Message(last)).push(
                ChatHistoryItem::DayDivider(last.timestamp),
            )
        }
    }
}

/// The list after `removed` of its items at `position` made way for `added`.
pub open spec fn spliced(
    list: Seq<ChatHistoryItem>,
    position: int,
    removed: int,
    added: Seq<ChatHistoryItem>,
) -> Seq<ChatHistoryItem> {
    list.take(position) + added + list.skip(position + removed)
}

/// The list that an observer ends up with who holds `list` and applies the
/// changes of the items in order.
pub open spec fn replayed(list: Seq<ChatHistoryItem>, changes: Seq<HistoryChange>) -> Seq<
    ChatHistoryItem,
>
    decreases changes.len(),
{
    if changes.len() == 0 {
        list
    } else {
        let before = replayed(list, changes.drop_last());
        match changes.last() {
            HistoryChange::Items { position, removed, items } => spliced(
                before,
                position,
                removed,
                items,
            ),
            _ => before,
        }
    }
}

// Positions

/// Where the message lies, seen from the item.
pub open spec fn direction_of(item: ChatHistoryItem, message: HistoryMessage) -> Direction {
    match item {
        ChatHistoryItem::Message(other) => if message.id > other.id {
            Direction::Newer
        } else if message.id == other.id {
            Direction::Here
        } else {
            Direction::Older
        },
        ChatHistoryItem::DayDivider(timestamp) => if message.timestamp.unix >= timestamp.unix {
            Direction::Newer
        } else {
            Direction::Older
        },
    }
}

/// The position of the row of the message among the items from `low` up to
/// `high`, as a binary search finds it.
pub open spec fn search(
    list: Seq<ChatHistoryItem>,
    message: HistoryMessage,
    low: int,
    high: int,
) -> Option<int>
    decreases high - low,
{
    if low >= high {
        None
    } else {
        let mid = low + (high - low) / 2;
        match direction_of(list[mid], message) {
            Direction::Here => Some(mid),
            Direction::Newer => search(list, message, low, mid),
            Direction::Older => search(list, message, mid + 1, high),
        }
    }
}

/// The position of the row of the message, if a binary search finds it.
pub open spec fn row_position(list: Seq<ChatHistoryItem>, message: HistoryMessage) -> Option<int> {
    search(list, message, 0, list.len() as int)
}

/// Whether the item stays in front of a new row for the message.
pub open spec fn goes_before(item: ChatHistoryItem, message: HistoryMessage) -> bool {
    match item {
        ChatHistoryItem::Message(other) => other.id > message.id,
        // The day dividers come after the messages of their day, so a divider
        // only stays in front of messages of older days.
        ChatHistoryItem::DayDivider(timestamp) => message.timestamp.day.precedes(timestamp.day),
    }
}

/// The first position from `low` up to `high` whose item does not go before
/// the message, as a binary search finds it.
pub open spec fn partition(
    list: Seq<ChatHistoryItem>,
    message: HistoryMessage,
    low: int,
    high: int,
) -> int
    decreases high - low,
{
    if low >= high {
        low
    } else {
        let mid = low + (high - low) / 2;
        if goes_before(list[mid], message) {
            partition(list, message, mid + 1, high)
        } else {
            partition(list, message, low, mid)
        }
    }
}

/// The position at which a row for the message must be inserted.
pub open spec fn insert_position(list: Seq<ChatHistoryItem>, message: HistoryMessage) -> int {
    partition(list, message, 0, list.len() as int)
}

/// Whether the message has a row in the list.
pub open spec fn has_row(list: Seq<ChatHistoryItem>, id: MessageId) -> bool {
    exists|i: int|
        0 <= i < list.len() && #[trigger] list[i] is Message && list[i]->Message_0.id == id
}

/// The number of day dividers at the front of the list.
pub open spec fn leading_dividers(list: Seq<ChatHistoryItem>) -> nat
    decreases list.len(),
{
    if list.len() > 0 && list[0] is DayDivider {
        1 + leading_dividers(list.skip(1))
    } else {
        0
    }
}

/// The id of the oldest message of the list, if it shows one.
pub open spec fn oldest_row(list: Seq<ChatHistoryItem>) -> Option<MessageId>
    decreases list.len(),
{
    if list.len() == 0 {
        None
    } else {
        match list.last() {
            ChatHistoryItem::Message(message) => Some(message.id),
            ChatHistoryItem::DayDivider(_) => oldest_row(list.drop_last()),
        }
    }
}

/// The messages that are older than the given id, which are all of them if
/// the id is 0.
pub open spec fn older_than(messages: Seq<HistoryMessage>, id: MessageId) -> Seq<HistoryMessage> {
    messages.filter(|message: HistoryMessage| id == 0 || message.id < id)
}

/// The messages that are newer than the given id.
pub open spec fn newer_than(messages: Seq<HistoryMessage>, id: MessageId) -> Seq<HistoryMessage> {
    messages.filter(|message: HistoryMessage| message.id > id)
}

/// The messages without those of the given id.
pub open spec fn other_than(messages: Seq<HistoryMessage>, id: MessageId) -> Seq<HistoryMessage> {
    messages.filter(|message: HistoryMessage| message.id != id)
}

/// The messages after the content of one of them changed.
pub open spec fn with_content(
    messages: Seq<HistoryMessage>,
    id: MessageId,
    is_groupable: bool,
) -> Seq<HistoryMessage> {
    messages.map_values(
        |message: HistoryMessage|
            if message.id == id {
                HistoryMessage { is_groupable, ..message }
            } else {
                message
            },
    )
}

/// What became of a number of messages that were integrated into their
/// albums one after the other.
pub struct Integration {
    /// The state with the messages in their albums.
    pub view: HistoryView,
    /// The messages that need a row of their own, in the order of arrival.
    pub rows: Seq<HistoryMessage>,
    /// The rows to be replaced and the representatives that replace them.
    pub swaps: Seq<(HistoryMessage, HistoryMessage)>,
}

impl HistoryView {
    /// Every album has at least one message, and its messages are sorted by
    /// id and carry the id of the album.
    pub open spec fn wf(self) -> bool {
        forall|album_id: i64| #[trigger]
            self.albums.contains_key(album_id) ==> {
                &&& album_id != 0
                &&& self.albums[album_id].len() > 0
                &&& is_ascending(self.albums[album_id])
                &&& forall|i: int|
                    0 <= i < self.albums[album_id].len() ==> (
                    #[trigger] self.albums[album_id][i]).media_album_id == album_id
            }
    }

    /// The state of a history that nothing was loaded of yet.
    pub open spec fn anchored(
        anchor: MessageId,
        is_unread_anchor: bool,
        at_newest: bool,
    ) -> HistoryView {
        HistoryView {
            list: Seq::empty(),
            albums: Map::empty(),
            changes: Seq::empty(),
            pending: Seq::empty(),
            anchor,
            is_unread_anchor,
            at_newest,
            is_loading_older: false,
            is_loading_newer: false,
        }
    }

    /// The state with one more change to tell the observers about.
    pub open spec fn changed(self, change: HistoryChange) -> HistoryView {
        HistoryView { changes: self.changes.push(change), ..self }
    }

    /// The state after `removed` items of the list at `position` made way for
    /// `added`.
    pub open spec fn splice(
        self,
        position: int,
        removed: int,
        added: Seq<ChatHistoryItem>,
    ) -> HistoryView {
        HistoryView { list: spliced(self.list, position, removed, added), ..self }.changed(
            HistoryChange::Items { position, removed, items: added },
        )
    }

    /// The state once the day dividers are in order after `removed` rows left
    /// the list at `position` and `added` rows joined it there.
    pub open spec fn settle(self, position: int, removed: int, added: int) -> HistoryView {
        let messages = messages_at(self.list, position, added);
        let segment = with_dividers(messages, day_at(self.list, position + added));
        let divided = spliced(self.list, position, added, segment);
        let next = position + segment.len();
        let is_superseded = added > 0 && divides_day_of(divided, next, messages.last());
        let closed = if is_superseded {
            divided.remove(next)
        } else {
            divided
        };
        let is_orphaned = removed > 0 && is_divider(closed, position) && (position == 0
            || is_divider(closed, position - 1));
        let tidied = if is_orphaned {
            closed.remove(position)
        } else {
            closed
        };
        let is_stale = added > 0 && divides_day_of(tidied, position - 1, messages[0]);
        HistoryView {
            list: if is_stale {
                tidied.remove(position - 1)
            } else {
                tidied
            },
            ..self
        }.changed(
            HistoryChange::Items {
                position: if is_stale {
                    position - 1
                } else {
                    position
                },
                removed: removed + (if is_superseded {
                    1int
                } else {
                    0
                }) + (if is_orphaned {
                    1int
                } else {
                    0
                }) + (if is_stale {
                    1int
                } else {
                    0
                }),
                items: segment,
            },
        )
    }

    /// The state after rows for the given messages were put at `position`,
    /// together with the dividers they need.
    ///
    /// A divider in front of the rows that belongs to the day of the first of
    /// them is not needed there anymore and leaves. A divider behind the rows
    /// that belongs to the day of the last of them makes way for the divider
    /// of that row, so that every day has one divider.
    pub open spec fn add_rows(self, position: int, messages: Seq<HistoryMessage>) -> HistoryView {
        let added = with_dividers(messages, day_at(self.list, position));
        let stale: int = if divides_day_of(self.list, position - 1, messages[0]) {
            1
        } else {
            0
        };
        let superseded: int = if divides_day_of(self.list, position, messages.last()) {
            1
        } else {
            0
        };
        if messages.len() == 0 {
            self
        } else {
            self.splice(position - stale, stale + superseded, added)
        }
    }

    /// The state after the row at `position` was removed.
    ///
    /// If it was the last row of its day, the divider of the day leaves too.
    pub open spec fn remove_row(self, position: int) -> HistoryView {
        let is_orphaned = is_divider(self.list, position + 1) && (position == 0 || is_divider(
            self.list,
            position - 1,
        ));
        self.splice(
            position,
            if is_orphaned {
                2
            } else {
                1
            },
            Seq::empty(),
        )
    }

    /// The state after the row of the message was removed, if there is one.
    pub open spec fn remove(self, message: HistoryMessage) -> HistoryView {
        match row_position(self.list, message) {
            Some(position) => self.remove_row(position),
            None => self,
        }
    }

    /// The state after a row for the message was put where it belongs.
    pub open spec fn insert_row(self, message: HistoryMessage) -> HistoryView {
        self.add_rows(insert_position(self.list, message), seq![message])
    }

    /// The state after the row of `replaced` was replaced with one on behalf
    /// of `representative`.
    pub open spec fn swap_representative(
        self,
        replaced: HistoryMessage,
        representative: HistoryMessage,
    ) -> HistoryView {
        self.remove(replaced).insert_row(representative)
    }

    /// The state after the given rows were replaced, one after the other.
    pub open spec fn swap_all(self, swaps: Seq<(HistoryMessage, HistoryMessage)>) -> HistoryView
        decreases swaps.len(),
    {
        if swaps.len() == 0 {
            self
        } else {
            self.swap_all(swaps.drop_last()).swap_representative(swaps.last().0, swaps.last().1)
        }
    }

    /// What has to be done to show the message.
    pub open spec fn album_handling(self, message: HistoryMessage) -> AlbumHandling {
        let album_id = message.media_album_id;
        if album_id == 0 || !message.is_groupable || !self.albums.contains_key(album_id) {
            AlbumHandling::Row
        } else {
            let album = self.albums[album_id];
            if message.id < album[0].id {
                AlbumHandling::Promoted { replaced: album[0], representative: message }
            } else if !has_message(album, message.id) && album.len() == 1 {
                // The row of the only member so far has to be shown as an
                // album.
                AlbumHandling::Promoted { replaced: album[0], representative: album[0] }
            } else {
                AlbumHandling::Merged
            }
        }
    }

    /// The state after the message joined its album, if it belongs to one.
    pub open spec fn join_album(self, message: HistoryMessage) -> HistoryView {
        let album_id = message.media_album_id;
        if album_id == 0 || !message.is_groupable {
            self
        } else {
            let is_known = self.albums.contains_key(album_id);
            let album = if is_known {
                self.albums[album_id]
            } else {
                Seq::empty()
            };
            let joined = HistoryView {
                albums: self.albums.insert(album_id, with_message(album, message)),
                ..self
            };
            let announced = if has_message(album, message.id) {
                joined
            } else {
                joined.changed(
                    HistoryChange::Album {
                        album_id,
                        position: older_count(album, message.id) as int,
                        removed: 0,
                        messages: seq![message],
                    },
                )
            };
            if !is_known {
                announced.changed(
                    HistoryChange::Representative {
                        message_id: message.id,
                        represents: Some(album_id),
                    },
                )
            } else if message.id < album[0].id {
                announced.changed(
                    HistoryChange::Representative { message_id: album[0].id, represents: None },
                ).changed(
                    HistoryChange::Representative {
                        message_id: message.id,
                        represents: Some(album_id),
                    },
                )
            } else {
                announced
            }
        }
    }

    /// What became of the messages that were integrated in the given order.
    pub open spec fn integrate(self, messages: Seq<HistoryMessage>) -> Integration
        decreases messages.len(),
    {
        if messages.len() == 0 {
            Integration { view: self, rows: Seq::empty(), swaps: Seq::empty() }
        } else {
            let before = self.integrate(messages.drop_last());
            let message = messages.last();
            let view = before.view.join_album(message);
            match before.view.album_handling(message) {
                AlbumHandling::Row => Integration { view, rows: before.rows.push(message), ..before
                },
                AlbumHandling::Merged => Integration { view, ..before },
                AlbumHandling::Promoted { replaced, representative } => Integration {
                    view,
                    swaps: before.swaps.push((replaced, representative)),
                    ..before
                },
            }
        }
    }

    /// The state after the messages, from the newest to the oldest, were
    /// added to the back of the list.
    pub open spec fn append(self, messages: Seq<HistoryMessage>) -> HistoryView {
        let integration = self.integrate(messages);
        integration.view.add_rows(self.list.len() as int, integration.rows).swap_all(
            integration.swaps,
        )
    }

    /// The state after the messages, from the newest to the oldest, were
    /// added to the front of the list.
    pub open spec fn prepend(self, messages: Seq<HistoryMessage>) -> HistoryView {
        let integration = self.integrate(messages.reverse());
        integration.view.add_rows(0, integration.rows.reverse()).swap_all(integration.swaps)
    }

    /// The state after the message was put at the front of the list.
    pub open spec fn push_front(self, message: HistoryMessage) -> HistoryView {
        let joined = self.join_album(message);
        match self.album_handling(message) {
            AlbumHandling::Row => joined.add_rows(0, seq![message]),
            AlbumHandling::Merged => joined,
            AlbumHandling::Promoted {
                replaced,
                representative,
            } => joined.swap_representative(replaced, representative),
        }
    }

    /// The state after the messages were put at the front of the list, one
    /// after the other.
    pub open spec fn push_all_front(self, messages: Seq<HistoryMessage>) -> HistoryView
        decreases messages.len(),
    {
        if messages.len() == 0 {
            self
        } else {
            self.push_all_front(messages.drop_last()).push_front(messages.last())
        }
    }

    /// The state after the message was put where it belongs.
    pub open spec fn insert(self, message: HistoryMessage) -> HistoryView {
        let joined = self.join_album(message);
        match self.album_handling(message) {
            AlbumHandling::Row => joined.insert_row(message),
            AlbumHandling::Merged => joined,
            AlbumHandling::Promoted {
                replaced,
                representative,
            } => joined.swap_representative(replaced, representative),
        }
    }

    /// The state after the pending messages were added, the newest one ending
    /// up at the front.
    pub open spec fn flush_pending(self) -> HistoryView {
        HistoryView { pending: Seq::empty(), ..self }.push_all_front(self.pending)
    }

    /// The state once it is known that no newer messages are to be loaded.
    pub open spec fn reach_newest(self) -> HistoryView {
        HistoryView { at_newest: true, ..self }.flush_pending()
    }

    /// The state after the item was trimmed, as far as its album is concerned.
    ///
    /// An album that is not shown anymore is forgotten. It is created again
    /// when its messages are loaded again.
    pub open spec fn forget_album_of(self, item: ChatHistoryItem) -> HistoryView {
        let message = item->Message_0;
        if item is Message && self.represented(message) is Some {
            HistoryView { albums: self.albums.remove(message.media_album_id), ..self }
        } else {
            self
        }
    }

    /// The state after the items were trimmed one after the other, as far as
    /// their albums are concerned.
    pub open spec fn forget_albums_of(self, items: Seq<ChatHistoryItem>) -> HistoryView
        decreases items.len(),
    {
        if items.len() == 0 {
            self
        } else {
            self.forget_albums_of(items.drop_last()).forget_album_of(items.last())
        }
    }

    /// The state after the newest items were trimmed, if there are too many.
    pub open spec fn trim_front(self) -> HistoryView {
        if self.list.len() <= TRIM_AT_ITEMS {
            self
        } else {
            let trimmed = self.list.len() - TRIM_TO_ITEMS;
            let orphaned = leading_dividers(self.list.skip(trimmed));
            HistoryView {
                at_newest: false,
                ..self.forget_albums_of(self.list.take(trimmed))
            }.splice(0, trimmed + orphaned, Seq::empty())
        }
    }

    /// The state after the oldest items were trimmed, if there are too many.
    pub open spec fn trim_back(self) -> HistoryView {
        if self.list.len() <= TRIM_AT_ITEMS {
            self
        } else {
            let trimmed = self.list.len() - TRIM_TO_ITEMS;
            self.forget_albums_of(self.list.skip(TRIM_TO_ITEMS as int).reverse()).splice(
                TRIM_TO_ITEMS as int,
                trimmed,
                Seq::empty(),
            )
        }
    }

    /// The state after a message arrived.
    pub open spec fn receive(self, message: HistoryMessage) -> HistoryView {
        if self.at_newest {
            self.push_front(message)
        } else {
            HistoryView { pending: self.pending.push(message), ..self }
        }
    }

    /// The state after the message was taken out of the album of the given
    /// id.
    pub open spec fn leave_album(self, album_id: i64, message: HistoryMessage) -> HistoryView {
        let album = self.albums[album_id];
        let rest = without_message(album, message.id);
        let was_representative = album[0].id == message.id;
        let left = if has_message(album, message.id) {
            self.changed(
                HistoryChange::Album {
                    album_id,
                    position: older_count(album, message.id) as int,
                    removed: 1,
                    messages: Seq::empty(),
                },
            )
        } else {
            self
        };
        if rest.len() >= 2 {
            let kept = HistoryView { albums: self.albums.insert(album_id, rest), ..left };
            if was_representative {
                // The next-oldest message takes the place of the deleted one.
                kept.changed(
                    HistoryChange::Representative {
                        message_id: rest[0].id,
                        represents: Some(album_id),
                    },
                ).remove(message).insert_row(rest[0])
            } else {
                kept
            }
        } else {
            let dissolved = HistoryView { albums: self.albums.remove(album_id), ..left };
            if rest.len() == 0 {
                dissolved.remove(message)
            } else {
                // The remaining message is shown as a normal row.
                let row = dissolved.changed(
                    HistoryChange::Representative { message_id: rest[0].id, represents: None },
                );
                if was_representative {
                    row.remove(message).insert_row(rest[0])
                } else {
                    row.remove(rest[0]).insert_row(rest[0])
                }
            }
        }
    }

    /// The state after the message was deleted.
    pub open spec fn delete(self, message: HistoryMessage) -> HistoryView {
        let kept = HistoryView { pending: other_than(self.pending, message.id), ..self };
        if message.media_album_id != 0 && self.albums.contains_key(message.media_album_id) {
            kept.leave_album(message.media_album_id, message)
        } else {
            kept.remove(message)
        }
    }

    /// The state after the request for the messages older than `from` was
    /// answered.
    pub open spec fn load_older(self, from: MessageId, answer: Seq<HistoryMessage>) -> HistoryView {
        let idle = HistoryView { is_loading_older: false, ..self };
        let messages = older_than(answer, from);
        if messages.len() == 0 {
            idle
        } else {
            idle.append(messages).trim_front()
        }
    }

    /// The state after the request for the messages newer than `from` was
    /// answered.
    pub open spec fn load_newer(self, from: MessageId, answer: Seq<HistoryMessage>) -> HistoryView {
        let idle = HistoryView { is_loading_newer: false, ..self };
        let messages = newer_than(answer, from);
        if messages.len() == 0 {
            idle.reach_newest()
        } else {
            idle.prepend(messages).trim_back()
        }
    }

    /// The state after the request for the messages around the anchor was
    /// answered, before the anchor itself is looked at.
    pub open spec fn load_around(self, answer: Seq<HistoryMessage>) -> HistoryView {
        HistoryView { is_loading_older: false, ..self }.append(answer)
    }

    /// The position of the row that shows the message, be it on its own or as
    /// a member of an album.
    pub open spec fn shown_at(self, message: HistoryMessage) -> Option<int> {
        let album_id = message.media_album_id;
        match row_position(self.list, message) {
            Some(position) => Some(position),
            None => if album_id == 0 || !self.albums.contains_key(album_id) || !has_message(
                self.albums[album_id],
                message.id,
            ) || self.albums[album_id][0].id == message.id {
                None
            } else {
                row_position(self.list, self.albums[album_id][0])
            },
        }
    }

    /// The id of the message that older messages are loaded from.
    pub open spec fn oldest_id(self) -> MessageId {
        match oldest_row(self.list) {
            Some(id) => id,
            None => self.anchor,
        }
    }

    /// The id of the message that newer messages are loaded from.
    ///
    /// The row of an album shows its oldest message, so the newest message of
    /// the album counts.
    pub open spec fn newest_id(self) -> MessageId {
        if self.list.len() > 0 && self.list[0] is Message {
            let message = self.list[0]->Message_0;
            match self.represented(message) {
                Some(album) => if album.len() > 0 {
                    album.last().id
                } else {
                    message.id
                },
                None => message.id,
            }
        } else {
            self.anchor
        }
    }

    /// The messages of the album that the message represents, if it does.
    pub open spec fn represented(self, message: HistoryMessage) -> Option<Seq<HistoryMessage>> {
        let album_id = message.media_album_id;
        if self.albums.contains_key(album_id) && self.albums[album_id].len() > 0
            && self.albums[album_id][0].id == message.id {
            Some(self.albums[album_id])
        } else {
            None
        }
    }
}

/// Forgetting albums changes nothing else.
pub proof fn lemma_forgetting_keeps_rest(view: HistoryView, items: Seq<ChatHistoryItem>)
    ensures
        view.forget_albums_of(items) == (HistoryView {
            albums: view.forget_albums_of(items).albums,
            ..view
        }),
    decreases items.len(),
{
    if items.len() > 0 {
        lemma_forgetting_keeps_rest(view, items.drop_last());
    }
}

} // verus!
