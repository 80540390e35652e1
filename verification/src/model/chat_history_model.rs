//! The messages of a chat that are loaded and how they are laid out in rows.

use std::collections::{HashMap, VecDeque};

use vstd::prelude::*;

use crate::model::chat_history_item::{ChatHistoryItem, HistoryMessage};
use crate::model::history_albums::{
    lemma_joining_keeps_representatives, oldest_represent_albums, shows,
};
use crate::model::history_chronology::{is_history_of, law_swapped_representative_keeps_layout};
use crate::model::history_replay::{
    before_joining, before_leaving, is_one_change, lemma_settle_added, lemma_settle_is_one_change,
    lemma_settle_removed,
};
use crate::model::history_view::{
    day_at, direction_of, divides_day_of, goes_before, insert_position, is_divider, leading_dividers,
    lemma_forgetting_keeps_rest, messages_at, newer_than, older_than, oldest_row, other_than,
    partition, row_position, rows_of, search, spliced, with_content, with_dividers,
    AlbumHandling, Direction, HistoryChange, HistoryView, TRIM_AT_ITEMS, TRIM_TO_ITEMS,
};
use crate::model::media_album::{
    has_message, is_ascending, lemma_older_count, lemma_with_message, lemma_without_message,
    older_count, with_message, without_message, MediaAlbum,
};
use crate::types::{CalendarDay, MessageId, TdlibError};

verus! {

/// The maximum number of newer messages TDLib can return in a single
/// `getChatHistory` request through a negative offset.
pub const MAX_NEWER_MESSAGES: i32 = 99;

/// The number of newer messages requested when loading a window of messages
/// around the anchor. The rest of the request limit is filled with older
/// messages, so that the window is balanced.
pub const AROUND_NEWER_MESSAGES: i32 = 50;

#[derive(Debug, PartialEq, Eq)]
pub enum ChatHistoryError {
    /// The chat history is already loading messages.
    AlreadyLoading,
    Tdlib(TdlibError),
}

/// A `getChatHistory` request to be sent to TDLib.
#[derive(Clone, Copy, Debug, PartialEq, Eq, Structural)]
pub struct HistoryRequest {
    pub from_message_id: MessageId,
    pub offset: i32,
    pub limit: i32,
}

/// What is left to do after the messages around the anchor were loaded.
#[derive(Clone, Copy, Debug, PartialEq, Eq, Structural)]
pub enum AnchorStep {
    Done,
    /// The message of the anchor itself must be fetched and handed to
    /// `anchor_fetched` together with `reached_newest`.
    FetchAnchor { message_id: MessageId, reached_newest: bool },
}

/// A change of a chat history that its observers must be told about.
#[derive(Debug)]
pub enum HistoryEvent {
    /// `removed` items at `position` made way for `items`.
    ItemsChanged { position: usize, removed: usize, items: Vec<ChatHistoryItem> },
    /// `removed` messages of an album at `position` made way for
    /// `messages`.
    AlbumChanged { album_id: i64, position: usize, removed: usize, messages: Vec<HistoryMessage> },
    /// The message started or stopped to represent an album.
    RepresentativeChanged { message_id: MessageId, represents: Option<i64> },
}

impl View for HistoryEvent {
    type V = HistoryChange;

    open spec fn view(&self) -> HistoryChange {
        match *self {
            HistoryEvent::ItemsChanged { position, removed, items } => HistoryChange::Items {
                position: position as int,
                removed: removed as int,
                items: items@,
            },
            HistoryEvent::AlbumChanged { album_id, position, removed, messages } => {
                HistoryChange::Album {
                    album_id,
                    position: position as int,
                    removed: removed as int,
                    messages: messages@,
                }
            },
            HistoryEvent::RepresentativeChanged { message_id, represents } => {
                HistoryChange::Representative { message_id, represents }
            },
        }
    }
}

/// The history of a chat, as far as it is loaded.
///
/// The rows are ordered from the newest to the oldest. The messages of a day
/// are followed by the divider of the day.
#[derive(Debug)]
pub struct ChatHistoryModel {
    is_loading_older: bool,
    is_loading_newer: bool,
    /// The message id from which the initial messages are loaded.
    anchor: MessageId,
    /// Whether this history is anchored at the last read message of a chat
    /// with unread messages.
    is_unread_anchor: bool,
    /// Whether all the messages newer than the loaded ones are already in the
    /// list.
    at_newest: bool,
    list: VecDeque<ChatHistoryItem>,
    /// Messages that arrived while `at_newest` was false. They are added to
    /// the list once the messages newer than the loaded ones are loaded.
    pending_new_messages: VecDeque<HistoryMessage>,
    /// The media albums that are currently displayed in the list, keyed by
    /// their id.
    ///
    /// The album is displayed by the row of its *representative*, which is
    /// always its oldest message. The other members of the album are not part
    /// of the list; they are owned by the album itself.
    albums: HashMap<i64, MediaAlbum>,
    /// The changes that the observers were not told about yet.
    events: Vec<HistoryEvent>,
}

impl View for ChatHistoryModel {
    type V = HistoryView;

    closed spec fn view(&self) -> HistoryView {
        HistoryView {
            list: self.list@,
            albums: self.albums@.map_values(|album: MediaAlbum| album@),
            changes: self.events@.map_values(|event: HistoryEvent| event@),
            pending: self.pending_new_messages@,
            anchor: self.anchor,
            is_unread_anchor: self.is_unread_anchor,
            at_newest: self.at_newest,
            is_loading_older: self.is_loading_older,
            is_loading_newer: self.is_loading_newer,
        }
    }
}

impl ChatHistoryModel {
    /// The albums are filed under their own ids.
    pub closed spec fn albums_are_filed(self) -> bool {
        forall|album_id: i64| #[trigger]
            self.albums@.contains_key(album_id) ==> self.albums@[album_id].album_id() == album_id
    }

    pub open spec fn wf(self) -> bool {
        self@.wf() && self.albums_are_filed()
    }

    fn push_event(&mut self, event: HistoryEvent)
        ensures
            final(self)@ == old(self)@.changed(event@),
            final(self).albums_are_filed() == old(self).albums_are_filed(),
    {
        self.events.push(event);
        assert(self.events@.map_values(|event: HistoryEvent| event@) =~= old(
            self,
        ).events@.map_values(|event: HistoryEvent| event@).push(event@));
    }

    /// Inserts the day dividers that the rows at `position` need and returns
    /// the items that joined the list.
    fn insert_dividers(&mut self, position: usize, added: usize) -> (items: Vec<ChatHistoryItem>)
        requires
            position + added <= old(self)@.list.len(),
            forall|i: int|
                position <= i < position + added ==> (#[trigger] old(self)@.list[i]) is Message,
        ensures
            items@ == with_dividers(
                messages_at(old(self)@.list, position as int, added as int),
                day_at(old(self)@.list, position + added),
            ),
            final(self)@ == (HistoryView {
                list: spliced(old(self)@.list, position as int, added as int, items@),
                ..old(self)@
            }),
            final(self).albums_are_filed() == old(self).albums_are_filed(),
    {
        let ghost before = self.list@;
        let ghost messages = messages_at(before, position as int, added as int);
        let ghost segment = with_dividers(messages, day_at(before, position + added));
        let ghost mut done: Seq<ChatHistoryItem> = Seq::empty();

        assert(self.list.len() == self.list@.len());
        let mut next_day: Option<CalendarDay> = if position + added < self.list.len() {
            match self.list[position + added] {
                ChatHistoryItem::Message(message) => Some(message.timestamp.day),
                ChatHistoryItem::DayDivider(_) => None,
            }
        } else {
            None
        };
        let mut index: usize = added;
        let mut dividers: usize = 0;
        assert(messages.take(added as int) =~= messages);
        assert(self.list@ =~= before.take(position + index) + done + before.skip(position + added));
        while index > 0
            invariant
                index <= added,
                position + added <= before.len(),
                messages == messages_at(before, position as int, added as int),
                segment == with_dividers(messages.take(index as int), next_day) + done,
                self.list@ == before.take(position + index) + done + before.skip(position + added),
                done.len() == added - index + dividers,
                *self == (ChatHistoryModel { list: self.list, ..*old(self) }),
                forall|i: int|
                    position <= i < position + added ==> (#[trigger] before[i]) is Message,
            decreases index,
        {
            assert(self.list.len() == self.list@.len());
            let ghost head = messages.take(index as int);
            index = index - 1;
            let item = self.list[position + index];
            assert(item == before[position + index]);
            assert(head.last() == messages[index as int]);
            assert(head.drop_last() =~= messages.take(index as int));
            if let ChatHistoryItem::Message(message) = item {
                let ghost row = ChatHistoryItem::Message(message);
                let ghost newer = with_dividers(head.drop_last(), Some(message.timestamp.day));
                let is_same_day = match next_day {
                    Some(day) => day == message.timestamp.day,
                    None => false,
                };
                if !is_same_day {
                    let divider = ChatHistoryItem::for_day_divider(message.timestamp);
                    self.list.insert(position + index + 1, divider);
                    dividers = dividers + 1;
                    proof {
                        assert(newer.push(row).push(divider) + done =~= newer + (seq![
                            row,
                            divider,
                        ] + done));
                        done = seq![row, divider] + done;
                    }
                } else {
                    proof {
                        assert(newer.push(row) + done =~= newer + (seq![row] + done));
                        done = seq![row] + done;
                    }
                }
                next_day = Some(message.timestamp.day);
            }
            assert(self.list@ =~= before.take(position + index) + done + before.skip(
                position + added,
            ));
        }
        assert(messages.take(0) =~= Seq::empty());
        assert(segment =~= done);
        assert(self.list@ =~= spliced(before, position as int, added as int, segment));
        assert(self.list.len() == self.list@.len());
        let added_len: usize = added + dividers;
        let mut items: Vec<ChatHistoryItem> = Vec::with_capacity(added_len);
        let mut i: usize = 0;
        while i < added_len
            invariant
                i <= added_len,
                added_len == segment.len(),
                self.list@ == spliced(before, position as int, added as int, segment),
                position + added <= before.len(),
                items@ == segment.take(i as int),
            decreases added_len - i,
        {
            assert(self.list.len() == self.list@.len());
            assert(self.list@[position + i] == segment[i as int]);
            items.push(self.list[position + i]);
            i = i + 1;
            assert(items@ =~= segment.take(i as int));
        }
        assert(items@ =~= segment);
        items
    }

    /// The day of the message shown at the given position, if there is one.
    fn day_at(&self, position: usize) -> (day: Option<CalendarDay>)
        ensures
            day == day_at(self@.list, position as int),
    {
        if position >= self.list.len() {
            return None;
        }
        match self.list[position] {
            ChatHistoryItem::Message(message) => Some(message.timestamp.day),
            ChatHistoryItem::DayDivider(_) => None,
        }
    }

    /// Whether a day divider is found at the given position.
    fn is_divider(&self, position: usize) -> (result: bool)
        ensures
            result == is_divider(self@.list, position as int),
    {
        position < self.list.len() && matches!(
            self.list[position],
            ChatHistoryItem::DayDivider(_)
        )
    }

    /// Removes the item at the given position, if it is the divider of the
    /// day, and returns whether it is.
    fn remove_divider_of(&mut self, position: usize, day: Option<CalendarDay>) -> (removed: bool)
        ensures
            removed == (is_divider(old(self)@.list, position as int) && day == Some(
                old(self)@.list[position as int]->DayDivider_0.day,
            )),
            final(self)@ == (HistoryView {
                list: if removed {
                    old(self)@.list.remove(position as int)
                } else {
                    old(self)@.list
                },
                ..old(self)@
            }),
            final(self).albums_are_filed() == old(self).albums_are_filed(),
    {
        if position >= self.list.len() {
            return false;
        }
        if let ChatHistoryItem::DayDivider(date) = self.list[position] {
            if let Some(day) = day {
                if date.day == day {
                    self.list.remove(position);
                    return true;
                }
            }
        }
        false
    }

    /// Removes the item at the given position, if it is a divider that no
    /// message is in front of, and returns whether it is.
    fn remove_orphaned_divider(&mut self, position: usize) -> (removed: bool)
        ensures
            removed == (is_divider(old(self)@.list, position as int) && (position == 0
                || is_divider(old(self)@.list, position - 1))),
            final(self)@ == (HistoryView {
                list: if removed {
                    old(self)@.list.remove(position as int)
                } else {
                    old(self)@.list
                },
                ..old(self)@
            }),
            final(self).albums_are_filed() == old(self).albums_are_filed(),
    {
        if self.is_divider(position) && (position == 0 || self.is_divider(position - 1)) {
            self.list.remove(position);
            return true;
        }
        false
    }

    /// Adds and removes day dividers around the rows that joined or left the
    /// list at `position` and tells the observers about all of it as a single
    /// change.
    fn items_changed(&mut self, position: usize, removed: usize, added: usize)
        requires
            position + added <= old(self)@.list.len(),
            removed + 3 <= usize::MAX,
            forall|i: int|
                position <= i < position + added ==> (#[trigger] old(self)@.list[i]) is Message,
        ensures
            final(self)@ == old(self)@.settle(position as int, removed as int, added as int),
            removed == 0 && added > 0 ==> is_one_change(
                before_joining(old(self)@, position as int, added as int),
                final(self)@,
            ),
            removed == 1 && added == 0 ==> forall|item: ChatHistoryItem|
                is_one_change(
                    #[trigger] before_leaving(old(self)@, position as int, item),
                    final(self)@,
                ),
            final(self).albums_are_filed() == old(self).albums_are_filed(),
    {
        let ghost before = self@;
        let ghost (at, given) = (position, removed);
        let ghost messages = messages_at(self.list@, position as int, added as int);
        assert(self.list.len() == self.list@.len());
        let (first_day, last_day) = if added > 0 {
            (self.day_at(position), self.day_at(position + added - 1))
        } else {
            (None, None)
        };
        proof {
            if added > 0 {
                assert(messages[0] == self.list@[position as int]->Message_0);
                assert(messages.last() == self.list@[position + added - 1]->Message_0);
            }
        }

        // Insert day dividers where needed.
        let items = self.insert_dividers(position, added);
        let ghost divided = self.list@;
        let ghost next = position + items@.len();
        assert(self.list.len() == self.list@.len());

        // Check and remove the day divider behind the added messages, if the
        // last of them brought another one for the same day.
        let is_removal = removed > 0;
        let mut removed: usize = removed;
        if self.remove_divider_of(position + items.len(), last_day) {
            removed = removed + 1;
        }
        let ghost closed = self.list@;
        assert(closed == if added > 0 && divides_day_of(divided, next, messages.last()) {
            divided.remove(next)
        } else {
            divided
        });
        // Check and remove the day divider that is not needed anymore after
        // removing messages.

        if is_removal && self.remove_orphaned_divider(position) {
            removed = removed + 1;
        }
        let ghost tidied = self.list@;
        assert(tidied == if is_removal && is_divider(closed, position as int) && (position == 0
            || is_divider(closed, position - 1)) {
            closed.remove(position as int)
        } else {
            closed
        });
        assert(self@ == (HistoryView { list: tidied, ..before }));
        // Check and remove the day divider that is not needed anymore after
        // adding messages.

        let mut position: usize = position;
        if position > 0 && self.remove_divider_of(position - 1, first_day) {
            removed = removed + 1;
            position = position - 1;
        }
        let ghost settled = before.settle(at as int, given as int, added as int);
        assert(self@ == (HistoryView { list: settled.list, ..before }));
        self.push_event(HistoryEvent::ItemsChanged { position, removed, items });
        assert(self@.changes == settled.changes);
        proof {
            lemma_settle_is_one_change(before, at as int, given as int, added as int);
        }
    }

    /// Where the message lies, seen from the item.
    fn direction(item: &ChatHistoryItem, message: &HistoryMessage) -> (direction: Direction)
        ensures
            direction == direction_of(*item, *message),
    {
        match item {
            ChatHistoryItem::Message(other) => {
                if message.id > other.id {
                    Direction::Newer
                } else if message.id == other.id {
                    Direction::Here
                } else {
                    Direction::Older
                }
            },
            ChatHistoryItem::DayDivider(timestamp) => {
                // If this is the divider of the message itself, the message
                // is among the items in front of it.
                if message.timestamp.unix >= timestamp.unix {
                    Direction::Newer
                } else {
                    Direction::Older
                }
            },
        }
    }

    /// The position of the row of the message, if it is in the list.
    ///
    /// The elements in this list are ordered. While the day dividers are
    /// ordered only by their date time, the messages are additionally sorted
    /// by their id. This is exploited by applying a binary search.
    fn row_position(&self, message: &HistoryMessage) -> (position: Option<usize>)
        ensures
            match position {
                Some(position) => row_position(self@.list, *message) == Some(position as int)
                    && position < self@.list.len() && self@.list[position as int] is Message
                    && self@.list[position as int]->Message_0.id == message.id,
                None => row_position(self@.list, *message) is None,
            },
    {
        let mut low: usize = 0;
        let mut high: usize = self.list.len();
        while low < high
            invariant
                low <= high <= self.list@.len(),
                row_position(self.list@, *message) == search(
                    self.list@,
                    *message,
                    low as int,
                    high as int,
                ),
            decreases high - low,
        {
            let mid: usize = low + (high - low) / 2;
            match Self::direction(&self.list[mid], message) {
                Direction::Here => return Some(mid),
                Direction::Newer => high = mid,
                Direction::Older => low = mid + 1,
            }
        }
        None
    }

    /// Whether the item stays in front of a new row for the message.
    fn goes_before(item: &ChatHistoryItem, message: &HistoryMessage) -> (result: bool)
        ensures
            result == goes_before(*item, *message),
    {
        match item {
            ChatHistoryItem::Message(other) => other.id > message.id,
            ChatHistoryItem::DayDivider(timestamp) => message.timestamp.day.is_before(
                &timestamp.day,
            ),
        }
    }

    /// The position at which the message must be inserted in the list.
    fn message_ordering(&self, message: &HistoryMessage) -> (position: usize)
        ensures
            position == insert_position(self@.list, *message),
            position <= self@.list.len(),
    {
        let mut low: usize = 0;
        let mut high: usize = self.list.len();
        while low < high
            invariant
                low <= high <= self.list@.len(),
                insert_position(self.list@, *message) == partition(
                    self.list@,
                    *message,
                    low as int,
                    high as int,
                ),
            decreases high - low,
        {
            let mid: usize = low + (high - low) / 2;
            if Self::goes_before(&self.list[mid], message) {
                low = mid + 1;
            } else {
                high = mid;
            }
        }
        low
    }

    /// Removes the row of the message. There is nothing to remove if the
    /// message is not in the list, e.g. because it was never loaded.
    fn remove(&mut self, message: &HistoryMessage)
        ensures
            final(self)@ == old(self)@.remove(*message),
            final(self).albums_are_filed() == old(self).albums_are_filed(),
    {
        if let Some(index) = self.row_position(message) {
            let ghost before = self@;
            self.list.remove(index);
            let ghost removed = self@;
            proof {
                assert(removed == (HistoryView { list: before.list.remove(index as int), ..before }));
                lemma_settle_removed(before, removed, index as int);
            }
            self.items_changed(index, 1, 0);
        }
    }

    /// Adds a row for the message where it belongs.
    fn insert_row(&mut self, message: HistoryMessage)
        ensures
            final(self)@ == old(self)@.insert_row(message),
            final(self).albums_are_filed() == old(self).albums_are_filed(),
    {
        let index = self.message_ordering(&message);
        let ghost before = self@;
        self.list.insert(index, ChatHistoryItem::for_message(message));
        let ghost added = self@;
        proof {
            assert(added.list =~= spliced(before.list, index as int, 0, rows_of(seq![message])));
            assert(added == (HistoryView { list: added.list, ..before }));
            lemma_settle_added(before, added, index as int, seq![message]);
        }
        self.items_changed(index, 0, 1);
    }

    /// Replaces the row that displays an album on behalf of `replaced` with
    /// one on behalf of `representative`. The other rows stay as they are and
    /// the list stays laid out.
    fn swap_representative(&mut self, replaced: &HistoryMessage, representative: HistoryMessage)
        ensures
            final(self)@ == old(self)@.swap_representative(*replaced, representative),
            forall|chat: Set<HistoryMessage>| #[trigger]
                is_history_of(old(self)@, chat) && chat.contains(*replaced) && chat.contains(
                    representative,
                ) && (*replaced == representative || !shows(old(self)@.list, representative)) ==> {
                    &&& is_history_of(final(self)@, chat)
                    &&& forall|other: HistoryMessage| #[trigger]
                        shows(final(self)@.list, other) <==> shows(old(self)@.list, other) && other
                            != *replaced || other == representative
                },
            final(self).albums_are_filed() == old(self).albums_are_filed(),
    {
        let ghost before = self@;
        self.remove(replaced);
        self.insert_row(representative);
        proof {
            assert forall|chat: Set<HistoryMessage>| #[trigger]
                is_history_of(before, chat) && chat.contains(*replaced) && chat.contains(
                    representative,
                ) && (*replaced == representative || !shows(before.list, representative)) implies {
                &&& is_history_of(self@, chat)
                &&& forall|other: HistoryMessage| #[trigger]
                    shows(self@.list, other) <==> shows(before.list, other) && other != *replaced
                        || other == representative
            } by {
                law_swapped_representative_keeps_layout(before, *replaced, representative, chat);
            }
        }
    }

    /// Integrates a message into its media album before it is inserted into
    /// the list.
    ///
    /// Photos, videos and animations that were sent together as an album
    /// share the same non-zero `media_album_id`. Such messages don't get
    /// individual rows: the first member of an album that is seen becomes its
    /// *representative* and its row displays the whole album, and every
    /// further member is added to the album instead. The representative is
    /// always the oldest message of the album, so the position of the album
    /// row in the list matches its position.
    ///
    /// An album is only displayed as such once it has at least two members;
    /// before that, its representative is displayed as a normal message.
    fn handle_album_message(&mut self, message: HistoryMessage) -> (handling: AlbumHandling)
        requires
            old(self).wf(),
        ensures
            final(self).wf(),
            final(self)@ == old(self)@.join_album(message),
            handling == old(self)@.album_handling(message),
            oldest_represent_albums(old(self)@) ==> oldest_represent_albums(final(self)@),
            message.media_album_id != 0 && message.is_groupable ==> {
                &&& final(self)@.albums.contains_key(message.media_album_id)
                &&& has_message(final(self)@.albums[message.media_album_id], message.id)
            },
    {
        proof {
            lemma_joining_keeps_representatives(self@, message);
        }
        broadcast use vstd::std_specs::hash::group_hash_axioms;

        let album_id = message.media_album_id;
        let ghost before = self@;
        if album_id == 0 || !message.is_groupable {
            return AlbumHandling::Row;
        }
        let known = self.albums.remove(&album_id);
        let is_known = known.is_some();
        let mut album = match known {
            Some(album) => album,
            None => MediaAlbum::new(album_id),
        };
        let ghost members = album@;
        let old_representative = album.first_message();
        let len_before = album.len();
        proof {
            if is_known {
                assert(before.albums.contains_key(album_id));
                assert(members == before.albums[album_id]);
            }
            assert(album.wf());
            lemma_older_count(members, message.id);
            lemma_with_message(members, message);
        }
        let added = album.add_message(message);
        let was_added = added.is_some();
        let is_pair = album.len() == 2;
        let ghost joined = album@;
        self.albums.insert(album_id, album);
        proof {
            assert(self@.albums =~= before.albums.insert(album_id, joined));
            lemma_joined_members(before, message, joined);
            assert(self.albums_are_filed());
            assert(self@ == (HistoryView { albums: before.albums.insert(album_id, joined), ..before
            }));
        }
        if let Some(position) = added {
            let mut messages: Vec<HistoryMessage> = Vec::new();
            messages.push(message);
            assert(messages@ =~= seq![message]);
            self.push_event(
                HistoryEvent::AlbumChanged { album_id, position, removed: 0, messages },
            );
        }
        if !is_known {
            // The message is the first member of the album that is seen, so
            // it becomes its representative. It is displayed as a normal row
            // until a second member is loaded.
            self.push_event(
                HistoryEvent::RepresentativeChanged {
                    message_id: message.id,
                    represents: Some(album_id),
                },
            );
            assert(self@ == before.join_album(message));
            return AlbumHandling::Row;
        }
        match old_representative {
            None => AlbumHandling::Merged,
            Some(old_representative) => {
                if message.id < old_representative.id {
                    // The message is older than the current representative,
                    // so it replaces it. The replaced message stays part of
                    // the album, but it is not displayed as a row anymore.
                    self.push_event(
                        HistoryEvent::RepresentativeChanged {
                            message_id: old_representative.id,
                            represents: None,
                        },
                    );
                    self.push_event(
                        HistoryEvent::RepresentativeChanged {
                            message_id: message.id,
                            represents: Some(album_id),
                        },
                    );
                    AlbumHandling::Promoted {
                        replaced: old_representative,
                        representative: message,
                    }
                } else if was_added && is_pair {
                    // When the album goes from one to two members, the row of
                    // its representative must be rebound, so that it is
                    // displayed as an album instead of a normal message.
                    AlbumHandling::Promoted {
                        replaced: old_representative,
                        representative: old_representative,
                    }
                } else {
                    // The message is newer than the representative, so the
                    // album row keeps its position.
                    AlbumHandling::Merged
                }
            },
        }
    }

    /// Puts the message at the front of the list.
    fn push_front(&mut self, message: HistoryMessage)
        requires
            old(self).wf(),
        ensures
            final(self).wf(),
            final(self)@ == old(self)@.push_front(message),
    {
        match self.handle_album_message(message) {
            AlbumHandling::Row => {
                let ghost before = self@;
                self.list.push_front(ChatHistoryItem::for_message(message));
                let ghost added = self@;
                proof {
                    assert(added.list =~= spliced(before.list, 0, 0, rows_of(seq![message])));
                    assert(added == (HistoryView { list: added.list, ..before }));
                    lemma_settle_added(before, added, 0, seq![message]);
                }
                self.items_changed(0, 0, 1);
            },
            AlbumHandling::Merged => {},
            AlbumHandling::Promoted { replaced, representative } => {
                self.swap_representative(&replaced, representative);
            },
        }
    }

    /// Puts the message where it belongs.
    fn insert(&mut self, message: HistoryMessage)
        requires
            old(self).wf(),
        ensures
            final(self).wf(),
            final(self)@ == old(self)@.insert(message),
    {
        match self.handle_album_message(message) {
            AlbumHandling::Row => self.insert_row(message),
            AlbumHandling::Merged => {},
            AlbumHandling::Promoted { replaced, representative } => {
                self.swap_representative(&replaced, representative);
            },
        }
    }

    /// Replaces the given rows, one after the other.
    fn swap_all(&mut self, swaps: &Vec<(HistoryMessage, HistoryMessage)>)
        requires
            old(self).wf(),
        ensures
            final(self).wf(),
            final(self)@ == old(self)@.swap_all(swaps@),
    {
        let mut i: usize = 0;
        while i < swaps.len()
            invariant
                i <= swaps@.len(),
                self.wf(),
                self@ == old(self)@.swap_all(swaps@.take(i as int)),
            decreases swaps@.len() - i,
        {
            let (replaced, representative) = swaps[i];
            self.swap_representative(&replaced, representative);
            i = i + 1;
            assert(swaps@.take(i as int).drop_last() =~= swaps@.take(i - 1));
        }
        assert(swaps@.take(swaps@.len() as int) =~= swaps@);
    }

    /// Adds the messages, which are ordered from the newest to the oldest, to
    /// the back of the list.
    fn append(&mut self, messages: &Vec<HistoryMessage>)
        requires
            old(self).wf(),
        ensures
            final(self).wf(),
            final(self)@ == old(self)@.append(messages@),
    {
        let ghost before = self@;
        let mut added: usize = 0;
        let mut swaps: Vec<(HistoryMessage, HistoryMessage)> = Vec::new();
        let ghost mut rows: Seq<HistoryMessage> = Seq::empty();
        let mut i: usize = 0;
        assert(messages@.take(0) =~= Seq::empty());
        assert(before.list + rows_of(rows) =~= before.list);
        while i < messages.len()
            invariant
                i <= messages@.len(),
                self.wf(),
                rows == before.integrate(messages@.take(i as int)).rows,
                swaps@ == before.integrate(messages@.take(i as int)).swaps,
                self@ == (HistoryView {
                    list: before.list + rows_of(rows),
                    ..before.integrate(messages@.take(i as int)).view
                }),
                added == rows.len(),
            decreases messages@.len() - i,
        {
            let message = messages[i];
            let ghost integration = before.integrate(messages@.take(i as int));
            assert(messages@.take(i + 1).drop_last() =~= messages@.take(i as int));
            match self.handle_album_message(message) {
                AlbumHandling::Row => {
                    self.list.push_back(ChatHistoryItem::for_message(message));
                    assert(self.list.len() == self.list@.len());
                    added = added + 1;
                    proof {
                        assert(rows_of(rows.push(message)) =~= rows_of(rows).push(
                            ChatHistoryItem::Message(message),
                        ));
                        rows = rows.push(message);
                        assert(self.list@ =~= before.list + rows_of(rows));
                    }
                },
                AlbumHandling::Merged => {},
                AlbumHandling::Promoted { replaced, representative } => {
                    swaps.push((replaced, representative));
                },
            }
            i = i + 1;
        }
        assert(messages@.take(messages@.len() as int) =~= messages@);
        let ghost integration = before.integrate(messages@);
        proof {
            lemma_integrate_keeps_list(before, messages@);
        }
        if added > 0 {
            let index: usize = self.list.len() - added;
            proof {
                assert(self@.list =~= spliced(before.list, index as int, 0, rows_of(rows)));
                lemma_settle_added(integration.view, self@, index as int, rows);
            }
            self.items_changed(index, 0, added);
        } else {
            assert(self@.list =~= before.list);
        }
        // The swaps are applied after the coalesced change above, so that
        // every change is consistent with the state of the list at the time
        // it is announced.

        self.swap_all(&swaps);
    }

    /// Adds the messages, which are ordered from the newest to the oldest, to
    /// the front of the list.
    fn prepend(&mut self, messages: &Vec<HistoryMessage>)
        requires
            old(self).wf(),
        ensures
            final(self).wf(),
            final(self)@ == old(self)@.prepend(messages@),
    {
        let ghost before = self@;
        let ghost reversed = messages@.reverse();
        let mut added: usize = 0;
        let mut swaps: Vec<(HistoryMessage, HistoryMessage)> = Vec::new();
        let ghost mut rows: Seq<HistoryMessage> = Seq::empty();
        // Prepend the messages from the oldest to the newest, so that the
        // newest message ends up at the front of the list.
        let mut i: usize = messages.len();
        assert(reversed.take(0) =~= Seq::empty());
        assert(rows_of(rows.reverse()) + before.list =~= before.list);
        while i > 0
            invariant
                i <= messages@.len(),
                reversed == messages@.reverse(),
                self.wf(),
                rows == before.integrate(reversed.take(messages@.len() - i)).rows,
                swaps@ == before.integrate(reversed.take(messages@.len() - i)).swaps,
                self@ == (HistoryView {
                    list: rows_of(rows.reverse()) + before.list,
                    ..before.integrate(reversed.take(messages@.len() - i)).view
                }),
                added == rows.len(),
            decreases i,
        {
            let ghost done = messages@.len() - i;
            i = i - 1;
            let message = messages[i];
            assert(message == reversed[done]);
            assert(reversed.take(done + 1).drop_last() =~= reversed.take(done));
            match self.handle_album_message(message) {
                AlbumHandling::Row => {
                    self.list.push_front(ChatHistoryItem::for_message(message));
                    assert(self.list.len() == self.list@.len());
                    added = added + 1;
                    proof {
                        assert(rows_of(rows.push(message).reverse()) =~= seq![
                            ChatHistoryItem::Message(message),
                        ] + rows_of(rows.reverse()));
                        rows = rows.push(message);
                        assert(self.list@ =~= rows_of(rows.reverse()) + before.list);
                    }
                },
                AlbumHandling::Merged => {},
                AlbumHandling::Promoted { replaced, representative } => {
                    swaps.push((replaced, representative));
                },
            }
        }
        assert(reversed.take(messages@.len() as int) =~= reversed);
        let ghost integration = before.integrate(reversed);
        proof {
            lemma_integrate_keeps_list(before, reversed);
        }
        if added > 0 {
            proof {
                assert(self@.list =~= spliced(before.list, 0, 0, rows_of(rows.reverse())));
                lemma_settle_added(integration.view, self@, 0, rows.reverse());
            }
            self.items_changed(0, 0, added);
        } else {
            assert(self@.list =~= before.list);
        }
        // The swaps are applied after the coalesced change above, so that
        // every change is consistent with the state of the list at the time
        // it is announced.

        self.swap_all(&swaps);
    }

    /// The number of items to trim, if the list grew beyond the trim
    /// threshold.
    fn trimmed_count(&self) -> (count: Option<usize>)
        ensures
            count == if self@.list.len() > TRIM_AT_ITEMS {
                Some((self@.list.len() - TRIM_TO_ITEMS) as usize)
            } else {
                None
            },
            self@.list.len() <= usize::MAX,
    {
        let len = self.list.len();
        if len > TRIM_AT_ITEMS {
            Some(len - TRIM_TO_ITEMS)
        } else {
            None
        }
    }

    /// Forgets the album that a trimmed item showed, so that it doesn't leak
    /// and is created again when its messages are loaded again.
    fn forget_album_of(&mut self, item: &ChatHistoryItem)
        requires
            old(self).wf(),
        ensures
            final(self).wf(),
            final(self)@ == old(self)@.forget_album_of(*item),
    {
        broadcast use vstd::std_specs::hash::group_hash_axioms;

        let ghost before = self@;
        if let ChatHistoryItem::Message(message) = item {
            if self.represented_album(message).is_some() {
                self.albums.remove(&message.media_album_id);
                assert(self@.albums =~= before.albums.remove(message.media_album_id));
            }
        }
        proof {
            assert(self@ == before.forget_album_of(*item));
            assert forall|album_id: i64| #[trigger] self@.albums.contains_key(album_id) implies {
                &&& album_id != 0
                &&& self@.albums[album_id].len() > 0
                &&& is_ascending(self@.albums[album_id])
                &&& forall|i: int|
                    0 <= i < self@.albums[album_id].len() ==> (
                    #[trigger] self@.albums[album_id][i]).media_album_id == album_id
            } by {
                assert(before.albums.contains_key(album_id));
            }
        }
    }

    /// Trims the newest items of the list, if it grew beyond the trim
    /// threshold.
    ///
    /// This is called after older messages were loaded, so the viewport is at
    /// the oldest end of the list and the newest items are far away from it.
    /// The trimmed messages are unloaded and are loaded again when the user
    /// scrolls back to them.
    fn trim_front(&mut self)
        requires
            old(self).wf(),
        ensures
            final(self).wf(),
            final(self)@ == old(self)@.trim_front(),
    {
        let count = match self.trimmed_count() {
            Some(count) => count,
            None => return,
        };
        let ghost before = self@;
        let ghost list = self.list@;

        // The trimmed messages are not loaded anymore, so the messages newer
        // than the remaining ones must be loaded again.
        self.at_newest = false;

        let mut removed: usize = 0;
        proof {
            assert(list.skip(0) =~= list);
        }
        while removed < count
            invariant
                removed <= count <= list.len(),
                self.wf(),
                self@ == (HistoryView {
                    list: list.skip(removed as int),
                    at_newest: false,
                    ..before.forget_albums_of(list.take(removed as int))
                }),
            decreases count - removed,
        {
            let ghost current = self@;
            if let Some(item) = self.list.pop_front() {
                assert(self@.albums == current.albums);
                assert(item == list[removed as int]);
                assert(self.list@ =~= list.skip(removed + 1));
                self.forget_album_of(&item);
                assert(list.take(removed + 1).drop_last() =~= list.take(removed as int));
            }
            removed = removed + 1;
        }
        // A day divider at the front of the list always belongs to a day
        // whose messages are before it, so it was trimmed together with them
        // and must be removed as well.

        let ghost rest = list.skip(count as int);
        let ghost trimmed = self@;
        assert(rest.skip(0) =~= rest);
        while self.list.len() > 0 && matches!(self.list[0], ChatHistoryItem::DayDivider(_))
            invariant
                count <= removed <= list.len(),
                list.len() <= usize::MAX,
                rest == list.skip(count as int),
                leading_dividers(rest) == removed - count + leading_dividers(
                    rest.skip(removed - count),
                ),
                self.wf(),
                self@ == (HistoryView { list: rest.skip(removed - count), ..trimmed }),
            decreases list.len() - removed,
        {
            let ghost current = rest.skip(removed - count);
            let ghost albums = self@.albums;
            assert(current.skip(1) =~= rest.skip(removed - count + 1));
            self.list.pop_front();
            assert(self@.albums == albums);
            removed = removed + 1;
            assert(self.list@ =~= rest.skip(removed - count));
        }
        let items: Vec<ChatHistoryItem> = Vec::new();
        self.push_event(HistoryEvent::ItemsChanged { position: 0, removed, items });
        proof {
            assert(items@ =~= Seq::empty());
            lemma_forgetting_keeps_rest(before, list.take(count as int));
            assert(self@.list =~= before.trim_front().list);
            assert(self@ =~= before.trim_front());
        }
    }

    /// Trims the oldest items of the list, if it grew beyond the trim
    /// threshold.
    ///
    /// This is called after newer messages were loaded or when the view is
    /// pinned to the newest message, so the viewport is at the newest end of
    /// the list and the oldest items are far away from it. The trimmed
    /// messages are unloaded and are loaded again when the user scrolls back
    /// to them.
    pub fn trim_back(&mut self)
        requires
            old(self).wf(),
        ensures
            final(self).wf(),
            final(self)@ == old(self)@.trim_back(),
    {
        let count = match self.trimmed_count() {
            Some(count) => count,
            None => return,
        };
        let ghost before = self@;
        let ghost list = self.list@;
        let mut removed: usize = 0;
        proof {
            assert(list.take(list.len() as int) =~= list);
        }
        while removed < count
            invariant
                removed <= count <= list.len(),
                self.wf(),
                self@ == (HistoryView {
                    list: list.take(list.len() - removed),
                    ..before.forget_albums_of(list.skip(list.len() - removed).reverse())
                }),
            decreases count - removed,
        {
            let ghost current = self@;
            if let Some(item) = self.list.pop_back() {
                assert(self@.albums == current.albums);
                let ghost at = list.len() - removed - 1;
                assert(item == list[at]);
                assert(self.list@ =~= list.take(at));
                self.forget_album_of(&item);
                assert(list.skip(at).reverse().drop_last() =~= list.skip(at + 1).reverse());
            }
            removed = removed + 1;
        }
        // A day divider at the back of the list always belongs to a day whose
        // messages are right before it, so no day divider can be orphaned by
        // trimming the back of the list.

        let position = self.list.len();
        let items: Vec<ChatHistoryItem> = Vec::new();
        self.push_event(HistoryEvent::ItemsChanged { position, removed, items });
        proof {
            assert(items@ =~= Seq::empty());
            lemma_forgetting_keeps_rest(before, list.skip(TRIM_TO_ITEMS as int).reverse());
            assert(self@.list =~= before.trim_back().list);
            assert(self@ =~= before.trim_back());
        }
    }

    /// Handles a message that was sent to the chat.
    pub fn handle_new_message(&mut self, message: HistoryMessage)
        requires
            old(self).wf(),
        ensures
            final(self).wf(),
            final(self)@ == old(self)@.receive(message),
    {
        if !self.at_newest {
            // There might be messages between the newest loaded message and
            // this one that are not loaded yet. Keep the message pending
            // instead of creating a hole in the list.
            let ghost before = self@;
            self.pending_new_messages.push_back(message);
            assert(self@.albums == before.albums);
            return;
        }
        self.push_front(message);
    }

    /// Handles that the content of a message changed to one that can or can't
    /// be grouped in an album. This matters for the messages that were not
    /// added to the list yet.
    pub fn handle_content_changed(&mut self, message_id: MessageId, is_groupable: bool)
        requires
            old(self).wf(),
        ensures
            final(self).wf(),
            final(self)@ == (HistoryView {
                pending: with_content(old(self)@.pending, message_id, is_groupable),
                ..old(self)@
            }),
    {
        let ghost before = self@;
        let ghost expected = with_content(before.pending, message_id, is_groupable);
        let mut pending: VecDeque<HistoryMessage> = VecDeque::new();
        let mut i: usize = 0;
        while i < self.pending_new_messages.len()
            invariant
                self.pending_new_messages@ == before.pending,
                expected == with_content(before.pending, message_id, is_groupable),
                i <= before.pending.len(),
                pending@ == expected.take(i as int),
            decreases before.pending.len() - i,
        {
            let message = self.pending_new_messages[i];
            if message.id == message_id {
                pending.push_back(HistoryMessage { is_groupable, ..message });
            } else {
                pending.push_back(message);
            }
            i = i + 1;
            assert(pending@ =~= expected.take(i as int));
        }
        assert(pending@ =~= expected);
        self.pending_new_messages = pending;
        assert(self@.albums == before.albums);
    }

    /// Handles a message that was deleted from the chat.
    pub fn handle_deleted_message(&mut self, message: &HistoryMessage)
        requires
            old(self).wf(),
        ensures
            final(self).wf(),
            final(self)@ == old(self)@.delete(*message),
    {
        broadcast use vstd::std_specs::hash::group_hash_axioms;

        let ghost before = self@;
        let mut pending: VecDeque<HistoryMessage> = VecDeque::new();
        let mut i: usize = 0;
        proof {
            reveal(Seq::filter);
            assert(before.pending.take(0) =~= Seq::empty());
        }
        while i < self.pending_new_messages.len()
            invariant
                self.pending_new_messages@ == before.pending,
                i <= before.pending.len(),
                pending@ == other_than(before.pending.take(i as int), message.id),
            decreases before.pending.len() - i,
        {
            reveal(Seq::filter);
            let other = self.pending_new_messages[i];
            assert(before.pending.take(i + 1).drop_last() =~= before.pending.take(i as int));
            if other.id != message.id {
                pending.push_back(other);
            }
            i = i + 1;
        }
        assert(before.pending.take(before.pending.len() as int) =~= before.pending);
        self.pending_new_messages = pending;
        assert(self@.albums == before.albums);

        let album_id = message.media_album_id;
        if album_id != 0 && self.albums.contains_key(&album_id) {
            self.remove_album_message(album_id, message);
        } else {
            self.remove(message);
        }
    }

    /// Removes a deleted message from its media album and adjusts the album
    /// row accordingly.
    ///
    /// The album is displayed as long as it has at least two members. When it
    /// goes below that, its row becomes a normal message row or is removed.
    fn remove_album_message(&mut self, album_id: i64, message: &HistoryMessage)
        requires
            old(self).wf(),
            old(self)@.albums.contains_key(album_id),
        ensures
            final(self).wf(),
            final(self)@ == old(self)@.leave_album(album_id, *message),
    {
        broadcast use vstd::std_specs::hash::group_hash_axioms;

        let ghost before = self@;
        let taken = self.albums.remove(&album_id);
        let mut album = match taken {
            Some(album) => album,
            None => {
                return;
            },
        };
        let ghost members = album@;
        assert(members == before.albums[album_id]);
        let was_representative = album.first_message_id() == Some(message.id);
        proof {
            lemma_older_count(members, message.id);
            lemma_without_message(members, message.id);
        }
        let removed = album.remove_message(message.id);
        let ghost rest = album@;
        let len = album.len();
        let first = album.first_message();
        if len >= 2 {
            self.albums.insert(album_id, album);
            assert(self@.albums =~= before.albums.insert(album_id, rest));
        } else {
            // The album is not displayed as an album anymore, so it is
            // forgotten. It will be created again if its messages are loaded
            // again.
            assert(self@.albums =~= before.albums.remove(album_id));
        }
        proof {
            lemma_left_members(before, album_id, message.id);
            assert(self.albums_are_filed());
        }
        if let Some((position, _)) = removed {
            let messages: Vec<HistoryMessage> = Vec::new();
            assert(messages@ =~= Seq::empty());
            self.push_event(
                HistoryEvent::AlbumChanged { album_id, position, removed: 1, messages },
            );
        }
        let first = match first {
            Some(first) => first,
            None => {
                // The deleted message was the only member and therefore the
                // row.
                self.remove(message);
                return;
            },
        };
        if len >= 2 {
            if was_representative {
                // The next-oldest message becomes the representative and
                // takes the place of the deleted one.
                self.push_event(
                    HistoryEvent::RepresentativeChanged {
                        message_id: first.id,
                        represents: Some(album_id),
                    },
                );
                self.remove(message);
                self.insert_row(first);
            }
            return;
        }
        self.push_event(
            HistoryEvent::RepresentativeChanged { message_id: first.id, represents: None },
        );
        if was_representative {
            // The remaining message was only displayed inside the album row:
            // rebind the row of the deleted message as a normal row of the
            // remaining message.
            self.remove(message);
        } else {
            // The row shows the remaining message itself, which must be
            // rebound as a normal message row.
            self.remove(&first);
        }
        self.insert_row(first);
    }

    /// Adds the messages that arrived in the meantime.
    fn flush_pending_new_messages(&mut self)
        requires
            old(self).wf(),
        ensures
            final(self).wf(),
            final(self)@ == old(self)@.flush_pending(),
    {
        let ghost before = self@;
        let mut pending: VecDeque<HistoryMessage> = VecDeque::new();
        std::mem::swap(&mut pending, &mut self.pending_new_messages);
        let ghost drained = self@;
        assert(drained =~= HistoryView { pending: Seq::empty(), ..before });
        assert(pending@.take(0) =~= Seq::empty());

        // The messages are ordered from the oldest to the newest. Prepend
        // them in order, so that the newest message ends up at the front of
        // the list.
        let mut i: usize = 0;
        while i < pending.len()
            invariant
                i <= pending@.len(),
                self.wf(),
                self@ == drained.push_all_front(pending@.take(i as int)),
            decreases pending@.len() - i,
        {
            self.push_front(pending[i]);
            i = i + 1;
            assert(pending@.take(i as int).drop_last() =~= pending@.take(i - 1));
        }
        assert(pending@.take(pending@.len() as int) =~= pending@);
    }

    /// Creates a history for a chat with the given number of unread messages
    /// and the given last read message.
    ///
    /// If the chat has unread messages, the history is anchored at the last
    /// read message, so that the messages are loaded around it instead of the
    /// last message of the chat.
    pub fn new(unread_count: i32, last_read_inbox_message_id: MessageId) -> (model:
        ChatHistoryModel)
        ensures
            model.wf(),
            model@ == HistoryView::anchored(
                if unread_count > 0 {
                    last_read_inbox_message_id
                } else {
                    0
                },
                unread_count > 0 && last_read_inbox_message_id != 0,
                unread_count <= 0 || last_read_inbox_message_id == 0,
            ),
    {
        let anchor: MessageId = if unread_count > 0 {
            last_read_inbox_message_id
        } else {
            0
        };
        Self::with_anchor(anchor, anchor != 0, anchor == 0)
    }

    /// Creates a history that is anchored at the message with the specified
    /// id.
    ///
    /// This can be used to show a specific message of a chat, e.g. when
    /// jumping to a replied message, without having to load the whole history
    /// in between.
    pub fn new_for_message(message_id: MessageId) -> (model: ChatHistoryModel)
        ensures
            model.wf(),
            model@ == HistoryView::anchored(message_id, false, false),
    {
        Self::with_anchor(message_id, false, false)
    }

    fn with_anchor(anchor: MessageId, is_unread_anchor: bool, at_newest: bool) -> (model:
        ChatHistoryModel)
        ensures
            model.wf(),
            model@ == HistoryView::anchored(anchor, is_unread_anchor, at_newest),
    {
        broadcast use vstd::std_specs::hash::group_hash_axioms;

        let model = ChatHistoryModel {
            is_loading_older: false,
            is_loading_newer: false,
            anchor,
            is_unread_anchor,
            at_newest,
            list: VecDeque::new(),
            pending_new_messages: VecDeque::new(),
            albums: HashMap::new(),
            events: Vec::new(),
        };
        assert(model@ =~= HistoryView::anchored(anchor, is_unread_anchor, at_newest));
        model
    }

    /// Starts to load messages that are older than the oldest loaded one.
    pub fn load_older_messages(&mut self, limit: i32) -> (request: Result<
        HistoryRequest,
        ChatHistoryError,
    >)
        ensures
            old(self)@.is_loading_older ==> request == Err::<HistoryRequest, _>(
                ChatHistoryError::AlreadyLoading,
            ) && final(self)@ == old(self)@,
            !old(self)@.is_loading_older ==> {
                &&& request == Ok::<_, ChatHistoryError>(
                    HistoryRequest { from_message_id: old(self)@.oldest_id(), offset: 0, limit },
                )
                &&& final(self)@ == (HistoryView { is_loading_older: true, ..old(self)@ })
            },
            old(self).wf() ==> final(self).wf(),
    {
        if self.is_loading_older {
            return Err(ChatHistoryError::AlreadyLoading);
        }
        let ghost list = self.list@;
        let mut from_message_id: MessageId = self.anchor;
        let mut i: usize = self.list.len();
        assert(list.take(i as int) =~= list);
        while i > 0
            invariant_except_break
                i <= list.len(),
                self.list@ == list,
                from_message_id == self.anchor,
                oldest_row(list) == oldest_row(list.take(i as int)),
            ensures
                from_message_id == match oldest_row(list) {
                    Some(id) => id,
                    None => self.anchor,
                },
            decreases i,
        {
            i = i - 1;
            assert(list.take(i + 1).last() == list[i as int]);
            assert(list.take(i + 1).drop_last() =~= list.take(i as int));
            if let Some(message) = self.list[i].message() {
                from_message_id = message.id;
                break;
            }
        }
        let ghost before = self@;
        self.is_loading_older = true;
        assert(self@.albums == before.albums);
        Ok(HistoryRequest { from_message_id, offset: 0, limit })
    }

    /// Takes the answer to a request of `load_older_messages`.
    ///
    /// Returns `true` when more messages can be loaded.
    pub fn older_messages_loaded(
        &mut self,
        request: HistoryRequest,
        answer: Result<Vec<HistoryMessage>, TdlibError>,
    ) -> (result: Result<bool, ChatHistoryError>)
        requires
            old(self).wf(),
        ensures
            final(self).wf(),
            match answer {
                Ok(messages) => {
                    &&& final(self)@ == old(self)@.load_older(request.from_message_id, messages@)
                    &&& result == Ok::<_, ChatHistoryError>(
                        older_than(messages@, request.from_message_id).len() > 0,
                    )
                },
                Err(error) => {
                    &&& final(self)@ == (HistoryView { is_loading_older: false, ..old(self)@ })
                    &&& result == Err::<bool, _>(ChatHistoryError::Tdlib(error))
                },
            },
    {
        let ghost before = self@;
        self.is_loading_older = false;
        assert(self@.albums == before.albums);
        let answer = match answer {
            Ok(answer) => answer,
            Err(error) => return Err(ChatHistoryError::Tdlib(error)),
        };
        let from_message_id = request.from_message_id;

        // Depending on the TDLib version, `getChatHistory` can also return
        // the message with the id `from_message_id`, which is already in the
        // list.
        let mut messages: Vec<HistoryMessage> = Vec::new();
        let mut i: usize = 0;
        proof {
            reveal(Seq::filter);
            assert(answer@.take(0) =~= Seq::empty());
        }
        while i < answer.len()
            invariant
                i <= answer@.len(),
                messages@ == older_than(answer@.take(i as int), from_message_id),
            decreases answer@.len() - i,
        {
            reveal(Seq::filter);
            let message = answer[i];
            assert(answer@.take(i + 1).drop_last() =~= answer@.take(i as int));
            if from_message_id == 0 || message.id < from_message_id {
                messages.push(message);
            }
            i = i + 1;
        }
        assert(answer@.take(answer@.len() as int) =~= answer@);
        if messages.len() == 0 {
            return Ok(false);
        }
        self.append(&messages);
        self.trim_front();
        Ok(true)
    }

    /// Starts to load a window of messages around the anchor of this chat
    /// history.
    pub fn load_around_anchor(&mut self) -> (request: Result<HistoryRequest, ChatHistoryError>)
        ensures
            old(self)@.is_loading_older ==> request == Err::<HistoryRequest, _>(
                ChatHistoryError::AlreadyLoading,
            ) && final(self)@ == old(self)@,
            !old(self)@.is_loading_older ==> {
                &&& request == Ok::<_, ChatHistoryError>(
                    HistoryRequest {
                        from_message_id: old(self)@.anchor,
                        offset: (-AROUND_NEWER_MESSAGES) as i32,
                        limit: (AROUND_NEWER_MESSAGES * 2) as i32,
                    },
                )
                &&& final(self)@ == (HistoryView { is_loading_older: true, ..old(self)@ })
            },
            old(self).wf() ==> final(self).wf(),
    {
        if self.is_loading_older {
            return Err(ChatHistoryError::AlreadyLoading);
        }
        let ghost before = self@;
        self.is_loading_older = true;
        assert(self@.albums == before.albums);
        Ok(
            HistoryRequest {
                from_message_id: self.anchor,
                offset: -AROUND_NEWER_MESSAGES,
                limit: AROUND_NEWER_MESSAGES * 2,
            },
        )
    }

    /// Takes the answer to a request of `load_around_anchor`.
    ///
    /// `last_message_id` is the id of the last message of the chat and
    /// `anchor_message` the message of the anchor, as far as the chat knows
    /// them.
    pub fn around_anchor_loaded(
        &mut self,
        answer: Result<Vec<HistoryMessage>, TdlibError>,
        last_message_id: Option<MessageId>,
        anchor_message: Option<HistoryMessage>,
    ) -> (result: Result<AnchorStep, ChatHistoryError>)
        requires
            old(self).wf(),
        ensures
            final(self).wf(),
            match answer {
                Err(error) => {
                    &&& final(self)@ == (HistoryView { is_loading_older: false, ..old(self)@ })
                    &&& result == Err::<AnchorStep, _>(ChatHistoryError::Tdlib(error))
                },
                Ok(messages) => {
                    let loaded = old(self)@.load_around(messages@);
                    let reached_newest = last_message_id == (if messages@.len() > 0 {
                        Some(messages@[0].id)
                    } else {
                        None
                    });
                    if anchor_message is None || loaded.shown_at(anchor_message->0) is None {
                        &&& final(self)@ == loaded
                        &&& result == Ok::<_, ChatHistoryError>(
                            AnchorStep::FetchAnchor {
                                message_id: old(self)@.anchor,
                                reached_newest,
                            },
                        )
                    } else {
                        &&& final(self)@ == if reached_newest {
                            loaded.reach_newest()
                        } else {
                            loaded
                        }
                        &&& result == Ok::<_, ChatHistoryError>(AnchorStep::Done)
                    }
                },
            },
    {
        let ghost before = self@;
        self.is_loading_older = false;
        assert(self@.albums == before.albums);
        let messages = match answer {
            Ok(messages) => messages,
            Err(error) => return Err(ChatHistoryError::Tdlib(error)),
        };

        // The chat's last message is the newest one, so if we loaded it, all
        // the messages newer than the anchor are loaded.
        let newest_loaded: Option<MessageId> = if messages.len() > 0 {
            Some(messages[0].id)
        } else {
            None
        };
        let reached_newest = last_message_id == newest_loaded;
        self.append(&messages);
        let ghost loaded = self@;
        proof {
            lemma_append_keeps_anchor(
                HistoryView { is_loading_older: false, ..before },
                messages@,
            );
        }

        // Depending on the TDLib version, `getChatHistory` might not return
        // the message with the id `anchor` itself.
        let is_shown = match anchor_message {
            Some(anchor_message) => self.find_message_position(&anchor_message).is_some(),
            None => false,
        };
        if !is_shown {
            return Ok(AnchorStep::FetchAnchor { message_id: self.anchor, reached_newest });
        }
        if reached_newest {
            self.reach_newest();
        }
        Ok(AnchorStep::Done)
    }

    /// Takes the message of the anchor that `around_anchor_loaded` asked for.
    pub fn anchor_fetched(
        &mut self,
        message: Result<HistoryMessage, TdlibError>,
        reached_newest: bool,
    ) -> (result: Result<(), ChatHistoryError>)
        requires
            old(self).wf(),
        ensures
            final(self).wf(),
            match message {
                Err(error) => {
                    &&& final(self)@ == old(self)@
                    &&& result == Err::<(), _>(ChatHistoryError::Tdlib(error))
                },
                Ok(message) => {
                    &&& final(self)@ == if reached_newest {
                        old(self)@.insert(message).reach_newest()
                    } else {
                        old(self)@.insert(message)
                    }
                    &&& result == Ok::<_, ChatHistoryError>(())
                },
            },
    {
        let message = match message {
            Ok(message) => message,
            Err(error) => return Err(ChatHistoryError::Tdlib(error)),
        };
        self.insert(message);
        if reached_newest {
            self.reach_newest();
        }
        Ok(())
    }

    /// Notes that all the newer messages are loaded.
    fn reach_newest(&mut self)
        requires
            old(self).wf(),
        ensures
            final(self).wf(),
            final(self)@ == old(self)@.reach_newest(),
    {
        let ghost before = self@;
        self.at_newest = true;
        assert(self@.albums == before.albums);
        self.flush_pending_new_messages();
    }

    /// Starts to load messages that are newer than the newest loaded message.
    ///
    /// Returns `None` if there are none to load.
    pub fn load_newer_messages(&mut self, limit: i32) -> (request: Result<
        Option<HistoryRequest>,
        ChatHistoryError,
    >)
        requires
            old(self).wf(),
        ensures
            final(self).wf(),
            old(self)@.at_newest ==> request == Ok::<Option<HistoryRequest>, ChatHistoryError>(None)
                && final(self)@ == old(self)@,
            !old(self)@.at_newest && old(self)@.is_loading_newer ==> request == Err::<
                Option<HistoryRequest>,
                _,
            >(ChatHistoryError::AlreadyLoading) && final(self)@ == old(self)@,
            !old(self)@.at_newest && !old(self)@.is_loading_newer ==> {
                let limit = newer_limit(limit);
                &&& request == Ok::<_, ChatHistoryError>(
                    Some(
                        HistoryRequest {
                            from_message_id: old(self)@.newest_id(),
                            offset: (-limit) as i32,
                            limit: (limit + 1) as i32,
                        },
                    ),
                )
                &&& final(self)@ == (HistoryView { is_loading_newer: true, ..old(self)@ })
            },
    {
        broadcast use vstd::std_specs::hash::group_hash_axioms;

        if self.at_newest {
            return Ok(None);
        }
        if self.is_loading_newer {
            return Err(ChatHistoryError::AlreadyLoading);
        }
        let ghost before = self@;
        let mut newest_message_id: MessageId = self.anchor;
        if self.list.len() > 0 {
            if let Some(message) = self.list[0].message() {
                newest_message_id = message.id;
                // The row of an album shows its oldest message, so the
                // messages newer than the newest member of the album must be
                // loaded instead of the messages newer than the
                // representative.
                if let Some(album) = self.represented_album(&message) {
                    if let Some(id) = album.last_message_id() {
                        newest_message_id = id;
                    }
                }
            }
        }
        let limit: i32 = if limit < 1 {
            1
        } else if limit > MAX_NEWER_MESSAGES {
            MAX_NEWER_MESSAGES
        } else {
            limit
        };
        self.is_loading_newer = true;
        assert(self@.albums == before.albums);
        Ok(
            Some(
                HistoryRequest {
                    from_message_id: newest_message_id,
                    offset: -limit,
                    limit: limit + 1,
                },
            ),
        )
    }

    /// Takes the answer to a request of `load_newer_messages`.
    ///
    /// Returns `true` when more messages can be loaded.
    pub fn newer_messages_loaded(
        &mut self,
        request: HistoryRequest,
        answer: Result<Vec<HistoryMessage>, TdlibError>,
    ) -> (result: Result<bool, ChatHistoryError>)
        requires
            old(self).wf(),
        ensures
            final(self).wf(),
            match answer {
                Ok(messages) => {
                    &&& final(self)@ == old(self)@.load_newer(request.from_message_id, messages@)
                    &&& result == Ok::<_, ChatHistoryError>(
                        newer_than(messages@, request.from_message_id).len() > 0,
                    )
                },
                Err(error) => {
                    &&& final(self)@ == (HistoryView { is_loading_newer: false, ..old(self)@ })
                    &&& result == Err::<bool, _>(ChatHistoryError::Tdlib(error))
                },
            },
    {
        let ghost before = self@;
        self.is_loading_newer = false;
        assert(self@.albums == before.albums);
        let answer = match answer {
            Ok(answer) => answer,
            Err(error) => return Err(ChatHistoryError::Tdlib(error)),
        };
        let newest_message_id = request.from_message_id;
        let mut messages: Vec<HistoryMessage> = Vec::new();
        let mut i: usize = 0;
        proof {
            reveal(Seq::filter);
            assert(answer@.take(0) =~= Seq::empty());
        }
        while i < answer.len()
            invariant
                i <= answer@.len(),
                messages@ == newer_than(answer@.take(i as int), newest_message_id),
            decreases answer@.len() - i,
        {
            reveal(Seq::filter);
            let message = answer[i];
            assert(answer@.take(i + 1).drop_last() =~= answer@.take(i as int));
            if message.id > newest_message_id {
                messages.push(message);
            }
            i = i + 1;
        }
        assert(answer@.take(answer@.len() as int) =~= answer@);
        if messages.len() == 0 {
            self.reach_newest();
            return Ok(false);
        }
        self.prepend(&messages);
        self.trim_back();
        Ok(true)
    }

    /// Returns the position of the row that shows the message, if it is
    /// loaded.
    pub fn find_message_position(&self, message: &HistoryMessage) -> (position: Option<usize>)
        requires
            self.wf(),
        ensures
            match position {
                Some(position) => self@.shown_at(*message) == Some(position as int) && position
                    < self@.list.len() && self@.list[position as int] is Message,
                None => self@.shown_at(*message) is None,
            },
    {
        broadcast use vstd::std_specs::hash::group_hash_axioms;

        if let Some(position) = self.row_position(message) {
            return Some(position);
        }
        // The message may be a member of a media album that is displayed by
        // the row of its representative.

        if message.media_album_id == 0 {
            return None;
        }
        if let Some(album) = self.albums.get(&message.media_album_id) {
            assert(self@.albums.contains_key(message.media_album_id));
            if !album.contains(message.id) {
                // The message belongs to the album, but it is not loaded.
                return None;
            }
            if let Some(representative) = album.first_message() {
                if representative.id == message.id {
                    // The message is the representative itself, so it was
                    // already covered by the search above.
                    return None;
                }
                return self.row_position(&representative);
            }
        }
        None
    }

    /// The number of items in the list.
    pub fn n_items(&self) -> (count: usize)
        ensures
            count == self@.list.len(),
    {
        self.list.len()
    }

    /// The item at the given position, if there is one.
    pub fn item(&self, position: usize) -> (item: Option<ChatHistoryItem>)
        ensures
            item == if position < self@.list.len() {
                Some(self@.list[position as int])
            } else {
                None
            },
    {
        if position < self.list.len() {
            Some(self.list[position])
        } else {
            None
        }
    }

    /// The members of the album that the message represents, from the oldest
    /// to the newest.
    pub fn media_album(&self, message: &HistoryMessage) -> (members: Option<Vec<HistoryMessage>>)
        requires
            self.wf(),
        ensures
            match members {
                Some(members) => self@.represented(*message) == Some(members@),
                None => self@.represented(*message) is None,
            },
    {
        match self.represented_album(message) {
            Some(album) => Some(album.chronological()),
            None => None,
        }
    }

    /// The album that the message represents.
    fn represented_album(&self, message: &HistoryMessage) -> (album: Option<&MediaAlbum>)
        requires
            self.wf(),
        ensures
            match album {
                Some(album) => self@.represented(*message) == Some(album@),
                None => self@.represented(*message) is None,
            },
    {
        broadcast use vstd::std_specs::hash::group_hash_axioms;

        if let Some(album) = self.albums.get(&message.media_album_id) {
            assert(self@.albums.contains_key(message.media_album_id));
            if album.first_message_id() == Some(message.id) {
                return Some(album);
            }
        }
        None
    }

    /// The changes that the observers must be told about, in order. They are
    /// handed out once.
    pub fn take_events(&mut self) -> (events: Vec<HistoryEvent>)
        ensures
            events@.map_values(|event: HistoryEvent| event@) == old(self)@.changes,
            final(self)@ == (HistoryView { changes: Seq::empty(), ..old(self)@ }),
            old(self).wf() ==> final(self).wf(),
    {
        let ghost before = self@;
        let mut events: Vec<HistoryEvent> = Vec::new();
        std::mem::swap(&mut events, &mut self.events);
        assert(self@ =~= HistoryView { changes: Seq::empty(), ..before });
        events
    }

    /// The message id from which this chat history loads the initial
    /// messages.
    pub fn anchor(&self) -> (anchor: MessageId)
        ensures
            anchor == self@.anchor,
    {
        self.anchor
    }

    /// Whether this chat history is anchored at the last read message of a
    /// chat with unread messages.
    pub fn is_unread_anchor(&self) -> (result: bool)
        ensures
            result == self@.is_unread_anchor,
    {
        self.is_unread_anchor
    }

    /// Whether all the messages newer than the loaded ones are already in the
    /// list.
    pub fn at_newest(&self) -> (result: bool)
        ensures
            result == self@.at_newest,
    {
        self.at_newest
    }
}

/// The number of newer messages that are requested for the given limit.
pub open spec fn newer_limit(limit: i32) -> i32 {
    if limit < 1 {
        1
    } else if limit > MAX_NEWER_MESSAGES {
        MAX_NEWER_MESSAGES
    } else {
        limit
    }
}

/// Integrating messages leaves the anchor alone.
proof fn lemma_integrate_keeps_anchor(view: HistoryView, messages: Seq<HistoryMessage>)
    ensures
        view.integrate(messages).view.anchor == view.anchor,
    decreases messages.len(),
{
    if messages.len() > 0 {
        lemma_integrate_keeps_anchor(view, messages.drop_last());
    }
}

/// Replacing rows leaves the anchor alone.
proof fn lemma_swap_all_keeps_anchor(
    view: HistoryView,
    swaps: Seq<(HistoryMessage, HistoryMessage)>,
)
    ensures
        view.swap_all(swaps).anchor == view.anchor,
    decreases swaps.len(),
{
    if swaps.len() > 0 {
        lemma_swap_all_keeps_anchor(view, swaps.drop_last());
    }
}

/// Adding messages to the back leaves the anchor alone.
proof fn lemma_append_keeps_anchor(view: HistoryView, messages: Seq<HistoryMessage>)
    ensures
        view.append(messages).anchor == view.anchor,
{
    let integration = view.integrate(messages);
    lemma_integrate_keeps_anchor(view, messages);
    lemma_swap_all_keeps_anchor(
        integration.view.add_rows(view.list.len() as int, integration.rows),
        integration.swaps,
    );
}

/// The albums stay in order after a message left one of them.
pub proof fn lemma_left_members(before: HistoryView, album_id: i64, id: MessageId)
    requires
        before.wf(),
        before.albums.contains_key(album_id),
    ensures
        without_message(before.albums[album_id], id).len() > 0 ==> (HistoryView {
            albums: before.albums.insert(album_id, without_message(before.albums[album_id], id)),
            ..before
        }).wf(),
        (HistoryView { albums: before.albums.remove(album_id), ..before }).wf(),
{
    let members = before.albums[album_id];
    let rest = without_message(members, id);
    lemma_older_count(members, id);
    lemma_without_message(members, id);
    if has_message(members, id) {
        let at = older_count(members, id) as int;
        let k = choose|k: int| 0 <= k < members.len() && (#[trigger] members[k]).id == id;
        assert(at <= k);
        assert forall|i: int| 0 <= i < rest.len() implies (#[trigger] rest[i]).media_album_id
            == album_id by {
            if i < at {
                assert(rest[i] == members[i]);
            } else {
                assert(rest[i] == members[i + 1]);
            }
        }
    }
    let kept = HistoryView { albums: before.albums.insert(album_id, rest), ..before };
    let dissolved = HistoryView { albums: before.albums.remove(album_id), ..before };
    assert forall|other: i64| #[trigger]
        dissolved.albums.contains_key(other) implies before.albums.contains_key(other) && other
        != album_id by {}
    assert forall|other: i64| #[trigger]
        kept.albums.contains_key(other) implies before.albums.contains_key(other) by {}
}

/// Integrating messages into their albums leaves the list alone.
proof fn lemma_integrate_keeps_list(view: HistoryView, messages: Seq<HistoryMessage>)
    ensures
        view.integrate(messages).view.list == view.list,
    decreases messages.len(),
{
    if messages.len() > 0 {
        lemma_integrate_keeps_list(view, messages.drop_last());
    }
}

/// A message joins the other messages of its album.
pub proof fn lemma_joined_members(
    before: HistoryView,
    message: HistoryMessage,
    joined: Seq<HistoryMessage>,
)
    requires
        before.wf(),
        message.media_album_id != 0,
        joined == with_message(
            if before.albums.contains_key(message.media_album_id) {
                before.albums[message.media_album_id]
            } else {
                Seq::empty()
            },
            message,
        ),
    ensures
        (HistoryView { albums: before.albums.insert(message.media_album_id, joined), ..before
        }).wf(),
{
    let album_id = message.media_album_id;
    let members = if before.albums.contains_key(album_id) {
        before.albums[album_id]
    } else {
        Seq::empty()
    };
    let after = HistoryView { albums: before.albums.insert(album_id, joined), ..before };
    lemma_older_count(members, message.id);
    lemma_with_message(members, message);
    assert(joined.len() > 0);
    assert forall|i: int| 0 <= i < joined.len() implies (#[trigger] joined[i]).media_album_id
        == album_id by {
        let at = older_count(members, message.id) as int;
        if !has_message(members, message.id) {
            if i < at {
                assert(joined[i] == members[i]);
            } else if i > at {
                assert(joined[i] == members[i - 1]);
            }
        }
    }
    assert forall|other: i64| #[trigger] after.albums.contains_key(other) implies {
        &&& other != 0
        &&& after.albums[other].len() > 0
        &&& is_ascending(after.albums[other])
        &&& forall|i: int|
            0 <= i < after.albums[other].len() ==> (
            #[trigger] after.albums[other][i]).media_album_id == other
    } by {
        if other != album_id {
            assert(before.albums.contains_key(other));
        }
    }
}

/// The rows start with the first message.
proof fn lemma_with_dividers_first(messages: Seq<HistoryMessage>, below: Option<CalendarDay>)
    requires
        messages.len() > 0,
    ensures
        with_dividers(messages, below).len() >= messages.len(),
        with_dividers(messages, below)[0] == ChatHistoryItem::Message(messages[0]),
    decreases messages.len(),
{
    if messages.len() > 1 {
        lemma_with_dividers_first(
            messages.drop_last(),
            Some(messages.last().timestamp.day),
        );
    } else {
        reveal_with_fuel(with_dividers, 2);
    }
}

} // verus!
