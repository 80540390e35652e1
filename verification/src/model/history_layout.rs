//! How the rows and the day dividers of a chat history are laid out, and
//! which operations keep the layout.

use vstd::prelude::*;

use crate::model::chat_history_item::{ChatHistoryItem, HistoryMessage};
use crate::model::history_view::{
    day_at, divides_day_of, goes_before, insert_position, is_divider, partition, row_position, search,
    with_dividers, HistoryView,
};
use crate::types::{CalendarDay, Timestamp};

verus! {

/// Whether the first timestamp is not older than the second one.
pub open spec fn is_not_older(first: Timestamp, second: Timestamp) -> bool {
    &&& first.unix >= second.unix
    &&& !first.day.precedes(second.day)
    &&& second.day.precedes(first.day) ==> second.unix < first.unix
}

/// Whether the first timestamp is of a later day than the second one.
pub open spec fn is_of_later_day(first: Timestamp, second: Timestamp) -> bool {
    &&& second.unix < first.unix
    &&& second.day.precedes(first.day)
}

/// The timestamp that an item is ordered by.
pub open spec fn timestamp_of(item: ChatHistoryItem) -> Timestamp {
    match item {
        ChatHistoryItem::Message(message) => message.timestamp,
        ChatHistoryItem::DayDivider(timestamp) => timestamp,
    }
}

/// Whether the first item belongs in front of the second one: newer messages
/// in front of older ones, and a divider behind the messages of its day.
pub open spec fn is_in_front(first: ChatHistoryItem, second: ChatHistoryItem) -> bool {
    match first {
        ChatHistoryItem::Message(newer) => {
            &&& is_not_older(newer.timestamp, timestamp_of(second))
            &&& match second {
                ChatHistoryItem::Message(older) => newer.id > older.id,
                ChatHistoryItem::DayDivider(_) => true,
            }
        },
        ChatHistoryItem::DayDivider(timestamp) => is_of_later_day(timestamp, timestamp_of(second)),
    }
}

/// Whether every item is in front of those that follow it.
pub open spec fn is_in_order(list: Seq<ChatHistoryItem>) -> bool {
    forall|i: int, j: int|
        #![trigger list[i], list[j]]
        0 <= i < j < list.len() ==> is_in_front(list[i], list[j])
}

/// Whether the row at the given position is followed by a message or the
/// divider of the same day. `below` is the day of the message that follows
/// the list.
pub open spec fn has_divider_below(
    list: Seq<ChatHistoryItem>,
    position: int,
    below: Option<CalendarDay>,
) -> bool {
    let day = timestamp_of(list[position]).day;
    if position + 1 < list.len() {
        timestamp_of(list[position + 1]).day == day
    } else {
        below == Some(day)
    }
}

/// Whether the item at the given position follows a message of its day.
pub open spec fn has_message_above(list: Seq<ChatHistoryItem>, position: int) -> bool {
    &&& position > 0
    &&& list[position - 1] is Message
    &&& timestamp_of(list[position - 1]).day == timestamp_of(list[position]).day
}

/// Whether the messages of every day are followed by the divider of the day,
/// and whether there are no other dividers.
pub open spec fn is_divided(list: Seq<ChatHistoryItem>, below: Option<CalendarDay>) -> bool {
    forall|i: int|
        0 <= i < list.len() ==> match #[trigger] list[i] {
            ChatHistoryItem::Message(_) => has_divider_below(list, i, below),
            ChatHistoryItem::DayDivider(_) => has_message_above(list, i),
        }
}

/// Whether the rows are ordered from the newest to the oldest and the
/// messages of every day are followed by one divider of that day.
pub open spec fn is_laid_out(list: Seq<ChatHistoryItem>) -> bool {
    is_in_order(list) && is_divided(list, None)
}

/// Whether the messages are ordered from the newest to the oldest.
pub open spec fn is_newest_first(messages: Seq<HistoryMessage>) -> bool {
    forall|i: int, j: int|
        #![trigger messages[i], messages[j]]
        0 <= i < j < messages.len() ==> is_in_front(
            ChatHistoryItem::Message(messages[i]),
            ChatHistoryItem::Message(messages[j]),
        )
}

/// Whether the message belongs in front of all the items.
pub open spec fn is_newest(message: HistoryMessage, list: Seq<ChatHistoryItem>) -> bool {
    forall|i: int|
        0 <= i < list.len() ==> is_in_front(
            ChatHistoryItem::Message(message),
            #[trigger] list[i],
        )
}

// Searching

proof fn lemma_search_finds(
    list: Seq<ChatHistoryItem>,
    message: HistoryMessage,
    at: int,
    low: int,
    high: int,
)
    requires
        is_in_order(list),
        0 <= low <= at < high <= list.len(),
        list[at] == ChatHistoryItem::Message(message),
    ensures
        search(list, message, low, high) == Some(at),
    decreases high - low,
{
    let mid = low + (high - low) / 2;
    if mid < at {
        assert(is_in_front(list[mid], list[at]));
        lemma_search_finds(list, message, at, mid + 1, high);
    } else if mid > at {
        assert(is_in_front(list[at], list[mid]));
        lemma_search_finds(list, message, at, low, mid);
    }
}

proof fn lemma_search_sound(
    list: Seq<ChatHistoryItem>,
    message: HistoryMessage,
    low: int,
    high: int,
)
    requires
        0 <= low <= high <= list.len(),
    ensures
        match search(list, message, low, high) {
            Some(at) => low <= at < high && list[at] is Message && list[at]->Message_0.id
                == message.id,
            None => true,
        },
    decreases high - low,
{
    if low < high {
        let mid = low + (high - low) / 2;
        lemma_search_sound(list, message, low, mid);
        lemma_search_sound(list, message, mid + 1, high);
    }
}

/// A binary search finds every message of an ordered list, where it is.
pub proof fn law_rows_are_found(list: Seq<ChatHistoryItem>, position: int)
    requires
        is_in_order(list),
        0 <= position < list.len(),
        list[position] is Message,
    ensures
        row_position(list, list[position]->Message_0) == Some(position),
{
    lemma_search_finds(list, list[position]->Message_0, position, 0, list.len() as int);
}

/// What a search finds is the row of the message.
pub proof fn law_found_rows_are_right(list: Seq<ChatHistoryItem>, message: HistoryMessage)
    ensures
        row_position(list, message) matches Some(position) ==> 0 <= position < list.len()
            && list[position] is Message && list[position]->Message_0.id == message.id,
{
    lemma_search_sound(list, message, 0, list.len() as int);
}

/// Whether one of the timestamps is not older than the other one.
pub open spec fn is_comparable(first: Timestamp, second: Timestamp) -> bool {
    is_not_older(first, second) || is_not_older(second, first)
}

/// Whether every row has a place in front of or behind the message, and every
/// divider is of a time that can be told to be earlier or later.
pub open spec fn fits(list: Seq<ChatHistoryItem>, message: HistoryMessage) -> bool {
    forall|i: int|
        0 <= i < list.len() ==> match #[trigger] list[i] {
            ChatHistoryItem::Message(_) => is_in_front(list[i], ChatHistoryItem::Message(message))
                || is_in_front(ChatHistoryItem::Message(message), list[i]),
            ChatHistoryItem::DayDivider(timestamp) => is_comparable(timestamp, message.timestamp),
        }
}

proof fn lemma_partition(list: Seq<ChatHistoryItem>, message: HistoryMessage, low: int, high: int)
    requires
        is_in_order(list),
        fits(list, message),
        0 <= low <= high <= list.len(),
        forall|i: int| 0 <= i < low ==> goes_before(#[trigger] list[i], message),
        forall|i: int| high <= i < list.len() ==> !goes_before(#[trigger] list[i], message),
    ensures
        low <= partition(list, message, low, high) <= high,
        forall|i: int|
            0 <= i < partition(list, message, low, high) ==> goes_before(
                #[trigger] list[i],
                message,
            ),
        forall|i: int|
            partition(list, message, low, high) <= i < list.len() ==> !goes_before(
                #[trigger] list[i],
                message,
            ),
    decreases high - low,
{
    if low < high {
        let mid = low + (high - low) / 2;
        let row = ChatHistoryItem::Message(message);
        if goes_before(list[mid], message) {
            assert(is_in_front(list[mid], row));
            assert forall|i: int| 0 <= i < mid + 1 implies goes_before(
                #[trigger] list[i],
                message,
            ) by {
                if i < mid {
                    assert(is_in_front(list[i], list[mid]));
                    if is_in_front(row, list[i]) && !is_in_front(list[i], row) {
                        assert(false);
                    }
                }
            }
            lemma_partition(list, message, mid + 1, high);
        } else {
            assert forall|i: int| mid <= i < list.len() implies !goes_before(
                #[trigger] list[i],
                message,
            ) by {
                if mid < i {
                    assert(is_in_front(list[mid], list[i]));
                    assert(list[mid] is Message ==> is_in_front(row, list[mid]));
                }
            }
            lemma_partition(list, message, low, mid);
        }
    }
}

/// A message is inserted behind everything that belongs in front of it and in
/// front of everything else, among which may be the divider of its day.
pub proof fn law_insert_position_splits(list: Seq<ChatHistoryItem>, message: HistoryMessage)
    requires
        is_laid_out(list),
        fits(list, message),
    ensures
        0 <= insert_position(list, message) <= list.len(),
        forall|i: int|
            0 <= i < insert_position(list, message) ==> is_in_front(
                #[trigger] list[i],
                ChatHistoryItem::Message(message),
            ),
        forall|i: int|
            insert_position(list, message) <= i < list.len() ==> is_in_front(
                ChatHistoryItem::Message(message),
                #[trigger] list[i],
            ) || i == insert_position(list, message) && closes_day_of(list[i], message),
{
    let position = insert_position(list, message);
    let row = ChatHistoryItem::Message(message);
    lemma_partition(list, message, 0, list.len() as int);
    assert forall|i: int| position <= i < list.len() implies is_in_front(row, #[trigger] list[i])
        || i == position && closes_day_of(list[i], message) by {
        if i > position && list[i] is DayDivider {
            assert(has_message_above(list, i));
            assert(!goes_before(list[i - 1], message));
            assert(is_in_front(row, list[i - 1]));
            assert(is_in_front(list[i - 1], list[i]));
        }
    }
}

// Dividers

/// Every item of the divided rows is one of the rows or the divider of one.
pub proof fn lemma_divider_sources(messages: Seq<HistoryMessage>, below: Option<CalendarDay>)
    ensures
        forall|i: int|
            0 <= i < with_dividers(messages, below).len() ==> exists|k: int|
                0 <= k < messages.len() && match #[trigger] with_dividers(messages, below)[i] {
                    ChatHistoryItem::Message(message) => message == #[trigger] messages[k],
                    ChatHistoryItem::DayDivider(timestamp) => timestamp == messages[k].timestamp,
                },
    decreases messages.len(),
{
    if messages.len() > 0 {
        let rest = messages.drop_last();
        let last = messages.last();
        let newer = with_dividers(rest, Some(last.timestamp.day));
        let result = with_dividers(messages, below);
        lemma_divider_sources(rest, Some(last.timestamp.day));
        assert forall|i: int| 0 <= i < result.len() implies exists|k: int|
            0 <= k < messages.len() && match #[trigger] result[i] {
                ChatHistoryItem::Message(message) => message == #[trigger] messages[k],
                ChatHistoryItem::DayDivider(timestamp) => timestamp == messages[k].timestamp,
            } by {
            if i < newer.len() {
                assert(result[i] == newer[i]);
                let k = choose|k: int|
                    0 <= k < rest.len() && match newer[i] {
                        ChatHistoryItem::Message(message) => message == #[trigger] rest[k],
                        ChatHistoryItem::DayDivider(timestamp) => timestamp == rest[k].timestamp,
                    };
                assert(messages[k] == rest[k]);
            } else {
                assert(messages[messages.len() - 1] == last);
            }
        }
    }
}

/// The dividers are of a later day than what follows.
proof fn lemma_dividers_later(
    messages: Seq<HistoryMessage>,
    below: Option<CalendarDay>,
    next: Timestamp,
)
    requires
        is_newest_first(messages),
        below == Some(next.day),
        messages.len() > 0 ==> is_not_older(messages.last().timestamp, next),
    ensures
        forall|i: int|
            0 <= i < with_dividers(messages, below).len() && with_dividers(messages, below)[i]
                is DayDivider ==> is_of_later_day(
                timestamp_of(#[trigger] with_dividers(messages, below)[i]),
                next,
            ),
    decreases messages.len(),
{
    if messages.len() > 0 {
        let rest = messages.drop_last();
        let last = messages.last();
        let newer = with_dividers(rest, Some(last.timestamp.day));
        let result = with_dividers(messages, below);
        if rest.len() > 0 {
            assert(rest.last() == messages[messages.len() - 2]);
            assert(is_in_front(
                ChatHistoryItem::Message(messages[messages.len() - 2]),
                ChatHistoryItem::Message(messages[messages.len() - 1]),
            ));
        }
        assert(is_newest_first(rest)) by {
            assert forall|i: int, j: int|
                #![trigger rest[i], rest[j]]
                0 <= i < j < rest.len() implies is_in_front(
                ChatHistoryItem::Message(rest[i]),
                ChatHistoryItem::Message(rest[j]),
            ) by {
                assert(rest[i] == messages[i] && rest[j] == messages[j]);
            }
        }
        lemma_dividers_later(rest, Some(last.timestamp.day), last.timestamp);
        assert forall|i: int|
            0 <= i < result.len() && result[i] is DayDivider implies is_of_later_day(
            timestamp_of(#[trigger] result[i]),
            next,
        ) by {
            if i < newer.len() {
                assert(result[i] == newer[i]);
                assert(is_of_later_day(timestamp_of(newer[i]), last.timestamp));
            }
        }
    }
}

/// The divided rows are in order, and each day has its divider.
proof fn lemma_divided_rows(messages: Seq<HistoryMessage>, below: Option<CalendarDay>)
    requires
        is_newest_first(messages),
    ensures
        is_in_order(with_dividers(messages, below)),
        is_divided(with_dividers(messages, below), below),
        messages.len() > 0 ==> with_dividers(messages, below).len() > 0
            && with_dividers(messages, below)[0] == ChatHistoryItem::Message(messages[0]),
    decreases messages.len(),
{
    if messages.len() > 0 {
        let rest = messages.drop_last();
        let last = messages.last();
        let row = ChatHistoryItem::Message(last);
        let newer = with_dividers(rest, Some(last.timestamp.day));
        let result = with_dividers(messages, below);
        assert(is_newest_first(rest)) by {
            assert forall|i: int, j: int|
                #![trigger rest[i], rest[j]]
                0 <= i < j < rest.len() implies is_in_front(
                ChatHistoryItem::Message(rest[i]),
                ChatHistoryItem::Message(rest[j]),
            ) by {
                assert(rest[i] == messages[i] && rest[j] == messages[j]);
            }
        }
        lemma_divided_rows(rest, Some(last.timestamp.day));
        lemma_divider_sources(rest, Some(last.timestamp.day));
        if rest.len() > 0 {
            assert(is_in_front(
                ChatHistoryItem::Message(messages[messages.len() - 2]),
                ChatHistoryItem::Message(messages[messages.len() - 1]),
            ));
        } else {
            assert(newer.len() == 0);
        }
        lemma_dividers_later(rest, Some(last.timestamp.day), last.timestamp);
        assert forall|i: int| 0 <= i < newer.len() implies is_in_front(
            #[trigger] newer[i],
            row,
        ) by {
            if newer[i] is Message {
                let k = choose|k: int|
                    0 <= k < rest.len() && match newer[i] {
                        ChatHistoryItem::Message(message) => message == #[trigger] rest[k],
                        ChatHistoryItem::DayDivider(timestamp) => timestamp == rest[k].timestamp,
                    };
                assert(rest[k] == messages[k]);
                assert(is_in_front(
                    ChatHistoryItem::Message(messages[k]),
                    ChatHistoryItem::Message(messages[messages.len() - 1]),
                ));
            } else {
                assert(is_of_later_day(timestamp_of(newer[i]), last.timestamp));
            }
        }
        assert forall|i: int, j: int|
            #![trigger result[i], result[j]]
            0 <= i < j < result.len() implies is_in_front(result[i], result[j]) by {
            if j < newer.len() {
                assert(result[i] == newer[i] && result[j] == newer[j]);
            } else if i < newer.len() {
                assert(result[i] == newer[i]);
                assert(is_in_front(newer[i], row));
            }
        }
        assert forall|i: int| 0 <= i < result.len() implies match #[trigger] result[i] {
            ChatHistoryItem::Message(_) => has_divider_below(result, i, below),
            ChatHistoryItem::DayDivider(_) => has_message_above(result, i),
        } by {
            if i < newer.len() {
                assert(result[i] == newer[i]);
                if i + 1 < newer.len() {
                    assert(result[i + 1] == newer[i + 1]);
                }
                if i > 0 {
                    assert(result[i - 1] == newer[i - 1]);
                }
            }
        }
    }
}

// Adding rows

/// Whether rows for the messages can join the list at `position`: they are in
/// order themselves and with the items around them.
pub open spec fn can_join(
    list: Seq<ChatHistoryItem>,
    position: int,
    messages: Seq<HistoryMessage>,
) -> bool {
    &&& 0 <= position <= list.len()
    &&& is_newest_first(messages)
    &&& forall|i: int, k: int|
        #![trigger list[i], messages[k]]
        0 <= i < position && 0 <= k < messages.len() ==> is_in_front(
            list[i],
            ChatHistoryItem::Message(messages[k]),
        ) || i == position - 1 && closes_day_of(list[i], messages[0])
    &&& forall|i: int, k: int|
        #![trigger list[i], messages[k]]
        position <= i < list.len() && 0 <= k < messages.len() ==> is_in_front(
            ChatHistoryItem::Message(messages[k]),
            list[i],
        ) || i == position && closes_day_of(list[i], messages.last())
}

/// Whether the item is the divider of the day of the message.
pub open spec fn closes_day_of(item: ChatHistoryItem, message: HistoryMessage) -> bool {
    item is DayDivider && item->DayDivider_0.day == message.timestamp.day
}

/// Parts of an ordered list are in order.
pub proof fn lemma_parts_in_order(list: Seq<ChatHistoryItem>, at: int)
    requires
        is_in_order(list),
        0 <= at <= list.len(),
    ensures
        is_in_order(list.take(at)),
        is_in_order(list.skip(at)),
{
    let front = list.take(at);
    let back = list.skip(at);
    assert forall|i: int, j: int|
        #![trigger front[i], front[j]]
        0 <= i < j < front.len() implies is_in_front(front[i], front[j]) by {
        assert(front[i] == list[i] && front[j] == list[j]);
    }
    assert forall|i: int, j: int|
        #![trigger back[i], back[j]]
        0 <= i < j < back.len() implies is_in_front(back[i], back[j]) by {
        assert(back[i] == list[at + i] && back[j] == list[at + j]);
    }
}

/// Ordered lists that belong behind each other are in order together.
proof fn lemma_joined_in_order(front: Seq<ChatHistoryItem>, back: Seq<ChatHistoryItem>)
    requires
        is_in_order(front),
        is_in_order(back),
        forall|i: int, j: int|
            #![trigger front[i], back[j]]
            0 <= i < front.len() && 0 <= j < back.len() ==> is_in_front(front[i], back[j]),
    ensures
        is_in_order(front + back),
{
    let result = front + back;
    assert forall|i: int, j: int|
        #![trigger result[i], result[j]]
        0 <= i < j < result.len() implies is_in_front(result[i], result[j]) by {
        if j < front.len() {
            assert(result[i] == front[i] && result[j] == front[j]);
        } else if i < front.len() {
            assert(result[i] == front[i] && result[j] == back[j - front.len()]);
        } else {
            assert(result[i] == back[i - front.len()] && result[j] == back[j - front.len()]);
        }
    }
}

/// Divided lists are divided together, if the last row of the one gets what
/// it needs from the other.
proof fn lemma_joined_divided(
    front: Seq<ChatHistoryItem>,
    back: Seq<ChatHistoryItem>,
    below: Option<CalendarDay>,
)
    requires
        is_divided(front, day_at(back, 0)),
        is_divided(back, below),
        back.len() > 0,
    ensures
        is_divided(front + back, below),
{
    let result = front + back;
    if back[0] is DayDivider {
        assert(has_message_above(back, 0));
    }
    assert forall|i: int| 0 <= i < result.len() implies match #[trigger] result[i] {
        ChatHistoryItem::Message(_) => has_divider_below(result, i, below),
        ChatHistoryItem::DayDivider(_) => has_message_above(result, i),
    } by {
        if i < front.len() {
            assert(result[i] == front[i]);
            if i > 0 {
                assert(result[i - 1] == front[i - 1]);
            }
            if i + 1 < front.len() {
                assert(result[i + 1] == front[i + 1]);
            } else {
                assert(result[i + 1] == back[0]);
            }
        } else {
            let k = i - front.len();
            assert(result[i] == back[k]);
            if k > 0 {
                assert(result[i - 1] == back[k - 1]);
            }
            if k + 1 < back.len() {
                assert(result[i + 1] == back[k + 1]);
            }
        }
    }
}

/// The part of a laid out list in front of the rows that join it.
proof fn lemma_front_part(list: Seq<ChatHistoryItem>, from: int, day: CalendarDay)
    requires
        is_laid_out(list),
        0 <= from <= list.len(),
        from > 0 && list[from - 1] is Message ==> timestamp_of(list[from - 1]).day == day,
    ensures
        is_in_order(list.take(from)),
        is_divided(list.take(from), Some(day)),
{
    let front = list.take(from);
    lemma_parts_in_order(list, from);
    assert forall|i: int| 0 <= i < front.len() implies match #[trigger] front[i] {
        ChatHistoryItem::Message(_) => has_divider_below(front, i, Some(day)),
        ChatHistoryItem::DayDivider(_) => has_message_above(front, i),
    } by {
        assert(front[i] == list[i]);
        if i > 0 {
            assert(front[i - 1] == list[i - 1]);
        }
        if i + 1 < from {
            assert(front[i + 1] == list[i + 1]);
        }
    }
}

/// The part of a laid out list behind the rows that join it.
proof fn lemma_back_part(list: Seq<ChatHistoryItem>, position: int)
    requires
        is_laid_out(list),
        0 <= position < list.len(),
        list[position] is Message,
    ensures
        is_in_order(list.skip(position)),
        is_divided(list.skip(position), None),
{
    let back = list.skip(position);
    lemma_parts_in_order(list, position);
    assert forall|i: int| 0 <= i < back.len() implies match #[trigger] back[i] {
        ChatHistoryItem::Message(_) => has_divider_below(back, i, None),
        ChatHistoryItem::DayDivider(_) => has_message_above(back, i),
    } by {
        assert(back[i] == list[position + i]);
        if i > 0 {
            assert(back[i - 1] == list[position + i - 1]);
        }
        if i + 1 < back.len() {
            assert(back[i + 1] == list[position + i + 1]);
        }
    }
}

/// What is left of a laid out list from a message on is laid out.
pub proof fn lemma_laid_out_suffix(list: Seq<ChatHistoryItem>, from: int)
    requires
        is_laid_out(list),
        0 <= from <= list.len(),
        from < list.len() ==> list[from] is Message,
    ensures
        is_laid_out(list.skip(from)),
{
    if from < list.len() {
        lemma_back_part(list, from);
    } else {
        assert(list.skip(from) =~= Seq::empty());
    }
}

/// The items in front of the place where rows join belong in front of the
/// rows and their dividers.
proof fn lemma_front_of_rows(
    list: Seq<ChatHistoryItem>,
    from: int,
    messages: Seq<HistoryMessage>,
    below: Option<CalendarDay>,
)
    requires
        0 <= from <= list.len(),
        forall|i: int, k: int|
            #![trigger list[i], messages[k]]
            0 <= i < from && 0 <= k < messages.len() ==> is_in_front(
                list[i],
                ChatHistoryItem::Message(messages[k]),
            ),
    ensures
        forall|i: int, j: int|
            #![trigger list.take(from)[i], with_dividers(messages, below)[j]]
            0 <= i < from && 0 <= j < with_dividers(messages, below).len() ==> is_in_front(
                list.take(from)[i],
                with_dividers(messages, below)[j],
            ),
{
    let rows = with_dividers(messages, below);
    lemma_divider_sources(messages, below);
    assert forall|i: int, j: int|
        #![trigger list.take(from)[i], rows[j]]
        0 <= i < from && 0 <= j < rows.len() implies is_in_front(list.take(from)[i], rows[j]) by {
        let k = choose|k: int|
            0 <= k < messages.len() && match rows[j] {
                ChatHistoryItem::Message(message) => message == #[trigger] messages[k],
                ChatHistoryItem::DayDivider(timestamp) => timestamp == messages[k].timestamp,
            };
        assert(is_in_front(list[i], ChatHistoryItem::Message(messages[k])));
    }
}

/// The items behind the place where rows join belong behind the rows and
/// their dividers.
proof fn lemma_back_of_rows(
    list: Seq<ChatHistoryItem>,
    position: int,
    messages: Seq<HistoryMessage>,
)
    requires
        is_in_order(list),
        is_newest_first(messages),
        messages.len() > 0,
        0 <= position < list.len(),
        list[position] is Message,
        forall|i: int, k: int|
            #![trigger list[i], messages[k]]
            position <= i < list.len() && 0 <= k < messages.len() ==> is_in_front(
                ChatHistoryItem::Message(messages[k]),
                list[i],
            ),
    ensures
        forall|j: int, i: int|
            #![trigger with_dividers(messages, day_at(list, position))[j], list.skip(position)[i]]
            0 <= i < list.skip(position).len() && 0 <= j < with_dividers(
                messages,
                day_at(list, position),
            ).len() ==> is_in_front(
                with_dividers(messages, day_at(list, position))[j],
                list.skip(position)[i],
            ),
{
    let below = day_at(list, position);
    let rows = with_dividers(messages, below);
    lemma_divider_sources(messages, below);
    assert(is_in_front(
        ChatHistoryItem::Message(messages[messages.len() - 1]),
        list[position],
    ));
    lemma_dividers_later(messages, below, timestamp_of(list[position]));
    assert forall|j: int, i: int|
        #![trigger rows[j], list.skip(position)[i]]
        0 <= i < list.skip(position).len() && 0 <= j < rows.len() implies is_in_front(
        rows[j],
        list.skip(position)[i],
    ) by {
        let item = list[position + i];
        if rows[j] is Message {
            let k = choose|k: int|
                0 <= k < messages.len() && match rows[j] {
                    ChatHistoryItem::Message(message) => message == #[trigger] messages[k],
                    ChatHistoryItem::DayDivider(timestamp) => timestamp == messages[k].timestamp,
                };
            assert(is_in_front(ChatHistoryItem::Message(messages[k]), item));
        } else {
            assert(is_of_later_day(timestamp_of(rows[j]), timestamp_of(list[position])));
            if i > 0 {
                assert(is_in_front(list[position], item));
            }
        }
    }
}

/// Rows that join the list in front of a divider are the last ones of its day,
/// and their own divider takes its place.
proof fn lemma_rows_close_day(
    list: Seq<ChatHistoryItem>,
    position: int,
    messages: Seq<HistoryMessage>,
)
    requires
        is_laid_out(list),
        messages.len() > 0,
        can_join(list, position, messages),
        position > 0 && list[position - 1] is Message ==> timestamp_of(list[position - 1]).day
            == messages[0].timestamp.day,
    ensures
        is_divider(list, position) <==> divides_day_of(list, position, messages.last()),
        is_divider(list, position) ==> {
            &&& position + 1 < list.len() ==> list[position + 1] is Message
            &&& with_dividers(messages, day_at(list, position)) == with_dividers(
                messages,
                day_at(list, position + 1),
            )
        },
{
    if is_divider(list, position) {
        let last = messages.last();
        assert(has_message_above(list, position));
        assert(last == messages[messages.len() - 1]);
        if messages.len() > 1 {
            assert(is_in_front(
                ChatHistoryItem::Message(messages[0]),
                ChatHistoryItem::Message(messages[messages.len() - 1]),
            ));
        }
        if position + 1 < list.len() {
            assert(is_in_front(list[position], list[position + 1]));
            if list[position + 1] is DayDivider {
                assert(has_message_above(list, position + 1));
            }
        }
    }
}

/// Rows that join the list where they belong keep it laid out. They may only
/// follow a message of the same day.
proof fn lemma_add_rows_keeps_layout(
    view: HistoryView,
    position: int,
    messages: Seq<HistoryMessage>,
)
    requires
        is_laid_out(view.list),
        messages.len() > 0,
        can_join(view.list, position, messages),
        position > 0 && view.list[position - 1] is Message ==> timestamp_of(
            view.list[position - 1],
        ).day == messages[0].timestamp.day,
    ensures
        is_laid_out(view.add_rows(position, messages).list),
{
    let list = view.list;
    let day = messages[0].timestamp.day;
    let last = messages.last();
    let is_stale = divides_day_of(list, position - 1, messages[0]);
    let is_superseded = divides_day_of(list, position, last);
    let from = if is_stale {
        position - 1
    } else {
        position
    };
    let to = if is_superseded {
        position + 1
    } else {
        position
    };
    let below = day_at(list, to);
    let rows = with_dividers(messages, below);
    let front = list.take(from);
    let back = list.skip(to);
    let result = view.add_rows(position, messages).list;
    lemma_rows_close_day(list, position, messages);
    assert(rows == with_dividers(messages, day_at(list, position)));
    assert(result =~= front + (rows + back));
    assert(is_in_order(rows) && is_divided(rows, below) && rows.len() > 0 && rows[0]
        == ChatHistoryItem::Message(messages[0])) by {
        lemma_divided_rows(messages, below);
    }
    assert(is_in_order(front) && is_divided(front, Some(day))) by {
        if is_stale {
            assert(has_message_above(list, position - 1));
        }
        lemma_front_part(list, from, day);
    }
    assert(forall|i: int, k: int|
        #![trigger list[i], messages[k]]
        0 <= i < from && 0 <= k < messages.len() ==> is_in_front(
            list[i],
            ChatHistoryItem::Message(messages[k]),
        ));
    assert(forall|i: int, j: int|
        #![trigger front[i], rows[j]]
        0 <= i < front.len() && 0 <= j < rows.len() ==> is_in_front(front[i], rows[j])) by {
        lemma_front_of_rows(list, from, messages, below);
    }
    if to < list.len() {
        assert(is_in_order(back) && is_divided(back, None)) by {
            lemma_back_part(list, to);
        }
        assert(is_in_order(rows + back)) by {
            lemma_back_of_rows(list, to, messages);
            lemma_joined_in_order(rows, back);
        }
        assert(is_divided(rows + back, None)) by {
            assert(back[0] == list[to]);
            lemma_joined_divided(rows, back, None);
        }
    } else {
        assert(rows + back =~= rows);
    }
    let tail = rows + back;
    assert(forall|i: int, j: int|
        #![trigger front[i], tail[j]]
        0 <= i < front.len() && 0 <= j < tail.len() ==> is_in_front(front[i], tail[j])) by {
        assert forall|i: int, j: int|
            #![trigger front[i], tail[j]]
            0 <= i < front.len() && 0 <= j < tail.len() implies is_in_front(front[i], tail[j]) by {
            if j < rows.len() {
                assert(tail[j] == rows[j]);
            } else {
                let k = to + j - rows.len();
                assert(tail[j] == list[k]);
                assert(front[i] == list[i]);
                assert(is_in_front(list[i], list[k]));
            }
        }
    }
    lemma_joined_in_order(front, tail);
    assert(tail[0] == rows[0]);
    lemma_joined_divided(front, tail, None);
}

/// Rows that are older than everything in the list keep it laid out when they
/// are added to its back.
pub proof fn law_older_rows_keep_layout(view: HistoryView, messages: Seq<HistoryMessage>)
    requires
        is_laid_out(view.list),
        can_join(view.list, view.list.len() as int, messages),
    ensures
        is_laid_out(view.add_rows(view.list.len() as int, messages).list),
{
    let len = view.list.len() as int;
    if messages.len() > 0 {
        if len > 0 && view.list[len - 1] is Message {
            assert(has_divider_below(view.list, len - 1, None));
        }
        lemma_add_rows_keeps_layout(view, len, messages);
    }
}

/// Rows that are newer than everything in the list keep it laid out when they
/// are added to its front.
pub proof fn law_newer_rows_keep_layout(view: HistoryView, messages: Seq<HistoryMessage>)
    requires
        is_laid_out(view.list),
        can_join(view.list, 0, messages),
    ensures
        is_laid_out(view.add_rows(0, messages).list),
{
    if messages.len() > 0 {
        if view.list.len() > 0 && view.list[0] is DayDivider {
            assert(has_message_above(view.list, 0));
        }
        lemma_add_rows_keeps_layout(view, 0, messages);
    }
}

/// A row that is inserted where it belongs keeps the list laid out.
pub proof fn law_inserted_row_keeps_layout(view: HistoryView, message: HistoryMessage)
    requires
        is_laid_out(view.list),
        fits(view.list, message),
    ensures
        is_laid_out(view.insert_row(message).list),
{
    let list = view.list;
    let position = insert_position(list, message);
    let row = ChatHistoryItem::Message(message);
    law_insert_position_splits(list, message);
    if position > 0 && list[position - 1] is Message {
        assert(is_in_front(list[position - 1], row));
        assert(has_divider_below(list, position - 1, None));
        assert(is_in_front(row, list[position]) || closes_day_of(list[position], message));
    }
    assert(can_join(list, position, seq![message]));
    lemma_add_rows_keeps_layout(view, position, seq![message]);
}

// Removing rows

/// What is left of an ordered list is in order.
proof fn lemma_removed_in_order(list: Seq<ChatHistoryItem>, position: int, count: int)
    requires
        is_in_order(list),
        0 <= position,
        0 <= count,
        position + count <= list.len(),
    ensures
        is_in_order(list.take(position) + list.skip(position + count)),
{
    let front = list.take(position);
    let back = list.skip(position + count);
    lemma_parts_in_order(list, position);
    lemma_parts_in_order(list, position + count);
    assert forall|i: int, j: int|
        #![trigger front[i], back[j]]
        0 <= i < front.len() && 0 <= j < back.len() implies is_in_front(front[i], back[j]) by {
        assert(front[i] == list[i] && back[j] == list[position + count + j]);
    }
    lemma_joined_in_order(front, back);
}

/// The only row of a day leaves together with the divider of the day.
proof fn lemma_removed_day_divided(list: Seq<ChatHistoryItem>, position: int)
    requires
        is_divided(list, None),
        0 <= position,
        position + 1 < list.len(),
        list[position] is Message,
        list[position + 1] is DayDivider,
        position == 0 || list[position - 1] is DayDivider,
    ensures
        is_divided(list.take(position) + list.skip(position + 2), None),
{
    let result = list.take(position) + list.skip(position + 2);
    assert forall|i: int| 0 <= i < result.len() implies match #[trigger] result[i] {
        ChatHistoryItem::Message(_) => has_divider_below(result, i, None),
        ChatHistoryItem::DayDivider(_) => has_message_above(result, i),
    } by {
        let k = if i < position {
            i
        } else {
            i + 2
        };
        assert(result[i] == list[k]);
        if list[k] is Message {
            assert(has_divider_below(list, k, None));
            assert(k != position - 1);
            assert(result[i + 1] == list[k + 1]);
        } else {
            assert(has_message_above(list, k));
            assert(k != position + 2);
            assert(result[i - 1] == list[k - 1]);
        }
    }
}

/// A row leaves its day, which has other rows.
proof fn lemma_removed_row_divided(list: Seq<ChatHistoryItem>, position: int)
    requires
        is_divided(list, None),
        0 <= position < list.len(),
        list[position] is Message,
        is_divider(list, position + 1) ==> position > 0 && list[position - 1] is Message,
    ensures
        is_divided(list.take(position) + list.skip(position + 1), None),
{
    let result = list.take(position) + list.skip(position + 1);
    assert(has_divider_below(list, position, None));
    assert forall|i: int| 0 <= i < result.len() implies match #[trigger] result[i] {
        ChatHistoryItem::Message(_) => has_divider_below(result, i, None),
        ChatHistoryItem::DayDivider(_) => has_message_above(result, i),
    } by {
        let k = if i < position {
            i
        } else {
            i + 1
        };
        assert(result[i] == list[k]);
        if list[k] is Message {
            assert(has_divider_below(list, k, None));
            if k == position - 1 {
                assert(result[i + 1] == list[position + 1]);
            } else {
                assert(result[i + 1] == list[k + 1]);
            }
        } else {
            assert(has_message_above(list, k));
            if k == position + 1 {
                assert(list[position - 1] is Message);
                assert(has_divider_below(list, position - 1, None));
                assert(result[i - 1] == list[position - 1]);
            } else {
                assert(result[i - 1] == list[k - 1]);
            }
        }
    }
}

/// Removing a row keeps the list laid out: if it was the only one of its day,
/// the divider of the day leaves with it.
pub proof fn law_removed_row_keeps_layout(view: HistoryView, position: int)
    requires
        is_laid_out(view.list),
        0 <= position < view.list.len(),
        view.list[position] is Message,
    ensures
        is_laid_out(view.remove_row(position).list),
{
    let list = view.list;
    let result = view.remove_row(position).list;
    assert(has_divider_below(list, position, None));
    if is_divider(list, position + 1) && (position == 0 || is_divider(list, position - 1)) {
        assert(result =~= list.take(position) + list.skip(position + 2));
        lemma_removed_in_order(list, position, 2);
        lemma_removed_day_divided(list, position);
    } else {
        assert(result =~= list.take(position) + list.skip(position + 1));
        lemma_removed_in_order(list, position, 1);
        lemma_removed_row_divided(list, position);
    }
}

} // verus!
