//! That a chat history stays laid out, whatever messages it is given and
//! whichever albums they belong to.

use vstd::prelude::*;

use crate::model::chat_history_item::{ChatHistoryItem, HistoryMessage};
use crate::model::chat_history_model::{lemma_joined_members, lemma_left_members};
use crate::model::history_albums::{
    albums_have_one_row, lemma_add_rows_shows, lemma_insert_row_shows, lemma_remove_shows, shows,
};
use crate::model::history_layout::{
    can_join, closes_day_of, fits, has_divider_below, has_message_above, is_comparable,
    is_in_front, is_in_order, is_laid_out, is_newest_first, is_not_older,
    law_found_rows_are_right, law_insert_position_splits, law_inserted_row_keeps_layout,
    law_newer_rows_keep_layout, law_older_rows_keep_layout, law_removed_row_keeps_layout,
    law_rows_are_found, lemma_divider_sources, lemma_parts_in_order,
};
use crate::model::history_laws::{
    law_trim_back_keeps_order, law_trim_front_keeps_layout, lemma_leading_dividers,
};
use crate::model::history_view::{
    day_at, divides_day_of, has_row, insert_position, is_divider, leading_dividers,
    lemma_forgetting_keeps_rest, newer_than, older_than, oldest_row, other_than, row_position,
    spliced, with_dividers, AlbumHandling, HistoryChange, HistoryView, TRIM_AT_ITEMS, TRIM_TO_ITEMS,
};
use crate::model::media_album::{
    has_message, lemma_older_count, older_count, with_message, without_message,
};
use crate::types::{CalendarDay, MessageId};

verus! {

/// Whether these can be the messages of a chat: no two of them share an id, and
/// a message with a greater id is not older.
pub open spec fn is_chronicle(chat: Set<HistoryMessage>) -> bool {
    forall|a: HistoryMessage, b: HistoryMessage|
        #![trigger chat.contains(a), chat.contains(b)]
        chat.contains(a) && chat.contains(b) ==> {
            &&& a.id == b.id ==> a == b
            &&& a.id > b.id ==> is_not_older(a.timestamp, b.timestamp)
        }
}

/// Whether the item shows a message of the chat, or the day of one.
pub open spec fn is_of(item: ChatHistoryItem, chat: Set<HistoryMessage>) -> bool {
    match item {
        ChatHistoryItem::Message(message) => chat.contains(message),
        ChatHistoryItem::DayDivider(timestamp) => exists|message: HistoryMessage| #[trigger]
            chat.contains(message) && message.timestamp == timestamp,
    }
}

/// Whether all the items show messages of the chat, or the days of some.
pub open spec fn is_list_of(list: Seq<ChatHistoryItem>, chat: Set<HistoryMessage>) -> bool {
    forall|i: int| 0 <= i < list.len() ==> is_of(#[trigger] list[i], chat)
}

/// Whether all the messages are messages of the chat.
pub open spec fn are_of(messages: Seq<HistoryMessage>, chat: Set<HistoryMessage>) -> bool {
    forall|i: int| 0 <= i < messages.len() ==> chat.contains(#[trigger] messages[i])
}

/// Whether all the members of the albums are messages of the chat.
pub open spec fn are_members_of(view: HistoryView, chat: Set<HistoryMessage>) -> bool {
    forall|album_id: i64| #[trigger]
        view.albums.contains_key(album_id) ==> are_of(view.albums[album_id], chat)
}

/// Whether the history is laid out and shows messages of the chat. The chat is
/// made up of all the messages that it ever had.
pub open spec fn is_history_of(view: HistoryView, chat: Set<HistoryMessage>) -> bool {
    &&& is_chronicle(chat)
    &&& view.wf()
    &&& are_members_of(view, chat)
    &&& is_list_of(view.list, chat)
    &&& is_laid_out(view.list)
}

/// Whether the message is older than all the messages with rows.
pub open spec fn is_older_than_rows(message: HistoryMessage, list: Seq<ChatHistoryItem>) -> bool {
    forall|i: int|
        0 <= i < list.len() && list[i] is Message ==> (#[trigger] list[i])->Message_0.id
            > message.id
}

/// Whether the message is newer than all the messages with rows.
pub open spec fn is_newer_than_rows(message: HistoryMessage, list: Seq<ChatHistoryItem>) -> bool {
    forall|i: int|
        0 <= i < list.len() && list[i] is Message ==> (#[trigger] list[i])->Message_0.id
            < message.id
}

/// Whether the message is newer than all the members of the albums.
pub open spec fn is_newer_than_members(message: HistoryMessage, view: HistoryView) -> bool {
    forall|album_id: i64, i: int|
        #![trigger view.albums[album_id][i]]
        view.albums.contains_key(album_id) && 0 <= i < view.albums[album_id].len()
            ==> view.albums[album_id][i].id < message.id
}

/// Whether the ids of the messages descend.
pub open spec fn is_descending(messages: Seq<HistoryMessage>) -> bool {
    forall|i: int, j: int|
        #![trigger messages[i], messages[j]]
        0 <= i < j < messages.len() ==> messages[i].id > messages[j].id
}

/// Whether the ids of the messages ascend.
pub open spec fn is_rising(messages: Seq<HistoryMessage>) -> bool {
    forall|i: int, j: int|
        #![trigger messages[i], messages[j]]
        0 <= i < j < messages.len() ==> messages[i].id < messages[j].id
}

// Rows

proof fn lemma_fits(
    list: Seq<ChatHistoryItem>,
    chat: Set<HistoryMessage>,
    message: HistoryMessage,
)
    requires
        is_chronicle(chat),
        is_list_of(list, chat),
        chat.contains(message),
        !shows(list, message),
    ensures
        fits(list, message),
{
    assert forall|i: int| 0 <= i < list.len() implies match #[trigger] list[i] {
        ChatHistoryItem::Message(_) => is_in_front(list[i], ChatHistoryItem::Message(message))
            || is_in_front(ChatHistoryItem::Message(message), list[i]),
        ChatHistoryItem::DayDivider(timestamp) => is_comparable(timestamp, message.timestamp),
    } by {
        assert(is_of(list[i], chat));
        match list[i] {
            ChatHistoryItem::Message(other) => {
                assert(chat.contains(other));
            },
            ChatHistoryItem::DayDivider(timestamp) => {
                let other = choose|other: HistoryMessage| #[trigger]
                    chat.contains(other) && other.timestamp == timestamp;
                assert(chat.contains(other));
            },
        }
    }
}

proof fn lemma_spliced_of(
    list: Seq<ChatHistoryItem>,
    position: int,
    removed: int,
    added: Seq<ChatHistoryItem>,
    chat: Set<HistoryMessage>,
)
    requires
        is_list_of(list, chat),
        is_list_of(added, chat),
        0 <= position,
        0 <= removed,
        position + removed <= list.len(),
    ensures
        is_list_of(spliced(list, position, removed, added), chat),
{
    let result = spliced(list, position, removed, added);
    assert forall|i: int| 0 <= i < result.len() implies is_of(#[trigger] result[i], chat) by {
        if i < position {
            assert(result[i] == list[i]);
        } else if i < position + added.len() {
            assert(result[i] == added[i - position]);
        } else {
            assert(result[i] == list[i - added.len() + removed]);
        }
    }
}

proof fn lemma_divided_of(
    messages: Seq<HistoryMessage>,
    below: Option<CalendarDay>,
    chat: Set<HistoryMessage>,
)
    requires
        are_of(messages, chat),
    ensures
        is_list_of(with_dividers(messages, below), chat),
{
    let rows = with_dividers(messages, below);
    lemma_divider_sources(messages, below);
    assert forall|i: int| 0 <= i < rows.len() implies is_of(#[trigger] rows[i], chat) by {
        let k = choose|k: int|
            0 <= k < messages.len() && match rows[i] {
                ChatHistoryItem::Message(message) => message == #[trigger] messages[k],
                ChatHistoryItem::DayDivider(timestamp) => timestamp == messages[k].timestamp,
            };
        assert(chat.contains(messages[k]));
    }
}

proof fn lemma_add_rows_of(
    view: HistoryView,
    position: int,
    messages: Seq<HistoryMessage>,
    chat: Set<HistoryMessage>,
)
    requires
        is_list_of(view.list, chat),
        0 <= position <= view.list.len(),
        are_of(messages, chat),
    ensures
        is_list_of(view.add_rows(position, messages).list, chat),
{
    if messages.len() > 0 {
        let stale: int = if divides_day_of(view.list, position - 1, messages[0]) {
            1
        } else {
            0
        };
        let superseded: int = if divides_day_of(view.list, position, messages.last()) {
            1
        } else {
            0
        };
        let below = day_at(view.list, position);
        lemma_divided_of(messages, below, chat);
        lemma_spliced_of(
            view.list,
            position - stale,
            stale + superseded,
            with_dividers(messages, below),
            chat,
        );
    }
}

proof fn lemma_remove(view: HistoryView, message: HistoryMessage, chat: Set<HistoryMessage>)
    requires
        is_history_of(view, chat),
        chat.contains(message),
    ensures
        is_history_of(view.remove(message), chat),
        forall|other: HistoryMessage| #[trigger]
            shows(view.remove(message).list, other) <==> shows(view.list, other) && other
                != message,
        view.remove(message).albums == view.albums,
{
    let list = view.list;
    if shows(list, message) {
        let position = choose|i: int|
            0 <= i < list.len() && #[trigger] list[i] == ChatHistoryItem::Message(message);
        law_rows_are_found(list, position);
        law_removed_row_keeps_layout(view, position);
        let count: int = if is_divider(list, position + 1) && (position == 0 || is_divider(
            list,
            position - 1,
        )) {
            2
        } else {
            1
        };
        lemma_spliced_of(list, position, count, Seq::empty(), chat);
        assert forall|other: HistoryMessage| #[trigger]
            shows(view.remove(message).list, other) <==> shows(list, other) && other
            != message by {
            lemma_remove_shows(view, message, other);
        }
    } else {
        law_found_rows_are_right(list, message);
        if let Some(position) = row_position(list, message) {
            assert(is_of(list[position], chat));
            assert(list[position] == ChatHistoryItem::Message(message));
        }
        assert(view.remove(message) == view);
    }
}

proof fn lemma_insert_row(view: HistoryView, message: HistoryMessage, chat: Set<HistoryMessage>)
    requires
        is_history_of(view, chat),
        chat.contains(message),
        !shows(view.list, message),
    ensures
        is_history_of(view.insert_row(message), chat),
        forall|other: HistoryMessage| #[trigger]
            shows(view.insert_row(message).list, other) <==> shows(view.list, other) || other
                == message,
        view.insert_row(message).albums == view.albums,
{
    lemma_fits(view.list, chat, message);
    law_insert_position_splits(view.list, message);
    law_inserted_row_keeps_layout(view, message);
    assert(are_of(seq![message], chat));
    lemma_add_rows_of(view, insert_position(view.list, message), seq![message], chat);
    assert forall|other: HistoryMessage| #[trigger]
        shows(view.insert_row(message).list, other) <==> shows(view.list, other) || other
        == message by {
        lemma_insert_row_shows(view, message, other);
    }
}

/// Replacing the row of a message with the row of another one that has none
/// leaves the other rows as they are. The rows are still in order, and every
/// day that is shown still has its divider behind its rows and no other one.
pub proof fn law_swapped_representative_keeps_layout(
    view: HistoryView,
    replaced: HistoryMessage,
    representative: HistoryMessage,
    chat: Set<HistoryMessage>,
)
    requires
        is_history_of(view, chat),
        chat.contains(replaced),
        chat.contains(representative),
        replaced == representative || !shows(view.list, representative),
    ensures
        is_history_of(view.swap_representative(replaced, representative), chat),
        forall|other: HistoryMessage| #[trigger]
            shows(view.swap_representative(replaced, representative).list, other) <==> shows(
                view.list,
                other,
            ) && other != replaced || other == representative,
        view.swap_representative(replaced, representative).albums == view.albums,
{
    lemma_remove(view, replaced, chat);
    assert(!shows(view.remove(replaced).list, representative));
    lemma_insert_row(view.remove(replaced), representative, chat);
    let after = view.swap_representative(replaced, representative);
    assert forall|other: HistoryMessage| #[trigger] shows(after.list, other) <==> shows(
        view.list,
        other,
    ) && other != replaced || other == representative by {
        assert(shows(view.remove(replaced).list, other) <==> shows(view.list, other) && other
            != replaced);
    }
}

/// Whether the rows can be replaced one after the other: each one is either
/// put back or replaced with one that is not among the others.
pub open spec fn can_swap(
    list: Seq<ChatHistoryItem>,
    swaps: Seq<(HistoryMessage, HistoryMessage)>,
    chat: Set<HistoryMessage>,
) -> bool {
    forall|k: int|
        0 <= k < swaps.len() ==> {
            let (replaced, representative) = #[trigger] swaps[k];
            &&& chat.contains(replaced)
            &&& chat.contains(representative)
            &&& replaced == representative || !shows(list, representative) && forall|j: int|
                0 <= j < k ==> (#[trigger] swaps[j]).1 != representative
        }
}

pub proof fn lemma_swap_all(
    view: HistoryView,
    swaps: Seq<(HistoryMessage, HistoryMessage)>,
    chat: Set<HistoryMessage>,
)
    requires
        is_history_of(view, chat),
        can_swap(view.list, swaps, chat),
    ensures
        is_history_of(view.swap_all(swaps), chat),
        forall|other: HistoryMessage| #[trigger]
            shows(view.swap_all(swaps).list, other) ==> shows(view.list, other) || exists|j: int|
                0 <= j < swaps.len() && (#[trigger] swaps[j]).1 == other,
        view.swap_all(swaps).albums == view.albums,
    decreases swaps.len(),
{
    if swaps.len() > 0 {
        let rest = swaps.drop_last();
        let last = swaps.len() - 1;
        let before = view.swap_all(rest);
        let (replaced, representative) = swaps[last];
        assert forall|k: int| 0 <= k < rest.len() implies {
            let (replaced, representative) = #[trigger] rest[k];
            &&& chat.contains(replaced)
            &&& chat.contains(representative)
            &&& replaced == representative || !shows(view.list, representative) && forall|j: int|
                0 <= j < k ==> (#[trigger] rest[j]).1 != representative
        } by {
            assert(rest[k] == swaps[k]);
            assert forall|j: int|
                0 <= j < k && swaps[k].0 != swaps[k].1 implies (#[trigger] rest[j]).1
                != swaps[k].1 by {
                assert(rest[j] == swaps[j]);
            }
        }
        lemma_swap_all(view, rest, chat);
        if replaced != representative && shows(before.list, representative) {
            let j = choose|j: int| 0 <= j < rest.len() && (#[trigger] rest[j]).1 == representative;
            assert(rest[j] == swaps[j]);
        }
        law_swapped_representative_keeps_layout(before, replaced, representative, chat);
        assert forall|other: HistoryMessage| #[trigger]
            shows(view.swap_all(swaps).list, other) implies shows(view.list, other) || exists|
            j: int,
        |
            0 <= j < swaps.len() && (#[trigger] swaps[j]).1 == other by {
            if other == representative {
                assert(swaps[last].1 == other);
            } else if !shows(view.list, other) {
                assert(shows(before.list, other));
                let j = choose|j: int| 0 <= j < rest.len() && (#[trigger] rest[j]).1 == other;
                assert(rest[j] == swaps[j]);
            }
        }
    }
}

// Albums

/// Whether the message is a member of its album.
pub open spec fn is_member(view: HistoryView, message: HistoryMessage) -> bool {
    view.albums.contains_key(message.media_album_id)
        && view.albums[message.media_album_id].contains(message)
}

pub proof fn lemma_join(view: HistoryView, message: HistoryMessage, chat: Set<HistoryMessage>)
    requires
        view.wf(),
        are_members_of(view, chat),
        is_chronicle(chat),
        chat.contains(message),
    ensures
        view.join_album(message).wf(),
        are_members_of(view.join_album(message), chat),
        view.join_album(message).list == view.list,
        forall|other: HistoryMessage| #[trigger]
            is_member(view.join_album(message), other) <==> is_member(view, other) || other
                == message && message.media_album_id != 0 && message.is_groupable,
{
    let own = message.media_album_id;
    let after = view.join_album(message);
    if own != 0 && message.is_groupable {
        let members = if view.albums.contains_key(own) {
            view.albums[own]
        } else {
            Seq::empty()
        };
        let joined = with_message(members, message);
        lemma_joined_members(view, message, joined);
        assert(after.albums == view.albums.insert(own, joined));
        assert(after.wf());
        assert(are_of(members, chat));
        lemma_older_count(members, message.id);
        let at = older_count(members, message.id) as int;
        assert forall|other: HistoryMessage| joined.contains(other) <==> members.contains(other)
            || other == message by {
            if has_message(members, message.id) {
                let k = choose|k: int| 0 <= k < members.len() && (#[trigger] members[k]).id
                    == message.id;
                assert(chat.contains(members[k]));
                assert(members[k] == message);
            } else {
                assert(joined[at] == message);
                if members.contains(other) {
                    let k = choose|k: int| 0 <= k < members.len() && members[k] == other;
                    if k < at {
                        assert(joined[k] == other);
                    } else {
                        assert(joined[k + 1] == other);
                    }
                }
                if joined.contains(other) {
                    let k = choose|k: int| 0 <= k < joined.len() && joined[k] == other;
                    if k < at {
                        assert(members[k] == other);
                    } else if k > at {
                        assert(members[k - 1] == other);
                    }
                }
            }
        }
        assert(are_of(joined, chat)) by {
            assert forall|i: int| 0 <= i < joined.len() implies chat.contains(
                #[trigger] joined[i],
            ) by {
                assert(joined.contains(joined[i]));
                if members.contains(joined[i]) {
                    let k = choose|k: int| 0 <= k < members.len() && members[k] == joined[i];
                    assert(chat.contains(members[k]));
                }
            }
        }
        assert forall|album_id: i64| #[trigger] after.albums.contains_key(album_id) implies are_of(
            after.albums[album_id],
            chat,
        ) by {
            if album_id != own {
                assert(view.albums.contains_key(album_id));
            }
        }
    }
}

/// What is known of the messages that are integrated into their albums: the
/// ones that need rows keep their order, and the rows can be replaced.
pub proof fn lemma_integrate(
    view: HistoryView,
    messages: Seq<HistoryMessage>,
    chat: Set<HistoryMessage>,
)
    requires
        view.wf(),
        are_members_of(view, chat),
        is_chronicle(chat),
        are_of(messages, chat),
        messages.no_duplicates(),
    ensures
        view.integrate(messages).view.wf(),
        are_members_of(view.integrate(messages).view, chat),
        view.integrate(messages).view.list == view.list,
        forall|i: int|
            0 <= i < view.integrate(messages).rows.len() ==> messages.contains(
                #[trigger] view.integrate(messages).rows[i],
            ),
        forall|i: int, j: int|
            #![trigger view.integrate(messages).rows[i], view.integrate(messages).rows[j]]
            0 <= i < j < view.integrate(messages).rows.len() ==> exists|p: int, q: int|
                #![trigger messages[p], messages[q]]
                0 <= p < q < messages.len() && messages[p] == view.integrate(messages).rows[i]
                    && messages[q] == view.integrate(messages).rows[j],
        forall|k: int|
            0 <= k < view.integrate(messages).swaps.len() ==> {
                let swap = #[trigger] view.integrate(messages).swaps[k];
                &&& chat.contains(swap.0)
                &&& chat.contains(swap.1)
                &&& is_member(view.integrate(messages).view, swap.1)
                &&& swap.0 == swap.1 || messages.contains(swap.1) && !view.integrate(
                    messages,
                ).rows.contains(swap.1) && forall|j: int|
                    0 <= j < k ==> (#[trigger] view.integrate(messages).swaps[j]).1 != swap.1
            },
    decreases messages.len(),
{
    if messages.len() > 0 {
        let rest = messages.drop_last();
        let last = messages.len() - 1;
        let message = messages[last];
        let before = view.integrate(rest);
        let after = view.integrate(messages);
        assert(are_of(rest, chat)) by {
            assert forall|i: int| 0 <= i < rest.len() implies chat.contains(#[trigger] rest[i]) by {
                assert(rest[i] == messages[i]);
            }
        }
        assert(rest.no_duplicates()) by {
            assert forall|i: int, j: int|
                0 <= i < rest.len() && 0 <= j < rest.len() && i != j implies rest[i] != rest[j] by {
                assert(rest[i] == messages[i] && rest[j] == messages[j]);
            }
        }
        assert(!rest.contains(message)) by {
            if rest.contains(message) {
                let k = choose|k: int| 0 <= k < rest.len() && rest[k] == message;
                assert(messages[k] == messages[last]);
            }
        }
        lemma_integrate(view, rest, chat);
        lemma_join(before.view, message, chat);
        let own = message.media_album_id;
        let handling = before.view.album_handling(message);
        assert forall|other: HistoryMessage| rest.contains(other) implies messages.contains(
            other,
        ) by {
            let k = choose|k: int| 0 <= k < rest.len() && rest[k] == other;
            assert(messages[k] == other);
        }
        assert forall|i: int| 0 <= i < after.rows.len() implies messages.contains(
            #[trigger] after.rows[i],
        ) by {
            if i < before.rows.len() {
                assert(after.rows[i] == before.rows[i]);
            }
        }
        assert forall|i: int, j: int|
            #![trigger after.rows[i], after.rows[j]]
            0 <= i < j < after.rows.len() implies exists|p: int, q: int|
            #![trigger messages[p], messages[q]]
            0 <= p < q < messages.len() && messages[p] == after.rows[i] && messages[q]
                == after.rows[j] by {
            assert(after.rows[i] == before.rows[i]);
            if j < before.rows.len() {
                assert(after.rows[j] == before.rows[j]);
                let (p, q) = choose|p: int, q: int|
                    #![trigger rest[p], rest[q]]
                    0 <= p < q < rest.len() && rest[p] == before.rows[i] && rest[q]
                        == before.rows[j];
                assert(messages[p] == rest[p] && messages[q] == rest[q]);
            } else {
                assert(rest.contains(before.rows[i]));
                let p = choose|p: int| 0 <= p < rest.len() && rest[p] == before.rows[i];
                assert(messages[p] == rest[p] && messages[last] == after.rows[j]);
            }
        }
        if let AlbumHandling::Promoted { replaced, representative } = handling {
            let members = before.view.albums[own];
            assert(are_of(members, chat));
            assert(members[0].media_album_id == own);
            assert(members.contains(members[0]));
            assert(is_member(before.view, members[0]));
            assert(replaced == members[0]);
            assert(!(replaced != representative && is_member(before.view, message))) by {
                if message.id < members[0].id && members.contains(message) {
                    let k = choose|k: int| 0 <= k < members.len() && members[k] == message;
                    if k > 0 {
                        assert(members[0].id < members[k].id);
                    }
                }
            }
        }
        assert forall|k: int| 0 <= k < after.swaps.len() implies {
            let swap = #[trigger] after.swaps[k];
            &&& chat.contains(swap.0)
            &&& chat.contains(swap.1)
            &&& is_member(after.view, swap.1)
            &&& swap.0 == swap.1 || messages.contains(swap.1) && !after.rows.contains(swap.1)
                && forall|j: int| 0 <= j < k ==> (#[trigger] after.swaps[j]).1 != swap.1
        } by {
            let swap = after.swaps[k];
            if k < before.swaps.len() {
                assert(swap == before.swaps[k]);
                if swap.0 != swap.1 {
                    assert(rest.contains(swap.1));
                    if after.rows.contains(swap.1) {
                        let i = choose|i: int| 0 <= i < after.rows.len() && after.rows[i]
                            == swap.1;
                        if i < before.rows.len() {
                            assert(before.rows[i] == swap.1);
                        }
                    }
                    assert forall|j: int| 0 <= j < k implies (#[trigger] after.swaps[j]).1
                        != swap.1 by {
                        assert(after.swaps[j] == before.swaps[j]);
                    }
                }
            } else if swap.0 != swap.1 {
                assert(swap.1 == message);
                assert(messages.contains(message));
                assert(after.rows == before.rows);
                if before.rows.contains(message) {
                    let i = choose|i: int| 0 <= i < before.rows.len() && before.rows[i] == message;
                    assert(rest.contains(before.rows[i]));
                }
                assert forall|j: int| 0 <= j < k implies (#[trigger] after.swaps[j]).1
                    != swap.1 by {
                    assert(after.swaps[j] == before.swaps[j]);
                    assert(is_member(before.view, before.swaps[j].1));
                }
            }
        }
    }
}

// Places

/// Messages that are older than the rows can join them at the back.
proof fn lemma_can_join_back(
    list: Seq<ChatHistoryItem>,
    messages: Seq<HistoryMessage>,
    chat: Set<HistoryMessage>,
)
    requires
        is_chronicle(chat),
        is_laid_out(list),
        is_list_of(list, chat),
        are_of(messages, chat),
        is_descending(messages),
        forall|k: int| 0 <= k < messages.len() ==> is_older_than_rows(#[trigger] messages[k], list),
    ensures
        can_join(list, list.len() as int, messages),
{
    let len = list.len() as int;
    lemma_newest_first(messages, chat);
    assert forall|i: int, k: int|
        #![trigger list[i], messages[k]]
        0 <= i < len && 0 <= k < messages.len() implies is_in_front(
        list[i],
        ChatHistoryItem::Message(messages[k]),
    ) || i == len - 1 && closes_day_of(list[i], messages[0]) by {
        let message = messages[k];
        assert(chat.contains(message));
        assert(is_older_than_rows(messages[k], list));
        assert(is_of(list[i], chat));
        match list[i] {
            ChatHistoryItem::Message(other) => {
                assert(chat.contains(other));
            },
            ChatHistoryItem::DayDivider(timestamp) => {
                let other = choose|other: HistoryMessage| #[trigger]
                    chat.contains(other) && other.timestamp == timestamp;
                assert(has_message_above(list, i));
                assert(is_of(list[i - 1], chat));
                let above = list[i - 1]->Message_0;
                assert(chat.contains(above) && above.id > message.id);
                assert(chat.contains(messages[0]));
                assert(is_older_than_rows(messages[0], list));
                if message.timestamp.day == timestamp.day {
                    if i < len - 1 {
                        assert(is_in_front(list[i], list[i + 1]));
                        if list[i + 1] is DayDivider {
                            assert(has_message_above(list, i + 1));
                        }
                        assert(is_of(list[i + 1], chat));
                        let next = list[i + 1]->Message_0;
                        assert(chat.contains(next) && next.id > message.id);
                    }
                    if k > 0 {
                        assert(messages[0].id > messages[k].id);
                    }
                }
            },
        }
    }
}

/// Messages that are newer than the rows can join them at the front.
proof fn lemma_can_join_front(
    list: Seq<ChatHistoryItem>,
    messages: Seq<HistoryMessage>,
    chat: Set<HistoryMessage>,
)
    requires
        is_chronicle(chat),
        is_laid_out(list),
        is_list_of(list, chat),
        are_of(messages, chat),
        is_descending(messages),
        forall|k: int| 0 <= k < messages.len() ==> is_newer_than_rows(#[trigger] messages[k], list),
    ensures
        can_join(list, 0, messages),
{
    lemma_newest_first(messages, chat);
    assert forall|i: int, k: int|
        #![trigger list[i], messages[k]]
        0 <= i < list.len() && 0 <= k < messages.len() implies is_in_front(
        ChatHistoryItem::Message(messages[k]),
        list[i],
    ) by {
        assert(chat.contains(messages[k]));
        assert(is_newer_than_rows(messages[k], list));
        assert(is_of(list[i], chat));
        if list[i] is DayDivider {
            assert(has_message_above(list, i));
            assert(is_of(list[i - 1], chat));
            assert(is_in_front(list[i - 1], list[i]));
        }
    }
}

proof fn lemma_newest_first(messages: Seq<HistoryMessage>, chat: Set<HistoryMessage>)
    requires
        is_chronicle(chat),
        are_of(messages, chat),
        is_descending(messages),
    ensures
        is_newest_first(messages),
{
    assert forall|i: int, j: int|
        #![trigger messages[i], messages[j]]
        0 <= i < j < messages.len() implies is_in_front(
        ChatHistoryItem::Message(messages[i]),
        ChatHistoryItem::Message(messages[j]),
    ) by {
        assert(chat.contains(messages[i]) && chat.contains(messages[j]));
    }
}

// Operations

proof fn lemma_push_front(view: HistoryView, message: HistoryMessage, chat: Set<HistoryMessage>)
    requires
        is_history_of(view, chat),
        chat.contains(message),
        is_newer_than_rows(message, view.list),
    ensures
        is_history_of(view.push_front(message), chat),
        view.push_front(message).albums == view.join_album(message).albums,
        forall|other: HistoryMessage| #[trigger]
            shows(view.push_front(message).list, other) ==> shows(view.list, other) || other
                == message || is_member(view, other),
{
    let joined = view.join_album(message);
    lemma_join(view, message, chat);
    assert(!shows(view.list, message));
    match view.album_handling(message) {
        AlbumHandling::Row => {
            let messages = seq![message];
            assert(are_of(messages, chat));
            assert forall|k: int| 0 <= k < messages.len() implies is_newer_than_rows(
                #[trigger] messages[k],
                joined.list,
            ) by {}
            lemma_can_join_front(joined.list, messages, chat);
            law_newer_rows_keep_layout(joined, messages);
            lemma_add_rows_of(joined, 0, messages, chat);
            assert forall|other: HistoryMessage| #[trigger]
                shows(view.push_front(message).list, other) implies shows(view.list, other) || other
                == message || is_member(view, other) by {
                lemma_add_rows_shows(joined, 0, messages, other);
            }
        },
        AlbumHandling::Merged => {},
        AlbumHandling::Promoted { replaced, representative } => {
            lemma_promoted(view, message, chat);
            law_swapped_representative_keeps_layout(joined, replaced, representative, chat);
        },
    }
}

/// Whose row is replaced, and who replaces it.
proof fn lemma_promoted(view: HistoryView, message: HistoryMessage, chat: Set<HistoryMessage>)
    requires
        view.wf(),
        are_members_of(view, chat),
        chat.contains(message),
        view.album_handling(message) is Promoted,
    ensures
        ({
            let handling = view.album_handling(message);
            &&& chat.contains(handling->replaced)
            &&& chat.contains(handling->representative)
            &&& is_member(view, handling->replaced)
            &&& handling->replaced == handling->representative || handling->representative
                == message
        }),
{
    let members = view.albums[message.media_album_id];
    assert(are_of(members, chat));
    assert(chat.contains(members[0]));
    assert(members[0].media_album_id == message.media_album_id);
    assert(members.contains(members[0]));
}

/// A message that arrives and is newer than the rows, whichever album it
/// belongs to, keeps the history laid out.
pub proof fn law_receive_keeps_layout(
    view: HistoryView,
    message: HistoryMessage,
    chat: Set<HistoryMessage>,
)
    requires
        is_history_of(view, chat),
        chat.contains(message),
        is_newer_than_rows(message, view.list),
    ensures
        is_history_of(view.receive(message), chat),
{
    lemma_push_front(view, message, chat);
}

/// A message that has no row yet and is put where it belongs, whichever album
/// it belongs to, keeps the history laid out.
pub proof fn law_insert_keeps_layout(
    view: HistoryView,
    message: HistoryMessage,
    chat: Set<HistoryMessage>,
)
    requires
        is_history_of(view, chat),
        chat.contains(message),
        !shows(view.list, message),
    ensures
        is_history_of(view.insert(message), chat),
{
    let joined = view.join_album(message);
    lemma_join(view, message, chat);
    match view.album_handling(message) {
        AlbumHandling::Row => {
            lemma_insert_row(joined, message, chat);
        },
        AlbumHandling::Merged => {},
        AlbumHandling::Promoted { replaced, representative } => {
            lemma_promoted(view, message, chat);
            law_swapped_representative_keeps_layout(joined, replaced, representative, chat);
        },
    }
}

/// A message that is deleted, whichever album it belongs to, leaves the history
/// laid out.
pub proof fn law_delete_keeps_layout(
    view: HistoryView,
    message: HistoryMessage,
    chat: Set<HistoryMessage>,
)
    requires
        is_history_of(view, chat),
        albums_have_one_row(view),
        chat.contains(message),
    ensures
        is_history_of(view.delete(message), chat),
{
    let kept = HistoryView { pending: other_than(view.pending, message.id), ..view };
    let album_id = message.media_album_id;
    if album_id == 0 || !view.albums.contains_key(album_id) {
        lemma_remove(kept, message, chat);
    } else {
        let album = view.albums[album_id];
        let rest = without_message(album, message.id);
        let was_representative = album[0].id == message.id;
        assert(are_of(album, chat));
        assert(chat.contains(album[0]));
        lemma_left_members(kept, album_id, message.id);
        lemma_older_count(album, message.id);
        let at = older_count(album, message.id) as int;
        assert(are_of(rest, chat)) by {
            assert forall|i: int| 0 <= i < rest.len() implies chat.contains(#[trigger] rest[i]) by {
                if !has_message(album, message.id) || i < at {
                    assert(rest[i] == album[i]);
                } else {
                    assert(rest[i] == album[i + 1]);
                }
            }
        }
        let left = if has_message(album, message.id) {
            kept.changed(
                HistoryChange::Album {
                    album_id,
                    position: at,
                    removed: 1,
                    messages: Seq::empty(),
                },
            )
        } else {
            kept
        };
        let base = HistoryView {
            albums: if rest.len() >= 2 {
                view.albums.insert(album_id, rest)
            } else {
                view.albums.remove(album_id)
            },
            ..left
        };
        assert(base.wf());
        assert(are_members_of(base, chat)) by {
            assert forall|other: i64| #[trigger] base.albums.contains_key(other) implies are_of(
                base.albums[other],
                chat,
            ) by {
                if other != album_id {
                    assert(view.albums.contains_key(other));
                }
            }
        }
        assert(is_history_of(base, chat));
        if rest.len() == 0 {
            lemma_remove(base, message, chat);
        } else {
            let role = base.changed(
                HistoryChange::Representative {
                    message_id: rest[0].id,
                    represents: if rest.len() >= 2 {
                        Some(album_id)
                    } else {
                        None
                    },
                },
            );
            assert(is_history_of(role, chat));
            if was_representative {
                assert(has_message(album, message.id));
                assert(at == 0);
                assert(rest[0] == view.albums[album_id][1]);
                assert(!shows(view.list, view.albums[album_id][1]));
                law_swapped_representative_keeps_layout(role, message, rest[0], chat);
            } else if rest.len() == 1 {
                law_swapped_representative_keeps_layout(role, rest[0], rest[0], chat);
            }
        }
    }
}

/// Messages that are older than the rows get their rows at the back, after which
/// rows can be replaced.
pub proof fn lemma_appended_rows(
    view: HistoryView,
    messages: Seq<HistoryMessage>,
    chat: Set<HistoryMessage>,
)
    requires
        is_history_of(view, chat),
        are_of(messages, chat),
        is_descending(messages),
        forall|k: int|
            0 <= k < messages.len() ==> is_older_than_rows(#[trigger] messages[k], view.list),
    ensures
        is_history_of(
            view.integrate(messages).view.add_rows(
                view.list.len() as int,
                view.integrate(messages).rows,
            ),
            chat,
        ),
        can_swap(
            view.integrate(messages).view.add_rows(
                view.list.len() as int,
                view.integrate(messages).rows,
            ).list,
            view.integrate(messages).swaps,
            chat,
        ),
{
    let len = view.list.len() as int;
    let integration = view.integrate(messages);
    let rows = integration.rows;
    lemma_integrate(view, messages, chat);
    assert(is_descending(rows)) by {
        assert forall|i: int, j: int|
            #![trigger rows[i], rows[j]]
            0 <= i < j < rows.len() implies rows[i].id > rows[j].id by {
            let (p, q) = choose|p: int, q: int|
                #![trigger messages[p], messages[q]]
                0 <= p < q < messages.len() && messages[p] == rows[i] && messages[q] == rows[j];
            assert(messages[p].id > messages[q].id);
        }
    }
    assert forall|k: int| 0 <= k < rows.len() implies chat.contains(#[trigger] rows[k])
        && is_older_than_rows(rows[k], view.list) by {
        assert(messages.contains(rows[k]));
        let p = choose|p: int| 0 <= p < messages.len() && messages[p] == rows[k];
        assert(chat.contains(messages[p]) && is_older_than_rows(messages[p], view.list));
    }
    lemma_can_join_back(view.list, rows, chat);
    law_older_rows_keep_layout(integration.view, rows);
    lemma_add_rows_of(integration.view, len, rows, chat);
    let added = integration.view.add_rows(len, rows);
    assert forall|message: HistoryMessage|
        messages.contains(message) && !rows.contains(message) implies !shows(
        added.list,
        message,
    ) by {
        let p = choose|p: int| 0 <= p < messages.len() && messages[p] == message;
        assert(is_older_than_rows(messages[p], view.list));
        assert(!shows(view.list, message));
        if rows.len() > 0 {
            lemma_add_rows_shows(integration.view, len, rows, message);
        }
    }
}

pub proof fn lemma_append(
    view: HistoryView,
    messages: Seq<HistoryMessage>,
    chat: Set<HistoryMessage>,
)
    requires
        is_history_of(view, chat),
        are_of(messages, chat),
        is_descending(messages),
        forall|k: int|
            0 <= k < messages.len() ==> is_older_than_rows(#[trigger] messages[k], view.list),
    ensures
        is_history_of(view.append(messages), chat),
{
    let integration = view.integrate(messages);
    lemma_appended_rows(view, messages, chat);
    lemma_swap_all(
        integration.view.add_rows(view.list.len() as int, integration.rows),
        integration.swaps,
        chat,
    );
}

/// Messages that are newer than the rows get their rows at the front, after
/// which rows can be replaced.
pub proof fn lemma_prepended_rows(
    view: HistoryView,
    messages: Seq<HistoryMessage>,
    chat: Set<HistoryMessage>,
)
    requires
        is_history_of(view, chat),
        are_of(messages, chat),
        is_descending(messages),
        forall|k: int|
            0 <= k < messages.len() ==> is_newer_than_rows(#[trigger] messages[k], view.list),
    ensures
        messages.reverse().no_duplicates(),
        are_of(messages.reverse(), chat),
        is_history_of(
            view.integrate(messages.reverse()).view.add_rows(
                0,
                view.integrate(messages.reverse()).rows.reverse(),
            ),
            chat,
        ),
        can_swap(
            view.integrate(messages.reverse()).view.add_rows(
                0,
                view.integrate(messages.reverse()).rows.reverse(),
            ).list,
            view.integrate(messages.reverse()).swaps,
            chat,
        ),
{
    let reversed = messages.reverse();
    let len = messages.len();
    assert(are_of(reversed, chat)) by {
        assert forall|i: int| 0 <= i < reversed.len() implies chat.contains(
            #[trigger] reversed[i],
        ) by {
            assert(reversed[i] == messages[len - 1 - i]);
        }
    }
    assert(reversed.no_duplicates()) by {
        assert forall|i: int, j: int|
            0 <= i < reversed.len() && 0 <= j < reversed.len() && i != j implies reversed[i]
            != reversed[j] by {
            assert(reversed[i] == messages[len - 1 - i] && reversed[j] == messages[len - 1 - j]);
        }
    }
    let integration = view.integrate(reversed);
    lemma_integrate(view, reversed, chat);
    let rows = integration.rows.reverse();
    let count = integration.rows.len();
    assert(is_descending(rows)) by {
        assert forall|i: int, j: int|
            #![trigger rows[i], rows[j]]
            0 <= i < j < rows.len() implies rows[i].id > rows[j].id by {
            assert(rows[i] == integration.rows[count - 1 - i]);
            assert(rows[j] == integration.rows[count - 1 - j]);
            let (p, q) = choose|p: int, q: int|
                #![trigger reversed[p], reversed[q]]
                0 <= p < q < reversed.len() && reversed[p] == rows[j] && reversed[q] == rows[i];
            assert(reversed[p] == messages[len - 1 - p]);
            assert(reversed[q] == messages[len - 1 - q]);
            assert(messages[len - 1 - q].id > messages[len - 1 - p].id);
        }
    }
    assert forall|message: HistoryMessage| reversed.contains(message) implies chat.contains(message)
        && is_newer_than_rows(message, view.list) by {
        let p = choose|p: int| 0 <= p < reversed.len() && reversed[p] == message;
        assert(reversed[p] == messages[len - 1 - p]);
        assert(chat.contains(messages[len - 1 - p]));
        assert(is_newer_than_rows(messages[len - 1 - p], view.list));
    }
    assert forall|k: int| 0 <= k < rows.len() implies chat.contains(#[trigger] rows[k])
        && is_newer_than_rows(rows[k], view.list) by {
        assert(rows[k] == integration.rows[count - 1 - k]);
        assert(reversed.contains(integration.rows[count - 1 - k]));
    }
    lemma_can_join_front(view.list, rows, chat);
    law_newer_rows_keep_layout(integration.view, rows);
    lemma_add_rows_of(integration.view, 0, rows, chat);
    let added = integration.view.add_rows(0, rows);
    assert forall|message: HistoryMessage|
        reversed.contains(message) && !integration.rows.contains(message) implies !shows(
        added.list,
        message,
    ) by {
        assert(is_newer_than_rows(message, view.list));
        assert(!shows(view.list, message));
        if rows.len() > 0 {
            lemma_add_rows_shows(integration.view, 0, rows, message);
            if rows.contains(message) {
                let k = choose|k: int| 0 <= k < rows.len() && rows[k] == message;
                assert(integration.rows[count - 1 - k] == message);
            }
        }
    }
}

pub proof fn lemma_prepend(
    view: HistoryView,
    messages: Seq<HistoryMessage>,
    chat: Set<HistoryMessage>,
)
    requires
        is_history_of(view, chat),
        are_of(messages, chat),
        is_descending(messages),
        forall|k: int|
            0 <= k < messages.len() ==> is_newer_than_rows(#[trigger] messages[k], view.list),
    ensures
        is_history_of(view.prepend(messages), chat),
{
    let integration = view.integrate(messages.reverse());
    lemma_prepended_rows(view, messages, chat);
    lemma_swap_all(
        integration.view.add_rows(0, integration.rows.reverse()),
        integration.swaps,
        chat,
    );
}

/// Whether the message is newer than everything that the history knows.
pub open spec fn is_newest_known(message: HistoryMessage, view: HistoryView) -> bool {
    is_newer_than_rows(message, view.list) && is_newer_than_members(message, view)
}

/// What is newer than a message that is pushed stays newer than what is known.
proof fn lemma_push_front_known(
    view: HistoryView,
    message: HistoryMessage,
    newer: HistoryMessage,
    chat: Set<HistoryMessage>,
)
    requires
        is_history_of(view, chat),
        chat.contains(message),
        is_newest_known(message, view),
        is_newest_known(newer, view),
        newer.id > message.id,
    ensures
        is_newest_known(newer, view.push_front(message)),
{
    let after = view.push_front(message);
    lemma_push_front(view, message, chat);
    lemma_join(view, message, chat);
    assert forall|other: HistoryMessage| is_member(view, other) implies other.id < newer.id by {
        let members = view.albums[other.media_album_id];
        let k = choose|k: int| 0 <= k < members.len() && members[k] == other;
        assert(view.albums[other.media_album_id][k].id < newer.id);
    }
    assert forall|i: int| 0 <= i < after.list.len() && after.list[i] is Message implies (
    #[trigger] after.list[i])->Message_0.id < newer.id by {
        let other = after.list[i]->Message_0;
        assert(shows(after.list, other));
        if shows(view.list, other) {
            let k = choose|k: int|
                0 <= k < view.list.len() && #[trigger] view.list[k] == ChatHistoryItem::Message(
                    other,
                );
            assert(view.list[k]->Message_0.id < newer.id);
        }
    }
    assert forall|album_id: i64, i: int|
        #![trigger after.albums[album_id][i]]
        after.albums.contains_key(album_id) && 0 <= i
            < after.albums[album_id].len() implies after.albums[album_id][i].id < newer.id by {
        let member = after.albums[album_id][i];
        assert(member.media_album_id == album_id);
        assert(after.albums[album_id].contains(member));
        assert(is_member(view.join_album(message), member));
    }
}

pub proof fn lemma_push_all_front(
    view: HistoryView,
    messages: Seq<HistoryMessage>,
    chat: Set<HistoryMessage>,
)
    requires
        is_history_of(view, chat),
        are_of(messages, chat),
        is_rising(messages),
        forall|k: int| 0 <= k < messages.len() ==> is_newest_known(#[trigger] messages[k], view),
    ensures
        is_history_of(view.push_all_front(messages), chat),
        forall|newer: HistoryMessage|
            is_newest_known(newer, view) && (forall|k: int|
                0 <= k < messages.len() ==> (#[trigger] messages[k]).id < newer.id)
                ==> #[trigger] is_newest_known(newer, view.push_all_front(messages)),
    decreases messages.len(),
{
    if messages.len() > 0 {
        let rest = messages.drop_last();
        let last = messages.len() - 1;
        let message = messages[last];
        let before = view.push_all_front(rest);
        assert forall|k: int| 0 <= k < rest.len() implies chat.contains(#[trigger] rest[k])
            && is_newest_known(rest[k], view) && rest[k].id < message.id by {
            assert(rest[k] == messages[k]);
            assert(messages[k].id < messages[last].id);
        }
        assert(is_rising(rest)) by {
            assert forall|i: int, j: int|
                #![trigger rest[i], rest[j]]
                0 <= i < j < rest.len() implies rest[i].id < rest[j].id by {
                assert(rest[i] == messages[i] && rest[j] == messages[j]);
            }
        }
        lemma_push_all_front(view, rest, chat);
        assert(is_newest_known(message, before));
        lemma_push_front(before, message, chat);
        assert forall|newer: HistoryMessage|
            is_newest_known(newer, view) && (forall|k: int|
                0 <= k < messages.len() ==> (#[trigger] messages[k]).id
                    < newer.id) implies #[trigger] is_newest_known(
            newer,
            view.push_all_front(messages),
        ) by {
            assert forall|k: int| 0 <= k < rest.len() implies (#[trigger] rest[k]).id
                < newer.id by {
                assert(rest[k] == messages[k]);
            }
            assert(is_newest_known(newer, before));
            assert(messages[last].id < newer.id);
            lemma_push_front_known(before, message, newer, chat);
        }
    }
}

/// Showing the messages that waited keeps the history laid out, if they arrived
/// in order and are newer than everything that is known.
pub proof fn law_reach_newest_keeps_layout(view: HistoryView, chat: Set<HistoryMessage>)
    requires
        is_history_of(view, chat),
        are_of(view.pending, chat),
        is_rising(view.pending),
        forall|k: int|
            0 <= k < view.pending.len() ==> is_newest_known(#[trigger] view.pending[k], view),
    ensures
        is_history_of(view.reach_newest(), chat),
{
    let drained = HistoryView { at_newest: true, pending: Seq::empty(), ..view };
    assert forall|k: int| 0 <= k < view.pending.len() implies is_newest_known(
        #[trigger] view.pending[k],
        drained,
    ) by {
        assert(is_newest_known(view.pending[k], view));
    }
    lemma_push_all_front(drained, view.pending, chat);
}

proof fn lemma_forget(view: HistoryView, items: Seq<ChatHistoryItem>, chat: Set<HistoryMessage>)
    requires
        view.wf(),
        are_members_of(view, chat),
    ensures
        view.forget_albums_of(items).wf(),
        are_members_of(view.forget_albums_of(items), chat),
    decreases items.len(),
{
    if items.len() > 0 {
        let before = view.forget_albums_of(items.drop_last());
        let after = view.forget_albums_of(items);
        lemma_forget(view, items.drop_last(), chat);
        assert forall|album_id: i64| #[trigger]
            after.albums.contains_key(album_id) implies before.albums.contains_key(album_id)
            && after.albums[album_id] == before.albums[album_id] by {}
    }
}

proof fn lemma_trim_front(view: HistoryView, chat: Set<HistoryMessage>)
    requires
        is_history_of(view, chat),
    ensures
        is_history_of(view.trim_front(), chat),
{
    law_trim_front_keeps_layout(view);
    if view.list.len() > TRIM_AT_ITEMS {
        let trimmed = view.list.len() - TRIM_TO_ITEMS;
        let rest = view.list.skip(trimmed);
        lemma_forgetting_keeps_rest(view, view.list.take(trimmed));
        lemma_forget(view, view.list.take(trimmed), chat);
        lemma_leading_dividers(rest);
        lemma_spliced_of(
            view.list,
            0,
            trimmed + leading_dividers(rest),
            Seq::empty(),
            chat,
        );
    }
}

/// Whether no row is older than the message from which older ones are asked
/// for. There are no rows yet if they are asked for from the newest one on.
pub open spec fn is_oldest_end(list: Seq<ChatHistoryItem>, from: MessageId) -> bool {
    forall|i: int|
        0 <= i < list.len() && list[i] is Message ==> from != 0 && (
        #[trigger] list[i])->Message_0.id >= from
}

/// Loading older messages, whichever albums they belong to, keeps the history
/// laid out.
pub proof fn law_load_older_keeps_layout(
    view: HistoryView,
    from: MessageId,
    answer: Seq<HistoryMessage>,
    chat: Set<HistoryMessage>,
)
    requires
        is_history_of(view, chat),
        is_oldest_end(view.list, from),
        are_of(answer, chat),
        is_descending(answer),
    ensures
        is_history_of(view.load_older(from, answer), chat),
{
    let idle = HistoryView { is_loading_older: false, ..view };
    let older = |message: HistoryMessage| from == 0 || message.id < from;
    let messages = older_than(answer, from);
    assert(messages == answer.filter(older));
    lemma_filtered(answer, older, chat);
    assert forall|k: int| 0 <= k < messages.len() implies is_older_than_rows(
        #[trigger] messages[k],
        idle.list,
    ) by {
        answer.lemma_filter_pred(older, k);
    }
    if messages.len() > 0 {
        lemma_append(idle, messages, chat);
        lemma_trim_front(idle.append(messages), chat);
    }
}

/// Some of the messages are of the chat and in order, too.
pub proof fn lemma_filtered(
    messages: Seq<HistoryMessage>,
    keep: spec_fn(HistoryMessage) -> bool,
    chat: Set<HistoryMessage>,
)
    requires
        are_of(messages, chat),
        is_descending(messages),
    ensures
        are_of(messages.filter(keep), chat),
        is_descending(messages.filter(keep)),
        forall|i: int|
            0 <= i < messages.filter(keep).len() ==> messages.contains(
                #[trigger] messages.filter(keep)[i],
            ),
    decreases messages.len(),
{
    reveal(Seq::filter);
    if messages.len() > 0 {
        let rest = messages.drop_last();
        let last = messages.len() - 1;
        let before = rest.filter(keep);
        let after = messages.filter(keep);
        assert(are_of(rest, chat)) by {
            assert forall|i: int| 0 <= i < rest.len() implies chat.contains(#[trigger] rest[i]) by {
                assert(rest[i] == messages[i]);
            }
        }
        assert(is_descending(rest)) by {
            assert forall|i: int, j: int|
                #![trigger rest[i], rest[j]]
                0 <= i < j < rest.len() implies rest[i].id > rest[j].id by {
                assert(rest[i] == messages[i] && rest[j] == messages[j]);
            }
        }
        lemma_filtered(rest, keep, chat);
        assert forall|i: int| 0 <= i < before.len() implies messages.contains(#[trigger] before[i])
            && before[i].id > messages[last].id by {
            assert(rest.contains(before[i]));
            let k = choose|k: int| 0 <= k < rest.len() && rest[k] == before[i];
            assert(messages[k] == before[i]);
            assert(messages[k].id > messages[last].id);
        }
        assert forall|i: int| 0 <= i < after.len() implies messages.contains(#[trigger] after[i])
            && chat.contains(after[i]) by {
            if i < before.len() {
                assert(after[i] == before[i]);
            } else {
                assert(after[i] == messages[last]);
            }
        }
        assert forall|i: int, j: int|
            #![trigger after[i], after[j]]
            0 <= i < j < after.len() implies after[i].id > after[j].id by {
            assert(after[i] == before[i]);
            if j < before.len() {
                assert(after[j] == before[j]);
            } else {
                assert(after[j] == messages[last]);
            }
        }
    }
}

/// Loading the messages around the anchor, whichever albums they belong to,
/// keeps the history laid out.
pub proof fn law_load_around_keeps_layout(
    view: HistoryView,
    answer: Seq<HistoryMessage>,
    chat: Set<HistoryMessage>,
)
    requires
        is_history_of(view, chat),
        are_of(answer, chat),
        is_descending(answer),
        forall|k: int|
            0 <= k < answer.len() ==> is_older_than_rows(#[trigger] answer[k], view.list),
    ensures
        is_history_of(view.load_around(answer), chat),
{
    let idle = HistoryView { is_loading_older: false, ..view };
    lemma_append(idle, answer, chat);
}

/// Loading newer messages, whichever albums they belong to, keeps the history
/// laid out, unless the oldest items are trimmed right behind a row, which
/// then has no divider below it. The rows stay in order in any case.
pub proof fn law_load_newer_keeps_layout(
    view: HistoryView,
    from: MessageId,
    answer: Seq<HistoryMessage>,
    chat: Set<HistoryMessage>,
)
    requires
        is_history_of(view, chat),
        forall|i: int|
            0 <= i < view.list.len() && view.list[i] is Message ==> (
            #[trigger] view.list[i])->Message_0.id <= from,
        are_of(answer, chat),
        is_descending(answer),
        are_of(view.pending, chat),
        is_rising(view.pending),
        forall|k: int|
            0 <= k < view.pending.len() ==> is_newest_known(#[trigger] view.pending[k], view),
    ensures
        is_in_order(view.load_newer(from, answer).list),
        newer_than(answer, from).len() == 0 ==> is_history_of(view.load_newer(from, answer), chat),
        newer_than(answer, from).len() > 0 ==> ({
            let loaded = (HistoryView { is_loading_newer: false, ..view }).prepend(
                newer_than(answer, from),
            );
            &&& is_history_of(loaded, chat)
            &&& loaded.list.len() <= TRIM_AT_ITEMS || loaded.list[TRIM_TO_ITEMS - 1] is DayDivider
                ==> is_history_of(view.load_newer(from, answer), chat)
        }),
{
    let idle = HistoryView { is_loading_newer: false, ..view };
    let newer = |message: HistoryMessage| message.id > from;
    let messages = newer_than(answer, from);
    assert(messages == answer.filter(newer));
    lemma_filtered(answer, newer, chat);
    assert forall|k: int| 0 <= k < messages.len() implies is_newer_than_rows(
        #[trigger] messages[k],
        idle.list,
    ) by {
        answer.lemma_filter_pred(newer, k);
    }
    if messages.len() == 0 {
        assert forall|k: int| 0 <= k < idle.pending.len() implies is_newest_known(
            #[trigger] idle.pending[k],
            idle,
        ) by {
            assert(is_newest_known(view.pending[k], view));
        }
        law_reach_newest_keeps_layout(idle, chat);
    } else {
        let loaded = idle.prepend(messages);
        let at = TRIM_TO_ITEMS as int;
        lemma_prepend(idle, messages, chat);
        law_trim_back_keeps_order(loaded);
        if loaded.list.len() > TRIM_AT_ITEMS {
            lemma_forgetting_keeps_rest(loaded, loaded.list.skip(at).reverse());
            lemma_forget(loaded, loaded.list.skip(at).reverse(), chat);
            lemma_spliced_of(loaded.list, at, loaded.list.len() - at, Seq::empty(), chat);
            if loaded.list[at - 1] is DayDivider {
                lemma_laid_out_prefix(loaded.list, at);
            }
        }
    }
}

/// What is left of a laid out list up to a divider is laid out.
proof fn lemma_laid_out_prefix(list: Seq<ChatHistoryItem>, to: int)
    requires
        is_laid_out(list),
        0 < to <= list.len(),
        list[to - 1] is DayDivider,
    ensures
        is_laid_out(list.take(to)),
{
    let front = list.take(to);
    lemma_parts_in_order(list, to);
    assert forall|i: int| 0 <= i < front.len() implies match #[trigger] front[i] {
        ChatHistoryItem::Message(_) => has_divider_below(front, i, None),
        ChatHistoryItem::DayDivider(_) => has_message_above(front, i),
    } by {
        assert(front[i] == list[i]);
        if list[i] is Message {
            assert(has_divider_below(list, i, None));
            assert(front[i + 1] == list[i + 1]);
        } else {
            assert(has_message_above(list, i));
            assert(front[i - 1] == list[i - 1]);
        }
    }
}

// Where requests start

pub proof fn lemma_oldest_row(list: Seq<ChatHistoryItem>)
    requires
        is_in_order(list),
    ensures
        forall|i: int|
            0 <= i < list.len() && list[i] is Message ==> oldest_row(list) is Some && (
            #[trigger] list[i])->Message_0.id >= oldest_row(list)->0,
    decreases list.len(),
{
    if list.len() > 0 {
        let last = list.len() - 1;
        if list[last] is Message {
            assert forall|i: int| 0 <= i < list.len() && list[i] is Message implies (
            #[trigger] list[i])->Message_0.id >= list[last]->Message_0.id by {
                if i < last {
                    assert(is_in_front(list[i], list[last]));
                }
            }
        } else {
            let rest = list.drop_last();
            lemma_parts_in_order(list, last);
            assert(rest =~= list.take(last));
            lemma_oldest_row(rest);
            assert forall|i: int| 0 <= i < list.len() && list[i] is Message implies oldest_row(
                list,
            ) is Some && (#[trigger] list[i])->Message_0.id >= oldest_row(list)->0 by {
                assert(rest[i] == list[i]);
            }
        }
    }
}

/// Older messages are asked for from the oldest row on, and newer ones from the
/// newest message of the first row on: no row is older than the one, and none
/// is newer than the other. No message has the id 0.
pub proof fn law_requests_start_at_ends(view: HistoryView)
    requires
        view.wf(),
        is_laid_out(view.list),
        !has_row(view.list, 0),
    ensures
        is_oldest_end(view.list, view.oldest_id()),
        forall|i: int|
            0 <= i < view.list.len() && view.list[i] is Message ==> (
            #[trigger] view.list[i])->Message_0.id <= view.newest_id(),
{
    let list = view.list;
    lemma_oldest_row(list);
    assert forall|i: int| 0 <= i < list.len() && list[i] is Message implies view.oldest_id() != 0
        && (#[trigger] list[i])->Message_0.id >= view.oldest_id() by {
        lemma_oldest_row_is_row(list);
    }
    if list.len() > 0 {
        if list[0] is DayDivider {
            assert(has_message_above(list, 0));
        }
        let first = list[0]->Message_0;
        if let Some(album) = view.represented(first) {
            assert(album[0].id == first.id);
            assert(album[0].id <= album.last().id);
        }
        assert forall|i: int| 0 <= i < list.len() && list[i] is Message implies (
        #[trigger] list[i])->Message_0.id <= view.newest_id() by {
            if i > 0 {
                assert(is_in_front(list[0], list[i]));
            }
        }
    }
}

pub proof fn lemma_oldest_row_is_row(list: Seq<ChatHistoryItem>)
    ensures
        oldest_row(list) matches Some(id) ==> has_row(list, id),
    decreases list.len(),
{
    if list.len() > 0 {
        let last = list.len() - 1;
        if list[last] is DayDivider {
            let rest = list.drop_last();
            lemma_oldest_row_is_row(rest);
            if let Some(id) = oldest_row(list) {
                let i = choose|i: int|
                    0 <= i < rest.len() && #[trigger] rest[i] is Message && rest[i]->Message_0.id
                        == id;
                assert(list[i] == rest[i]);
            }
        }
    }
}

} // verus!
