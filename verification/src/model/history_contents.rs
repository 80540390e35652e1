//! That a chat history shows the messages that it is given, and no others.

use vstd::prelude::*;

use crate::model::chat_history_item::{ChatHistoryItem, HistoryMessage};
use crate::model::chat_history_model::{newer_limit, MAX_NEWER_MESSAGES};
use crate::model::history_albums::{
    albums_have_one_row, is_shown, is_unknown, law_added_message_keeps_one_row,
    law_deleted_member_keeps_one_row, lemma_remove_shows, shows,
};
use crate::model::history_chronology::{
    are_of, is_chronicle, is_descending, is_history_of, is_list_of, is_member,
    is_newer_than_rows, is_newest_known, is_of, is_older_than_rows, is_oldest_end, is_rising,
    law_insert_keeps_layout, law_receive_keeps_layout, lemma_append, lemma_filtered, lemma_join,
    lemma_prepend, lemma_push_all_front,
};
use crate::model::history_layout::{
    has_message_above, is_in_front, is_in_order, law_found_rows_are_right,
    law_rows_are_found,
};
use crate::model::history_laws::lemma_leading_dividers;
use crate::model::history_rows::{
    law_trim_back_keeps_one_row, law_trim_front_keeps_one_row,
    lemma_append_one_row, lemma_forgotten, lemma_is_shown, lemma_leading_are_dividers,
    lemma_prepend_one_row,
};
use crate::model::history_view::{
    has_row, leading_dividers, lemma_forgetting_keeps_rest, newer_than, older_than, oldest_row,
    other_than, row_position, with_content, with_dividers, AlbumHandling, HistoryView,
    TRIM_AT_ITEMS, TRIM_TO_ITEMS,
};
use crate::model::media_album::has_message;
use crate::types::{CalendarDay, MessageId};

verus! {

// What stays

/// Whether both histories are the same but for the rows, the albums and what is
/// told about them.
pub open spec fn differ_in_rows(before: HistoryView, after: HistoryView) -> bool {
    &&& after.pending == before.pending
    &&& after.anchor == before.anchor
    &&& after.is_unread_anchor == before.is_unread_anchor
    &&& after.at_newest == before.at_newest
    &&& after.is_loading_older == before.is_loading_older
    &&& after.is_loading_newer == before.is_loading_newer
}

proof fn lemma_swap_all_keeps_rest(
    view: HistoryView,
    swaps: Seq<(HistoryMessage, HistoryMessage)>,
)
    ensures
        differ_in_rows(view, view.swap_all(swaps)),
    decreases swaps.len(),
{
    if swaps.len() > 0 {
        lemma_swap_all_keeps_rest(view, swaps.drop_last());
    }
}

proof fn lemma_integrate_keeps_rest(view: HistoryView, messages: Seq<HistoryMessage>)
    ensures
        differ_in_rows(view, view.integrate(messages).view),
    decreases messages.len(),
{
    if messages.len() > 0 {
        lemma_integrate_keeps_rest(view, messages.drop_last());
    }
}

proof fn lemma_added_keep_rest(view: HistoryView, messages: Seq<HistoryMessage>)
    ensures
        differ_in_rows(view, view.append(messages)),
        differ_in_rows(view, view.prepend(messages)),
{
    let appended = view.integrate(messages);
    lemma_integrate_keeps_rest(view, messages);
    lemma_swap_all_keeps_rest(
        appended.view.add_rows(view.list.len() as int, appended.rows),
        appended.swaps,
    );
    let prepended = view.integrate(messages.reverse());
    lemma_integrate_keeps_rest(view, messages.reverse());
    lemma_swap_all_keeps_rest(
        prepended.view.add_rows(0, prepended.rows.reverse()),
        prepended.swaps,
    );
}

proof fn lemma_push_all_keeps_rest(view: HistoryView, messages: Seq<HistoryMessage>)
    ensures
        differ_in_rows(view, view.push_all_front(messages)),
    decreases messages.len(),
{
    if messages.len() > 0 {
        lemma_push_all_keeps_rest(view, messages.drop_last());
    }
}

/// A new history shows nothing and nothing waits. It starts where it is told to.
pub proof fn law_new_history_is_empty(anchor: MessageId, is_unread_anchor: bool, at_newest: bool)
    ensures
        ({
            let view = HistoryView::anchored(anchor, is_unread_anchor, at_newest);
            &&& view.list.len() == 0
            &&& forall|album_id: i64| !#[trigger] view.albums.contains_key(album_id)
            &&& view.changes.len() == 0
            &&& view.pending.len() == 0
            &&& view.anchor == anchor
            &&& view.is_unread_anchor == is_unread_anchor
            &&& view.at_newest == at_newest
            &&& !view.is_loading_older
            &&& !view.is_loading_newer
        }),
{
}

// How many items there are

proof fn lemma_divided_len(messages: Seq<HistoryMessage>, below: Option<CalendarDay>)
    ensures
        messages.len() <= with_dividers(messages, below).len() <= 2 * messages.len(),
    decreases messages.len(),
{
    if messages.len() > 0 {
        lemma_divided_len(messages.drop_last(), Some(messages.last().timestamp.day));
    }
}

proof fn lemma_add_rows_len(view: HistoryView, position: int, messages: Seq<HistoryMessage>)
    requires
        0 <= position <= view.list.len(),
    ensures
        view.add_rows(position, messages).list.len() <= view.list.len() + 2 * messages.len(),
{
    lemma_divided_len(
        messages,
        crate::model::history_view::day_at(view.list, position),
    );
}

proof fn lemma_search_bounds(
    list: Seq<ChatHistoryItem>,
    message: HistoryMessage,
    low: int,
    high: int,
)
    requires
        0 <= low <= high <= list.len(),
    ensures
        low <= crate::model::history_view::partition(list, message, low, high) <= high,
        crate::model::history_view::search(list, message, low, high) matches Some(position)
            ==> low <= position < high,
    decreases high - low,
{
    if low < high {
        let mid = low + (high - low) / 2;
        lemma_search_bounds(list, message, mid + 1, high);
        lemma_search_bounds(list, message, low, mid);
    }
}

proof fn lemma_swap_all_len(view: HistoryView, swaps: Seq<(HistoryMessage, HistoryMessage)>)
    ensures
        view.swap_all(swaps).list.len() <= view.list.len() + 2 * swaps.len(),
    decreases swaps.len(),
{
    if swaps.len() > 0 {
        let before = view.swap_all(swaps.drop_last());
        let (replaced, representative) = swaps.last();
        lemma_swap_all_len(view, swaps.drop_last());
        lemma_search_bounds(before.list, replaced, 0, before.list.len() as int);
        let removed = before.remove(replaced);
        assert(removed.list.len() <= before.list.len());
        lemma_search_bounds(removed.list, representative, 0, removed.list.len() as int);
        lemma_add_rows_len(
            removed,
            crate::model::history_view::insert_position(removed.list, representative),
            seq![representative],
        );
    }
}

proof fn lemma_integrate_len(view: HistoryView, messages: Seq<HistoryMessage>)
    ensures
        view.integrate(messages).rows.len() + view.integrate(messages).swaps.len()
            <= messages.len(),
        view.integrate(messages).view.list == view.list,
    decreases messages.len(),
{
    if messages.len() > 0 {
        lemma_integrate_len(view, messages.drop_last());
    }
}

proof fn lemma_added_len(view: HistoryView, messages: Seq<HistoryMessage>)
    ensures
        view.append(messages).list.len() <= view.list.len() + 2 * messages.len(),
        view.prepend(messages).list.len() <= view.list.len() + 2 * messages.len(),
{
    let appended = view.integrate(messages);
    let len = view.list.len() as int;
    lemma_integrate_len(view, messages);
    lemma_add_rows_len(appended.view, len, appended.rows);
    lemma_swap_all_len(appended.view.add_rows(len, appended.rows), appended.swaps);
    let prepended = view.integrate(messages.reverse());
    lemma_integrate_len(view, messages.reverse());
    lemma_add_rows_len(prepended.view, 0, prepended.rows.reverse());
    lemma_swap_all_len(prepended.view.add_rows(0, prepended.rows.reverse()), prepended.swaps);
}

// Trimming

/// Whether the message is newer than all the rows.
pub open spec fn is_above_rows(message: HistoryMessage, list: Seq<ChatHistoryItem>) -> bool {
    forall|i: int|
        0 <= i < list.len() && list[i] is Message ==> (#[trigger] list[i])->Message_0.id
            < message.id
}

/// Whether the message, or a message of its album, is older than all the rows.
pub open spec fn is_below_rows(message: HistoryMessage, list: Seq<ChatHistoryItem>) -> bool {
    exists|first: HistoryMessage| #[trigger]
        is_older_than_rows(first, list) && first.id <= message.id && (first == message
            || first.media_album_id == message.media_album_id && message.media_album_id != 0)
}

/// An album that none of the trimmed items shows stays known.
proof fn lemma_remembered(
    view: HistoryView,
    items: Seq<ChatHistoryItem>,
    album_id: i64,
    chat: Set<HistoryMessage>,
)
    requires
        view.wf(),
        view.albums.contains_key(album_id),
        is_chronicle(chat),
        is_list_of(items, chat),
        chat.contains(view.albums[album_id][0]),
        forall|k: int|
            0 <= k < items.len() ==> #[trigger] items[k] != ChatHistoryItem::Message(
                view.albums[album_id][0],
            ),
    ensures
        view.forget_albums_of(items).albums.contains_key(album_id),
        view.forget_albums_of(items).albums[album_id] == view.albums[album_id],
    decreases items.len(),
{
    if items.len() > 0 {
        let rest = items.drop_last();
        let last = items.len() - 1;
        assert forall|k: int| 0 <= k < rest.len() implies #[trigger] rest[k]
            != ChatHistoryItem::Message(view.albums[album_id][0]) by {
            assert(rest[k] == items[k]);
        }
        assert(is_list_of(rest, chat)) by {
            assert forall|k: int| 0 <= k < rest.len() implies is_of(#[trigger] rest[k], chat) by {
                assert(rest[k] == items[k]);
            }
        }
        lemma_remembered(view, rest, album_id, chat);
        assert(is_of(items[last], chat));
        assert(items[last] != ChatHistoryItem::Message(view.albums[album_id][0]));
    }
}

/// What is still shown after the newest items were trimmed.
proof fn lemma_trim_front_shown(
    view: HistoryView,
    chat: Set<HistoryMessage>,
    message: HistoryMessage,
)
    requires
        is_history_of(view, chat),
        albums_have_one_row(view),
        view.list.len() > TRIM_AT_ITEMS,
    ensures
        is_shown(view.trim_front(), message) ==> is_shown(view, message),
        is_shown(view, message) ==> is_shown(view.trim_front(), message) || is_above_rows(
            message,
            view.trim_front().list,
        ),
        TRIM_TO_ITEMS - 1 <= view.trim_front().list.len() <= TRIM_TO_ITEMS,
        !view.trim_front().at_newest,
{
    let list = view.list;
    let after = view.trim_front();
    let trimmed = list.len() - TRIM_TO_ITEMS;
    let front = list.take(trimmed);
    let rest = list.skip(trimmed);
    let orphaned = leading_dividers(rest) as int;
    lemma_forgetting_keeps_rest(view, front);
    lemma_leading_dividers(rest);
    assert(orphaned <= 1) by {
        if orphaned >= 2 {
            lemma_leading_are_dividers(rest, 1);
            assert(rest[1] == list[trimmed + 1] && rest[0] == list[trimmed]);
            lemma_leading_are_dividers(rest, 0);
            assert(has_message_above(list, trimmed + 1));
        }
    }
    let start = trimmed + orphaned;
    assert(after.list =~= list.skip(start));
    law_trim_front_keeps_one_row(view);
    let own = message.media_album_id;
    if is_shown(after, message) {
        if shows(after.list, message) {
            let k = choose|k: int|
                0 <= k < after.list.len() && #[trigger] after.list[k] == ChatHistoryItem::Message(
                    message,
                );
            assert(list[k + start] == ChatHistoryItem::Message(message));
        } else {
            lemma_forgotten(view, front, own);
            assert(shows(view.list, view.albums[own][0]));
        }
    }
    if is_shown(view, message) {
        let row = if shows(list, message) {
            message
        } else {
            view.albums[own][0]
        };
        let k = choose|k: int|
            0 <= k < list.len() && #[trigger] list[k] == ChatHistoryItem::Message(row);
        assert(row.id <= message.id) by {
            if row != message {
                let members = view.albums[own];
                let i = choose|i: int| 0 <= i < members.len() && members[i] == message;
                if i > 0 {
                    assert(members[0].id < members[i].id);
                }
            }
        }
        if k < trimmed {
            assert forall|i: int| 0 <= i < after.list.len() && after.list[i] is Message implies (
            #[trigger] after.list[i])->Message_0.id < message.id by {
                assert(after.list[i] == list[i + start]);
                assert(is_in_front(list[k], list[i + start]));
            }
        } else {
            lemma_leading_are_dividers(rest, k - trimmed);
            assert(rest[k - trimmed] == list[k]);
            assert(after.list[k - start] == list[k]);
            assert(shows(after.list, row));
            if row != message {
                assert(is_list_of(front, chat)) by {
                    assert forall|i: int| 0 <= i < front.len() implies is_of(
                        #[trigger] front[i],
                        chat,
                    ) by {
                        assert(front[i] == list[i]);
                    }
                }
                assert(are_of(view.albums[own], chat));
                assert(chat.contains(view.albums[own][0]));
                assert forall|i: int| 0 <= i < front.len() implies #[trigger] front[i]
                    != ChatHistoryItem::Message(row) by {
                    assert(front[i] == list[i]);
                    assert(is_in_front(list[i], list[k]));
                }
                lemma_remembered(view, front, own, chat);
            }
        }
    }
}

/// What is still shown after the oldest items were trimmed.
proof fn lemma_trim_back_shown(
    view: HistoryView,
    chat: Set<HistoryMessage>,
    message: HistoryMessage,
)
    requires
        is_history_of(view, chat),
        albums_have_one_row(view),
        view.list.len() > TRIM_AT_ITEMS,
    ensures
        is_shown(view.trim_back(), message) ==> is_shown(view, message),
        is_shown(view, message) ==> is_shown(view.trim_back(), message) || is_below_rows(
            message,
            view.trim_back().list,
        ),
        view.trim_back().list.len() == TRIM_TO_ITEMS,
{
    let list = view.list;
    let after = view.trim_back();
    let at = TRIM_TO_ITEMS as int;
    let back = list.skip(at).reverse();
    lemma_forgetting_keeps_rest(view, back);
    assert(after.list =~= list.take(at));
    law_trim_back_keeps_one_row(view);
    let own = message.media_album_id;
    if is_shown(after, message) {
        if shows(after.list, message) {
            let k = choose|k: int|
                0 <= k < after.list.len() && #[trigger] after.list[k] == ChatHistoryItem::Message(
                    message,
                );
            assert(list[k] == ChatHistoryItem::Message(message));
        } else {
            lemma_forgotten(view, back, own);
            assert(shows(view.list, view.albums[own][0]));
        }
    }
    if is_shown(view, message) {
        let row = if shows(list, message) {
            message
        } else {
            view.albums[own][0]
        };
        let k = choose|k: int|
            0 <= k < list.len() && #[trigger] list[k] == ChatHistoryItem::Message(row);
        assert(row.id <= message.id && (row == message || row.media_album_id
            == message.media_album_id && own != 0)) by {
            if row != message {
                let members = view.albums[own];
                let i = choose|i: int| 0 <= i < members.len() && members[i] == message;
                assert(members[0].media_album_id == own);
                if i > 0 {
                    assert(members[0].id < members[i].id);
                }
            }
        }
        if k >= at {
            assert forall|i: int| 0 <= i < after.list.len() && after.list[i] is Message implies (
            #[trigger] after.list[i])->Message_0.id > row.id by {
                assert(after.list[i] == list[i]);
                assert(is_in_front(list[i], list[k]));
            }
            assert(is_older_than_rows(row, after.list));
        } else {
            assert(after.list[k] == list[k]);
            assert(shows(after.list, row));
            if row != message {
                assert(is_list_of(back, chat)) by {
                    assert forall|i: int| 0 <= i < back.len() implies is_of(
                        #[trigger] back[i],
                        chat,
                    ) by {
                        assert(back[i] == list[list.len() - 1 - i]);
                    }
                }
                assert(are_of(view.albums[own], chat));
                assert(chat.contains(view.albums[own][0]));
                assert forall|i: int| 0 <= i < back.len() implies #[trigger] back[i]
                    != ChatHistoryItem::Message(row) by {
                    assert(back[i] == list[list.len() - 1 - i]);
                    assert(is_in_front(list[k], list[list.len() - 1 - i]));
                }
                lemma_remembered(view, back, own, chat);
            }
        }
    }
}

// Loading

/// Loading older messages shows exactly the ones that were asked for, next to
/// everything that was shown before. Only if there are too many items, the
/// newest ones are not shown anymore, in which case newer messages have to be
/// loaded again; as many items as fit stay.
pub proof fn law_older_messages_are_shown(
    view: HistoryView,
    from: MessageId,
    answer: Seq<HistoryMessage>,
    chat: Set<HistoryMessage>,
)
    requires
        is_history_of(view, chat),
        albums_have_one_row(view),
        is_oldest_end(view.list, from),
        are_of(answer, chat),
        is_descending(answer),
    ensures
        ({
            let after = view.load_older(from, answer);
            &&& forall|message: HistoryMessage| #[trigger]
                is_shown(after, message) ==> is_shown(view, message) || answer.contains(message) && (
                from == 0 || message.id < from)
            &&& forall|message: HistoryMessage|
                #![trigger is_shown(after, message)]
                is_shown(view, message) || answer.contains(message) && (from == 0 || message.id
                    < from) ==> is_shown(after, message) || {
                    &&& is_above_rows(message, after.list)
                    &&& !after.at_newest
                    &&& TRIM_TO_ITEMS - 1 <= after.list.len() <= TRIM_TO_ITEMS
                    &&& view.list.len() + 2 * answer.len() > TRIM_AT_ITEMS
                }
            &&& view.list.len() + 2 * answer.len() <= TRIM_AT_ITEMS ==> after.at_newest
                == view.at_newest
            &&& after.at_newest ==> view.at_newest
            &&& after.pending == view.pending
            &&& after.anchor == view.anchor
            &&& after.is_unread_anchor == view.is_unread_anchor
            &&& after.is_loading_newer == view.is_loading_newer
            &&& !after.is_loading_older
        }),
{
    let idle = HistoryView { is_loading_older: false, ..view };
    let after = view.load_older(from, answer);
    let older = |message: HistoryMessage| from == 0 || message.id < from;
    let messages = older_than(answer, from);
    assert(messages == answer.filter(older));
    lemma_filtered(answer, older, chat);
    assert forall|k: int| 0 <= k < messages.len() implies is_older_than_rows(
        #[trigger] messages[k],
        idle.list,
    ) by {
        answer.lemma_filter_pred(older, k);
    }
    assert forall|message: HistoryMessage| messages.contains(message) <==> answer.contains(message)
        && (from == 0 || message.id < from) by {
        lemma_filter_contains(answer, older, message);
    }
    lemma_filter_len(answer, older);
    assert(albums_have_one_row(idle)) by {
        lemma_one_row_in(view, idle);
    }
    assert forall|message: HistoryMessage| is_shown(idle, message) == is_shown(view, message) by {}
    if messages.len() > 0 {
        let loaded = idle.append(messages);
        lemma_append_one_row(idle, messages, chat);
        lemma_append(idle, messages, chat);
        lemma_added_keep_rest(idle, messages);
        lemma_added_len(idle, messages);
        if loaded.list.len() > TRIM_AT_ITEMS {
            lemma_forgetting_keeps_rest(
                loaded,
                loaded.list.take(loaded.list.len() - TRIM_TO_ITEMS),
            );
            assert forall|message: HistoryMessage| #[trigger]
                is_shown(after, message) implies is_shown(loaded, message) by {
                lemma_trim_front_shown(loaded, chat, message);
            }
            assert forall|message: HistoryMessage|
                #![trigger is_shown(after, message)]
                is_shown(loaded, message) implies is_shown(after, message) || is_above_rows(
                message,
                after.list,
            ) by {
                lemma_trim_front_shown(loaded, chat, message);
            }
            lemma_trim_front_shown(loaded, chat, messages[0]);
        }
    } else {
        assert forall|message: HistoryMessage|
            answer.contains(message) implies !(from == 0 || message.id < from) by {
            if from == 0 || message.id < from {
                assert(messages.contains(message));
            }
        }
    }
}

proof fn lemma_one_row_in(view: HistoryView, same: HistoryView)
    requires
        albums_have_one_row(view),
        same.list == view.list,
        same.albums == view.albums,
    ensures
        albums_have_one_row(same),
{
    assert forall|album_id: i64, i: int|
        #![trigger same.albums[album_id][i]]
        same.albums.contains_key(album_id) && 0 <= i < same.albums[album_id].len() implies (shows(
        same.list,
        same.albums[album_id][i],
    ) <==> i == 0) by {
        assert(shows(view.list, view.albums[album_id][i]) <==> i == 0);
    }
}

proof fn lemma_filter_contains(
    messages: Seq<HistoryMessage>,
    keep: spec_fn(HistoryMessage) -> bool,
    message: HistoryMessage,
)
    ensures
        messages.filter(keep).contains(message) <==> messages.contains(message) && keep(message),
    decreases messages.len(),
{
    reveal(Seq::filter);
    if messages.len() > 0 {
        let rest = messages.drop_last();
        let last = messages.last();
        lemma_filter_contains(rest, keep, message);
        let before = rest.filter(keep);
        let after = messages.filter(keep);
        assert(messages.contains(message) <==> rest.contains(message) || message == last) by {
            if messages.contains(message) {
                let k = choose|k: int| 0 <= k < messages.len() && messages[k] == message;
                if k < rest.len() {
                    assert(rest[k] == message);
                }
            }
            if rest.contains(message) {
                let k = choose|k: int| 0 <= k < rest.len() && rest[k] == message;
                assert(messages[k] == message);
            }
            assert(messages[messages.len() - 1] == last);
        }
        if keep(last) {
            assert(after == before.push(last));
            assert(after.contains(message) <==> before.contains(message) || message == last) by {
                if after.contains(message) {
                    let k = choose|k: int| 0 <= k < after.len() && after[k] == message;
                    if k < before.len() {
                        assert(before[k] == message);
                    }
                }
                if before.contains(message) {
                    let k = choose|k: int| 0 <= k < before.len() && before[k] == message;
                    assert(after[k] == message);
                }
                assert(after[before.len() as int] == last);
            }
        }
    }
}

proof fn lemma_filter_len(messages: Seq<HistoryMessage>, keep: spec_fn(HistoryMessage) -> bool)
    ensures
        messages.filter(keep).len() <= messages.len(),
    decreases messages.len(),
{
    reveal(Seq::filter);
    if messages.len() > 0 {
        lemma_filter_len(messages.drop_last(), keep);
    }
}

/// More older messages can be loaded if and only if the answer has one that is
/// older than the message that the request started from.
pub proof fn law_older_messages_are_left(answer: Seq<HistoryMessage>, from: MessageId)
    ensures
        older_than(answer, from).len() > 0 <==> exists|message: HistoryMessage| #[trigger]
            answer.contains(message) && (from == 0 || message.id < from),
{
    let older = |message: HistoryMessage| from == 0 || message.id < from;
    let messages = older_than(answer, from);
    assert(messages == answer.filter(older));
    if messages.len() > 0 {
        lemma_filter_contains(answer, older, messages[0]);
        assert(messages.contains(messages[0]));
        assert(answer.contains(messages[0]) && older(messages[0]));
    }
    if exists|message: HistoryMessage| #[trigger]
        answer.contains(message) && (from == 0 || message.id < from) {
        let message = choose|message: HistoryMessage| #[trigger]
            answer.contains(message) && (from == 0 || message.id < from);
        lemma_filter_contains(answer, older, message);
        assert(messages.contains(message));
    }
}

/// More newer messages can be loaded if and only if the answer has one that is
/// newer than the message that the request started from.
pub proof fn law_newer_messages_are_left(answer: Seq<HistoryMessage>, from: MessageId)
    ensures
        newer_than(answer, from).len() > 0 <==> exists|i: int|
            0 <= i < answer.len() && (#[trigger] answer[i]).id > from,
{
    let newer = |message: HistoryMessage| message.id > from;
    let messages = newer_than(answer, from);
    assert(messages == answer.filter(newer));
    if messages.len() > 0 {
        lemma_filter_contains(answer, newer, messages[0]);
        assert(messages.contains(messages[0]));
        let i = choose|i: int| 0 <= i < answer.len() && answer[i] == messages[0];
        assert(answer[i].id > from);
    }
    if exists|i: int| 0 <= i < answer.len() && (#[trigger] answer[i]).id > from {
        let i = choose|i: int| 0 <= i < answer.len() && (#[trigger] answer[i]).id > from;
        lemma_filter_contains(answer, newer, answer[i]);
        assert(answer.contains(answer[i]));
    }
}

/// Loading the messages around the anchor shows exactly those messages, next to
/// everything that was shown before.
pub proof fn law_messages_around_are_shown(
    view: HistoryView,
    answer: Seq<HistoryMessage>,
    chat: Set<HistoryMessage>,
)
    requires
        is_history_of(view, chat),
        albums_have_one_row(view),
        are_of(answer, chat),
        is_descending(answer),
        forall|k: int|
            0 <= k < answer.len() ==> is_older_than_rows(#[trigger] answer[k], view.list),
    ensures
        ({
            let after = view.load_around(answer);
            &&& forall|message: HistoryMessage| #[trigger]
                is_shown(after, message) <==> is_shown(view, message) || answer.contains(message)
            &&& after.pending == view.pending
            &&& after.anchor == view.anchor
            &&& after.is_unread_anchor == view.is_unread_anchor
            &&& after.at_newest == view.at_newest
            &&& after.is_loading_newer == view.is_loading_newer
            &&& !after.is_loading_older
        }),
{
    let idle = HistoryView { is_loading_older: false, ..view };
    lemma_one_row_in(view, idle);
    lemma_append_one_row(idle, answer, chat);
    lemma_added_keep_rest(idle, answer);
    assert forall|message: HistoryMessage| is_shown(idle, message) == is_shown(view, message) by {}
}

/// Loading newer messages shows exactly the ones that were asked for, next to
/// everything that was shown before. Only if there are too many items, the
/// oldest ones are not shown anymore; as many items as fit stay. If there are no
/// newer messages, the ones that waited are shown and no one waits anymore.
pub proof fn law_newer_messages_are_shown(
    view: HistoryView,
    from: MessageId,
    answer: Seq<HistoryMessage>,
    chat: Set<HistoryMessage>,
)
    requires
        is_history_of(view, chat),
        albums_have_one_row(view),
        forall|i: int|
            0 <= i < view.list.len() && view.list[i] is Message ==> (
            #[trigger] view.list[i])->Message_0.id <= from,
        are_of(answer, chat),
        is_descending(answer),
        forall|k: int|
            0 <= k < answer.len() && is_member(view, answer[k]) ==> (
            #[trigger] answer[k]).is_groupable,
        are_of(view.pending, chat),
        is_rising(view.pending),
        forall|k: int|
            0 <= k < view.pending.len() ==> is_newest_known(#[trigger] view.pending[k], view),
    ensures
        ({
            let after = view.load_newer(from, answer);
            let has_newer = exists|i: int| 0 <= i < answer.len() && (#[trigger] answer[i]).id > from;
            &&& has_newer ==> {
                &&& forall|message: HistoryMessage| #[trigger]
                    is_shown(after, message) ==> is_shown(view, message) || answer.contains(message)
                        && message.id > from
                &&& forall|message: HistoryMessage|
                    #![trigger is_shown(after, message)]
                    is_shown(view, message) || answer.contains(message) && message.id > from
                        ==> is_shown(after, message) || {
                        &&& is_below_rows(message, after.list)
                        &&& after.list.len() == TRIM_TO_ITEMS
                        &&& view.list.len() + 2 * answer.len() > TRIM_AT_ITEMS
                    }
                &&& after.at_newest == view.at_newest
                &&& after.pending == view.pending
            }
            &&& !has_newer ==> {
                &&& forall|message: HistoryMessage| #[trigger]
                    is_shown(after, message) <==> is_shown(view, message) || view.pending.contains(
                        message,
                    )
                &&& after.at_newest
                &&& after.pending.len() == 0
            }
            &&& after.anchor == view.anchor
            &&& after.is_unread_anchor == view.is_unread_anchor
            &&& after.is_loading_older == view.is_loading_older
            &&& !after.is_loading_newer
        }),
{
    let idle = HistoryView { is_loading_newer: false, ..view };
    let after = view.load_newer(from, answer);
    let newer = |message: HistoryMessage| message.id > from;
    let messages = newer_than(answer, from);
    law_newer_messages_are_left(answer, from);
    assert(messages == answer.filter(newer));
    lemma_filtered(answer, newer, chat);
    lemma_one_row_in(view, idle);
    assert forall|k: int| 0 <= k < messages.len() implies is_newer_than_rows(
        #[trigger] messages[k],
        idle.list,
    ) by {
        answer.lemma_filter_pred(newer, k);
    }
    assert forall|message: HistoryMessage| messages.contains(message) <==> answer.contains(message)
        && message.id > from by {
        lemma_filter_contains(answer, newer, message);
    }
    lemma_filter_len(answer, newer);
    assert forall|message: HistoryMessage| is_shown(idle, message) == is_shown(view, message) by {}
    if messages.len() == 0 {
        assert forall|k: int| 0 <= k < idle.pending.len() implies is_newest_known(
            #[trigger] idle.pending[k],
            idle,
        ) by {
            assert(is_newest_known(view.pending[k], view));
        }
        law_waiting_messages_are_shown(idle, chat);
    } else {
        assert forall|k: int| 0 <= k < messages.len() && is_member(idle, messages[k]) implies (
        #[trigger] messages[k]).is_groupable by {
            assert(answer.contains(messages[k]));
            let p = choose|p: int| 0 <= p < answer.len() && answer[p] == messages[k];
            assert(is_member(view, answer[p]) ==> answer[p].is_groupable);
            assert(is_member(view, answer[p]) == is_member(idle, messages[k]));
        }
        let loaded = idle.prepend(messages);
        lemma_prepend_one_row(idle, messages, chat);
        lemma_prepend(idle, messages, chat);
        lemma_added_keep_rest(idle, messages);
        lemma_added_len(idle, messages);
        if loaded.list.len() > TRIM_AT_ITEMS {
            lemma_forgetting_keeps_rest(loaded, loaded.list.skip(TRIM_TO_ITEMS as int).reverse());
            assert forall|message: HistoryMessage| #[trigger]
                is_shown(after, message) implies is_shown(loaded, message) by {
                lemma_trim_back_shown(loaded, chat, message);
            }
            assert forall|message: HistoryMessage|
                #![trigger is_shown(after, message)]
                is_shown(loaded, message) implies is_shown(after, message) || is_below_rows(
                message,
                after.list,
            ) by {
                lemma_trim_back_shown(loaded, chat, message);
            }
            lemma_trim_back_shown(loaded, chat, messages[0]);
        }
    }
}

// Arriving

/// What is shown after a message that was not known before was added.
proof fn lemma_added_is_shown(
    view: HistoryView,
    after: HistoryView,
    message: HistoryMessage,
    chat: Set<HistoryMessage>,
)
    requires
        is_history_of(view, chat),
        albums_have_one_row(view),
        chat.contains(message),
        is_unknown(view, message.id),
        after == view.push_front(message) || after == view.insert(message),
    ensures
        albums_have_one_row(after),
        after.wf(),
        forall|other: HistoryMessage| #[trigger]
            is_shown(after, other) <==> is_shown(view, other) || other == message,
        differ_in_rows(view, after),
{
    law_added_message_keeps_one_row(view, after, message);
    lemma_join(view, message, chat);
    assert(after.albums == view.join_album(message).albums);
    assert(after.wf());
    assert forall|other: HistoryMessage| #[trigger]
        is_shown(after, other) <==> is_shown(view, other) || other == message by {
        crate::model::history_albums::lemma_added_shows(view, after, message, other);
        lemma_is_shown(view, other);
        lemma_is_shown(after, other);
        assert(is_member(after, other) == is_member(view.join_album(message), other));
        if let AlbumHandling::Promoted { replaced, representative } = view.album_handling(
            message,
        ) {
            let members = view.albums[message.media_album_id];
            assert(members[0].media_album_id == message.media_album_id);
            assert(members.contains(members[0]));
            assert(is_member(view, replaced));
        }
    }
}

/// A message that arrives while the newest messages are loaded is shown right
/// away, next to everything that was shown before.
pub proof fn law_received_message_is_shown(
    view: HistoryView,
    message: HistoryMessage,
    chat: Set<HistoryMessage>,
)
    requires
        is_history_of(view, chat),
        albums_have_one_row(view),
        chat.contains(message),
        view.at_newest,
        is_unknown(view, message.id),
        is_newer_than_rows(message, view.list),
    ensures
        forall|other: HistoryMessage| #[trigger]
            is_shown(view.receive(message), other) <==> is_shown(view, other) || other == message,
        differ_in_rows(view, view.receive(message)),
        albums_have_one_row(view.receive(message)),
        is_history_of(view.receive(message), chat),
{
    lemma_added_is_shown(view, view.push_front(message), message, chat);
    law_receive_keeps_layout(view, message, chat);
}

/// A message that arrives before the newest messages are loaded waits behind
/// the ones that arrived before it, and nothing else changes.
pub proof fn law_early_message_changes_nothing(view: HistoryView, message: HistoryMessage)
    requires
        !view.at_newest,
    ensures
        ({
            let after = view.receive(message);
            &&& after.pending.len() == view.pending.len() + 1
            &&& after.pending.last() == message
            &&& after.pending.drop_last() == view.pending
            &&& after == (HistoryView { pending: after.pending, ..view })
        }),
{
    assert(view.receive(message).pending.drop_last() =~= view.pending);
}

/// A message that is put where it belongs is shown, next to everything that was
/// shown before.
pub proof fn law_inserted_message_is_shown(
    view: HistoryView,
    message: HistoryMessage,
    chat: Set<HistoryMessage>,
)
    requires
        is_history_of(view, chat),
        albums_have_one_row(view),
        chat.contains(message),
        is_unknown(view, message.id),
    ensures
        forall|other: HistoryMessage| #[trigger]
            is_shown(view.insert(message), other) <==> is_shown(view, other) || other == message,
        differ_in_rows(view, view.insert(message)),
        albums_have_one_row(view.insert(message)),
        is_history_of(view.insert(message), chat),
{
    assert(!shows(view.list, message)) by {
        if shows(view.list, message) {
            let i = choose|i: int|
                0 <= i < view.list.len() && #[trigger] view.list[i] == ChatHistoryItem::Message(
                    message,
                );
            assert(view.list[i]->Message_0.id != message.id);
        }
    }
    lemma_added_is_shown(view, view.insert(message), message, chat);
    law_insert_keeps_layout(view, message, chat);
}

proof fn lemma_push_all_is_shown(
    view: HistoryView,
    messages: Seq<HistoryMessage>,
    chat: Set<HistoryMessage>,
)
    requires
        is_history_of(view, chat),
        albums_have_one_row(view),
        are_of(messages, chat),
        is_rising(messages),
        forall|k: int| 0 <= k < messages.len() ==> is_newest_known(#[trigger] messages[k], view),
    ensures
        albums_have_one_row(view.push_all_front(messages)),
        forall|other: HistoryMessage| #[trigger]
            is_shown(view.push_all_front(messages), other) <==> is_shown(view, other)
                || messages.contains(other),
    decreases messages.len(),
{
    if messages.len() > 0 {
        let rest = messages.drop_last();
        let last = messages.len() - 1;
        let message = messages[last];
        let before = view.push_all_front(rest);
        assert forall|k: int| 0 <= k < rest.len() implies chat.contains(#[trigger] rest[k])
            && is_newest_known(rest[k], view) && rest[k].id < message.id by {
            assert(rest[k] == messages[k]);
            assert(messages[k].id < messages[last].id);
        }
        assert(is_rising(rest)) by {
            assert forall|i: int, j: int|
                #![trigger rest[i], rest[j]]
                0 <= i < j < rest.len() implies rest[i].id < rest[j].id by {
                assert(rest[i] == messages[i] && rest[j] == messages[j]);
            }
        }
        lemma_push_all_is_shown(view, rest, chat);
        lemma_push_all_front(view, rest, chat);
        assert(is_newest_known(message, before));
        assert(is_unknown(before, message.id));
        lemma_added_is_shown(before, before.push_front(message), message, chat);
        assert forall|other: HistoryMessage| messages.contains(other) <==> rest.contains(other)
            || other == message by {
            if messages.contains(other) {
                let k = choose|k: int| 0 <= k < messages.len() && messages[k] == other;
                if k < last {
                    assert(rest[k] == other);
                }
            }
            if rest.contains(other) {
                let k = choose|k: int| 0 <= k < rest.len() && rest[k] == other;
                assert(messages[k] == other);
            }
        }
    } else {
        assert forall|other: HistoryMessage| !messages.contains(other) by {}
    }
}

/// Once all the newer messages are loaded, the ones that waited are shown, next
/// to everything that was shown before, and no one waits anymore.
pub proof fn law_waiting_messages_are_shown(view: HistoryView, chat: Set<HistoryMessage>)
    requires
        is_history_of(view, chat),
        albums_have_one_row(view),
        are_of(view.pending, chat),
        is_rising(view.pending),
        forall|k: int|
            0 <= k < view.pending.len() ==> is_newest_known(#[trigger] view.pending[k], view),
    ensures
        ({
            let after = view.reach_newest();
            &&& forall|message: HistoryMessage| #[trigger]
                is_shown(after, message) <==> is_shown(view, message) || view.pending.contains(
                    message,
                )
            &&& after.at_newest
            &&& after.pending.len() == 0
            &&& after.anchor == view.anchor
            &&& after.is_unread_anchor == view.is_unread_anchor
            &&& after.is_loading_older == view.is_loading_older
            &&& after.is_loading_newer == view.is_loading_newer
        }),
{
    let drained = HistoryView { at_newest: true, pending: Seq::empty(), ..view };
    assert forall|k: int| 0 <= k < view.pending.len() implies is_newest_known(
        #[trigger] view.pending[k],
        drained,
    ) by {
        assert(is_newest_known(view.pending[k], view));
    }
    lemma_one_row_in(view, drained);
    lemma_push_all_is_shown(drained, view.pending, chat);
    lemma_push_all_keeps_rest(drained, view.pending);
    assert forall|message: HistoryMessage| is_shown(drained, message) == is_shown(
        view,
        message,
    ) by {}
}

/// A message whose content changed while it waits is known by the new content,
/// and the other ones that wait stay as they are.
pub proof fn law_changed_content_is_noted(
    pending: Seq<HistoryMessage>,
    id: MessageId,
    is_groupable: bool,
)
    ensures
        with_content(pending, id, is_groupable).len() == pending.len(),
        forall|i: int|
            0 <= i < pending.len() ==> {
                let after = #[trigger] with_content(pending, id, is_groupable)[i];
                &&& after.id == pending[i].id
                &&& after.serial == pending[i].serial
                &&& after.timestamp == pending[i].timestamp
                &&& after.media_album_id == pending[i].media_album_id
                &&& after.is_groupable == if pending[i].id == id {
                    is_groupable
                } else {
                    pending[i].is_groupable
                }
            },
{
}

// Leaving

/// A message that is deleted is not shown anymore and doesn't wait either.
/// Everything else stays. A message that can't be grouped but carries the id of
/// an album that is shown is left out.
pub proof fn law_deleted_message_is_not_shown(
    view: HistoryView,
    message: HistoryMessage,
    chat: Set<HistoryMessage>,
)
    requires
        is_history_of(view, chat),
        albums_have_one_row(view),
        chat.contains(message),
        view.albums.contains_key(message.media_album_id) ==> is_member(view, message),
    ensures
        ({
            let after = view.delete(message);
            &&& forall|other: HistoryMessage| #[trigger]
                is_shown(after, other) <==> is_shown(view, other) && other != message
            &&& after.pending == view.pending.filter(
                |other: HistoryMessage| other.id != message.id,
            )
            &&& after.anchor == view.anchor
            &&& after.is_unread_anchor == view.is_unread_anchor
            &&& after.at_newest == view.at_newest
            &&& after.is_loading_older == view.is_loading_older
            &&& after.is_loading_newer == view.is_loading_newer
        }),
{
    let after = view.delete(message);
    let own = message.media_album_id;
    if view.albums.contains_key(own) {
        let members = view.albums[own];
        let at = choose|at: int| 0 <= at < members.len() && members[at] == message;
        law_deleted_member_keeps_one_row(view, own, at);
    } else {
        let kept = HistoryView { pending: other_than(view.pending, message.id), ..view };
        assert forall|other: HistoryMessage| #[trigger]
            is_shown(after, other) <==> is_shown(view, other) && other != message by {
            if shows(view.list, message) {
                lemma_remove_shows(kept, message, other);
                if view.albums.contains_key(other.media_album_id) {
                    let first = view.albums[other.media_album_id][0];
                    assert(first.media_album_id == other.media_album_id);
                    lemma_remove_shows(kept, message, first);
                }
            } else {
                law_found_rows_are_right(view.list, message);
                if let Some(position) = row_position(view.list, message) {
                    assert(is_of(view.list[position], chat));
                    assert(view.list[position] == ChatHistoryItem::Message(message));
                }
            }
        }
    }
}

// Finding

/// A message has a position if and only if it is shown. The position is that of
/// its own row, or of the row of the oldest member of its album.
pub proof fn law_shown_messages_have_positions(
    view: HistoryView,
    message: HistoryMessage,
    chat: Set<HistoryMessage>,
)
    requires
        is_history_of(view, chat),
        albums_have_one_row(view),
        chat.contains(message),
    ensures
        view.shown_at(message) is Some <==> is_shown(view, message),
        view.shown_at(message) matches Some(position) ==> 0 <= position < view.list.len() && (
        view.list[position] == ChatHistoryItem::Message(message) || is_member(view, message)
            && view.list[position] == ChatHistoryItem::Message(
            view.albums[message.media_album_id][0],
        )),
{
    let list = view.list;
    let own = message.media_album_id;
    lemma_position(list, message, chat);
    if !shows(list, message) && view.albums.contains_key(own) {
        let members = view.albums[own];
        assert(are_of(members, chat));
        assert(chat.contains(members[0]));
        lemma_position(list, members[0], chat);
        if has_message(members, message.id) {
            let k = choose|k: int| 0 <= k < members.len() && (#[trigger] members[k]).id
                == message.id;
            assert(chat.contains(members[k]));
            assert(members[k] == message);
            assert(members.contains(message));
            assert(own != 0);
            assert(shows(list, view.albums[own][0]));
            if members[0].id == message.id {
                assert(members[0] == message);
            }
        } else {
            assert(!members.contains(message)) by {
                if members.contains(message) {
                    let k = choose|k: int| 0 <= k < members.len() && members[k] == message;
                    assert(members[k].id == message.id);
                }
            }
        }
    }
}

proof fn lemma_position(
    list: Seq<ChatHistoryItem>,
    message: HistoryMessage,
    chat: Set<HistoryMessage>,
)
    requires
        is_chronicle(chat),
        is_list_of(list, chat),
        is_in_order(list),
        chat.contains(message),
    ensures
        row_position(list, message) is Some <==> shows(list, message),
        row_position(list, message) matches Some(position) ==> 0 <= position < list.len()
            && list[position] == ChatHistoryItem::Message(message),
{
    lemma_search_bounds(list, message, 0, list.len() as int);
    law_found_rows_are_right(list, message);
    if shows(list, message) {
        let k = choose|k: int|
            0 <= k < list.len() && #[trigger] list[k] == ChatHistoryItem::Message(message);
        law_rows_are_found(list, k);
    }
    if let Some(position) = row_position(list, message) {
        assert(is_of(list[position], chat));
        assert(list[position] == ChatHistoryItem::Message(message));
    }
}

/// A message represents an album if and only if it is the oldest member.
pub proof fn law_oldest_members_represent(view: HistoryView, message: HistoryMessage)
    requires
        view.wf(),
    ensures
        view.represented(message) matches Some(album) ==> view.albums.contains_key(
            message.media_album_id,
        ) && album == view.albums[message.media_album_id] && album[0].id == message.id,
        view.albums.contains_key(message.media_album_id)
            && view.albums[message.media_album_id][0].id == message.id ==> view.represented(
            message,
        ) is Some,
{
}

// Requests

/// Older messages are asked for from the oldest row on, and from the anchor on
/// if there is no row.
pub proof fn law_older_request_starts_at_oldest_row(view: HistoryView)
    requires
        is_in_order(view.list),
    ensures
        (forall|i: int| 0 <= i < view.list.len() ==> !(#[trigger] view.list[i] is Message))
            ==> view.oldest_id() == view.anchor,
        (exists|i: int| 0 <= i < view.list.len() && #[trigger] view.list[i] is Message) ==> {
            &&& has_row(view.list, view.oldest_id())
            &&& forall|i: int|
                0 <= i < view.list.len() && view.list[i] is Message ==> (
                #[trigger] view.list[i])->Message_0.id >= view.oldest_id()
        },
{
    lemma_oldest_row_is_some(view.list);
    crate::model::history_chronology::lemma_oldest_row(view.list);
    crate::model::history_chronology::lemma_oldest_row_is_row(view.list);
}

proof fn lemma_oldest_row_is_some(list: Seq<ChatHistoryItem>)
    ensures
        oldest_row(list) is Some <==> exists|i: int|
            0 <= i < list.len() && #[trigger] list[i] is Message,
    decreases list.len(),
{
    if list.len() > 0 {
        let rest = list.drop_last();
        lemma_oldest_row_is_some(rest);
        if list.last() is Message {
            assert(list[list.len() - 1] is Message);
        } else {
            if oldest_row(list) is Some {
                let i = choose|i: int| 0 <= i < rest.len() && #[trigger] rest[i] is Message;
                assert(list[i] is Message);
            }
            if exists|i: int| 0 <= i < list.len() && #[trigger] list[i] is Message {
                let i = choose|i: int| 0 <= i < list.len() && #[trigger] list[i] is Message;
                assert(rest[i] is Message);
            }
        }
    }
}

/// Newer messages are asked for from the message of the first row on, or from
/// the newest message of its album if it shows one, and from the anchor on if
/// there is no row.
pub proof fn law_newer_request_starts_at_newest_message(view: HistoryView)
    requires
        view.wf(),
    ensures
        view.list.len() == 0 ==> view.newest_id() == view.anchor,
        view.list.len() > 0 && view.list[0] is Message ==> {
            let first = view.list[0]->Message_0;
            let album_id = first.media_album_id;
            view.newest_id() == if view.albums.contains_key(album_id)
                && view.albums[album_id][0].id == first.id {
                view.albums[album_id][view.albums[album_id].len() - 1].id
            } else {
                first.id
            }
        },
{
}

/// As many newer messages are asked for as are wanted, but at least one and not
/// more than TDLib can return.
pub proof fn law_newer_limit_is_in_range(limit: i32)
    ensures
        1 <= newer_limit(limit) <= 99,
        1 <= limit <= 99 ==> newer_limit(limit) == limit,
        limit < 1 ==> newer_limit(limit) == 1,
        limit > 99 ==> newer_limit(limit) == 99,
        MAX_NEWER_MESSAGES == 99,
{
}

} // verus!
