//! What the operations of a chat history promise together.

use vstd::prelude::*;

use crate::model::chat_history_item::{ChatHistoryItem, HistoryMessage};
use crate::model::history_layout::{
    can_join, has_message_above, is_in_front, is_in_order, is_laid_out, is_newest,
    law_newer_rows_keep_layout, law_removed_row_keeps_layout, law_rows_are_found,
    lemma_laid_out_suffix, lemma_parts_in_order,
};
use crate::model::history_view::{
    day_at, has_row, is_divider, leading_dividers, lemma_forgetting_keeps_rest, newer_than,
    older_than, other_than, with_dividers, AlbumHandling, HistoryView, TRIM_AT_ITEMS, TRIM_TO_ITEMS,
};
use crate::types::MessageId;

verus! {

/// Whether the message is shown by a row of its own, whatever the albums are.
pub open spec fn stands_alone(message: HistoryMessage) -> bool {
    message.media_album_id == 0 || !message.is_groupable
}

/// A message that arrives at the newest end gets the first row and keeps the
/// list laid out, if it needs a row.
pub proof fn law_received_row_comes_first(view: HistoryView, message: HistoryMessage)
    requires
        is_laid_out(view.list),
        view.at_newest,
        view.album_handling(message) is Row,
        is_newest(message, view.list),
    ensures
        is_laid_out(view.receive(message).list),
        view.receive(message).list[0] == ChatHistoryItem::Message(message),
{
    let joined = view.join_album(message);
    let messages = seq![message];
    assert(can_join(joined.list, 0, messages));
    law_newer_rows_keep_layout(joined, messages);
    reveal_with_fuel(with_dividers, 2);
    assert(messages.drop_last() =~= Seq::empty());
}

/// Deleting a message that has a row of its own removes the row, and only the
/// row, and keeps the list laid out.
pub proof fn law_delete_removes_row(view: HistoryView, position: int)
    requires
        is_laid_out(view.list),
        0 <= position < view.list.len(),
        view.list[position] is Message,
        !view.albums.contains_key(view.list[position]->Message_0.media_album_id),
    ensures
        is_laid_out(view.delete(view.list[position]->Message_0).list),
        forall|id: MessageId| #[trigger]
            has_row(view.delete(view.list[position]->Message_0).list, id) <==> has_row(
                view.list,
                id,
            ) && id != view.list[position]->Message_0.id,
{
    let list = view.list;
    let message = list[position]->Message_0;
    law_rows_are_found(list, position);
    law_removed_row_keeps_layout(view, position);
    let result = view.delete(message).list;
    let count: int = if is_divider(list, position + 1) && (position == 0 || is_divider(
        list,
        position - 1,
    )) {
        2
    } else {
        1
    };
    assert(result =~= list.take(position) + list.skip(position + count));
    assert(is_laid_out(result)) by {
        assert(result =~= view.remove_row(position).list);
    }
    assert forall|id: MessageId| #[trigger] has_row(result, id) <==> has_row(list, id) && id
        != message.id by {
        if has_row(list, id) && id != message.id {
            let i = choose|i: int|
                0 <= i < list.len() && #[trigger] list[i] is Message && list[i]->Message_0.id
                    == id;
            if i < position {
                assert(result[i] == list[i]);
            } else {
                assert(result[i - count] == list[i]);
            }
        }
        if has_row(result, id) {
            let i = choose|i: int|
                0 <= i < result.len() && #[trigger] result[i] is Message
                    && result[i]->Message_0.id == id;
            if i < position {
                assert(result[i] == list[i]);
                assert(is_in_front(list[i], list[position]));
            } else {
                assert(result[i] == list[i + count]);
                assert(is_in_front(list[position], list[i + count]));
            }
        }
    }
}

/// Deleting a message leaves it in none of the pending messages.
pub proof fn law_delete_removes_pending(view: HistoryView, message: HistoryMessage)
    ensures
        view.delete(message).pending == other_than(view.pending, message.id),
        forall|i: int|
            0 <= i < view.delete(message).pending.len() ==> (
            #[trigger] view.delete(message).pending[i]).id != message.id,
{
    let keep = |other: HistoryMessage| other.id != message.id;
    assert(view.delete(message).pending == view.pending.filter(keep));
    assert forall|i: int| 0 <= i < view.delete(message).pending.len() implies (
    #[trigger] view.delete(message).pending[i]).id != message.id by {
        view.pending.lemma_filter_pred(keep, i);
    }
}

/// Deleting the message that just arrived gives the list back as it was.
pub proof fn law_delete_undoes_receive(view: HistoryView, message: HistoryMessage)
    requires
        is_laid_out(view.list),
        view.at_newest,
        stands_alone(message),
        !view.albums.contains_key(message.media_album_id),
        is_newest(message, view.list),
    ensures
        view.receive(message).delete(message).list == view.list,
{
    let list = view.list;
    let received = view.receive(message);
    law_received_row_comes_first(view, message);
    law_rows_are_found(received.list, 0);
    reveal_with_fuel(with_dividers, 2);
    let below = day_at(list, 0);
    assert(seq![message].drop_last() =~= Seq::empty());
    let row = ChatHistoryItem::Message(message);
    let divider = ChatHistoryItem::DayDivider(message.timestamp);
    if list.len() > 0 && list[0] is DayDivider {
        assert(has_message_above(list, 0));
    }
    if below == Some(message.timestamp.day) {
        assert(received.list =~= seq![row] + list);
        assert(received.list[1] == list[0]);
        assert(received.delete(message).list =~= list);
    } else {
        assert(received.list =~= seq![row, divider] + list);
        assert(received.list[1] == divider);
        assert(received.delete(message).list =~= list);
    }
}

// Trimming

/// Trimming the newest items keeps the list laid out.
pub proof fn law_trim_front_keeps_layout(view: HistoryView)
    requires
        is_laid_out(view.list),
    ensures
        is_laid_out(view.trim_front().list),
{
    if view.list.len() > TRIM_AT_ITEMS {
        let trimmed = view.list.len() - TRIM_TO_ITEMS;
        let rest = view.list.skip(trimmed);
        let orphaned = leading_dividers(rest) as int;
        lemma_leading_dividers(rest);
        lemma_forgetting_keeps_rest(view, view.list.take(trimmed));
        assert(view.trim_front().list =~= view.list.skip(trimmed + orphaned));
        if orphaned < rest.len() {
            assert(rest[orphaned] == view.list[trimmed + orphaned]);
        }
        lemma_laid_out_suffix(view.list, trimmed + orphaned);
    }
}

pub proof fn lemma_leading_dividers(list: Seq<ChatHistoryItem>)
    ensures
        leading_dividers(list) <= list.len(),
        leading_dividers(list) < list.len() ==> list[leading_dividers(list) as int] is Message,
    decreases list.len(),
{
    if list.len() > 0 && list[0] is DayDivider {
        lemma_leading_dividers(list.skip(1));
    }
}

/// Trimming the oldest items keeps the rows in order. The last row that stays
/// may lose the divider of its day.
pub proof fn law_trim_back_keeps_order(view: HistoryView)
    requires
        is_in_order(view.list),
    ensures
        is_in_order(view.trim_back().list),
        view.trim_back().list == if view.list.len() > TRIM_AT_ITEMS {
            view.list.take(TRIM_TO_ITEMS as int)
        } else {
            view.list
        },
{
    if view.list.len() > TRIM_AT_ITEMS {
        lemma_parts_in_order(view.list, TRIM_TO_ITEMS as int);
        lemma_forgetting_keeps_rest(view, view.list.skip(TRIM_TO_ITEMS as int).reverse());
        assert(view.trim_back().list =~= view.list.take(TRIM_TO_ITEMS as int));
    }
}

/// The list never holds more items than the threshold after messages were
/// loaded.
pub proof fn law_loading_is_bounded(
    view: HistoryView,
    from: MessageId,
    answer: Seq<HistoryMessage>,
)
    requires
        view.list.len() <= TRIM_AT_ITEMS,
    ensures
        view.load_older(from, answer).list.len() <= TRIM_AT_ITEMS,
        newer_than(answer, from).len() > 0 ==> view.load_newer(
            from,
            answer,
        ).list.len() <= TRIM_AT_ITEMS,
{
    let older = HistoryView { is_loading_older: false, ..view }.append(
        older_than(answer, from),
    );
    if older.list.len() > TRIM_AT_ITEMS {
        let trimmed = older.list.len() - TRIM_TO_ITEMS;
        lemma_leading_dividers(older.list.skip(trimmed));
        lemma_forgetting_keeps_rest(older, older.list.take(trimmed));
    }
    let newer = HistoryView { is_loading_newer: false, ..view }.prepend(
        newer_than(answer, from),
    );
    lemma_forgetting_keeps_rest(newer, newer.list.skip(TRIM_TO_ITEMS as int).reverse());
}

// Pending messages

/// Messages that arrive before the newest loaded message is the newest of the
/// chat wait in the order of their arrival and leave the list alone.
pub proof fn law_early_messages_wait(view: HistoryView, message: HistoryMessage)
    requires
        !view.at_newest,
    ensures
        view.receive(message).list == view.list,
        view.receive(message).changes == view.changes,
        view.receive(message).pending == view.pending.push(message),
{
}

proof fn lemma_swap_keeps_rest(
    view: HistoryView,
    replaced: HistoryMessage,
    representative: HistoryMessage,
)
    ensures
        view.swap_representative(replaced, representative).pending == view.pending,
        view.swap_representative(replaced, representative).at_newest == view.at_newest,
{
}

proof fn lemma_push_all_keeps_rest(view: HistoryView, messages: Seq<HistoryMessage>)
    ensures
        view.push_all_front(messages).pending == view.pending,
        view.push_all_front(messages).at_newest == view.at_newest,
    decreases messages.len(),
{
    if messages.len() > 0 {
        lemma_push_all_keeps_rest(view, messages.drop_last());
        let before = view.push_all_front(messages.drop_last());
        let message = messages.last();
        if let AlbumHandling::Promoted { replaced, representative } = before.album_handling(
            message,
        ) {
            lemma_swap_keeps_rest(before.join_album(message), replaced, representative);
        }
    }
}

/// Once the newest message is loaded, no message waits anymore, and the ones
/// that arrive are shown right away.
pub proof fn law_newest_flushes_pending(view: HistoryView)
    ensures
        view.reach_newest().pending == Seq::<HistoryMessage>::empty(),
        view.reach_newest().at_newest,
        view.reach_newest().list == (HistoryView {
            at_newest: true,
            pending: Seq::empty(),
            ..view
        }).push_all_front(view.pending).list,
{
    lemma_push_all_keeps_rest(
        HistoryView { at_newest: true, pending: Seq::empty(), ..view },
        view.pending,
    );
}

} // verus!
