//! What observers of a chat history can rely on: replaying the announced
//! changes keeps a copy of the list up to date.

use vstd::prelude::*;

use crate::model::chat_history_item::{ChatHistoryItem, HistoryMessage};
use crate::model::history_view::{
    day_at, divides_day_of, insert_position, is_divider, leading_dividers,
    lemma_forgetting_keeps_rest, messages_at, newer_than, older_than, other_than, replayed,
    row_position, rows_of, spliced, with_dividers, AlbumHandling, HistoryChange, HistoryView,
    TRIM_AT_ITEMS, TRIM_TO_ITEMS,
};
use crate::model::media_album::{
    has_message, is_ascending, lemma_older_count, lemma_older_count_unique, older_count,
    with_message, without_message,
};
use crate::types::MessageId;

verus! {

/// Whether an observer who knew `before` and replays the changes that were
/// announced since ends up with the list of `after`.
pub open spec fn is_announced(before: HistoryView, after: HistoryView) -> bool {
    &&& before.changes.len() <= after.changes.len()
    &&& after.changes.take(before.changes.len() as int) == before.changes
    &&& replayed(before.list, after.changes.skip(before.changes.len() as int)) == after.list
}

/// Whether a single change was announced, which turns the list of `before` into
/// the list of `after`.
pub open spec fn is_one_change(before: HistoryView, after: HistoryView) -> bool {
    &&& after.changes.len() == before.changes.len() + 1
    &&& after.changes.drop_last() == before.changes
    &&& after.changes.last() matches HistoryChange::Items { position, removed, items }
        && 0 <= position && 0 <= removed && position + removed <= before.list.len()
        && position + items.len() <= after.list.len() && after.list == before.list.take(position)
        + after.list.subrange(position, position + items.len()) + before.list.skip(
        position + removed,
    ) && after.list.subrange(position, position + items.len()) == items
}

proof fn lemma_splice_is_one_change(
    view: HistoryView,
    position: int,
    removed: int,
    added: Seq<ChatHistoryItem>,
)
    requires
        0 <= position,
        0 <= removed,
        position + removed <= view.list.len(),
    ensures
        is_one_change(view, view.splice(position, removed, added)),
{
    let after = view.splice(position, removed, added);
    assert(after.changes.drop_last() =~= view.changes);
    assert(after.list.subrange(position, position + added.len()) =~= added);
}

/// Putting the dividers in order after a row left is to remove the row.
pub proof fn lemma_settle_removed(before: HistoryView, removed: HistoryView, position: int)
    requires
        0 <= position < before.list.len(),
        removed == (HistoryView { list: before.list.remove(position), ..before }),
    ensures
        removed.settle(position, 1, 0) == before.remove_row(position),
{
    let messages = messages_at(removed.list, position, 0);
    assert(messages =~= Seq::empty());
    let segment = with_dividers(messages, day_at(removed.list, position + 0));
    assert(segment =~= Seq::empty());
    assert(spliced(removed.list, position, 0, segment) =~= removed.list);
    assert(is_divider(removed.list, position) == is_divider(before.list, position + 1));
    assert(is_divider(removed.list, position - 1) == is_divider(before.list, position - 1));
    assert(removed.settle(position, 1, 0).list =~= before.remove_row(position).list);
    assert(removed.settle(position, 1, 0).changes =~= before.remove_row(position).changes);
}

/// Putting the dividers in order after rows joined is to add the rows.
pub proof fn lemma_settle_added(
    before: HistoryView,
    added: HistoryView,
    position: int,
    messages: Seq<HistoryMessage>,
)
    requires
        0 <= position <= before.list.len(),
        messages.len() > 0,
        added == (HistoryView {
            list: spliced(before.list, position, 0, rows_of(messages)),
            ..before
        }),
    ensures
        added.settle(position, 0, messages.len() as int) == before.add_rows(position, messages),
{
    let count = messages.len() as int;
    assert(messages_at(added.list, position, count) =~= messages);
    assert(day_at(added.list, position + count) == day_at(before.list, position));
    let segment = with_dividers(messages, day_at(before.list, position));
    let divided = spliced(added.list, position, count, segment);
    assert(divided =~= spliced(before.list, position, 0, segment));
    let last = messages.last();
    let next = position + segment.len();
    assert(divides_day_of(divided, next, last) == divides_day_of(before.list, position, last)) by {
        if position < before.list.len() {
            assert(divided[next] == before.list[position]);
        }
    }
    let closed = if divides_day_of(divided, next, last) {
        divided.remove(next)
    } else {
        divided
    };
    if position > 0 {
        assert(closed[position - 1] == before.list[position - 1]);
    }
    let settled = added.settle(position, 0, count);
    let expected = before.add_rows(position, messages);
    assert(settled.list =~= expected.list);
    assert(settled.changes =~= expected.changes);
}

/// When rows joined the list at a position and the day dividers around them
/// are put in order, a single change is announced, which turns the list as it
/// was announced before into the new one.
pub proof fn law_joined_rows_are_one_change(
    before: HistoryView,
    position: int,
    messages: Seq<HistoryMessage>,
)
    requires
        0 <= position <= before.list.len(),
        messages.len() > 0,
    ensures
        is_one_change(
            before,
            (HistoryView {
                list: spliced(before.list, position, 0, rows_of(messages)),
                ..before
            }).settle(position, 0, messages.len() as int),
        ),
{
    let added = HistoryView {
        list: spliced(before.list, position, 0, rows_of(messages)),
        ..before
    };
    lemma_settle_added(before, added, position, messages);
    let stale: int = if divides_day_of(before.list, position - 1, messages[0]) {
        1
    } else {
        0
    };
    let superseded: int = if divides_day_of(before.list, position, messages.last()) {
        1
    } else {
        0
    };
    lemma_splice_is_one_change(
        before,
        position - stale,
        stale + superseded,
        with_dividers(messages, day_at(before.list, position)),
    );
}

/// When a row left the list at a position and the day dividers around it are
/// put in order, a single change is announced, which turns the list as it was
/// announced before into the new one.
pub proof fn law_left_row_is_one_change(before: HistoryView, position: int)
    requires
        0 <= position < before.list.len(),
    ensures
        is_one_change(
            before,
            (HistoryView { list: before.list.remove(position), ..before }).settle(position, 1, 0),
        ),
{
    let removed = HistoryView { list: before.list.remove(position), ..before };
    lemma_settle_removed(before, removed, position);
    lemma_splice_is_one_change(before, position, 1, Seq::empty());
    if position + 1 < before.list.len() {
        lemma_splice_is_one_change(before, position, 2, Seq::empty());
    }
}

/// The history as it was before the rows at a position joined the list.
pub open spec fn before_joining(view: HistoryView, position: int, added: int) -> HistoryView {
    HistoryView { list: view.list.take(position) + view.list.skip(position + added), ..view }
}

/// The history as it was before an item left the list at a position.
pub open spec fn before_leaving(
    view: HistoryView,
    position: int,
    item: ChatHistoryItem,
) -> HistoryView {
    HistoryView { list: view.list.insert(position, item), ..view }
}

/// Putting the dividers in order around the rows that joined the list, or where
/// an item left it, announces a single change of the list as it was before.
pub proof fn lemma_settle_is_one_change(
    view: HistoryView,
    position: int,
    removed: int,
    added: int,
)
    requires
        0 <= position,
        0 <= added,
        position + added <= view.list.len(),
        forall|i: int| position <= i < position + added ==> (#[trigger] view.list[i]) is Message,
    ensures
        removed == 0 && added > 0 ==> is_one_change(
            before_joining(view, position, added),
            view.settle(position, removed, added),
        ),
        removed == 1 && added == 0 ==> forall|item: ChatHistoryItem|
            is_one_change(
                #[trigger] before_leaving(view, position, item),
                view.settle(position, removed, added),
            ),
{
    if removed == 0 && added > 0 {
        let before = before_joining(view, position, added);
        let messages = messages_at(view.list, position, added);
        let rows = rows_of(messages);
        assert forall|i: int| 0 <= i < added implies #[trigger] rows[i] == view.list[
            position + i] by {
            assert(messages[i] == view.list[position + i]->Message_0);
        }
        assert(spliced(before.list, position, 0, rows) =~= view.list);
        law_joined_rows_are_one_change(before, position, messages);
    }
    if removed == 1 && added == 0 {
        assert forall|item: ChatHistoryItem|
            is_one_change(
                #[trigger] before_leaving(view, position, item),
                view.settle(position, removed, added),
            ) by {
            let before = before_leaving(view, position, item);
            assert(before.list.remove(position) =~= view.list);
            law_left_row_is_one_change(before, position);
        }
    }
}

/// Replaying two runs of changes one after the other.
proof fn lemma_replayed_concat(
    list: Seq<ChatHistoryItem>,
    first: Seq<HistoryChange>,
    second: Seq<HistoryChange>,
)
    ensures
        replayed(list, first + second) == replayed(replayed(list, first), second),
    decreases second.len(),
{
    if second.len() == 0 {
        assert(first + second =~= first);
    } else {
        lemma_replayed_concat(list, first, second.drop_last());
        assert((first + second).drop_last() =~= first + second.drop_last());
    }
}

proof fn lemma_announced_reflexive(view: HistoryView)
    ensures
        is_announced(view, view),
{
    assert(view.changes.take(view.changes.len() as int) =~= view.changes);
    assert(view.changes.skip(view.changes.len() as int) =~= Seq::empty());
}

proof fn lemma_announced_transitive(a: HistoryView, b: HistoryView, c: HistoryView)
    requires
        is_announced(a, b),
        is_announced(b, c),
    ensures
        is_announced(a, c),
{
    let first = b.changes.skip(a.changes.len() as int);
    let second = c.changes.skip(b.changes.len() as int);
    assert(c.changes.take(a.changes.len() as int) =~= c.changes.take(b.changes.len() as int).take(
        a.changes.len() as int,
    ));
    assert(c.changes.skip(a.changes.len() as int) =~= first + second) by {
        assert(c.changes.take(b.changes.len() as int) == b.changes);
    }
    lemma_replayed_concat(a.list, first, second);
}

/// A change that is not about the items leaves the list alone.
proof fn lemma_changed_announced(view: HistoryView, change: HistoryChange)
    requires
        !(change is Items),
    ensures
        is_announced(view, view.changed(change)),
{
    let after = view.changed(change);
    assert(after.changes.take(view.changes.len() as int) =~= view.changes);
    assert(after.changes.skip(view.changes.len() as int) =~= seq![change]);
    assert(seq![change].drop_last() =~= Seq::empty());
    reveal_with_fuel(replayed, 2);
}

proof fn lemma_splice_announced(
    view: HistoryView,
    position: int,
    removed: int,
    added: Seq<ChatHistoryItem>,
)
    ensures
        is_announced(view, view.splice(position, removed, added)),
{
    let change = HistoryChange::Items { position, removed, items: added };
    let after = view.splice(position, removed, added);
    assert(after.changes.take(view.changes.len() as int) =~= view.changes);
    assert(after.changes.skip(view.changes.len() as int) =~= seq![change]);
    assert(seq![change].drop_last() =~= Seq::empty());
    reveal_with_fuel(replayed, 2);
}

proof fn lemma_add_rows_announced(
    view: HistoryView,
    position: int,
    messages: Seq<HistoryMessage>,
)
    ensures
        is_announced(view, view.add_rows(position, messages)),
{
    let added = with_dividers(messages, day_at(view.list, position));
    lemma_announced_reflexive(view);
    lemma_splice_announced(view, position, 0, added);
    lemma_splice_announced(view, position, 1, added);
    lemma_splice_announced(view, position - 1, 1, added);
    lemma_splice_announced(view, position - 1, 2, added);
}

proof fn lemma_remove_row_announced(view: HistoryView, position: int)
    ensures
        is_announced(view, view.remove_row(position)),
{
    lemma_splice_announced(view, position, 1, Seq::empty());
    lemma_splice_announced(view, position, 2, Seq::empty());
}

proof fn lemma_remove_announced(view: HistoryView, message: HistoryMessage)
    ensures
        is_announced(view, view.remove(message)),
{
    lemma_announced_reflexive(view);
    if let Some(position) = row_position(view.list, message) {
        lemma_remove_row_announced(view, position);
    }
}

proof fn lemma_insert_row_announced(view: HistoryView, message: HistoryMessage)
    ensures
        is_announced(view, view.insert_row(message)),
{
    lemma_add_rows_announced(view, insert_position(view.list, message), seq![message]);
}

proof fn lemma_swap_announced(
    view: HistoryView,
    replaced: HistoryMessage,
    representative: HistoryMessage,
)
    ensures
        is_announced(view, view.swap_representative(replaced, representative)),
{
    lemma_remove_announced(view, replaced);
    lemma_insert_row_announced(view.remove(replaced), representative);
    lemma_announced_transitive(
        view,
        view.remove(replaced),
        view.swap_representative(replaced, representative),
    );
}

proof fn lemma_swap_all_announced(
    view: HistoryView,
    swaps: Seq<(HistoryMessage, HistoryMessage)>,
)
    ensures
        is_announced(view, view.swap_all(swaps)),
    decreases swaps.len(),
{
    if swaps.len() == 0 {
        lemma_announced_reflexive(view);
    } else {
        let rest = swaps.drop_last();
        lemma_swap_all_announced(view, rest);
        lemma_swap_announced(view.swap_all(rest), swaps.last().0, swaps.last().1);
        lemma_announced_transitive(view, view.swap_all(rest), view.swap_all(swaps));
    }
}

/// Changes of other parts of the state need no announcement.
proof fn lemma_same_announced(before: HistoryView, after: HistoryView)
    requires
        before.list == after.list,
        before.changes == after.changes,
    ensures
        is_announced(before, after),
{
    lemma_announced_reflexive(before);
}

proof fn lemma_join_album_announced(view: HistoryView, message: HistoryMessage)
    ensures
        is_announced(view, view.join_album(message)),
{
    let album_id = message.media_album_id;
    lemma_announced_reflexive(view);
    if album_id != 0 && message.is_groupable {
        let album = if view.albums.contains_key(album_id) {
            view.albums[album_id]
        } else {
            Seq::empty()
        };
        let joined = HistoryView {
            albums: view.albums.insert(
                album_id,
                with_message(album, message),
            ),
            ..view
        };
        lemma_same_announced(view, joined);
        let change = HistoryChange::Album {
            album_id,
            position: older_count(album, message.id) as int,
            removed: 0,
            messages: seq![message],
        };
        lemma_changed_announced(joined, change);
        let announced = if has_message(album, message.id) {
            joined
        } else {
            joined.changed(change)
        };
        lemma_announced_transitive(view, joined, joined.changed(change));
        let cleared = HistoryChange::Representative { message_id: album[0].id, represents: None };
        let set = HistoryChange::Representative {
            message_id: message.id,
            represents: Some(album_id),
        };
        lemma_changed_announced(announced, set);
        lemma_announced_transitive(view, announced, announced.changed(set));
        lemma_changed_announced(announced, cleared);
        lemma_announced_transitive(view, announced, announced.changed(cleared));
        lemma_changed_announced(announced.changed(cleared), set);
        lemma_announced_transitive(
            view,
            announced.changed(cleared),
            announced.changed(cleared).changed(set),
        );
    }
}

proof fn lemma_integrate_announced(view: HistoryView, messages: Seq<HistoryMessage>)
    ensures
        is_announced(view, view.integrate(messages).view),
    decreases messages.len(),
{
    if messages.len() == 0 {
        lemma_announced_reflexive(view);
    } else {
        let before = view.integrate(messages.drop_last()).view;
        lemma_integrate_announced(view, messages.drop_last());
        lemma_join_album_announced(before, messages.last());
        lemma_announced_transitive(view, before, before.join_album(messages.last()));
    }
}

proof fn lemma_append_announced(view: HistoryView, messages: Seq<HistoryMessage>)
    ensures
        is_announced(view, view.append(messages)),
{
    let integration = view.integrate(messages);
    let len = view.list.len() as int;
    let rows = integration.view.add_rows(len, integration.rows);
    lemma_integrate_announced(view, messages);
    lemma_add_rows_announced(integration.view, len, integration.rows);
    lemma_announced_transitive(view, integration.view, rows);
    lemma_swap_all_announced(rows, integration.swaps);
    lemma_announced_transitive(view, rows, view.append(messages));
}

proof fn lemma_prepend_announced(view: HistoryView, messages: Seq<HistoryMessage>)
    ensures
        is_announced(view, view.prepend(messages)),
{
    let integration = view.integrate(messages.reverse());
    let rows = integration.view.add_rows(0, integration.rows.reverse());
    lemma_integrate_announced(view, messages.reverse());
    lemma_add_rows_announced(integration.view, 0, integration.rows.reverse());
    lemma_announced_transitive(view, integration.view, rows);
    lemma_swap_all_announced(rows, integration.swaps);
    lemma_announced_transitive(view, rows, view.prepend(messages));
}

proof fn lemma_push_front_announced(view: HistoryView, message: HistoryMessage)
    ensures
        is_announced(view, view.push_front(message)),
{
    let joined = view.join_album(message);
    lemma_join_album_announced(view, message);
    match view.album_handling(message) {
        AlbumHandling::Row => {
            lemma_add_rows_announced(joined, 0, seq![message]);
        },
        AlbumHandling::Merged => {
            lemma_announced_reflexive(joined);
        },
        AlbumHandling::Promoted { replaced, representative } => {
            lemma_swap_announced(joined, replaced, representative);
        },
    }
    lemma_announced_transitive(view, joined, view.push_front(message));
}

proof fn lemma_insert_announced(view: HistoryView, message: HistoryMessage)
    ensures
        is_announced(view, view.insert(message)),
{
    let joined = view.join_album(message);
    lemma_join_album_announced(view, message);
    match view.album_handling(message) {
        AlbumHandling::Row => {
            lemma_insert_row_announced(joined, message);
        },
        AlbumHandling::Merged => {
            lemma_announced_reflexive(joined);
        },
        AlbumHandling::Promoted { replaced, representative } => {
            lemma_swap_announced(joined, replaced, representative);
        },
    }
    lemma_announced_transitive(view, joined, view.insert(message));
}

proof fn lemma_push_all_front_announced(view: HistoryView, messages: Seq<HistoryMessage>)
    ensures
        is_announced(view, view.push_all_front(messages)),
    decreases messages.len(),
{
    if messages.len() == 0 {
        lemma_announced_reflexive(view);
    } else {
        let before = view.push_all_front(messages.drop_last());
        lemma_push_all_front_announced(view, messages.drop_last());
        lemma_push_front_announced(before, messages.last());
        lemma_announced_transitive(view, before, view.push_all_front(messages));
    }
}

proof fn lemma_reach_newest_announced(view: HistoryView)
    ensures
        is_announced(view, view.reach_newest()),
{
    let drained = HistoryView { at_newest: true, pending: Seq::empty(), ..view };
    lemma_same_announced(view, drained);
    lemma_push_all_front_announced(drained, view.pending);
    lemma_announced_transitive(view, drained, view.reach_newest());
}

/// Observers keep up when the newest items are trimmed.
pub proof fn law_trim_front_is_announced(view: HistoryView)
    ensures
        is_announced(view, view.trim_front()),
{
    lemma_announced_reflexive(view);
    if view.list.len() > TRIM_AT_ITEMS {
        let trimmed = view.list.len() - TRIM_TO_ITEMS;
        let orphaned = leading_dividers(view.list.skip(trimmed));
        let forgotten = HistoryView {
            at_newest: false,
            ..view.forget_albums_of(view.list.take(trimmed))
        };
        lemma_forgetting_keeps_rest(view, view.list.take(trimmed));
        lemma_same_announced(view, forgotten);
        lemma_splice_announced(forgotten, 0, trimmed + orphaned, Seq::empty());
        lemma_announced_transitive(view, forgotten, view.trim_front());
    }
}

/// Observers keep up when the oldest items are trimmed.
pub proof fn law_trim_back_is_announced(view: HistoryView)
    ensures
        is_announced(view, view.trim_back()),
{
    lemma_announced_reflexive(view);
    let at = TRIM_TO_ITEMS as int;
    if view.list.len() > TRIM_AT_ITEMS {
        let forgotten = view.forget_albums_of(view.list.skip(at).reverse());
        lemma_forgetting_keeps_rest(view, view.list.skip(at).reverse());
        lemma_same_announced(view, forgotten);
        lemma_splice_announced(forgotten, at, view.list.len() - at, Seq::empty());
        lemma_announced_transitive(view, forgotten, view.trim_back());
    }
}

/// Observers keep up when a message arrives.
pub proof fn law_receive_is_announced(view: HistoryView, message: HistoryMessage)
    ensures
        is_announced(view, view.receive(message)),
{
    lemma_push_front_announced(view, message);
    lemma_same_announced(view, HistoryView { pending: view.pending.push(message), ..view });
}

/// Observers keep up when a message is deleted.
pub proof fn law_delete_is_announced(view: HistoryView, message: HistoryMessage)
    ensures
        is_announced(view, view.delete(message)),
{
    let kept = HistoryView {
        pending: other_than(view.pending, message.id),
        ..view
    };
    lemma_same_announced(view, kept);
    let album_id = message.media_album_id;
    if album_id != 0 && view.albums.contains_key(album_id) {
        lemma_leave_album_announced(kept, album_id, message);
    } else {
        lemma_remove_announced(kept, message);
    }
    lemma_announced_transitive(view, kept, view.delete(message));
}

#[verifier::rlimit(40)]
#[verifier::spinoff_prover]
proof fn lemma_leave_album_announced(view: HistoryView, album_id: i64, message: HistoryMessage)
    ensures
        is_announced(view, view.leave_album(album_id, message)),
{
    let album = view.albums[album_id];
    let rest = without_message(album, message.id);
    let was_representative = album[0].id == message.id;
    let change = HistoryChange::Album {
        album_id,
        position: older_count(album, message.id) as int,
        removed: 1,
        messages: Seq::empty(),
    };
    lemma_announced_reflexive(view);
    lemma_changed_announced(view, change);
    let left = if has_message(album, message.id) {
        view.changed(change)
    } else {
        view
    };
    let base = HistoryView {
        albums: if rest.len() >= 2 {
            view.albums.insert(album_id, rest)
        } else {
            view.albums.remove(album_id)
        },
        ..left
    };
    lemma_same_announced(left, base);
    lemma_announced_transitive(view, left, base);
    let role = base.changed(
        HistoryChange::Representative {
            message_id: rest[0].id,
            represents: if rest.len() >= 2 {
                Some(album_id)
            } else {
                None
            },
        },
    );
    lemma_changed_announced(
        base,
        HistoryChange::Representative {
            message_id: rest[0].id,
            represents: if rest.len() >= 2 {
                Some(album_id)
            } else {
                None
            },
        },
    );
    lemma_announced_transitive(view, base, role);
    let replaced = if was_representative {
        message
    } else {
        rest[0]
    };
    lemma_swap_announced(role, replaced, rest[0]);
    lemma_announced_transitive(view, role, role.swap_representative(replaced, rest[0]));
    lemma_remove_announced(base, message);
    lemma_announced_transitive(view, base, base.remove(message));
}

/// Observers keep up when older messages are loaded.
pub proof fn law_load_older_is_announced(
    view: HistoryView,
    from: MessageId,
    answer: Seq<HistoryMessage>,
)
    ensures
        is_announced(view, view.load_older(from, answer)),
{
    let idle = HistoryView { is_loading_older: false, ..view };
    let messages = older_than(answer, from);
    lemma_same_announced(view, idle);
    lemma_append_announced(idle, messages);
    lemma_announced_transitive(view, idle, idle.append(messages));
    law_trim_front_is_announced(idle.append(messages));
    lemma_announced_transitive(view, idle.append(messages), idle.append(messages).trim_front());
}

/// Observers keep up when newer messages are loaded.
pub proof fn law_load_newer_is_announced(
    view: HistoryView,
    from: MessageId,
    answer: Seq<HistoryMessage>,
)
    ensures
        is_announced(view, view.load_newer(from, answer)),
{
    let idle = HistoryView { is_loading_newer: false, ..view };
    let messages = newer_than(answer, from);
    lemma_same_announced(view, idle);
    lemma_reach_newest_announced(idle);
    lemma_announced_transitive(view, idle, idle.reach_newest());
    lemma_prepend_announced(idle, messages);
    lemma_announced_transitive(view, idle, idle.prepend(messages));
    law_trim_back_is_announced(idle.prepend(messages));
    lemma_announced_transitive(view, idle.prepend(messages), idle.prepend(messages).trim_back());
}

/// Observers keep up when the messages around the anchor are loaded, also
/// when that reaches the newest message.
pub proof fn law_load_around_is_announced(view: HistoryView, answer: Seq<HistoryMessage>)
    ensures
        is_announced(view, view.load_around(answer)),
        is_announced(view, view.load_around(answer).reach_newest()),
{
    let idle = HistoryView { is_loading_older: false, ..view };
    lemma_same_announced(view, idle);
    lemma_append_announced(idle, answer);
    lemma_announced_transitive(view, idle, view.load_around(answer));
    lemma_reach_newest_announced(view.load_around(answer));
    lemma_announced_transitive(
        view,
        view.load_around(answer),
        view.load_around(answer).reach_newest(),
    );
}

/// Observers keep up when the message of the anchor is added, also when that
/// reaches the newest message.
pub proof fn law_insert_is_announced(view: HistoryView, message: HistoryMessage)
    ensures
        is_announced(view, view.insert(message)),
        is_announced(view, view.insert(message).reach_newest()),
{
    lemma_insert_announced(view, message);
    lemma_reach_newest_announced(view.insert(message));
    lemma_announced_transitive(view, view.insert(message), view.insert(message).reach_newest());
}

/// The members of the album of the given id, of which there are none if the
/// album is not shown.
pub open spec fn members_of(view: HistoryView, id: i64) -> Seq<HistoryMessage> {
    if view.albums.contains_key(id) {
        view.albums[id]
    } else {
        Seq::empty()
    }
}

/// Whether the changes from the given number on are these ones, before any
/// others.
pub open spec fn are_told_first(
    changes: Seq<HistoryChange>,
    count: int,
    told: Seq<HistoryChange>,
) -> bool {
    &&& changes.len() >= count + told.len()
    &&& changes.subrange(count, count + told.len()) == told
}

/// The first changes stay the first ones when others follow.
proof fn lemma_told_first(
    before: HistoryView,
    after: HistoryView,
    count: int,
    told: Seq<HistoryChange>,
)
    requires
        0 <= count,
        is_announced(before, after),
        are_told_first(before.changes, count, told),
    ensures
        are_told_first(after.changes, count, told),
{
    let kept = after.changes.take(before.changes.len() as int);
    assert(after.changes.subrange(count, count + told.len()) =~= kept.subrange(
        count,
        count + told.len(),
    ));
}

/// Observers are told where a message that arrives or is put where it belongs
/// joins its album: the album is then the one of before with the message put in
/// at that position. They are told which message represents the album if that
/// is a new one: the message represents an album that was not shown before, and
/// takes over from the oldest member if it is older.
pub proof fn law_joined_album_is_announced(
    view: HistoryView,
    message: HistoryMessage,
    position: int,
    after: HistoryView,
)
    requires
        message.media_album_id != 0,
        message.is_groupable,
        ({
            let album = members_of(view, message.media_album_id);
            &&& is_ascending(album)
            &&& view.albums.contains_key(message.media_album_id) ==> album.len() > 0
            &&& 0 <= position <= album.len()
            &&& forall|i: int| 0 <= i < position ==> (#[trigger] album[i]).id < message.id
            &&& forall|i: int|
                position <= i < album.len() ==> (#[trigger] album[i]).id > message.id
        }),
        after == view.insert(message) || after == view.push_front(message) || after
            == view.join_album(message),
    ensures
        ({
            let id = message.media_album_id;
            let album = members_of(view, id);
            &&& after.albums.contains_key(id)
            &&& after.albums[id] == album.take(position) + seq![message] + album.skip(position)
            &&& are_told_first(
                after.changes,
                view.changes.len() as int,
                seq![
                    HistoryChange::Album {
                        album_id: id,
                        position,
                        removed: 0,
                        messages: seq![message],
                    },
                ] + if !view.albums.contains_key(id) {
                    seq![
                        HistoryChange::Representative {
                            message_id: message.id,
                            represents: Some(id),
                        },
                    ]
                } else if position == 0 {
                    seq![
                        HistoryChange::Representative { message_id: album[0].id, represents: None },
                        HistoryChange::Representative {
                            message_id: message.id,
                            represents: Some(id),
                        },
                    ]
                } else {
                    Seq::empty()
                },
            )
        }),
{
    let id = message.media_album_id;
    let count = view.changes.len() as int;
    let album = members_of(view, id);
    let joined = view.join_album(message);
    lemma_older_count_unique(album, message.id, position);
    assert(!has_message(album, message.id));
    let told = seq![
        HistoryChange::Album { album_id: id, position, removed: 0, messages: seq![message] },
    ] + if !view.albums.contains_key(id) {
        seq![HistoryChange::Representative { message_id: message.id, represents: Some(id) }]
    } else if position == 0 {
        seq![
            HistoryChange::Representative { message_id: album[0].id, represents: None },
            HistoryChange::Representative { message_id: message.id, represents: Some(id) },
        ]
    } else {
        Seq::empty()
    };
    assert(joined.changes =~= view.changes + told);
    assert(joined.changes.subrange(count, count + told.len()) =~= told);
    assert(joined.albums[id] =~= album.take(position) + seq![message] + album.skip(position));
    lemma_announced_reflexive(joined);
    lemma_insert_row_announced(joined, message);
    lemma_add_rows_announced(joined, 0, seq![message]);
    if let AlbumHandling::Promoted { replaced, representative } = view.album_handling(message) {
        lemma_swap_announced(joined, replaced, representative);
    }
    assert(is_announced(joined, after));
    assert(after.albums == joined.albums);
    lemma_told_first(joined, after, count, told);
}

/// Observers are told where a deleted message leaves its album. They are told
/// that the next-oldest member represents the album if the oldest one left, and
/// that the last member represents none anymore.
pub proof fn law_left_album_is_announced(view: HistoryView, message: HistoryMessage)
    requires
        message.media_album_id != 0,
        view.albums.contains_key(message.media_album_id),
        is_ascending(view.albums[message.media_album_id]),
        has_message(view.albums[message.media_album_id], message.id),
    ensures
        ({
            let id = message.media_album_id;
            let after = view.delete(message);
            let count = view.changes.len() as int;
            let album = view.albums[id];
            exists|position: int|
                0 <= position < album.len() && (#[trigger] album[position]).id == message.id && {
                    let rest = album.remove(position);
                    &&& are_told_first(
                        after.changes,
                        count,
                        seq![
                            HistoryChange::Album {
                                album_id: id,
                                position,
                                removed: 1,
                                messages: Seq::empty(),
                            },
                        ] + if rest.len() == 1 {
                            seq![
                                HistoryChange::Representative {
                                    message_id: rest[0].id,
                                    represents: None,
                                },
                            ]
                        } else if rest.len() > 1 && position == 0 {
                            seq![
                                HistoryChange::Representative {
                                    message_id: rest[0].id,
                                    represents: Some(id),
                                },
                            ]
                        } else {
                            Seq::empty()
                        },
                    )
                    &&& rest.len() > 1 ==> after.albums.contains_key(id) && after.albums[id] == rest
                    &&& rest.len() > 1 && position > 0 ==> after.changes.len() == count + 1
                    &&& rest.len() <= 1 ==> !after.albums.contains_key(id)
                }
        }),
{
    let id = message.media_album_id;
    let after = view.delete(message);
    let count = view.changes.len() as int;
    let album = view.albums[id];
    let position = older_count(album, message.id) as int;
    lemma_older_count(album, message.id);
    let k = choose|k: int| 0 <= k < album.len() && (#[trigger] album[k]).id == message.id;
    if position < k {
        assert(album[position].id < album[k].id);
    }
    assert(album[position].id == message.id);
    let rest = album.remove(position);
    assert(rest == without_message(album, message.id));
    if position > 0 {
        assert(album[0].id < album[position].id);
    }
    let kept = HistoryView { pending: other_than(view.pending, message.id), ..view };
    let change = HistoryChange::Album {
        album_id: id,
        position,
        removed: 1,
        messages: Seq::empty(),
    };
    let left = kept.changed(change);
    let base = HistoryView {
        albums: if rest.len() >= 2 {
            view.albums.insert(id, rest)
        } else {
            view.albums.remove(id)
        },
        ..left
    };
    let role = if rest.len() == 1 {
        seq![HistoryChange::Representative { message_id: rest[0].id, represents: None }]
    } else if rest.len() > 1 && position == 0 {
        seq![HistoryChange::Representative { message_id: rest[0].id, represents: Some(id) }]
    } else {
        Seq::empty()
    };
    let told = seq![change] + role;
    let named = HistoryView { changes: view.changes + told, ..base };
    if role.len() > 0 {
        assert(named.changes =~= base.changes.push(role[0]));
        let replaced = if position == 0 {
            message
        } else {
            rest[0]
        };
        assert(named == base.changed(role[0]));
        lemma_swap_announced(named, replaced, rest[0]);
        assert(after == named.remove(replaced).insert_row(rest[0]));
    } else {
        assert(named.changes =~= base.changes);
        lemma_announced_reflexive(named);
        lemma_remove_announced(named, message);
    }
    assert(is_announced(named, after));
    assert(named.changes.subrange(count, count + told.len()) =~= told);
    lemma_told_first(named, after, count, told);
    assert(album[position].id == message.id);
}

} // verus!
