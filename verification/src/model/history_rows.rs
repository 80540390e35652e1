//! That every album of a chat history keeps one row when messages are loaded.

use vstd::prelude::*;

use crate::model::chat_history_item::{ChatHistoryItem, HistoryMessage};
use crate::model::history_albums::{
    albums_have_one_row, is_shown, is_unknown, law_added_message_keeps_one_row,
    lemma_add_rows_shows, shows,
};
use crate::model::history_chronology::{
    are_members_of, are_of, can_swap, is_chronicle, is_descending, is_history_of, is_member,
    is_newer_than_rows, is_newest_known, is_older_than_rows, is_oldest_end, is_rising,
    law_swapped_representative_keeps_layout, lemma_append, lemma_appended_rows, lemma_filtered,
    lemma_integrate, lemma_join, lemma_prepend, lemma_prepended_rows, lemma_push_all_front,
    lemma_swap_all,
};
use crate::model::history_laws::lemma_leading_dividers;
use crate::model::history_view::{
    leading_dividers, lemma_forgetting_keeps_rest, newer_than, older_than, AlbumHandling,
    HistoryView, TRIM_AT_ITEMS, TRIM_TO_ITEMS,
};
use crate::model::media_album::{
    has_message, is_ascending, lemma_older_count, older_count, with_message,
};
use crate::types::MessageId;

verus! {

/// The messages that have rows.
pub open spec fn shown_in(list: Seq<ChatHistoryItem>) -> Set<HistoryMessage> {
    Set::new(|message: HistoryMessage| shows(list, message))
}

/// The messages that have rows after some were replaced, one after the other.
pub open spec fn swapped(
    shown: Set<HistoryMessage>,
    swaps: Seq<(HistoryMessage, HistoryMessage)>,
) -> Set<HistoryMessage>
    decreases swaps.len(),
{
    if swaps.len() == 0 {
        shown
    } else {
        swapped(shown, swaps.drop_last()).remove(swaps.last().0).insert(swaps.last().1)
    }
}

/// Whether of the members of every album, exactly the oldest one is among the
/// given messages.
pub open spec fn are_shown_once(view: HistoryView, shown: Set<HistoryMessage>) -> bool {
    forall|album_id: i64, i: int|
        #![trigger view.albums[album_id][i]]
        view.albums.contains_key(album_id) && 0 <= i < view.albums[album_id].len() ==> (
        shown.contains(view.albums[album_id][i]) <==> i == 0)
}

/// The messages that have rows after a message joined its album.
pub open spec fn shown_after(
    view: HistoryView,
    shown: Set<HistoryMessage>,
    message: HistoryMessage,
) -> Set<HistoryMessage> {
    match view.album_handling(message) {
        AlbumHandling::Row => shown.insert(message),
        AlbumHandling::Merged => shown,
        AlbumHandling::Promoted { replaced, representative } => shown.remove(replaced).insert(
            representative,
        ),
    }
}

/// Whether the message can be integrated: it has no row, unless it is a member
/// of an album already, where it still belongs.
pub open spec fn can_be_integrated(
    view: HistoryView,
    shown: Set<HistoryMessage>,
    message: HistoryMessage,
) -> bool {
    if is_member(view, message) {
        message.is_groupable
    } else {
        !shown.contains(message)
    }
}

proof fn lemma_joined_shown_once(
    view: HistoryView,
    shown: Set<HistoryMessage>,
    message: HistoryMessage,
    chat: Set<HistoryMessage>,
)
    requires
        view.wf(),
        are_members_of(view, chat),
        is_chronicle(chat),
        chat.contains(message),
        are_shown_once(view, shown),
        can_be_integrated(view, shown, message),
    ensures
        are_shown_once(view.join_album(message), shown_after(view, shown, message)),
{
    let own = message.media_album_id;
    let after = view.join_album(message);
    let result = shown_after(view, shown, message);
    let joins = own != 0 && message.is_groupable;
    let members = if view.albums.contains_key(own) {
        view.albums[own]
    } else {
        Seq::empty()
    };
    let joined = with_message(members, message);
    if view.albums.contains_key(own) {
        assert(are_of(members, chat));
        assert(is_ascending(members));
        assert(shown.contains(view.albums[own][0]));
        assert(members[0].media_album_id == own);
    }
    lemma_older_count(members, message.id);
    let at = older_count(members, message.id) as int;
    if has_message(members, message.id) {
        let k = choose|k: int| 0 <= k < members.len() && (#[trigger] members[k]).id == message.id;
        assert(chat.contains(members[k]));
        assert(members[k] == message);
        if k > 0 {
            assert(members[0].id < members[k].id);
        }
    }
    assert forall|album_id: i64, i: int|
        #![trigger after.albums[album_id][i]]
        after.albums.contains_key(album_id) && 0 <= i
            < after.albums[album_id].len() implies (result.contains(after.albums[album_id][i])
        <==> i == 0) by {
        let member = after.albums[album_id][i];
        if joins && album_id == own {
            assert(after.albums[own] == joined);
            if has_message(members, message.id) {
                assert(member == view.albums[own][i]);
            } else {
                if i < at {
                    assert(member == view.albums[own][i]);
                    if i > 0 {
                        assert(members[0].id < members[i].id);
                    }
                } else if i > at {
                    assert(member == view.albums[own][i - 1]);
                    if i > 1 {
                        assert(members[0].id < members[i - 1].id);
                    }
                }
                if members.len() > 0 && at == 0 {
                    assert(members[0].id >= message.id);
                    assert(members[0].id != message.id);
                }
                if at > 0 {
                    assert(members[0].id < message.id);
                }
            }
        } else {
            assert(view.albums.contains_key(album_id));
            assert(member == view.albums[album_id][i]);
            assert(member.media_album_id == album_id);
            assert(view.albums[album_id].contains(member));
            assert(is_member(view, member));
            if member == message {
                assert(view.albums[own].contains(message));
                assert(own != 0);
                assert(has_message(members, message.id)) by {
                    let k = choose|k: int| 0 <= k < members.len() && members[k] == message;
                    assert(members[k].id == message.id);
                }
            }
        }
    }
}

proof fn lemma_swapped_insert(
    shown: Set<HistoryMessage>,
    swaps: Seq<(HistoryMessage, HistoryMessage)>,
    message: HistoryMessage,
)
    requires
        forall|k: int| 0 <= k < swaps.len() ==> (#[trigger] swaps[k]).0 != message,
    ensures
        swapped(shown.insert(message), swaps) == swapped(shown, swaps).insert(message),
    decreases swaps.len(),
{
    if swaps.len() > 0 {
        let rest = swaps.drop_last();
        let last = swaps.len() - 1;
        assert forall|k: int| 0 <= k < rest.len() implies (#[trigger] rest[k]).0 != message by {
            assert(rest[k] == swaps[k]);
        }
        lemma_swapped_insert(shown, rest, message);
        assert(swaps[last].0 != message);
        assert(swapped(shown.insert(message), swaps) =~= swapped(shown, swaps).insert(message));
    }
}

/// What has rows after messages were integrated, once the ones that need rows
/// have them and the replaced rows were replaced.
pub open spec fn integrated(
    view: HistoryView,
    shown: Set<HistoryMessage>,
    messages: Seq<HistoryMessage>,
) -> Set<HistoryMessage> {
    swapped(
        shown.union(view.integrate(messages).rows.to_set()),
        view.integrate(messages).swaps,
    )
}

proof fn lemma_integrated_shown_once(
    view: HistoryView,
    shown: Set<HistoryMessage>,
    messages: Seq<HistoryMessage>,
    chat: Set<HistoryMessage>,
)
    requires
        view.wf(),
        are_members_of(view, chat),
        is_chronicle(chat),
        are_of(messages, chat),
        messages.no_duplicates(),
        are_shown_once(view, shown),
        forall|k: int|
            0 <= k < messages.len() ==> can_be_integrated(view, shown, #[trigger] messages[k]),
    ensures
        are_shown_once(view.integrate(messages).view, integrated(view, shown, messages)),
        forall|other: HistoryMessage| #[trigger]
            integrated(view, shown, messages).contains(other) ==> shown.contains(other)
                || messages.contains(other) || is_member(view.integrate(messages).view, other),
        forall|other: HistoryMessage| #[trigger]
            is_member(view.integrate(messages).view, other) ==> is_member(view, other)
                || messages.contains(other),
        forall|other: HistoryMessage|
            is_member(view, other) ==> #[trigger] is_member(view.integrate(messages).view, other),
        forall|k: int|
            0 <= k < view.integrate(messages).swaps.len() ==> is_member(
                view.integrate(messages).view,
                (#[trigger] view.integrate(messages).swaps[k]).0,
            ),
        forall|other: HistoryMessage|
            shown.contains(other) || is_member(view, other) || messages.contains(other)
                ==> #[trigger] integrated(view, shown, messages).contains(other) || is_member(
                view.integrate(messages).view,
                other,
            ),
    decreases messages.len(),
{
    if messages.len() == 0 {
        assert(integrated(view, shown, messages) =~= shown) by {
            assert(view.integrate(messages).rows.to_set() =~= Set::empty());
        }
    } else {
        let rest = messages.drop_last();
        let last = messages.len() - 1;
        let message = messages[last];
        let before = view.integrate(rest);
        let after = view.integrate(messages);
        assert(are_of(rest, chat)) by {
            assert forall|i: int| 0 <= i < rest.len() implies chat.contains(#[trigger] rest[i]) by {
                assert(rest[i] == messages[i]);
            }
        }
        assert(rest.no_duplicates()) by {
            assert forall|i: int, j: int|
                0 <= i < rest.len() && 0 <= j < rest.len() && i != j implies rest[i] != rest[j] by {
                assert(rest[i] == messages[i] && rest[j] == messages[j]);
            }
        }
        assert forall|k: int| 0 <= k < rest.len() implies can_be_integrated(
            view,
            shown,
            #[trigger] rest[k],
        ) by {
            assert(rest[k] == messages[k]);
            assert(can_be_integrated(view, shown, messages[k]));
        }
        assert(!rest.contains(message)) by {
            if rest.contains(message) {
                let k = choose|k: int| 0 <= k < rest.len() && rest[k] == message;
                assert(messages[k] == messages[last]);
            }
        }
        assert forall|other: HistoryMessage| rest.contains(other) implies messages.contains(
            other,
        ) by {
            let k = choose|k: int| 0 <= k < rest.len() && rest[k] == other;
            assert(messages[k] == other);
        }
        assert(messages.contains(message));
        lemma_integrated_shown_once(view, shown, rest, chat);
        lemma_integrate(view, rest, chat);
        lemma_join(before.view, message, chat);
        let base = integrated(view, shown, rest);
        assert(can_be_integrated(view, shown, message));
        assert(is_member(before.view, message) <==> is_member(view, message));
        assert(can_be_integrated(before.view, base, message));
        lemma_joined_shown_once(before.view, base, message, chat);
        let result = integrated(view, shown, messages);
        match before.view.album_handling(message) {
            AlbumHandling::Row => {
                assert(!is_member(before.view, message)) by {
                    if is_member(before.view, message) {
                        let members = before.view.albums[message.media_album_id];
                        let k = choose|k: int| 0 <= k < members.len() && members[k] == message;
                        assert(before.view.albums.contains_key(message.media_album_id));
                    }
                }
                assert forall|k: int| 0 <= k < before.swaps.len() implies (
                #[trigger] before.swaps[k]).0 != message by {
                    assert(is_member(before.view, before.swaps[k].0));
                }
                assert(after.rows.to_set() =~= before.rows.to_set().insert(message)) by {
                    assert forall|other: HistoryMessage| after.rows.contains(other)
                        <==> before.rows.contains(other) || other == message by {
                        if before.rows.contains(other) {
                            let k = choose|k: int|
                                0 <= k < before.rows.len() && before.rows[k] == other;
                            assert(after.rows[k] == other);
                        }
                        assert(after.rows[before.rows.len() as int] == message);
                        if after.rows.contains(other) {
                            let k = choose|k: int|
                                0 <= k < after.rows.len() && after.rows[k] == other;
                            if k < before.rows.len() {
                                assert(before.rows[k] == other);
                            }
                        }
                    }
                }
                let start = shown.union(before.rows.to_set());
                assert(shown.union(after.rows.to_set()) =~= start.insert(message));
                lemma_swapped_insert(start, before.swaps, message);
            },
            AlbumHandling::Merged => {},
            AlbumHandling::Promoted { replaced, representative } => {
                let members = before.view.albums[message.media_album_id];
                assert(members[0].media_album_id == message.media_album_id);
                assert(members.contains(members[0]));
                assert(is_member(before.view, replaced));
                assert(after.swaps.drop_last() =~= before.swaps);
            },
        }
        assert(result =~= shown_after(before.view, base, message));
        assert forall|k: int| 0 <= k < after.swaps.len() implies is_member(
            after.view,
            (#[trigger] after.swaps[k]).0,
        ) by {
            if k < before.swaps.len() {
                assert(after.swaps[k] == before.swaps[k]);
            }
        }
        assert forall|other: HistoryMessage|
            shown.contains(other) || is_member(view, other) || messages.contains(
                other,
            ) implies #[trigger] result.contains(other) || is_member(after.view, other) by {
            if other != message {
                if messages.contains(other) {
                    let k = choose|k: int| 0 <= k < messages.len() && messages[k] == other;
                    assert(rest[k] == other);
                }
                assert(base.contains(other) || is_member(before.view, other));
            }
        }
    }
}

/// What has rows after rows were replaced.
proof fn lemma_swap_all_shown(
    view: HistoryView,
    swaps: Seq<(HistoryMessage, HistoryMessage)>,
    chat: Set<HistoryMessage>,
)
    requires
        is_history_of(view, chat),
        can_swap(view.list, swaps, chat),
    ensures
        shown_in(view.swap_all(swaps).list) == swapped(shown_in(view.list), swaps),
    decreases swaps.len(),
{
    if swaps.len() > 0 {
        let rest = swaps.drop_last();
        let last = swaps.len() - 1;
        let before = view.swap_all(rest);
        let (replaced, representative) = swaps[last];
        assert forall|k: int| 0 <= k < rest.len() implies {
            let (replaced, representative) = #[trigger] rest[k];
            &&& chat.contains(replaced)
            &&& chat.contains(representative)
            &&& replaced == representative || !shows(view.list, representative) && forall|j: int|
                0 <= j < k ==> (#[trigger] rest[j]).1 != representative
        } by {
            assert(rest[k] == swaps[k]);
            assert forall|j: int|
                0 <= j < k && swaps[k].0 != swaps[k].1 implies (#[trigger] rest[j]).1
                != swaps[k].1 by {
                assert(rest[j] == swaps[j]);
            }
        }
        lemma_swap_all_shown(view, rest, chat);
        lemma_swap_all(view, rest, chat);
        if replaced != representative && shows(before.list, representative) {
            let j = choose|j: int| 0 <= j < rest.len() && (#[trigger] rest[j]).1 == representative;
            assert(rest[j] == swaps[j]);
        }
        law_swapped_representative_keeps_layout(before, replaced, representative, chat);
        assert(shown_in(view.swap_all(swaps).list) =~= swapped(shown_in(view.list), swaps)) by {
            assert forall|other: HistoryMessage| shown_in(view.swap_all(swaps).list).contains(other)
                <==> swapped(shown_in(view.list), swaps).contains(other) by {
                assert(shows(view.swap_all(swaps).list, other) <==> shows(before.list, other)
                    && other != replaced || other == representative);
                assert(shown_in(before.list).contains(other) <==> shows(before.list, other));
            }
        }
    }
}

proof fn lemma_shown_once(view: HistoryView)
    ensures
        albums_have_one_row(view) <==> are_shown_once(view, shown_in(view.list)),
{
    if albums_have_one_row(view) {
        assert forall|album_id: i64, i: int|
            #![trigger view.albums[album_id][i]]
            view.albums.contains_key(album_id) && 0 <= i < view.albums[album_id].len() implies (
        shown_in(view.list).contains(view.albums[album_id][i]) <==> i == 0) by {
            assert(shows(view.list, view.albums[album_id][i]) <==> i == 0);
        }
    }
    if are_shown_once(view, shown_in(view.list)) {
        assert forall|album_id: i64, i: int|
            #![trigger view.albums[album_id][i]]
            view.albums.contains_key(album_id) && 0 <= i < view.albums[album_id].len() implies (
        shows(view.list, view.albums[album_id][i]) <==> i == 0) by {
            assert(shown_in(view.list).contains(view.albums[album_id][i]) <==> i == 0);
        }
    }
}

/// The rows that are added and replaced after messages were integrated.
proof fn lemma_rows_shown_once(
    view: HistoryView,
    position: int,
    messages: Seq<HistoryMessage>,
    rows: Seq<HistoryMessage>,
    chat: Set<HistoryMessage>,
)
    requires
        is_history_of(view, chat),
        albums_have_one_row(view),
        0 <= position <= view.list.len(),
        are_of(messages, chat),
        messages.no_duplicates(),
        forall|k: int|
            0 <= k < messages.len() ==> can_be_integrated(
                view,
                shown_in(view.list),
                #[trigger] messages[k],
            ),
        rows.to_set() == view.integrate(messages).rows.to_set(),
        is_history_of(view.integrate(messages).view.add_rows(position, rows), chat),
        can_swap(
            view.integrate(messages).view.add_rows(position, rows).list,
            view.integrate(messages).swaps,
            chat,
        ),
    ensures
        albums_have_one_row(
            view.integrate(messages).view.add_rows(position, rows).swap_all(
                view.integrate(messages).swaps,
            ),
        ),
        forall|other: HistoryMessage| #[trigger]
            is_shown(
                view.integrate(messages).view.add_rows(position, rows).swap_all(
                    view.integrate(messages).swaps,
                ),
                other,
            ) <==> is_shown(view, other) || messages.contains(other),
{
    let shown = shown_in(view.list);
    let integration = view.integrate(messages);
    let added = integration.view.add_rows(position, rows);
    let after = added.swap_all(integration.swaps);
    lemma_shown_once(view);
    lemma_integrate(view, messages, chat);
    lemma_integrated_shown_once(view, shown, messages, chat);
    assert(shown_in(added.list) =~= shown.union(integration.rows.to_set())) by {
        assert forall|other: HistoryMessage| shown_in(added.list).contains(other)
            <==> shown.union(integration.rows.to_set()).contains(other) by {
            assert(rows.contains(other) <==> rows.to_set().contains(other));
            if rows.len() > 0 {
                lemma_add_rows_shows(integration.view, position, rows, other);
            }
        }
    }
    lemma_swap_all_shown(added, integration.swaps, chat);
    lemma_swap_all(added, integration.swaps, chat);
    assert(after.albums == integration.view.albums);
    lemma_shown_once(after);
    assert(after.wf());
    assert forall|other: HistoryMessage| #[trigger]
        is_shown(after, other) <==> is_shown(view, other) || messages.contains(other) by {
        lemma_is_shown(view, other);
        lemma_is_shown(after, other);
        assert(shown_in(view.list).contains(other) <==> shows(view.list, other));
        assert(shown_in(after.list).contains(other) <==> shows(after.list, other));
        assert(integrated(view, shown, messages).contains(other) <==> shown_in(
            after.list,
        ).contains(other));
        assert(is_member(after, other) == is_member(integration.view, other));
        assert(is_member(view, other) ==> is_member(integration.view, other));
    }
}

/// What is loaded is shown if every album has one row.
pub proof fn lemma_is_shown(view: HistoryView, message: HistoryMessage)
    requires
        view.wf(),
        albums_have_one_row(view),
    ensures
        is_shown(view, message) <==> shows(view.list, message) || is_member(view, message),
{
    if is_member(view, message) {
        assert(shows(view.list, view.albums[message.media_album_id][0]));
    }
}

// Loading

/// A message that is older than the rows is no member of an album.
proof fn lemma_older_is_no_member(view: HistoryView, message: HistoryMessage)
    requires
        view.wf(),
        albums_have_one_row(view),
        is_older_than_rows(message, view.list),
    ensures
        !is_member(view, message),
        !shows(view.list, message),
{
    if is_member(view, message) {
        let album_id = message.media_album_id;
        let members = view.albums[album_id];
        let k = choose|k: int| 0 <= k < members.len() && members[k] == message;
        assert(shows(view.list, view.albums[album_id][0]));
        let i = choose|i: int|
            0 <= i < view.list.len() && #[trigger] view.list[i] == ChatHistoryItem::Message(
                members[0],
            );
        assert(view.list[i]->Message_0.id > message.id);
        if k > 0 {
            assert(members[0].id < members[k].id);
        }
    }
    if shows(view.list, message) {
        let i = choose|i: int|
            0 <= i < view.list.len() && #[trigger] view.list[i] == ChatHistoryItem::Message(
                message,
            );
        assert(view.list[i]->Message_0.id > message.id);
    }
}

pub proof fn lemma_append_one_row(
    view: HistoryView,
    messages: Seq<HistoryMessage>,
    chat: Set<HistoryMessage>,
)
    requires
        is_history_of(view, chat),
        albums_have_one_row(view),
        are_of(messages, chat),
        is_descending(messages),
        forall|k: int|
            0 <= k < messages.len() ==> is_older_than_rows(#[trigger] messages[k], view.list),
    ensures
        albums_have_one_row(view.append(messages)),
        forall|other: HistoryMessage| #[trigger]
            is_shown(view.append(messages), other) <==> is_shown(view, other)
                || messages.contains(other),
{
    lemma_appended_rows(view, messages, chat);
    assert forall|k: int| 0 <= k < messages.len() implies can_be_integrated(
        view,
        shown_in(view.list),
        #[trigger] messages[k],
    ) by {
        lemma_older_is_no_member(view, messages[k]);
    }
    lemma_rows_shown_once(
        view,
        view.list.len() as int,
        messages,
        view.integrate(messages).rows,
        chat,
    );
}

pub proof fn lemma_prepend_one_row(
    view: HistoryView,
    messages: Seq<HistoryMessage>,
    chat: Set<HistoryMessage>,
)
    requires
        is_history_of(view, chat),
        albums_have_one_row(view),
        are_of(messages, chat),
        is_descending(messages),
        forall|k: int|
            0 <= k < messages.len() ==> is_newer_than_rows(#[trigger] messages[k], view.list),
        forall|k: int|
            0 <= k < messages.len() && is_member(view, messages[k]) ==> (
            #[trigger] messages[k]).is_groupable,
    ensures
        albums_have_one_row(view.prepend(messages)),
        forall|other: HistoryMessage| #[trigger]
            is_shown(view.prepend(messages), other) <==> is_shown(view, other)
                || messages.contains(other),
{
    let reversed = messages.reverse();
    let rows = view.integrate(reversed).rows;
    lemma_prepended_rows(view, messages, chat);
    assert forall|k: int| 0 <= k < reversed.len() implies can_be_integrated(
        view,
        shown_in(view.list),
        #[trigger] reversed[k],
    ) by {
        let message = messages[messages.len() - 1 - k];
        assert(reversed[k] == message);
        assert(is_newer_than_rows(messages[messages.len() - 1 - k], view.list));
        assert(is_member(view, messages[messages.len() - 1 - k]) ==> message.is_groupable);
        if shows(view.list, message) {
            let i = choose|i: int|
                0 <= i < view.list.len() && #[trigger] view.list[i] == ChatHistoryItem::Message(
                    message,
                );
            assert(view.list[i]->Message_0.id < message.id);
        }
    }
    assert(rows.reverse().to_set() =~= rows.to_set()) by {
        assert forall|other: HistoryMessage| rows.reverse().contains(other)
            <==> rows.contains(other) by {
            if rows.contains(other) {
                let k = choose|k: int| 0 <= k < rows.len() && rows[k] == other;
                assert(rows.reverse()[rows.len() - 1 - k] == other);
            }
            if rows.reverse().contains(other) {
                let k = choose|k: int| 0 <= k < rows.len() && rows.reverse()[k] == other;
                assert(rows[rows.len() - 1 - k] == other);
            }
        }
    }
    lemma_rows_shown_once(view, 0, reversed, rows.reverse(), chat);
    assert forall|other: HistoryMessage| reversed.contains(other) <==> messages.contains(
        other,
    ) by {
        if messages.contains(other) {
            let k = choose|k: int| 0 <= k < messages.len() && messages[k] == other;
            assert(reversed[messages.len() - 1 - k] == other);
        }
        if reversed.contains(other) {
            let k = choose|k: int| 0 <= k < reversed.len() && reversed[k] == other;
            assert(messages[messages.len() - 1 - k] == other);
        }
    }
}

/// An album that is still known after items were trimmed is shown by none of
/// them.
pub proof fn lemma_forgotten(view: HistoryView, items: Seq<ChatHistoryItem>, album_id: i64)
    requires
        view.wf(),
        view.forget_albums_of(items).albums.contains_key(album_id),
    ensures
        view.albums.contains_key(album_id),
        view.forget_albums_of(items).albums[album_id] == view.albums[album_id],
        forall|k: int|
            0 <= k < items.len() ==> #[trigger] items[k] != ChatHistoryItem::Message(
                view.albums[album_id][0],
            ),
    decreases items.len(),
{
    if items.len() > 0 {
        let rest = items.drop_last();
        let last = items.len() - 1;
        let before = view.forget_albums_of(rest);
        assert(before.albums.contains_key(album_id));
        lemma_forgotten(view, rest, album_id);
        let first = view.albums[album_id][0];
        assert(first.media_album_id == album_id);
        assert(before.albums[album_id].len() > 0);
        assert forall|k: int| 0 <= k < items.len() implies #[trigger] items[k]
            != ChatHistoryItem::Message(first) by {
            if k < last {
                assert(rest[k] == items[k]);
            } else if items[last] == ChatHistoryItem::Message(first) {
                assert(before.represented(first) is Some);
            }
        }
    }
}

/// Trimming the newest items keeps one row for every album that is still
/// known.
pub proof fn law_trim_front_keeps_one_row(view: HistoryView)
    requires
        view.wf(),
        albums_have_one_row(view),
    ensures
        albums_have_one_row(view.trim_front()),
{
    let list = view.list;
    if list.len() > TRIM_AT_ITEMS {
        let after = view.trim_front();
        let trimmed = list.len() - TRIM_TO_ITEMS;
        let rest = list.skip(trimmed);
        let orphaned = leading_dividers(rest) as int;
        lemma_forgetting_keeps_rest(view, list.take(trimmed));
        lemma_leading_dividers(rest);
        assert(after.list =~= list.skip(trimmed + orphaned));
        assert forall|album_id: i64, i: int|
            #![trigger after.albums[album_id][i]]
            after.albums.contains_key(album_id) && 0 <= i < after.albums[album_id].len() implies (
        shows(after.list, after.albums[album_id][i]) <==> i == 0) by {
            lemma_forgotten(view, list.take(trimmed), album_id);
            let member = view.albums[album_id][i];
            assert(shows(list, view.albums[album_id][i]) <==> i == 0);
            if shows(after.list, member) {
                let k = choose|k: int|
                    0 <= k < after.list.len() && #[trigger] after.list[k]
                        == ChatHistoryItem::Message(member);
                assert(list[k + trimmed + orphaned] == ChatHistoryItem::Message(member));
            }
            if i == 0 {
                let k = choose|k: int|
                    0 <= k < list.len() && #[trigger] list[k] == ChatHistoryItem::Message(member);
                if k < trimmed {
                    assert(list.take(trimmed)[k] == list[k]);
                }
                lemma_leading_are_dividers(rest, k - trimmed);
                assert(after.list[k - trimmed - orphaned] == list[k]);
            }
        }
    }
}

/// Trimming the oldest items keeps one row for every album that is still
/// known.
pub proof fn law_trim_back_keeps_one_row(view: HistoryView)
    requires
        view.wf(),
        albums_have_one_row(view),
    ensures
        albums_have_one_row(view.trim_back()),
{
    let list = view.list;
    let at = TRIM_TO_ITEMS as int;
    if list.len() > TRIM_AT_ITEMS {
        let after = view.trim_back();
        let trimmed = list.skip(at).reverse();
        lemma_forgetting_keeps_rest(view, trimmed);
        assert(after.list =~= list.take(at));
        assert forall|album_id: i64, i: int|
            #![trigger after.albums[album_id][i]]
            after.albums.contains_key(album_id) && 0 <= i < after.albums[album_id].len() implies (
        shows(after.list, after.albums[album_id][i]) <==> i == 0) by {
            lemma_forgotten(view, trimmed, album_id);
            let member = view.albums[album_id][i];
            assert(shows(list, view.albums[album_id][i]) <==> i == 0);
            if shows(after.list, member) {
                let k = choose|k: int|
                    0 <= k < after.list.len() && #[trigger] after.list[k]
                        == ChatHistoryItem::Message(member);
                assert(list[k] == ChatHistoryItem::Message(member));
            }
            if i == 0 {
                let k = choose|k: int|
                    0 <= k < list.len() && #[trigger] list[k] == ChatHistoryItem::Message(member);
                if k >= at {
                    assert(trimmed[list.len() - 1 - k] == list[k]);
                }
                assert(after.list[k] == list[k]);
            }
        }
    }
}

pub proof fn lemma_leading_are_dividers(list: Seq<ChatHistoryItem>, position: int)
    requires
        0 <= position < list.len(),
    ensures
        position < leading_dividers(list) ==> list[position] is DayDivider,
    decreases list.len(),
{
    if list[0] is DayDivider && position > 0 {
        lemma_leading_are_dividers(list.skip(1), position - 1);
    }
}

/// Loading older messages keeps one row for every album.
pub proof fn law_load_older_keeps_one_row(
    view: HistoryView,
    from: MessageId,
    answer: Seq<HistoryMessage>,
    chat: Set<HistoryMessage>,
)
    requires
        is_history_of(view, chat),
        albums_have_one_row(view),
        is_oldest_end(view.list, from),
        are_of(answer, chat),
        is_descending(answer),
    ensures
        albums_have_one_row(view.load_older(from, answer)),
{
    let idle = HistoryView { is_loading_older: false, ..view };
    let older = |message: HistoryMessage| from == 0 || message.id < from;
    let messages = older_than(answer, from);
    assert(messages == answer.filter(older));
    lemma_filtered(answer, older, chat);
    assert forall|k: int| 0 <= k < messages.len() implies is_older_than_rows(
        #[trigger] messages[k],
        idle.list,
    ) by {
        answer.lemma_filter_pred(older, k);
    }
    lemma_shown_once(view);
    lemma_shown_once(idle);
    if messages.len() > 0 {
        lemma_append_one_row(idle, messages, chat);
        lemma_append(idle, messages, chat);
        law_trim_front_keeps_one_row(idle.append(messages));
    }
}

/// Loading the messages around the anchor keeps one row for every album.
pub proof fn law_load_around_keeps_one_row(
    view: HistoryView,
    answer: Seq<HistoryMessage>,
    chat: Set<HistoryMessage>,
)
    requires
        is_history_of(view, chat),
        albums_have_one_row(view),
        are_of(answer, chat),
        is_descending(answer),
        forall|k: int|
            0 <= k < answer.len() ==> is_older_than_rows(#[trigger] answer[k], view.list),
    ensures
        albums_have_one_row(view.load_around(answer)),
{
    let idle = HistoryView { is_loading_older: false, ..view };
    lemma_shown_once(view);
    lemma_shown_once(idle);
    lemma_append_one_row(idle, answer, chat);
}

proof fn lemma_push_all_one_row(
    view: HistoryView,
    messages: Seq<HistoryMessage>,
    chat: Set<HistoryMessage>,
)
    requires
        is_history_of(view, chat),
        albums_have_one_row(view),
        are_of(messages, chat),
        is_rising(messages),
        forall|k: int| 0 <= k < messages.len() ==> is_newest_known(#[trigger] messages[k], view),
    ensures
        albums_have_one_row(view.push_all_front(messages)),
    decreases messages.len(),
{
    if messages.len() > 0 {
        let rest = messages.drop_last();
        let last = messages.len() - 1;
        let message = messages[last];
        let before = view.push_all_front(rest);
        assert forall|k: int| 0 <= k < rest.len() implies chat.contains(#[trigger] rest[k])
            && is_newest_known(rest[k], view) && rest[k].id < message.id by {
            assert(rest[k] == messages[k]);
            assert(messages[k].id < messages[last].id);
        }
        assert(is_rising(rest)) by {
            assert forall|i: int, j: int|
                #![trigger rest[i], rest[j]]
                0 <= i < j < rest.len() implies rest[i].id < rest[j].id by {
                assert(rest[i] == messages[i] && rest[j] == messages[j]);
            }
        }
        lemma_push_all_one_row(view, rest, chat);
        lemma_push_all_front(view, rest, chat);
        assert(is_newest_known(message, before));
        assert(is_unknown(before, message.id));
        law_added_message_keeps_one_row(before, before.push_front(message), message);
    }
}

/// Showing the messages that waited keeps one row for every album, if they
/// arrived in order and are newer than everything that is known.
pub proof fn law_reach_newest_keeps_one_row(view: HistoryView, chat: Set<HistoryMessage>)
    requires
        is_history_of(view, chat),
        albums_have_one_row(view),
        are_of(view.pending, chat),
        is_rising(view.pending),
        forall|k: int|
            0 <= k < view.pending.len() ==> is_newest_known(#[trigger] view.pending[k], view),
    ensures
        albums_have_one_row(view.reach_newest()),
{
    let drained = HistoryView { at_newest: true, pending: Seq::empty(), ..view };
    lemma_shown_once(view);
    lemma_shown_once(drained);
    assert forall|k: int| 0 <= k < view.pending.len() implies is_newest_known(
        #[trigger] view.pending[k],
        drained,
    ) by {
        assert(is_newest_known(view.pending[k], view));
    }
    lemma_push_all_one_row(drained, view.pending, chat);
}

/// Loading newer messages keeps one row for every album. The messages may be
/// members of their albums already, as long as they still belong there.
pub proof fn law_load_newer_keeps_one_row(
    view: HistoryView,
    from: MessageId,
    answer: Seq<HistoryMessage>,
    chat: Set<HistoryMessage>,
)
    requires
        is_history_of(view, chat),
        albums_have_one_row(view),
        forall|i: int|
            0 <= i < view.list.len() && view.list[i] is Message ==> (
            #[trigger] view.list[i])->Message_0.id <= from,
        are_of(answer, chat),
        is_descending(answer),
        forall|k: int|
            0 <= k < answer.len() && is_member(view, answer[k]) ==> (
            #[trigger] answer[k]).is_groupable,
        are_of(view.pending, chat),
        is_rising(view.pending),
        forall|k: int|
            0 <= k < view.pending.len() ==> is_newest_known(#[trigger] view.pending[k], view),
    ensures
        albums_have_one_row(view.load_newer(from, answer)),
{
    let idle = HistoryView { is_loading_newer: false, ..view };
    let newer = |message: HistoryMessage| message.id > from;
    let messages = newer_than(answer, from);
    assert(messages == answer.filter(newer));
    lemma_filtered(answer, newer, chat);
    lemma_shown_once(view);
    lemma_shown_once(idle);
    assert forall|k: int| 0 <= k < messages.len() implies is_newer_than_rows(
        #[trigger] messages[k],
        idle.list,
    ) by {
        answer.lemma_filter_pred(newer, k);
    }
    if messages.len() == 0 {
        assert forall|k: int| 0 <= k < idle.pending.len() implies is_newest_known(
            #[trigger] idle.pending[k],
            idle,
        ) by {
            assert(is_newest_known(view.pending[k], view));
        }
        law_reach_newest_keeps_one_row(idle, chat);
    } else {
        assert forall|k: int| 0 <= k < messages.len() && is_member(idle, messages[k]) implies (
        #[trigger] messages[k]).is_groupable by {
            assert(answer.contains(messages[k]));
            let p = choose|p: int| 0 <= p < answer.len() && answer[p] == messages[k];
            assert(is_member(view, answer[p]) ==> answer[p].is_groupable);
            assert(is_member(view, answer[p]) == is_member(idle, messages[k]));
        }
        lemma_prepend_one_row(idle, messages, chat);
        lemma_prepend(idle, messages, chat);
        law_trim_back_keeps_one_row(idle.prepend(messages));
    }
}

} // verus!
