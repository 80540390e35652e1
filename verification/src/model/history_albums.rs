//! Which rows show the media albums of a chat history.

use vstd::prelude::*;

use crate::model::chat_history_item::{ChatHistoryItem, HistoryMessage};
use crate::model::history_layout::{is_in_front, is_in_order, law_rows_are_found};
use crate::model::history_view::{
    day_at, divides_day_of, insert_position, is_divider, other_than, partition, with_dividers,
    AlbumHandling, HistoryChange, HistoryView,
};
use crate::model::media_album::{
    has_message, is_ascending, lemma_older_count, lemma_with_message, lemma_without_message,
    older_count, with_message, without_message,
};
use crate::types::{CalendarDay, MessageId};

verus! {

/// Whether the message has a row of its own.
pub open spec fn shows(list: Seq<ChatHistoryItem>, message: HistoryMessage) -> bool {
    exists|i: int|
        0 <= i < list.len() && #[trigger] list[i] == ChatHistoryItem::Message(message)
}

/// Whether every album is shown by the row of its oldest message, and its
/// other messages have no rows.
pub open spec fn albums_have_one_row(view: HistoryView) -> bool {
    forall|album_id: i64, i: int|
        #![trigger view.albums[album_id][i]]
        view.albums.contains_key(album_id) && 0 <= i < view.albums[album_id].len() ==> (shows(
            view.list,
            view.albums[album_id][i],
        ) <==> i == 0)
}

/// Whether of the members of every album, the oldest one represents the album
/// and no other one represents any.
pub open spec fn oldest_represent_albums(view: HistoryView) -> bool {
    forall|album_id: i64, i: int|
        #![trigger view.albums[album_id][i]]
        view.albums.contains_key(album_id) && 0 <= i < view.albums[album_id].len()
            ==> view.represented(view.albums[album_id][i]) == if i == 0 {
            Some(view.albums[album_id])
        } else {
            None
        }
}

/// Whether the message is shown: it has a row, or it is a member of its album
/// and the oldest member has one.
pub open spec fn is_shown(view: HistoryView, message: HistoryMessage) -> bool {
    ||| shows(view.list, message)
    ||| view.albums.contains_key(message.media_album_id)
        && view.albums[message.media_album_id].contains(message) && shows(
        view.list,
        view.albums[message.media_album_id][0],
    )
}

/// Whether no row and no album has a message with the given id.
pub open spec fn is_unknown(view: HistoryView, id: MessageId) -> bool {
    &&& forall|i: int|
        0 <= i < view.list.len() && view.list[i] is Message ==> (
        #[trigger] view.list[i])->Message_0.id != id
    &&& forall|album_id: i64, i: int|
        #![trigger view.albums[album_id][i]]
        view.albums.contains_key(album_id) && 0 <= i < view.albums[album_id].len()
            ==> view.albums[album_id][i].id != id
}

/// A message that is integrated becomes a member of its album, of which the
/// oldest member is still the only one that represents it. It takes the role
/// over from the oldest member so far if it is older, and is merged into the
/// album if it is a member already, or if it is newer than the oldest one of
/// two or more members.
pub proof fn law_oldest_member_represents_album(view: HistoryView, message: HistoryMessage)
    requires
        view.wf(),
        oldest_represent_albums(view),
        message.media_album_id != 0,
        message.is_groupable,
    ensures
        oldest_represent_albums(view.join_album(message)),
        view.join_album(message).albums.contains_key(message.media_album_id),
        has_message(view.join_album(message).albums[message.media_album_id], message.id),
        view.albums.contains_key(message.media_album_id) ==> ({
            let members = view.albums[message.media_album_id];
            let handling = view.album_handling(message);
            &&& message.id < members[0].id ==> handling == (AlbumHandling::Promoted {
                replaced: members[0],
                representative: message,
            })
            &&& has_message(members, message.id) ==> handling == AlbumHandling::Merged
            &&& message.id > members[0].id && members.len() >= 2 ==> handling
                == AlbumHandling::Merged
            &&& message.id > members[0].id && members.len() == 1 ==> handling == (
            AlbumHandling::Promoted { replaced: members[0], representative: members[0] })
        }),
        !view.albums.contains_key(message.media_album_id) ==> view.album_handling(message)
            == AlbumHandling::Row,
{
    let own = message.media_album_id;
    let after = view.join_album(message);
    let members = if view.albums.contains_key(own) {
        view.albums[own]
    } else {
        Seq::empty()
    };
    let joined = with_message(members, message);
    lemma_older_count(members, message.id);
    lemma_with_message(members, message);
    let at = older_count(members, message.id) as int;
    assert(after.albums == view.albums.insert(own, joined));
    assert(has_message(joined, message.id)) by {
        if !has_message(members, message.id) {
            assert(joined[at] == message);
        }
    }
    if has_message(members, message.id) {
        let k = choose|k: int| 0 <= k < members.len() && (#[trigger] members[k]).id == message.id;
        if k > 0 {
            assert(members[0].id < members[k].id);
        }
    }
    assert forall|album_id: i64, i: int|
        #![trigger after.albums[album_id][i]]
        after.albums.contains_key(album_id) && 0 <= i
            < after.albums[album_id].len() implies after.represented(after.albums[album_id][i])
        == if i == 0 {
        Some(after.albums[album_id])
    } else {
        None
    } by {
        let album = after.albums[album_id];
        let member = album[i];
        if album_id != own {
            assert(view.albums.contains_key(album_id));
            assert(member == view.albums[album_id][i]);
            if i > 0 {
                assert(view.albums[album_id][0].id < view.albums[album_id][i].id);
                assert(view.represented(view.albums[album_id][i]) is None);
            }
        } else {
            assert(is_ascending(joined));
            if i > 0 {
                assert(joined[0].id < joined[i].id);
            }
            if has_message(members, message.id) {
                assert(member == view.albums[own][i]);
                assert(view.represented(view.albums[own][i]) == if i == 0 {
                    Some(members)
                } else {
                    None
                });
            } else if i < at {
                assert(member == view.albums[own][i]);
                assert(i > 0 ==> view.represented(view.albums[own][i]) is None);
            } else if i > at {
                assert(member == view.albums[own][i - 1]);
                assert(i > 1 ==> view.represented(view.albums[own][i - 1]) is None);
            }
        }
    }
}

/// Integrating any message keeps that only the oldest member of an album
/// represents it, and makes a message that can be grouped a member of its
/// album.
pub proof fn lemma_joining_keeps_representatives(view: HistoryView, message: HistoryMessage)
    requires
        view.wf(),
    ensures
        oldest_represent_albums(view) ==> oldest_represent_albums(view.join_album(message)),
        message.media_album_id != 0 && message.is_groupable ==> {
            &&& view.join_album(message).albums.contains_key(message.media_album_id)
            &&& has_message(view.join_album(message).albums[message.media_album_id], message.id)
        },
{
    let own = message.media_album_id;
    if own != 0 && message.is_groupable {
        if oldest_represent_albums(view) {
            law_oldest_member_represents_album(view, message);
        }
        let members = if view.albums.contains_key(own) {
            view.albums[own]
        } else {
            Seq::empty()
        };
        let joined = with_message(members, message);
        lemma_with_message(members, message);
        lemma_older_count(members, message.id);
        assert(view.join_album(message).albums == view.albums.insert(own, joined));
        if !has_message(members, message.id) {
            assert(joined[older_count(members, message.id) as int] == message);
        }
    }
}

/// The rows of the divided messages are the messages.
proof fn lemma_divided_shows(
    messages: Seq<HistoryMessage>,
    below: Option<CalendarDay>,
    message: HistoryMessage,
)
    ensures
        shows(with_dividers(messages, below), message) <==> messages.contains(message),
    decreases messages.len(),
{
    if messages.len() > 0 {
        let rest = messages.drop_last();
        let last = messages.last();
        let newer = with_dividers(rest, Some(last.timestamp.day));
        let result = with_dividers(messages, below);
        lemma_divided_shows(rest, Some(last.timestamp.day), message);
        if shows(result, message) {
            let i = choose|i: int|
                0 <= i < result.len() && #[trigger] result[i] == ChatHistoryItem::Message(message);
            if i < newer.len() {
                assert(newer[i] == result[i]);
                let k = choose|k: int| 0 <= k < rest.len() && rest[k] == message;
                assert(messages[k] == message);
            } else {
                assert(messages[messages.len() - 1] == message);
            }
        }
        if messages.contains(message) {
            let k = choose|k: int| 0 <= k < messages.len() && messages[k] == message;
            if k < rest.len() {
                assert(rest[k] == message);
                let i = choose|i: int|
                    0 <= i < newer.len() && #[trigger] newer[i] == ChatHistoryItem::Message(
                        message,
                    );
                assert(result[i] == newer[i]);
            } else {
                assert(result[newer.len() as int] == ChatHistoryItem::Message(message));
            }
        }
    }
}

/// Adding rows adds the messages to those that are shown.
pub proof fn lemma_add_rows_shows(
    view: HistoryView,
    position: int,
    messages: Seq<HistoryMessage>,
    message: HistoryMessage,
)
    requires
        0 <= position <= view.list.len(),
        messages.len() > 0,
    ensures
        shows(view.add_rows(position, messages).list, message) <==> shows(view.list, message)
            || messages.contains(message),
{
    let list = view.list;
    let rows = with_dividers(messages, day_at(list, position));
    let from = if divides_day_of(list, position - 1, messages[0]) {
        position - 1
    } else {
        position
    };
    let to = if divides_day_of(list, position, messages.last()) {
        position + 1
    } else {
        position
    };
    let result = view.add_rows(position, messages).list;
    assert(result =~= list.take(from) + rows + list.skip(to));
    lemma_divided_shows(messages, day_at(list, position), message);
    let row = ChatHistoryItem::Message(message);
    if shows(list, message) {
        let i = choose|i: int| 0 <= i < list.len() && #[trigger] list[i] == row;
        if i < from {
            assert(result[i] == row);
        } else {
            assert(i >= to);
            assert(result[i - to + from + rows.len()] == row);
        }
    }
    if shows(rows, message) {
        let i = choose|i: int| 0 <= i < rows.len() && #[trigger] rows[i] == row;
        assert(result[from + i] == row);
    }
    if shows(result, message) {
        let i = choose|i: int| 0 <= i < result.len() && #[trigger] result[i] == row;
        if i < from {
            assert(list[i] == row);
        } else if i < from + rows.len() {
            assert(rows[i - from] == row);
        } else {
            assert(list[i - from - rows.len() + to] == row);
        }
    }
}

proof fn lemma_partition_bounds(
    list: Seq<ChatHistoryItem>,
    message: HistoryMessage,
    low: int,
    high: int,
)
    requires
        0 <= low <= high <= list.len(),
    ensures
        low <= partition(list, message, low, high) <= high,
    decreases high - low,
{
    if low < high {
        let mid = low + (high - low) / 2;
        lemma_partition_bounds(list, message, mid + 1, high);
        lemma_partition_bounds(list, message, low, mid);
    }
}

/// Inserting a row adds its message to those that are shown.
pub proof fn lemma_insert_row_shows(
    view: HistoryView,
    inserted: HistoryMessage,
    message: HistoryMessage,
)
    ensures
        shows(view.insert_row(inserted).list, message) <==> shows(view.list, message) || message
            == inserted,
{
    lemma_partition_bounds(view.list, inserted, 0, view.list.len() as int);
    lemma_add_rows_shows(view, insert_position(view.list, inserted), seq![inserted], message);
    assert(seq![inserted][0] == inserted);
    assert(seq![inserted].contains(message) <==> message == inserted);
}

/// Removing the row of a message removes it from those that are shown.
pub proof fn lemma_remove_shows(view: HistoryView, removed: HistoryMessage, message: HistoryMessage)
    requires
        is_in_order(view.list),
        shows(view.list, removed),
    ensures
        shows(view.remove(removed).list, message) <==> shows(view.list, message) && message
            != removed,
{
    let list = view.list;
    let row = ChatHistoryItem::Message(message);
    let position = choose|i: int|
        0 <= i < list.len() && #[trigger] list[i] == ChatHistoryItem::Message(removed);
    law_rows_are_found(list, position);
    let count: int = if is_divider(list, position + 1) && (position == 0 || is_divider(
        list,
        position - 1,
    )) {
        2
    } else {
        1
    };
    let result = view.remove(removed).list;
    assert(result =~= list.take(position) + list.skip(position + count));
    if shows(list, message) && message != removed {
        let i = choose|i: int| 0 <= i < list.len() && #[trigger] list[i] == row;
        if i < position {
            assert(result[i] == row);
        } else {
            assert(result[i - count] == row);
        }
    }
    if shows(result, message) {
        let i = choose|i: int| 0 <= i < result.len() && #[trigger] result[i] == row;
        if i < position {
            assert(list[i] == row);
            assert(is_in_front(list[i], list[position]));
        } else {
            assert(list[i + count] == row);
            assert(is_in_front(list[position], list[i + count]));
        }
    }
}

/// Removing a message that has no row changes nothing that is shown.
proof fn lemma_swap_shows(
    view: HistoryView,
    replaced: HistoryMessage,
    representative: HistoryMessage,
    message: HistoryMessage,
)
    requires
        is_in_order(view.list),
        shows(view.list, replaced),
    ensures
        shows(view.swap_representative(replaced, representative).list, message) <==> shows(
            view.list,
            message,
        ) && message != replaced || message == representative,
{
    lemma_remove_shows(view, replaced, message);
    lemma_insert_row_shows(view.remove(replaced), representative, message);
}

/// What is shown after a message was added by `insert` or `push_front`.
pub proof fn lemma_added_shows(
    view: HistoryView,
    after: HistoryView,
    added: HistoryMessage,
    message: HistoryMessage,
)
    requires
        view.wf(),
        is_in_order(view.list),
        albums_have_one_row(view),
        after == view.push_front(added) || after == view.insert(added),
    ensures
        match view.album_handling(added) {
            AlbumHandling::Row => shows(after.list, message) <==> shows(view.list, message)
                || message == added,
            AlbumHandling::Merged => shows(after.list, message) <==> shows(view.list, message),
            AlbumHandling::Promoted { replaced, representative } => shows(after.list, message)
                <==> shows(view.list, message) && message != replaced || message
                == representative,
        },
{
    let joined = view.join_album(added);
    assert(joined.list == view.list);
    match view.album_handling(added) {
        AlbumHandling::Row => {
            lemma_add_rows_shows(joined, 0, seq![added], message);
            assert(seq![added][0] == added);
            assert(seq![added].contains(message) <==> message == added);
            lemma_insert_row_shows(joined, added, message);
        },
        AlbumHandling::Merged => {},
        AlbumHandling::Promoted { replaced, representative } => {
            let album_id = added.media_album_id;
            assert(replaced == view.albums[album_id][0]);
            assert(shows(view.list, view.albums[album_id][0]));
            lemma_swap_shows(joined, replaced, representative, message);
        },
    }
}

/// When a message that was not known before is added, its album, old or new,
/// is still shown by exactly one row, which is that of its oldest message.
pub proof fn law_added_message_keeps_one_row(
    view: HistoryView,
    after: HistoryView,
    added: HistoryMessage,
)
    requires
        view.wf(),
        is_in_order(view.list),
        albums_have_one_row(view),
        is_unknown(view, added.id),
        after == view.push_front(added) || after == view.insert(added),
    ensures
        albums_have_one_row(after),
{
    let own = added.media_album_id;
    let joined = view.join_album(added);
    assert(after.albums == joined.albums);
    let joins = own != 0 && added.is_groupable;
    assert forall|album_id: i64, i: int|
        #![trigger after.albums[album_id][i]]
        after.albums.contains_key(album_id) && 0 <= i < after.albums[album_id].len() implies (shows(
        after.list,
        after.albums[album_id][i],
    ) <==> i == 0) by {
        let member = after.albums[album_id][i];
        lemma_added_shows(view, after, added, member);
        if joins && album_id == own {
            lemma_one_row_own(view, added, i);
        } else {
            assert(view.albums.contains_key(album_id));
            assert(member == view.albums[album_id][i]);
            assert(member.id != added.id);
            assert(shows(view.list, view.albums[album_id][i]) <==> i == 0);
            assert(member.media_album_id == album_id);
            if let AlbumHandling::Promoted { replaced, representative } = view.album_handling(
                added,
            ) {
                assert(replaced == view.albums[own][0]);
                assert(replaced.media_album_id == own);
            }
        }
    }
}

/// What the members of the album of an added message turn into.
proof fn lemma_one_row_own(view: HistoryView, added: HistoryMessage, i: int)
    requires
        view.wf(),
        albums_have_one_row(view),
        is_unknown(view, added.id),
        added.media_album_id != 0,
        added.is_groupable,
        0 <= i < view.join_album(added).albums[added.media_album_id].len(),
    ensures
        ({
            let member = view.join_album(added).albums[added.media_album_id][i];
            let shown = match view.album_handling(added) {
                AlbumHandling::Row => shows(view.list, member) || member == added,
                AlbumHandling::Merged => shows(view.list, member),
                AlbumHandling::Promoted { replaced, representative } => shows(view.list, member)
                    && member != replaced || member == representative,
            };
            shown <==> i == 0
        }),
{
    let own = added.media_album_id;
    let members = if view.albums.contains_key(own) {
        view.albums[own]
    } else {
        Seq::empty()
    };
    let result = with_message(members, added);
    assert(view.join_album(added).albums[own] == result);
    let member = result[i];
    assert(!has_message(members, added.id)) by {
        if has_message(members, added.id) {
            let k = choose|k: int| 0 <= k < members.len() && (#[trigger] members[k]).id
                == added.id;
            assert(view.albums[own][k].id == added.id);
        }
    }
    lemma_older_count(members, added.id);
    let at = older_count(members, added.id) as int;
    assert(!shows(view.list, added)) by {
        if shows(view.list, added) {
            let k = choose|k: int|
                0 <= k < view.list.len() && #[trigger] view.list[k] == ChatHistoryItem::Message(
                    added,
                );
            assert(view.list[k]->Message_0.id != added.id);
        }
    }
    if members.len() > 0 {
        assert(is_ascending(members));
        assert(shows(view.list, view.albums[own][0]));
        if i < at {
            assert(member == members[i]);
            assert(shows(view.list, view.albums[own][i]) <==> i == 0);
        } else if i > at {
            assert(member == members[i - 1]);
            assert(shows(view.list, view.albums[own][i - 1]) <==> i - 1 == 0);
        }
        if at == 0 {
            assert(members[0].id >= added.id);
            assert(members[0].id != added.id);
        } else {
            assert(members[0].id < added.id);
        }
        assert(member == members[0] ==> (i == 0 && at > 0) || (i == 1 && at == 0)) by {
            if i < at && i > 0 {
                assert(members[0].id < members[i].id);
            }
            if i > at && i > 1 {
                assert(members[0].id < members[i - 1].id);
            }
        }
    } else {
        assert(at == 0);
    }
}

/// When a member of an album is deleted, it has no row afterwards, and every
/// album is still shown by exactly one row, which is that of its oldest
/// message. A member that is left alone keeps a row of its own. No other
/// message appears or disappears.
pub proof fn law_deleted_member_keeps_one_row(view: HistoryView, album_id: i64, at: int)
    requires
        view.wf(),
        is_in_order(view.list),
        albums_have_one_row(view),
        view.albums.contains_key(album_id),
        0 <= at < view.albums[album_id].len(),
    ensures
        albums_have_one_row(view.delete(view.albums[album_id][at])),
        !shows(view.delete(view.albums[album_id][at]).list, view.albums[album_id][at]),
        view.albums[album_id].len() == 2 ==> shows(
            view.delete(view.albums[album_id][at]).list,
            view.albums[album_id][1 - at],
        ),
        forall|other: HistoryMessage| #[trigger]
            is_shown(view.delete(view.albums[album_id][at]), other) <==> is_shown(view, other)
                && other != view.albums[album_id][at],
{
    let album = view.albums[album_id];
    let message = album[at];
    let after = view.delete(message);
    let rest = without_message(album, message.id);
    assert(message.media_album_id == album_id);
    lemma_older_count(album, message.id);
    let k = older_count(album, message.id) as int;
    assert(k == at) by {
        if k < at {
            assert(album[k].id < album[at].id);
        } else if at < k {
            assert(album[at].id < message.id);
        }
    }
    assert(album[at].id == message.id);
    assert(has_message(album, message.id));
    assert(rest =~= album.remove(at));
    assert(shows(view.list, view.albums[album_id][0]));
    assert(shows(view.list, view.albums[album_id][at]) <==> at == 0);
    let kept = HistoryView {
        pending: other_than(view.pending, message.id),
        ..view
    };
    assert forall|other: HistoryMessage| #[trigger]
        shows(after.list, other) <==> if rest.len() == 0 {
            shows(view.list, other) && other != message
        } else if at == 0 {
            shows(view.list, other) && other != message || other == rest[0]
        } else {
            shows(view.list, other)
        } by {
        lemma_deleted_shows(kept, album_id, message, other);
    }
    assert(after.albums == if rest.len() >= 2 {
        view.albums.insert(album_id, rest)
    } else {
        view.albums.remove(album_id)
    });
    assert forall|other_id: i64, i: int|
        #![trigger after.albums[other_id][i]]
        after.albums.contains_key(other_id) && 0 <= i < after.albums[other_id].len() implies (shows(
        after.list,
        after.albums[other_id][i],
    ) <==> i == 0) by {
        let member = after.albums[other_id][i];
        if other_id == album_id {
            let from = if i < at {
                i
            } else {
                i + 1
            };
            assert(member == album[from]);
            assert(shows(view.list, view.albums[album_id][from]) <==> from == 0);
            assert(rest[0] == album[if at == 0 {
                1int
            } else {
                0
            }]);
            if i > 0 {
                assert(rest[0] == after.albums[other_id][0]);
                assert(is_ascending(rest)) by {
                    lemma_without_message(album, message.id);
                }
                assert(rest[0].id < rest[i].id);
            }
            if from < at {
                assert(album[from].id < album[at].id);
            } else {
                assert(album[at].id < album[from].id);
            }
        } else {
            assert(view.albums.contains_key(other_id));
            assert(member == view.albums[other_id][i]);
            assert(member.media_album_id == other_id);
            assert(shows(view.list, view.albums[other_id][i]) <==> i == 0);
            if rest.len() > 0 {
                let from: int = if at == 0 {
                    1
                } else {
                    0
                };
                assert(rest[0] == album[from]);
                assert(album[from].media_album_id == album_id);
            }
        }
    }
    if rest.len() > 0 {
        let from: int = if at == 0 {
            1
        } else {
            0
        };
        assert(rest[0] == album[from]);
        if from < at {
            assert(album[from].id < album[at].id);
        } else {
            assert(album[at].id < album[from].id);
        }
    }
    assert forall|other: HistoryMessage| #[trigger]
        is_shown(after, other) <==> is_shown(view, other) && other != message by {
        lemma_deleted_is_shown(view, album_id, at, other);
    }
}

/// Which messages are shown after a member of an album was deleted.
proof fn lemma_deleted_is_shown(view: HistoryView, album_id: i64, at: int, other: HistoryMessage)
    requires
        view.wf(),
        is_in_order(view.list),
        albums_have_one_row(view),
        view.albums.contains_key(album_id),
        0 <= at < view.albums[album_id].len(),
    ensures
        is_shown(view.delete(view.albums[album_id][at]), other) <==> is_shown(view, other)
            && other != view.albums[album_id][at],
{
    let album = view.albums[album_id];
    let message = album[at];
    let after = view.delete(message);
    let rest = without_message(album, message.id);
    assert(message.media_album_id == album_id);
    lemma_older_count(album, message.id);
    let k = older_count(album, message.id) as int;
    assert(k == at) by {
        if k < at {
            assert(album[k].id < album[at].id);
        } else if at < k {
            assert(album[at].id < message.id);
        }
    }
    assert(album[at].id == message.id);
    assert(has_message(album, message.id));
    assert(rest =~= album.remove(at));
    assert(shows(view.list, view.albums[album_id][0]));
    assert(shows(view.list, view.albums[album_id][at]) <==> at == 0);
    let kept = HistoryView { pending: other_than(view.pending, message.id), ..view };
    if rest.len() > 0 {
        assert(rest[0] == album[if at == 0 {
            1int
        } else {
            0
        }]);
    }
    lemma_deleted_shows(kept, album_id, message, other);
    assert(after.albums == if rest.len() >= 2 {
        view.albums.insert(album_id, rest)
    } else {
        view.albums.remove(album_id)
    });
    assert(album.contains(other) && other != message <==> rest.contains(other)) by {
        if album.contains(other) && other != message {
            let i = choose|i: int| 0 <= i < album.len() && album[i] == other;
            if i < at {
                assert(rest[i] == other);
            } else {
                assert(rest[i - 1] == other);
            }
        }
        if rest.contains(other) {
            let i = choose|i: int| 0 <= i < rest.len() && rest[i] == other;
            if i < at {
                assert(album[i] == other);
                assert(album[i].id < album[at].id);
            } else {
                assert(album[i + 1] == other);
                assert(album[at].id < album[i + 1].id);
            }
        }
    }
    let own = other.media_album_id;
    if own == album_id {
        if rest.len() >= 1 {
            lemma_deleted_shows(kept, album_id, message, rest[0]);
            assert(rest.contains(rest[0]));
        }
        if rest.len() == 1 && rest.contains(other) {
            assert(rest[0] == other);
        }
        if rest.len() == 0 && album.contains(other) {
            assert(other == message);
        }
    } else if view.albums.contains_key(own) {
        let first = view.albums[own][0];
        assert(first.media_album_id == own);
        lemma_deleted_shows(kept, album_id, message, first);
        if rest.len() > 0 {
            assert(rest.contains(rest[0]));
            let i = choose|i: int| 0 <= i < album.len() && album[i] == rest[0];
            assert(album[i].media_album_id == album_id);
        }
    }
    if shows(after.list, other) && rest.len() > 0 && other == rest[0] {
        assert(rest.contains(rest[0]));
        assert(album.contains(other));
        let i = choose|i: int| 0 <= i < album.len() && album[i] == rest[0];
        assert(album[i].media_album_id == album_id);
    }
}

/// What is shown after a member of an album was deleted.
proof fn lemma_deleted_shows(
    view: HistoryView,
    album_id: i64,
    message: HistoryMessage,
    other: HistoryMessage,
)
    requires
        is_in_order(view.list),
        view.albums.contains_key(album_id),
        view.albums[album_id].len() > 0,
        has_message(view.albums[album_id], message.id),
        shows(view.list, view.albums[album_id][0]),
        view.albums[album_id][0].id == message.id ==> view.albums[album_id][0] == message,
        without_message(view.albums[album_id], message.id).len() == 0
            ==> view.albums[album_id][0] == message,
        view.albums[album_id][0].id != message.id && without_message(
            view.albums[album_id],
            message.id,
        ).len() > 0 ==> without_message(view.albums[album_id], message.id)[0]
            == view.albums[album_id][0],
    ensures
        ({
            let album = view.albums[album_id];
            let rest = without_message(album, message.id);
            shows(view.leave_album(album_id, message).list, other) <==> if rest.len() == 0 {
                shows(view.list, other) && other != message
            } else if album[0].id == message.id {
                shows(view.list, other) && other != message || other == rest[0]
            } else {
                shows(view.list, other)
            }
        }),
{
    let album = view.albums[album_id];
    let rest = without_message(album, message.id);
    let was_representative = album[0].id == message.id;
    let left = view.changed(
        HistoryChange::Album {
            album_id,
            position: older_count(album, message.id) as int,
            removed: 1,
            messages: Seq::empty(),
        },
    );
    let base = HistoryView {
        albums: if rest.len() >= 2 {
            view.albums.insert(album_id, rest)
        } else {
            view.albums.remove(album_id)
        },
        ..left
    };
    let role = base.changed(
        HistoryChange::Representative {
            message_id: rest[0].id,
            represents: if rest.len() >= 2 {
                Some(album_id)
            } else {
                None
            },
        },
    );
    assert(base.list == view.list && role.list == view.list);
    if rest.len() == 0 {
        lemma_remove_shows(base, message, other);
    } else if was_representative {
        lemma_swap_shows(role, message, rest[0], other);
    } else if rest.len() == 1 {
        lemma_swap_shows(role, rest[0], rest[0], other);
    }
}

} // verus!
