//! What the media viewer shows and asks for.

use vstd::prelude::*;

use crate::model::chat_history_item::{ChatHistoryItem, HistoryMessage};
use crate::model::history_view::HistoryView;
use crate::model::message::{ContentKind, MessageContent, MessageView};
use crate::types::MessageId;
use crate::ui::media_viewer_laws::{is_reverse_chronological, lemma_older_media, lemma_uses_at};
use crate::ui::media_viewer_pages::{
    lemma_emptied_wf, lemma_empty_front, lemma_ensure_pages_wf, lemma_index_of_page,
    lemma_open_page, lemma_reconcile_wf, lemma_recycle_wf, lemma_same_pages, is_in_window,
};
use crate::ui::media_viewer_view::{
    index_of_page, item_of, live_pages, newer_entry, newest_of, older_media, oldest_of,
    outside, recycle_actions, shown_by, stream_entries, stream_item_of, uses, ViewerAction,
    ViewerEntry, ViewerItem, ViewerView, PAGE_WINDOW, PRELOAD_AHEAD,
};

verus! {

// Items and entries

/// Photos are shown in their last size, if there is one, and videos and
/// animations as what they are. Nothing else is viewable.
pub proof fn law_items_fit_contents(content: MessageContent)
    ensures
        content.kind == ContentKind::Photo && content.photo_sizes > 0 ==> item_of(content) == Some(
            ViewerItem::Photo { size: (content.photo_sizes - 1) as usize },
        ),
        content.kind == ContentKind::Photo && content.photo_sizes == 0 ==> item_of(content) is None,
        content.kind == ContentKind::Video ==> item_of(content) == Some(
            ViewerItem::Video { is_animation: false },
        ),
        content.kind == ContentKind::Animation ==> item_of(content) == Some(
            ViewerItem::Video { is_animation: true },
        ),
        content.kind == ContentKind::Other ==> item_of(content) is None,
{
}

/// Everything that is viewable is part of the media stream, but for animations.
pub proof fn law_stream_leaves_animations_out(content: MessageContent)
    ensures
        content.kind == ContentKind::Animation ==> stream_item_of(content) is None,
        content.kind == ContentKind::Photo && content.photo_sizes > 0 ==> stream_item_of(content)
            == Some(ViewerItem::Photo { size: (content.photo_sizes - 1) as usize }),
        content.kind == ContentKind::Photo && content.photo_sizes == 0 ==> stream_item_of(
            content,
        ) is None,
        content.kind == ContentKind::Video ==> stream_item_of(content) == Some(
            ViewerItem::Video { is_animation: false },
        ),
        content.kind == ContentKind::Other ==> stream_item_of(content) is None,
{
}

/// A message that is in use, newer than the given one and part of the media
/// stream has an entry, with its own item. Other messages have none.
pub proof fn law_newer_media_has_entries(
    messages: Map<u64, MessageView>,
    message: HistoryMessage,
    anchor: MessageId,
)
    ensures
        newer_entry(messages, message, anchor) is Some <==> message.id > anchor
            && messages.contains_key(message.serial) && (
        messages[message.serial].content.kind == ContentKind::Video
            || messages[message.serial].content.kind == ContentKind::Photo
            && messages[message.serial].content.photo_sizes > 0),
        newer_entry(messages, message, anchor) matches Some(entry) ==> entry.message_id
            == message.id && entry.serial == message.serial && Some(entry.item) == stream_item_of(
            messages[message.serial].content,
        ),
{
}

/// A row shows its message, or all the members of the album that the message is
/// the oldest member of. A day divider shows none.
pub proof fn law_rows_show_albums(history: HistoryView, message: HistoryMessage)
    requires
        history.wf(),
    ensures
        ({
            let album_id = message.media_album_id;
            let shown = shown_by(history, ChatHistoryItem::Message(message));
            if history.albums.contains_key(album_id) && history.albums[album_id][0].id
                == message.id {
                shown == history.albums[album_id]
            } else {
                shown.len() == 1 && shown[0] == message
            }
        }),
        shown_by(history, ChatHistoryItem::DayDivider(message.timestamp)).len() == 0,
{
}

/// The greatest and the smallest id are ids of entries, and no entry lies
/// outside of them.
pub proof fn law_extremes_are_entries(entries: Seq<ViewerEntry>)
    requires
        entries.len() > 0,
    ensures
        exists|i: int| 0 <= i < entries.len() && (#[trigger] entries[i]).message_id == newest_of(entries),
        exists|i: int| 0 <= i < entries.len() && (#[trigger] entries[i]).message_id == oldest_of(entries),
        forall|i: int|
            0 <= i < entries.len() ==> oldest_of(entries) <= (#[trigger] entries[i]).message_id
                <= newest_of(entries),
    decreases entries.len(),
{
    if entries.len() == 1 {
        assert(entries[0].message_id == newest_of(entries));
    } else {
        let rest = entries.drop_last();
        let last = entries.len() - 1;
        law_extremes_are_entries(rest);
        let newest = choose|i: int|
            0 <= i < rest.len() && (#[trigger] rest[i]).message_id == newest_of(rest);
        let oldest = choose|i: int|
            0 <= i < rest.len() && (#[trigger] rest[i]).message_id == oldest_of(rest);
        assert(entries[newest] == rest[newest] && entries[oldest] == rest[oldest]);
        assert(entries[last] == entries.last());
        assert forall|i: int| 0 <= i < entries.len() implies oldest_of(entries) <= (
        #[trigger] entries[i]).message_id <= newest_of(entries) by {
            if i < last {
                assert(rest[i] == entries[i]);
            }
        }
    }
}

/// Each message of the media stream has an entry with its own item, and there is
/// no other entry.
pub proof fn law_stream_has_all_media(messages: Seq<(HistoryMessage, MessageContent)>)
    ensures
        forall|k: int|
            0 <= k < messages.len() && stream_item_of((#[trigger] messages[k]).1) is Some
                ==> stream_entries(messages).contains(
                ViewerEntry {
                    item: stream_item_of(messages[k].1)->0,
                    message_id: messages[k].0.id,
                    serial: messages[k].0.serial,
                },
            ),
        forall|i: int|
            #![trigger stream_entries(messages)[i]]
            0 <= i < stream_entries(messages).len() ==> exists|k: int|
                #![trigger messages[k]]
                0 <= k < messages.len() && stream_item_of(messages[k].1) == Some(
                    stream_entries(messages)[i].item,
                ) && messages[k].0.id == stream_entries(messages)[i].message_id
                    && messages[k].0.serial == stream_entries(messages)[i].serial,
    decreases messages.len(),
{
    if messages.len() > 0 {
        let rest = messages.drop_last();
        let end = messages.len() - 1;
        let newer = stream_entries(rest);
        let result = stream_entries(messages);
        let shift: int = result.len() - newer.len();
        law_stream_has_all_media(rest);
        assert forall|i: int| 0 <= i < newer.len() implies #[trigger] newer[i] == result[
            i + shift] by {}
        assert forall|k: int|
            0 <= k < messages.len() && stream_item_of(
                (#[trigger] messages[k]).1,
            ) is Some implies result.contains(
            ViewerEntry {
                item: stream_item_of(messages[k].1)->0,
                message_id: messages[k].0.id,
                serial: messages[k].0.serial,
            },
        ) by {
            let entry = ViewerEntry {
                item: stream_item_of(messages[k].1)->0,
                message_id: messages[k].0.id,
                serial: messages[k].0.serial,
            };
            if k < end {
                assert(rest[k] == messages[k]);
                let i = choose|i: int| 0 <= i < newer.len() && newer[i] == entry;
                assert(result[i + shift] == entry);
            } else {
                assert(result[0] == entry);
            }
        }
        assert forall|i: int|
            #![trigger result[i]]
            0 <= i < result.len() implies exists|k: int|
            #![trigger messages[k]]
            0 <= k < messages.len() && stream_item_of(messages[k].1) == Some(result[i].item)
                && messages[k].0.id == result[i].message_id && messages[k].0.serial
                == result[i].serial by {
            if i < shift {
                assert(messages[end].0.id == result[i].message_id);
            } else {
                assert(newer[i - shift] == result[i]);
                let k = choose|k: int|
                    #![trigger rest[k]]
                    0 <= k < rest.len() && stream_item_of(rest[k].1) == Some(
                        newer[i - shift].item,
                    ) && rest[k].0.id == newer[i - shift].message_id && rest[k].0.serial == newer[i
                        - shift].serial;
                assert(messages[k] == rest[k]);
            }
        }
    }
}

// What the widgets were told

/// Which entry each page shows after the actions.
pub open spec fn items_after(items: Map<u64, ViewerEntry>, actions: Seq<ViewerAction>) -> Map<
    u64,
    ViewerEntry,
>
    decreases actions.len(),
{
    if actions.len() == 0 {
        items
    } else {
        let before = items_after(items, actions.drop_last());
        match actions.last() {
            ViewerAction::SetItem(page, entry) => before.insert(page, entry),
            _ => before,
        }
    }
}

/// Which pages are active after the actions.
pub open spec fn active_after(active: Set<u64>, actions: Seq<ViewerAction>) -> Set<u64>
    decreases actions.len(),
{
    if actions.len() == 0 {
        active
    } else {
        let before = active_after(active, actions.drop_last());
        match actions.last() {
            ViewerAction::ActivatePage(page) => before.insert(page),
            ViewerAction::DeactivatePage(page) => before.remove(page),
            _ => before,
        }
    }
}

/// Whether the buttons for older and for newer media are shown after the
/// actions.
pub open spec fn buttons_after(buttons: (bool, bool), actions: Seq<ViewerAction>) -> (bool, bool)
    decreases actions.len(),
{
    if actions.len() == 0 {
        buttons
    } else {
        match actions.last() {
            ViewerAction::ShowButtons { previous, next } => (previous, next),
            _ => buttons_after(buttons, actions.drop_last()),
        }
    }
}

/// How many searches were asked for.
pub open spec fn searches(actions: Seq<ViewerAction>) -> nat
    decreases actions.len(),
{
    if actions.len() == 0 {
        0
    } else {
        searches(actions.drop_last()) + (if actions.last() is FetchOlder {
            1nat
        } else {
            0
        })
    }
}

proof fn lemma_pushed()
    ensures
        forall|items: Map<u64, ViewerEntry>, actions: Seq<ViewerAction>, action: ViewerAction|
            #[trigger] items_after(items, actions.push(action)) == match action {
                ViewerAction::SetItem(page, entry) => items_after(items, actions).insert(
                    page,
                    entry,
                ),
                _ => items_after(items, actions),
            },
        forall|active: Set<u64>, actions: Seq<ViewerAction>, action: ViewerAction| #[trigger]
            active_after(active, actions.push(action)) == match action {
                ViewerAction::ActivatePage(page) => active_after(active, actions).insert(page),
                ViewerAction::DeactivatePage(page) => active_after(active, actions).remove(page),
                _ => active_after(active, actions),
            },
        forall|buttons: (bool, bool), actions: Seq<ViewerAction>, action: ViewerAction| #[trigger]
            buttons_after(buttons, actions.push(action)) == match action {
                ViewerAction::ShowButtons { previous, next } => (previous, next),
                _ => buttons_after(buttons, actions),
            },
        forall|actions: Seq<ViewerAction>, action: ViewerAction| #[trigger]
            searches(actions.push(action)) == searches(actions) + (if action is FetchOlder {
                1nat
            } else {
                0
            }),
{
    assert forall|actions: Seq<ViewerAction>, action: ViewerAction|
        (#[trigger] actions.push(action)).drop_last() == actions by {
        assert(actions.push(action).drop_last() =~= actions);
    }
}

proof fn lemma_recycled(
    items: Map<u64, ViewerEntry>,
    active: Set<u64>,
    buttons: (bool, bool),
    actions: Seq<ViewerAction>,
    pages: Seq<u64>,
)
    ensures
        items_after(items, actions + recycle_actions(pages)) == items_after(items, actions),
        buttons_after(buttons, actions + recycle_actions(pages)) == buttons_after(buttons, actions),
        searches(actions + recycle_actions(pages)) == searches(actions),
        forall|page: u64| #[trigger]
            active_after(active, actions + recycle_actions(pages)).contains(page)
                <==> active_after(active, actions).contains(page) && !pages.contains(page),
    decreases pages.len(),
{
    lemma_pushed();
    if pages.len() == 0 {
        assert(actions + recycle_actions(pages) =~= actions);
    } else {
        let rest = pages.drop_last();
        let last = pages.last();
        lemma_recycled(items, active, buttons, actions, rest);
        let before = actions + recycle_actions(rest);
        assert(actions + recycle_actions(pages) =~= before.push(
            ViewerAction::DeactivatePage(last),
        ).push(ViewerAction::RemovePage(last)));
        assert forall|page: u64| pages.contains(page) <==> rest.contains(page) || page == last by {
            if pages.contains(page) {
                let k = choose|k: int| 0 <= k < pages.len() && pages[k] == page;
                if k < rest.len() {
                    assert(rest[k] == page);
                }
            }
            if rest.contains(page) {
                let k = choose|k: int| 0 <= k < rest.len() && rest[k] == page;
                assert(pages[k] == page);
            }
            assert(pages[pages.len() - 1] == last);
        }
    }
}

// The pages

/// Whether every live page shows the entry that it is there for.
pub open spec fn are_filled(view: ViewerView, items: Map<u64, ViewerEntry>) -> bool {
    forall|i: int|
        0 <= i < view.pages.len() && view.pages[i] is Some ==> {
            let page = (#[trigger] view.pages[i])->0;
            let shown = items_after(items, view.actions);
            shown.contains_key(page) && shown[page] == view.entries[i]
        }
}

/// Whether both states are the same but for the pages and the actions.
pub open spec fn differ_in_pages(before: ViewerView, after: ViewerView) -> bool {
    &&& after.entries == before.entries
    &&& after.is_reconciling == before.is_reconciling
    &&& after.oldest_message_id == before.oldest_message_id
    &&& after.next_older_id == before.next_older_id
    &&& after.has_more == before.has_more
    &&& after.is_fetching == before.is_fetching
    &&& after.active_page == before.active_page
    &&& after.closed == before.closed
    &&& after.open_generation == before.open_generation
    &&& after.is_attached == before.is_attached
}

proof fn lemma_filled_page(view: ViewerView, index: int, items: Map<u64, ViewerEntry>)
    requires
        view.wf(),
        are_filled(view, items),
        0 <= index < view.pages.len(),
    ensures
        are_filled(view.ensure_page(index), items),
{
    lemma_pushed();
    if view.pages[index] is None {
        let after = view.ensure_page(index);
        let page = if view.pool.len() > 0 {
            view.pool.last()
        } else {
            view.next_page
        };
        assert(view.has_one_place(page));
        if view.pool.len() > 0 {
            assert(crate::ui::media_viewer_view::occurrences(view.pool, page) > 0);
        }
        assert(uses(view.pages, page) == 0);
        assert forall|i: int| 0 <= i < after.pages.len() && after.pages[i] is Some implies {
            let shown_page = (#[trigger] after.pages[i])->0;
            let shown = items_after(items, after.actions);
            shown.contains_key(shown_page) && shown[shown_page] == after.entries[i]
        } by {
            if i != index {
                assert(after.pages[i] == view.pages[i]);
                if view.pages[i]->0 == page {
                    lemma_uses_at(view.pages, i, page);
                }
            }
        }
    }
}

proof fn lemma_filled_pages(
    view: ViewerView,
    start: int,
    end: int,
    upto: int,
    items: Map<u64, ViewerEntry>,
    active: Set<u64>,
    buttons: (bool, bool),
)
    requires
        view.wf(),
        is_in_window(view, start, end),
        0 <= start <= upto <= end + 1,
        start <= end < view.pages.len(),
        end - start <= 2 * PAGE_WINDOW,
    ensures
        are_filled(view, items) ==> are_filled(view.ensure_pages(start, upto), items),
        active_after(active, view.ensure_pages(start, upto).actions) == active_after(
            active,
            view.actions,
        ),
        buttons_after(buttons, view.ensure_pages(start, upto).actions) == buttons_after(
            buttons,
            view.actions,
        ),
        searches(view.ensure_pages(start, upto).actions) == searches(view.actions),
        differ_in_pages(view, view.ensure_pages(start, upto)),
        view.ensure_pages(start, upto).active_index == view.active_index,
        view.ensure_pages(start, upto).pages.len() == view.pages.len(),
        forall|i: int|
            0 <= i < view.pages.len() && view.pages[i] is Some ==> (#[trigger] view.ensure_pages(
                start,
                upto,
            ).pages[i]) == view.pages[i],
    decreases upto - start,
{
    lemma_pushed();
    if start < upto {
        let before = view.ensure_pages(start, upto - 1);
        lemma_filled_pages(view, start, end, upto - 1, items, active, buttons);
        lemma_ensure_pages_wf(view, start, end, upto - 1);
        if are_filled(view, items) {
            lemma_filled_page(before, upto - 1, items);
        }
        let after = view.ensure_pages(start, upto);
        assert forall|i: int| 0 <= i < view.pages.len() && view.pages[i] is Some implies (
        #[trigger] after.pages[i]) == view.pages[i] by {
            assert(before.pages[i] == view.pages[i]);
        }
    }
}

proof fn lemma_live_outside(pages: Seq<Option<u64>>, start: int, end: int, page: u64)
    requires
        live_pages(outside(pages, start, end)).contains(page),
    ensures
        exists|i: int|
            0 <= i < pages.len() && (i < start || i > end) && #[trigger] pages[i] == Some(page),
    decreases pages.len(),
{
    if pages.len() > 0 {
        let rest = pages.drop_last();
        let last = pages.len() - 1;
        let kept = outside(pages, start, end);
        assert(kept.drop_last() =~= outside(rest, start, end));
        let live = live_pages(outside(rest, start, end));
        let k = choose|k: int| 0 <= k < live_pages(kept).len() && live_pages(kept)[k] == page;
        if k < live.len() {
            assert(live[k] == page);
            lemma_live_outside(rest, start, end, page);
            let i = choose|i: int|
                0 <= i < rest.len() && (i < start || i > end) && #[trigger] rest[i] == Some(page);
            assert(pages[i] == Some(page));
        } else {
            assert(pages[last] == Some(page));
        }
    }
}

/// What reconciling the pages does to them.
proof fn lemma_reconciled(
    view: ViewerView,
    items: Map<u64, ViewerEntry>,
    active: Set<u64>,
    buttons: (bool, bool),
)
    requires
        view.wf(),
        !view.closed,
        0 < view.entries.len() <= usize::MAX,
    ensures
        ({
            let after = view.reconcile_pages();
            &&& after.wf()
            &&& are_filled(view, items) ==> are_filled(after, items)
            &&& differ_in_pages(view, after)
            &&& searches(after.actions) == searches(view.actions)
            &&& after.active_index < after.entries.len()
            &&& buttons_after(buttons, after.actions) == (
                after.active_index > 0 || view.has_more,
                after.active_index + 1 < view.entries.len(),
            )
            &&& forall|page: u64| #[trigger]
                active_after(active, after.actions).contains(page) ==> active_after(
                    active,
                    view.actions,
                ).contains(page)
            &&& forall|i: int|
                view.window_start() <= i <= view.window_end() && view.pages[i] is Some ==> (
                #[trigger] after.pages[i]) == view.pages[i]
            &&& forall|i: int|
                view.window_start() <= i <= view.window_end() && view.pages[i] is Some
                    && active_after(active, view.actions).contains((#[trigger] view.pages[i])->0)
                    ==> active_after(active, after.actions).contains(view.pages[i]->0)
            &&& forall|i: int|
                view.window_start() <= i <= view.window_end() ==> (#[trigger] after.pages[i]) is Some
            &&& after.pages.len() == view.entries.len()
            &&& view.active_page is None ==> after.active_index == view.centre()
            &&& view.active_page matches Some(page) ==> view.pages[view.centre()] == Some(page)
                ==> after.active_index == view.centre()
        }),
{
    lemma_pushed();
    lemma_reconcile_wf(view);
    let start = view.window_start();
    let end = view.window_end();
    let centred = ViewerView { active_index: view.centre() as usize, ..view }.act(
        ViewerAction::IgnorePageChanges(true),
    );
    lemma_same_pages(view, centred);
    lemma_recycle_wf(centred, start, end);
    let recycled = centred.recycle(start, end);
    let gone = live_pages(outside(view.pages, start, end));
    lemma_recycled(items, active, buttons, centred.actions, gone);
    assert(recycled.actions == centred.actions + recycle_actions(gone));
    if are_filled(view, items) {
        assert(are_filled(recycled, items)) by {
            assert forall|i: int| 0 <= i < recycled.pages.len() && recycled.pages[i] is Some implies {
                let page = (#[trigger] recycled.pages[i])->0;
                let shown = items_after(items, recycled.actions);
                shown.contains_key(page) && shown[page] == recycled.entries[i]
            } by {
                assert(recycled.pages[i] == view.pages[i]);
            }
        }
    }
    lemma_filled_pages(recycled, start, end, end + 1, items, active, buttons);
    lemma_ensure_pages_wf(recycled, start, end, end + 1);
    let filled = recycled.ensure_pages(start, end + 1);
    let after = view.reconcile_pages();
    if let Some(page) = filled.active_page {
        lemma_index_of_page(filled.pages, page);
    }
    assert(after.pages == filled.pages);
    assert forall|i: int| start <= i <= end && view.pages[i] is Some implies (
    #[trigger] after.pages[i]) == view.pages[i] by {
        assert(recycled.pages[i] == view.pages[i]);
    }
    assert forall|i: int|
        start <= i <= end && view.pages[i] is Some && active_after(active, view.actions).contains(
            (#[trigger] view.pages[i])->0,
        ) implies active_after(active, after.actions).contains(view.pages[i]->0) by {
        let page = view.pages[i]->0;
        if gone.contains(page) {
            lemma_live_outside(view.pages, start, end, page);
            let k = choose|k: int|
                0 <= k < view.pages.len() && (k < start || k > end) && #[trigger] view.pages[k]
                    == Some(page);
            lemma_one_use(view, i, k, page);
        }
    }
    if let Some(page) = view.active_page {
        if view.pages[view.centre()] == Some(page) {
            assert(after.pages[view.centre()] == Some(page));
            let index = index_of_page(filled.pages, page)->0;
            assert(filled.wf());
            lemma_one_use(filled, index, view.centre(), page);
        }
    }
    assert(are_filled(filled, items) ==> are_filled(after, items)) by {
        if are_filled(filled, items) {
            assert forall|i: int| 0 <= i < after.pages.len() && after.pages[i] is Some implies {
                let page = (#[trigger] after.pages[i])->0;
                let shown = items_after(items, after.actions);
                shown.contains_key(page) && shown[page] == after.entries[i]
            } by {
                assert(filled.pages[i] == after.pages[i]);
            }
        }
    }
}

/// A page is shown for one entry.
proof fn lemma_one_use(view: ViewerView, i: int, k: int, page: u64)
    requires
        view.wf(),
        0 <= i < view.pages.len(),
        0 <= k < view.pages.len(),
        view.pages[i] == Some(page),
        view.pages[k] == Some(page),
    ensures
        i == k,
{
    assert(view.has_one_place(page));
    if i < k {
        lemma_two_uses(view.pages, i, k, page);
    } else if k < i {
        lemma_two_uses(view.pages, k, i, page);
    }
}

proof fn lemma_two_uses(pages: Seq<Option<u64>>, i: int, k: int, page: u64)
    requires
        0 <= i < k < pages.len(),
        pages[i] == Some(page),
        pages[k] == Some(page),
    ensures
        uses(pages, page) >= 2,
    decreases pages.len(),
{
    let rest = pages.drop_last();
    if k < pages.len() - 1 {
        lemma_two_uses(rest, i, k, page);
    } else {
        lemma_uses_at(rest, i, page);
    }
}

/// After reconciling, exactly the entries that are not more than two places away
/// from the displayed one have pages.
pub proof fn law_neighbors_have_pages(view: ViewerView, index: int)
    requires
        view.wf(),
        !view.closed,
        view.active_index < view.entries.len(),
        0 <= index < view.entries.len(),
    ensures
        view.reconcile_pages().pages[index] is Some <==> -2 <= index - view.active_index <= 2,
        live_pages(view.reconcile_pages().pages).len() <= 5,
{
    crate::ui::media_viewer_laws::law_window_has_pages(view, index);
}

/// Displaying an entry activates its page, which is the only active one then.
/// An entry without a page is not displayed.
pub proof fn law_displayed_page_is_active(view: ViewerView, index: int, active: Set<u64>)
    requires
        0 <= index,
        forall|page: u64| #[trigger]
            active_after(active, view.actions).contains(page) ==> view.active_page == Some(page),
    ensures
        ({
            let after = view.display_item(index);
            if !view.closed && index < view.pages.len() && view.pages[index] is Some {
                &&& after.active_index as int == index as usize as int
                &&& after.active_page == view.pages[index]
                &&& forall|page: u64| #[trigger]
                    active_after(active, after.actions).contains(page) <==> view.pages[index]
                        == Some(page)
            } else {
                after == view
            }
        }),
{
    lemma_pushed();
}

/// Asking for older media asks for it from where the last search ended, unless
/// there is none, it is being searched already or nobody is there to ask.
pub proof fn law_older_media_is_asked_for(view: ViewerView)
    ensures
        ({
            let after = view.maybe_fetch_older();
            if !view.closed && view.has_more && !view.is_fetching && view.is_attached {
                &&& after.is_fetching
                &&& after.actions.len() == view.actions.len() + 1
                &&& after.actions.drop_last() == view.actions
                &&& after.actions.last() == (ViewerAction::FetchOlder {
                    from_id: view.next_older_id,
                    generation: view.open_generation,
                })
                &&& after == (ViewerView { is_fetching: true, actions: after.actions, ..view })
            } else {
                after == view
            }
        }),
{
    if !view.closed && view.has_more && !view.is_fetching && view.is_attached {
        assert(view.maybe_fetch_older().actions.drop_last() =~= view.actions);
    }
}

/// The viewer opens with a page for the entry that was asked for, which it
/// scrolls to, displays and reveals. What was played before is stopped, and
/// older media is searched from the oldest entry on, whatever became of earlier
/// searches.
pub proof fn law_opened_viewer_displays_entry(
    view: ViewerView,
    entries: Seq<ViewerEntry>,
    newer: Seq<ViewerEntry>,
    index: int,
    items: Map<u64, ViewerEntry>,
    active: Set<u64>,
)
    requires
        view.wf(),
        view.open_generation < u64::MAX,
        entries.len() > 0,
        entries.len() + newer.len() <= usize::MAX,
        index >= 0,
        forall|page: u64| #[trigger]
            active_after(active, view.actions).contains(page) ==> live_pages(view.pages).contains(
                page,
            ),
    ensures
        ({
            let after = view.open(entries, newer, index);
            let shown = if index < entries.len() {
                index
            } else {
                entries.len() - 1
            };
            let count = after.actions.len() as int;
            &&& after.wf()
            &&& after.entries == entries + newer
            &&& after.active_index == shown
            &&& after.active_page is Some
            &&& after.pages[shown] == after.active_page
            &&& are_filled(after, items)
            &&& forall|page: u64| #[trigger]
                active_after(active, after.actions).contains(page) <==> after.active_page == Some(
                    page,
                )
            &&& !after.closed
            &&& after.is_attached
            &&& after.has_more
            &&& after.is_fetching
            &&& after.open_generation == view.open_generation + 1
            &&& after.next_older_id == oldest_of(entries)
            &&& after.oldest_message_id == oldest_of(entries)
            &&& after.actions.contains(ViewerAction::StopPlayback)
            &&& after.actions.contains(ViewerAction::ScrollTo(after.active_page->0, false))
            &&& after.actions[count - 1] == ViewerAction::Reveal
            &&& after.actions[count - 2] == (ViewerAction::FetchOlder {
                from_id: oldest_of(entries),
                generation: after.open_generation,
            })
            &&& searches(after.actions) == searches(view.actions) + 1
            &&& buttons_after((false, false), after.actions) == (
                true,
                shown + 1 < entries.len() + newer.len(),
            )
        }),
{
    lemma_pushed();
    let shown = if index < entries.len() {
        index
    } else {
        entries.len() - 1
    };
    let all = entries + newer;
    let stopped = ViewerView {
        open_generation: (view.open_generation + 1) as u64,
        closed: false,
        is_fetching: false,
        is_attached: true,
        oldest_message_id: oldest_of(entries),
        next_older_id: oldest_of(entries),
        has_more: true,
        ..view
    }.act(ViewerAction::StopPlayback);
    let prepared = stopped.recycle_all();
    lemma_recycled(items, active, (false, false), stopped.actions, live_pages(view.pages));
    let emptied = ViewerView {
        entries: all,
        pages: Seq::new(all.len(), |i: int| None::<u64>),
        active_page: None,
        active_index: shown as usize,
        ..prepared
    };
    assert(stopped.actions[view.actions.len() as int] == ViewerAction::StopPlayback);
    assert(emptied.actions == stopped.actions + recycle_actions(live_pages(view.pages)));
    assert(emptied.actions[view.actions.len() as int] == ViewerAction::StopPlayback);
    lemma_emptied_wf(view, emptied);
    lemma_open_page(emptied);
    assert(are_filled(emptied, items));
    lemma_reconciled(emptied, items, active, (false, false));
    let placed = emptied.reconcile_pages();
    lemma_actions_stay(emptied);
    assert(placed.actions[view.actions.len() as int] == ViewerAction::StopPlayback);
    let page = placed.pages[placed.active_index as int]->0;
    let scrolled = placed.act(ViewerAction::ScrollTo(page, false));
    let displayed = scrolled.display_item(placed.active_index as int);
    let after = view.open(entries, newer, index);
    assert(after == displayed.maybe_fetch_older().act(ViewerAction::Reveal));
    assert(scrolled.actions[placed.actions.len() as int] == ViewerAction::ScrollTo(page, false));
    assert(displayed.actions == scrolled.actions.push(ViewerAction::ActivatePage(page)));
    assert(after.actions[placed.actions.len() as int] == ViewerAction::ScrollTo(page, false));
    assert(after.actions[view.actions.len() as int] == ViewerAction::StopPlayback);
    assert(are_filled(after, items)) by {
        assert forall|i: int| 0 <= i < after.pages.len() && after.pages[i] is Some implies {
            let live = (#[trigger] after.pages[i])->0;
            let told = items_after(items, after.actions);
            told.contains_key(live) && told[live] == after.entries[i]
        } by {
            assert(placed.pages[i] == after.pages[i]);
        }
    }
    lemma_same_pages(placed, after);
}

/// What the widgets were told before stays.
proof fn lemma_actions_stay(view: ViewerView)
    requires
        view.wf(),
        !view.closed,
        view.entries.len() > 0,
    ensures
        ({
            let after = view.reconcile_pages();
            &&& view.actions.len() <= after.actions.len()
            &&& after.actions.take(view.actions.len() as int) == view.actions
        }),
        forall|i: int|
            0 <= i < view.actions.len() ==> #[trigger] view.reconcile_pages().actions[i]
                == view.actions[i],
{
    crate::ui::media_viewer_laws::law_carousel_is_reconciled(view);
    let after = view.reconcile_pages();
    assert forall|i: int| 0 <= i < view.actions.len() implies #[trigger] after.actions[i]
        == view.actions[i] by {
        assert(after.actions.take(view.actions.len() as int)[i] == view.actions[i]);
    }
}

/// Closing the viewer deactivates the displayed page and hides the viewer.
pub proof fn law_closed_viewer_is_hidden(view: ViewerView, active: Set<u64>)
    requires
        !view.closed,
        forall|page: u64| #[trigger]
            active_after(active, view.actions).contains(page) ==> view.active_page == Some(page),
    ensures
        ({
            let after = view.close();
            &&& after.closed
            &&& after.actions.last() == ViewerAction::Hide
            &&& forall|page: u64| !#[trigger] active_after(active, after.actions).contains(page)
            &&& after == (ViewerView { closed: true, actions: after.actions, ..view })
        }),
{
    lemma_pushed();
}

/// Asking for the next or the previous item scrolls to its page, if it has one.
/// Asking for what lies in front of the oldest item searches older media.
pub proof fn law_navigation_scrolls_to_neighbor(view: ViewerView, delta: int)
    ensures
        ({
            let index = view.active_index + delta;
            let after = view.navigate(delta);
            &&& 0 <= index < view.pages.len() ==> match view.pages[index] {
                Some(page) => {
                    &&& after.actions.len() == view.actions.len() + 1
                    &&& after.actions.last() == ViewerAction::ScrollTo(page, true)
                    &&& after == (ViewerView { actions: after.actions, ..view })
                },
                None => after == view,
            }
            &&& index >= view.pages.len() && index >= 0 ==> after == view
            &&& index < 0 ==> after == view.maybe_fetch_older()
        }),
{
}

/// When the carousel settles on a page, its entry is displayed, and the page is
/// the only active one then. Older media is searched if the entry is close to
/// the beginning.
pub proof fn law_settled_page_is_displayed(
    view: ViewerView,
    index: int,
    items: Map<u64, ViewerEntry>,
    active: Set<u64>,
)
    requires
        view.wf(),
        !view.closed,
        !view.is_reconciling,
        view.entries.len() <= usize::MAX,
        0 <= index < view.pages.len(),
        view.pages[index] is Some,
        are_filled(view, items),
        forall|page: u64| #[trigger]
            active_after(active, view.actions).contains(page) <==> view.active_page == Some(page),
    ensures
        ({
            let after = view.page_changed(view.pages[index]->0);
            let is_close = view.has_more && index <= PRELOAD_AHEAD && !view.is_fetching
                && view.is_attached;
            &&& after.active_index == index
            &&& after.active_page == view.pages[index]
            &&& after.pages[index] == view.pages[index]
            &&& after.entries == view.entries
            &&& are_filled(after, items)
            &&& forall|page: u64| #[trigger]
                active_after(active, after.actions).contains(page) <==> view.pages[index] == Some(
                    page,
                )
            &&& after.is_fetching == (view.is_fetching || is_close)
            &&& searches(after.actions) == searches(view.actions) + (if is_close {
                1nat
            } else {
                0
            })
            &&& is_close ==> after.actions.last() == (ViewerAction::FetchOlder {
                from_id: view.next_older_id,
                generation: view.open_generation,
            })
        }),
{
    lemma_pushed();
    let page = view.pages[index]->0;
    lemma_index_of_page(view.pages, page);
    let found = index_of_page(view.pages, page)->0;
    lemma_one_use(view, found, index, page);
    let after = view.page_changed(page);
    if view.active_page == Some(page) {
        let told = ViewerView { active_index: index as usize, ..view }.update_navigation(index);
        assert forall|i: int| 0 <= i < after.pages.len() && after.pages[i] is Some implies {
            let live = (#[trigger] after.pages[i])->0;
            let shown = items_after(items, after.actions);
            shown.contains_key(live) && shown[live] == after.entries[i]
        } by {
            assert(view.pages[i] == after.pages[i]);
        }
    } else {
        let moved = ViewerView {
            active_index: index as usize,
            ..view.update_navigation(index)
        };
        lemma_same_pages(view, moved);
        assert(are_filled(moved, items)) by {
            assert forall|i: int| 0 <= i < moved.pages.len() && moved.pages[i] is Some implies {
                let live = (#[trigger] moved.pages[i])->0;
                let shown = items_after(items, moved.actions);
                shown.contains_key(live) && shown[live] == moved.entries[i]
            } by {
                assert(view.pages[i] == moved.pages[i]);
            }
        }
        lemma_reconciled(moved, items, active, (false, false));
        let reconciled = if view.is_attached {
            moved.reconcile_pages()
        } else {
            moved
        };
        assert(moved.centre() == index);
        assert(moved.reconcile_pages().pages[index] == moved.pages[index]);
        assert(reconciled.pages[index] == view.pages[index]);
        let displayed = reconciled.display_item(index);
        assert forall|live: u64| #[trigger]
            active_after(active, reconciled.actions).contains(live) implies view.active_page
            == Some(live) by {
            assert(active_after(active, moved.actions).contains(live));
        }
        assert forall|i: int| 0 <= i < after.pages.len() && after.pages[i] is Some implies {
            let live = (#[trigger] after.pages[i])->0;
            let shown = items_after(items, after.actions);
            shown.contains_key(live) && shown[live] == after.entries[i]
        } by {
            assert(reconciled.pages[i] == after.pages[i]);
        }
    }
}

/// The buttons lead to older media if there is some in front of the given index
/// or may be more to load, and to newer media if there is some behind it.
pub proof fn law_buttons_lead_to_media(view: ViewerView, index: int)
    ensures
        view.update_navigation(index).actions == view.actions.push(
            ViewerAction::ShowButtons {
                previous: index > 0 || view.has_more,
                next: index + 1 < view.entries.len(),
            },
        ),
        view.update_navigation(index) == (ViewerView {
            actions: view.update_navigation(index).actions,
            ..view
        }),
{
}

/// A page of media that was found is taken: there is more media if and only if
/// another page follows, which is where the next search starts. The media of the
/// page has entries in front of the others, and the displayed entry stays
/// displayed. The next search is asked for right away if the displayed entry is
/// close to the beginning.
pub proof fn law_found_media_is_taken(
    view: ViewerView,
    messages: Seq<(HistoryMessage, MessageContent)>,
    next_from_id: MessageId,
    items: Map<u64, ViewerEntry>,
    active: Set<u64>,
    buttons: (bool, bool),
)
    requires
        view.wf(),
        !view.closed,
        !view.is_fetching,
        view.active_index < view.entries.len(),
        view.active_page matches Some(page) ==> view.pages[view.active_index as int] == Some(page),
        view.entries.len() + messages.len() <= usize::MAX,
        are_filled(view, items),
    ensures
        ({
            let after = view.handle_media_page(messages, next_from_id);
            let added = after.entries.len() - view.entries.len();
            let is_close = next_from_id != 0 && view.is_attached && added > 0 && after.active_index
                <= PRELOAD_AHEAD;
            &&& after.wf()
            &&& after.has_more <==> next_from_id != 0
            &&& after.next_older_id == next_from_id
            &&& after.open_generation == view.open_generation
            &&& after.is_attached == view.is_attached
            &&& !after.closed
            &&& 0 <= added
            &&& after.entries.skip(added) == view.entries
            &&& after.active_index == view.active_index + added
            &&& after.active_page == view.active_page
            &&& after.active_page matches Some(page) ==> after.pages[after.active_index as int]
                == Some(page)
            &&& are_filled(after, items)
            &&& buttons_after(buttons, after.actions) == (
                after.active_index > 0 || next_from_id != 0,
                after.active_index + 1 < after.entries.len(),
            )
            &&& after.is_fetching == is_close
            &&& searches(after.actions) == searches(view.actions) + (if is_close {
                1nat
            } else {
                0
            })
            &&& is_close ==> after.actions.last() == (ViewerAction::FetchOlder {
                from_id: next_from_id,
                generation: view.open_generation,
            })
        }),
{
    lemma_pushed();
    let after = view.handle_media_page(messages, next_from_id);
    let fetched = older_media(messages, view.oldest_message_id);
    let entries = stream_entries(fetched);
    let noted = ViewerView { has_more: next_from_id != 0, next_older_id: next_from_id, ..view };
    assert(fetched.len() <= messages.len()) by {
        messages.lemma_filter_len(
            |message: (HistoryMessage, MessageContent)| message.0.id < view.oldest_message_id,
        );
    }
    crate::ui::media_viewer_laws::lemma_stream_len(fetched);
    crate::ui::media_viewer_laws::law_older_media_joins_in_front(view, messages, next_from_id);
    assert(after.entries.skip(entries.len() as int) =~= view.entries);
    if fetched.len() == 0 || entries.len() == 0 {
        lemma_same_pages(view, after);
        assert(are_filled(after, items)) by {
            assert forall|i: int| 0 <= i < after.pages.len() && after.pages[i] is Some implies {
                let live = (#[trigger] after.pages[i])->0;
                let shown = items_after(items, after.actions);
                shown.contains_key(live) && shown[live] == after.entries[i]
            } by {
                assert(view.pages[i] == after.pages[i]);
            }
        }
    } else {
        let known = ViewerView { oldest_message_id: fetched.last().0.id, ..noted };
        let front = Seq::new(entries.len(), |i: int| None::<u64>);
        let grown = ViewerView {
            active_index: (view.active_index + entries.len()) as usize,
            entries: entries + view.entries,
            pages: front + view.pages,
            ..known
        };
        lemma_empty_front(front, view.pages, 0);
        assert(grown.wf()) by {
            assert forall|page: u64| #[trigger] grown.has_one_place(page) by {
                assert(view.has_one_place(page));
                lemma_empty_front(front, view.pages, page);
            }
        }
        assert(are_filled(grown, items)) by {
            assert forall|i: int| 0 <= i < grown.pages.len() && grown.pages[i] is Some implies {
                let live = (#[trigger] grown.pages[i])->0;
                let shown = items_after(items, grown.actions);
                shown.contains_key(live) && shown[live] == grown.entries[i]
            } by {
                assert(grown.pages[i] == view.pages[i - entries.len()]);
            }
        }
        let index = grown.active_index as int;
        assert(grown.centre() == index);
        assert(grown.pages[index] == view.pages[view.active_index as int]);
        lemma_reconciled(grown, items, active, buttons);
        let reconciled = grown.reconcile_pages();
        assert(reconciled.active_index == index);
        lemma_same_pages(reconciled, after);
        assert(are_filled(after, items)) by {
            assert forall|i: int| 0 <= i < after.pages.len() && after.pages[i] is Some implies {
                let live = (#[trigger] after.pages[i])->0;
                let shown = items_after(items, after.actions);
                shown.contains_key(live) && shown[live] == after.entries[i]
            } by {
                assert(reconciled.pages[i] == after.pages[i]);
            }
        }
        if let Some(page) = view.active_page {
            assert(reconciled.pages[index] == Some(page));
        }
    }
}

/// As long as there is more media, the viewer that took a page can search the
/// next one from where the page says, and otherwise it searches nothing.
pub proof fn law_next_page_can_be_searched(
    view: ViewerView,
    messages: Seq<(HistoryMessage, MessageContent)>,
    next_from_id: MessageId,
)
    requires
        view.wf(),
        !view.closed,
        !view.is_fetching,
        view.is_attached,
        view.active_index < view.entries.len(),
        view.active_page matches Some(page) ==> view.pages[view.active_index as int] == Some(page),
        view.entries.len() + messages.len() <= usize::MAX,
    ensures
        ({
            let after = view.handle_media_page(messages, next_from_id).maybe_fetch_older();
            &&& next_from_id != 0 ==> after.is_fetching && after.actions.contains(
                ViewerAction::FetchOlder {
                    from_id: next_from_id,
                    generation: view.open_generation,
                },
            )
            &&& next_from_id == 0 ==> !after.is_fetching && searches(after.actions) == searches(
                view.actions,
            )
        }),
{
    lemma_taken_without_items(view, messages, next_from_id);
    let taken = view.handle_media_page(messages, next_from_id);
    let after = taken.maybe_fetch_older();
    let action = ViewerAction::FetchOlder {
        from_id: next_from_id,
        generation: view.open_generation,
    };
    if next_from_id != 0 {
        if taken.is_fetching {
            assert(taken.actions[taken.actions.len() - 1] == action);
        } else {
            assert(after.actions[taken.actions.len() as int] == action);
        }
    }
}

proof fn lemma_taken_without_items(
    view: ViewerView,
    messages: Seq<(HistoryMessage, MessageContent)>,
    next_from_id: MessageId,
)
    requires
        view.wf(),
        !view.closed,
        !view.is_fetching,
        view.active_index < view.entries.len(),
        view.active_page matches Some(page) ==> view.pages[view.active_index as int] == Some(page),
        view.entries.len() + messages.len() <= usize::MAX,
    ensures
        ({
            let after = view.handle_media_page(messages, next_from_id);
            &&& after.has_more <==> next_from_id != 0
            &&& after.next_older_id == next_from_id
            &&& after.open_generation == view.open_generation
            &&& after.is_attached == view.is_attached
            &&& !after.closed
            &&& after.is_fetching ==> after.actions.len() > 0 && after.actions.last() == (
            ViewerAction::FetchOlder { from_id: next_from_id, generation: view.open_generation })
            &&& next_from_id == 0 ==> !after.is_fetching && searches(after.actions) == searches(
                view.actions,
            )
        }),
{
    lemma_pushed();
    let after = view.handle_media_page(messages, next_from_id);
    let fetched = older_media(messages, view.oldest_message_id);
    let entries = stream_entries(fetched);
    assert(fetched.len() <= messages.len()) by {
        messages.lemma_filter_len(
            |message: (HistoryMessage, MessageContent)| message.0.id < view.oldest_message_id,
        );
    }
    crate::ui::media_viewer_laws::lemma_stream_len(fetched);
    if fetched.len() > 0 && entries.len() > 0 {
        let front = Seq::new(entries.len(), |i: int| None::<u64>);
        let grown = ViewerView {
            has_more: next_from_id != 0,
            next_older_id: next_from_id,
            oldest_message_id: fetched.last().0.id,
            active_index: (view.active_index + entries.len()) as usize,
            entries: entries + view.entries,
            pages: front + view.pages,
            ..view
        };
        lemma_empty_front(front, view.pages, 0);
        assert(grown.wf()) by {
            assert forall|page: u64| #[trigger] grown.has_one_place(page) by {
                assert(view.has_one_place(page));
                lemma_empty_front(front, view.pages, page);
            }
        }
        lemma_reconciled(grown, Map::empty(), Set::empty(), (false, false));
    }
}

/// All the media of the page that is older than what was known has an entry
/// afterwards, and the oldest message that is known is the oldest one of the
/// page, if there is an older one.
pub proof fn law_found_media_is_complete(
    view: ViewerView,
    messages: Seq<(HistoryMessage, MessageContent)>,
    next_from_id: MessageId,
    k: int,
)
    requires
        view.wf(),
        !view.closed,
        view.entries.len() + messages.len() <= usize::MAX,
        is_reverse_chronological(messages),
        0 <= k < messages.len(),
        messages[k].0.id < view.oldest_message_id,
    ensures
        ({
            let after = view.handle_media_page(messages, next_from_id);
            &&& stream_item_of(messages[k].1) matches Some(item) ==> after.entries.contains(
                ViewerEntry {
                    item,
                    message_id: messages[k].0.id,
                    serial: messages[k].0.serial,
                },
            )
            &&& after.oldest_message_id == messages.last().0.id
        }),
{
    let keep = |message: (HistoryMessage, MessageContent)| message.0.id < view.oldest_message_id;
    let fetched = older_media(messages, view.oldest_message_id);
    let entries = stream_entries(fetched);
    let after = view.handle_media_page(messages, next_from_id);
    assert(fetched == messages.filter(keep));
    lemma_kept(messages, keep, k);
    crate::ui::media_viewer_laws::law_older_media_joins_in_front(view, messages, next_from_id);
    law_stream_has_all_media(fetched);
    let j = choose|j: int| 0 <= j < fetched.len() && fetched[j] == messages[k];
    assert(fetched[j] == messages[k]);
    if let Some(item) = stream_item_of(messages[k].1) {
        let entry = ViewerEntry {
            item,
            message_id: messages[k].0.id,
            serial: messages[k].0.serial,
        };
        assert(entries.contains(entry));
        let i = choose|i: int| 0 <= i < entries.len() && entries[i] == entry;
        assert(after.entries[i] == entry);
    }
    let end = messages.len() - 1;
    if k < end {
        assert(messages[k].0.id > messages[end].0.id);
    }
    lemma_kept(messages, keep, end);
    lemma_older_media(messages, view.oldest_message_id);
    assert(fetched.last() == messages.last()) by {
        reveal(Seq::filter);
        assert(fetched == messages.drop_last().filter(keep).push(messages.last()));
    }
    if entries.len() > 0 {
        crate::ui::media_viewer_laws::lemma_reconcile_keeps_rest(
            ViewerView {
                has_more: next_from_id != 0,
                next_older_id: next_from_id,
                oldest_message_id: fetched.last().0.id,
                active_index: (view.active_index + entries.len()) as usize,
                entries: entries + view.entries,
                pages: Seq::new(entries.len(), |i: int| None::<u64>) + view.pages,
                ..view
            },
        );
    }
}

proof fn lemma_kept(
    messages: Seq<(HistoryMessage, MessageContent)>,
    keep: spec_fn((HistoryMessage, MessageContent)) -> bool,
    k: int,
)
    requires
        0 <= k < messages.len(),
        keep(messages[k]),
    ensures
        messages.filter(keep).contains(messages[k]),
    decreases messages.len(),
{
    reveal(Seq::filter);
    let rest = messages.drop_last();
    let before = rest.filter(keep);
    let after = messages.filter(keep);
    if k < rest.len() {
        lemma_kept(rest, keep, k);
        assert(rest[k] == messages[k]);
        let j = choose|j: int| 0 <= j < before.len() && before[j] == messages[k];
        assert(after[j] == messages[k]);
    } else {
        assert(after[before.len() as int] == messages[k]);
    }
}

/// A search that failed is the last one: there is no more media, and the button
/// for older media is shown only if there is some.
pub proof fn law_failed_search_ends(view: ViewerView)
    ensures
        ({
            let after = view.fetch_failed();
            &&& !after.has_more
            &&& !after.is_fetching
            &&& after.actions == view.actions.push(
                ViewerAction::ShowButtons {
                    previous: view.active_index > 0,
                    next: view.active_index + 1 < view.entries.len(),
                },
            )
            &&& after == (ViewerView {
                has_more: false,
                is_fetching: false,
                actions: after.actions,
                ..view
            })
            &&& after.maybe_fetch_older() == after
        }),
{
}

/// An answer counts as long as the viewer is open and was not opened again.
pub proof fn law_answers_of_this_time_count(view: ViewerView, generation: u64)
    ensures
        view.awaits(generation) <==> !view.closed && generation == view.open_generation,
{
}

} // verus!
