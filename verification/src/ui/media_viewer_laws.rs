//! What the media viewer promises.

use vstd::prelude::*;

use crate::model::chat_history_item::{ChatHistoryItem, HistoryMessage};
use crate::model::history_view::HistoryView;
use crate::model::message::{MessageContent, MessageView};
use crate::types::MessageId;
use crate::ui::media_viewer_pages::{
    is_in_window, lemma_emptied_wf, lemma_empty_front, lemma_ensure_pages_wf, lemma_live_update,
    lemma_index_of_page, lemma_open_page, lemma_recycle_wf, lemma_same_pages, lemma_split_window,
};
use crate::ui::media_viewer_view::{
    chronological, entry_position, has_entry, index_of_page, inside, is_chronological,
    is_newer_media, live_pages, newer_among, newer_entries, newer_entry, newest_of, older_media,
    oldest_of, outside, recycle_actions, shown_by, stream_entries, uses, with_entries, with_entry,
    ViewerAction, ViewerEntry, ViewerView, PAGE_WINDOW,
};

verus! {

/// The pages without the given ones.
pub open spec fn excluding(pages: Seq<u64>, excluded: Seq<u64>) -> Seq<u64>
    decreases pages.len(),
{
    if pages.len() == 0 {
        Seq::empty()
    } else if excluded.contains(pages.last()) {
        excluding(pages.drop_last(), excluded)
    } else {
        excluding(pages.drop_last(), excluded).push(pages.last())
    }
}

/// The pages that the carousel holds after the actions, in order.
pub open spec fn carousel(pages: Seq<u64>, actions: Seq<ViewerAction>) -> Seq<u64>
    decreases actions.len(),
{
    if actions.len() == 0 {
        pages
    } else {
        let before = carousel(pages, actions.drop_last());
        match actions.last() {
            ViewerAction::InsertPage(page, position) => before.insert(position as int, page),
            ViewerAction::RemovePage(page) => excluding(before, seq![page]),
            _ => before,
        }
    }
}

/// Whether a carousel that held the live pages of `before` holds those of
/// `after` once the actions that were asked for since are carried out.
pub open spec fn is_mirrored(before: ViewerView, after: ViewerView) -> bool {
    &&& before.actions.len() <= after.actions.len()
    &&& after.actions.take(before.actions.len() as int) == before.actions
    &&& carousel(
        live_pages(before.pages),
        after.actions.skip(before.actions.len() as int),
    ) == live_pages(after.pages)
}

proof fn lemma_carousel_concat(
    pages: Seq<u64>,
    first: Seq<ViewerAction>,
    second: Seq<ViewerAction>,
)
    ensures
        carousel(pages, first + second) == carousel(carousel(pages, first), second),
    decreases second.len(),
{
    if second.len() == 0 {
        assert(first + second =~= first);
    } else {
        lemma_carousel_concat(pages, first, second.drop_last());
        assert((first + second).drop_last() =~= first + second.drop_last());
    }
}

proof fn lemma_mirrored_transitive(a: ViewerView, b: ViewerView, c: ViewerView)
    requires
        is_mirrored(a, b),
        is_mirrored(b, c),
    ensures
        is_mirrored(a, c),
{
    let first = b.actions.skip(a.actions.len() as int);
    let second = c.actions.skip(b.actions.len() as int);
    assert(c.actions.take(a.actions.len() as int) =~= c.actions.take(b.actions.len() as int).take(
        a.actions.len() as int,
    ));
    assert(c.actions.skip(a.actions.len() as int) =~= first + second) by {
        assert(c.actions.take(b.actions.len() as int) == b.actions);
    }
    lemma_carousel_concat(live_pages(a.pages), first, second);
}

/// What does not change the live pages needs no carousel.
proof fn lemma_mirrored_same(before: ViewerView, after: ViewerView)
    requires
        live_pages(after.pages) == live_pages(before.pages),
        after.actions == before.actions,
    ensures
        is_mirrored(before, after),
{
    assert(after.actions.take(before.actions.len() as int) =~= before.actions);
    assert(after.actions.skip(before.actions.len() as int) =~= Seq::empty());
}

/// An action that does not concern the pages of the carousel.
proof fn lemma_mirrored_act(view: ViewerView, action: ViewerAction)
    requires
        !(action is InsertPage),
        !(action is RemovePage),
    ensures
        is_mirrored(view, view.act(action)),
{
    let after = view.act(action);
    assert(after.actions.take(view.actions.len() as int) =~= view.actions);
    assert(after.actions.skip(view.actions.len() as int) =~= seq![action]);
    assert(seq![action].drop_last() =~= Seq::empty());
    reveal_with_fuel(carousel, 2);
}

proof fn lemma_excluding_more(pages: Seq<u64>, excluded: Seq<u64>, page: u64)
    ensures
        excluding(excluding(pages, excluded), seq![page]) == excluding(pages, excluded.push(page)),
    decreases pages.len(),
{
    if pages.len() > 0 {
        let rest = pages.drop_last();
        let last = pages.last();
        lemma_excluding_more(rest, excluded, page);
        let kept = excluding(rest, excluded);
        assert(kept.push(last).drop_last() =~= kept);
        assert(seq![page].contains(last) <==> last == page) by {
            assert(seq![page][0] == page);
        }
        assert(excluded.push(page).contains(last) <==> excluded.contains(last) || last == page) by {
            if excluded.contains(last) {
                let k = choose|k: int| 0 <= k < excluded.len() && excluded[k] == last;
                assert(excluded.push(page)[k] == last);
            }
            assert(excluded.push(page)[excluded.len() as int] == page);
        }
    }
}

proof fn lemma_excluding_none(pages: Seq<u64>)
    ensures
        excluding(pages, Seq::empty()) == pages,
    decreases pages.len(),
{
    if pages.len() > 0 {
        lemma_excluding_none(pages.drop_last());
        assert(!Seq::<u64>::empty().contains(pages.last()));
        assert(pages.drop_last().push(pages.last()) =~= pages);
    }
}

/// Recycling pages takes them out of the carousel.
proof fn lemma_carousel_recycle(pages: Seq<u64>, recycled: Seq<u64>)
    ensures
        carousel(pages, recycle_actions(recycled)) == excluding(pages, recycled),
    decreases recycled.len(),
{
    if recycled.len() == 0 {
        assert(recycled =~= Seq::empty());
        lemma_excluding_none(pages);
    } else {
        let rest = recycled.drop_last();
        let last = recycled.last();
        let deactivate = ViewerAction::DeactivatePage(last);
        let remove = ViewerAction::RemovePage(last);
        lemma_carousel_recycle(pages, rest);
        lemma_carousel_concat(pages, recycle_actions(rest), seq![deactivate, remove]);
        assert(recycle_actions(recycled) =~= recycle_actions(rest) + seq![deactivate, remove]);
        let kept = excluding(pages, rest);
        assert(carousel(kept, seq![deactivate, remove]) == excluding(kept, seq![last])) by {
            assert(seq![deactivate, remove].drop_last() =~= seq![deactivate]);
            assert(seq![deactivate].drop_last() =~= Seq::empty());
            reveal_with_fuel(carousel, 3);
        }
        lemma_excluding_more(pages, rest, last);
        assert(rest.push(last) =~= recycled);
    }
}

proof fn lemma_live_contains(pages: Seq<Option<u64>>, page: u64)
    ensures
        live_pages(pages).contains(page) <==> uses(pages, page) > 0,
    decreases pages.len(),
{
    if pages.len() > 0 {
        let rest = pages.drop_last();
        lemma_live_contains(rest, page);
        if let Some(last) = pages.last() {
            let live = live_pages(rest);
            assert(live.push(last)[live.len() as int] == last);
            if live.contains(page) {
                let k = choose|k: int| 0 <= k < live.len() && live[k] == page;
                assert(live.push(last)[k] == page);
            }
            if live.push(last).contains(page) && page != last {
                let k = choose|k: int| 0 <= k < live.push(last).len() && live.push(last)[k] == page;
                assert(live[k] == page);
            }
        }
    }
}

pub proof fn lemma_uses_at(pages: Seq<Option<u64>>, index: int, page: u64)
    requires
        0 <= index < pages.len(),
        pages[index] == Some(page),
    ensures
        uses(pages, page) > 0,
    decreases pages.len(),
{
    if index < pages.len() - 1 {
        lemma_uses_at(pages.drop_last(), index, page);
    }
}

/// Taking out the pages outside of the window leaves those inside.
proof fn lemma_excluding_outside(
    pages: Seq<Option<u64>>,
    start: int,
    end: int,
    recycled: Seq<u64>,
)
    requires
        forall|i: int|
            0 <= i < pages.len() && pages[i] is Some ==> (recycled.contains(
                (#[trigger] pages[i])->0,
            ) <==> i < start || i > end),
    ensures
        excluding(live_pages(pages), recycled) == live_pages(inside(pages, start, end)),
    decreases pages.len(),
{
    if pages.len() > 0 {
        let rest = pages.drop_last();
        assert forall|i: int| 0 <= i < rest.len() && rest[i] is Some implies (recycled.contains(
            (#[trigger] rest[i])->0,
        ) <==> i < start || i > end) by {
            assert(rest[i] == pages[i]);
        }
        lemma_excluding_outside(rest, start, end, recycled);
        assert(inside(pages, start, end).drop_last() =~= inside(rest, start, end));
        assert(pages[pages.len() - 1] == pages.last());
        if let Some(last) = pages.last() {
            let live = live_pages(rest);
            assert(live.push(last).drop_last() =~= live);
        }
    }
}

proof fn lemma_recycle_mirrored(view: ViewerView, start: int, end: int)
    requires
        view.wf(),
    ensures
        is_mirrored(view, view.recycle(start, end)),
{
    let pages = view.pages;
    let recycled = live_pages(outside(pages, start, end));
    let after = view.recycle(start, end);
    assert forall|i: int| 0 <= i < pages.len() && pages[i] is Some implies (recycled.contains(
        (#[trigger] pages[i])->0,
    ) <==> i < start || i > end) by {
        let page = pages[i]->0;
        assert(view.has_one_place(page));
        lemma_split_window(pages, start, end, page);
        lemma_live_contains(outside(pages, start, end), page);
        if i < start || i > end {
            lemma_uses_at(outside(pages, start, end), i, page);
        } else {
            lemma_uses_at(inside(pages, start, end), i, page);
        }
    }
    lemma_excluding_outside(pages, start, end, recycled);
    lemma_carousel_recycle(live_pages(pages), recycled);
    assert(after.actions.take(view.actions.len() as int) =~= view.actions);
    assert(after.actions.skip(view.actions.len() as int) =~= recycle_actions(recycled));
}

proof fn lemma_recycle_all_mirrored(view: ViewerView)
    ensures
        is_mirrored(view, view.recycle_all()),
{
    let pages = view.pages;
    let recycled = live_pages(pages);
    let after = view.recycle_all();
    assert forall|i: int| 0 <= i < pages.len() && pages[i] is Some implies (recycled.contains(
        (#[trigger] pages[i])->0,
    ) <==> i < pages.len() || i > pages.len()) by {
        lemma_live_contains(pages, pages[i]->0);
        lemma_uses_at(pages, i, pages[i]->0);
    }
    let len = pages.len() as int;
    lemma_excluding_outside(pages, len, len, recycled);
    let none = inside(pages, len, len);
    lemma_empty_front(none, Seq::empty(), 0);
    assert(none + Seq::<Option<u64>>::empty() =~= none);
    lemma_carousel_recycle(live_pages(pages), recycled);
    assert(after.actions.take(view.actions.len() as int) =~= view.actions);
    assert(after.actions.skip(view.actions.len() as int) =~= recycle_actions(recycled));
}

proof fn lemma_ensure_page_mirrored(view: ViewerView, index: int)
    requires
        0 <= index < view.pages.len(),
        live_pages(view.pages).len() <= usize::MAX,
    ensures
        is_mirrored(view, view.ensure_page(index)),
{
    if view.pages[index] is Some {
        lemma_mirrored_same(view, view);
    } else {
        let page = if view.pool.len() > 0 {
            view.pool.last()
        } else {
            view.next_page
        };
        let position = live_pages(view.pages.take(index)).len();
        lemma_live_update(view.pages, index, page);
        let after = view.ensure_page(index);
        let create = ViewerAction::CreatePage(view.next_page);
        let set = ViewerAction::SetItem(page, view.entries[index]);
        let insert = ViewerAction::InsertPage(page, position as usize);
        let live = live_pages(view.pages);
        assert(after.actions.take(view.actions.len() as int) =~= view.actions);
        reveal_with_fuel(carousel, 4);
        if view.pool.len() > 0 {
            let delta = seq![set, insert];
            assert(after.actions.skip(view.actions.len() as int) =~= delta);
            assert(delta.drop_last() =~= seq![set]);
            assert(seq![set].drop_last() =~= Seq::empty());
            assert(carousel(live, delta) == live.insert(position as int, page));
        } else {
            let delta = seq![create, set, insert];
            assert(after.actions.skip(view.actions.len() as int) =~= delta);
            assert(delta.drop_last() =~= seq![create, set]);
            assert(seq![create, set].drop_last() =~= seq![create]);
            assert(seq![create].drop_last() =~= Seq::empty());
            assert(carousel(live, delta) == live.insert(position as int, page));
        }
    }
}

proof fn lemma_ensure_pages_mirrored(view: ViewerView, start: int, end: int, upto: int)
    requires
        view.wf(),
        is_in_window(view, start, end),
        0 <= start <= upto <= end + 1,
        start <= end < view.pages.len(),
        end - start <= 2 * PAGE_WINDOW,
    ensures
        is_mirrored(view, view.ensure_pages(start, upto)),
    decreases upto - start,
{
    if start < upto {
        let before = view.ensure_pages(start, upto - 1);
        lemma_ensure_pages_mirrored(view, start, end, upto - 1);
        lemma_ensure_pages_wf(view, start, end, upto - 1);
        lemma_ensure_page_mirrored(before, upto - 1);
        lemma_mirrored_transitive(view, before, view.ensure_pages(start, upto));
    } else {
        lemma_mirrored_same(view, view);
    }
}

/// Reconciling keeps the carousel in step: it holds the live pages, in the
/// order of their entries.
pub proof fn law_carousel_is_reconciled(view: ViewerView)
    requires
        view.wf(),
    ensures
        is_mirrored(view, view.reconcile_pages()),
{
    if view.closed || view.entries.len() == 0 {
        lemma_mirrored_same(view, view);
    } else {
        let start = view.window_start();
        let end = view.window_end();
        let moved = ViewerView { active_index: view.centre() as usize, ..view };
        let centred = moved.act(ViewerAction::IgnorePageChanges(true));
        lemma_mirrored_same(view, moved);
        lemma_mirrored_act(moved, ViewerAction::IgnorePageChanges(true));
        lemma_mirrored_transitive(view, moved, centred);
        assert(centred.wf()) by {
            assert forall|page: u64| #[trigger] centred.has_one_place(page) by {
                assert(view.has_one_place(page));
            }
        }
        lemma_recycle_mirrored(centred, start, end);
        lemma_recycle_wf(centred, start, end);
        let recycled = centred.recycle(start, end);
        lemma_mirrored_transitive(view, centred, recycled);
        lemma_ensure_pages_mirrored(recycled, start, end, end + 1);
        let filled = recycled.ensure_pages(start, end + 1);
        lemma_mirrored_transitive(view, recycled, filled);
        let after = view.reconcile_pages();
        let indexed = ViewerView { active_index: after.active_index, ..filled };
        lemma_mirrored_same(filled, indexed);
        lemma_mirrored_transitive(view, filled, indexed);
        let heeded = indexed.act(ViewerAction::IgnorePageChanges(false));
        lemma_mirrored_act(indexed, ViewerAction::IgnorePageChanges(false));
        lemma_mirrored_transitive(view, indexed, heeded);
        let buttons = after.actions.last();
        assert(after =~= heeded.act(buttons));
        lemma_mirrored_act(heeded, buttons);
        lemma_mirrored_transitive(view, heeded, after);
    }
}

proof fn lemma_display_mirrored(view: ViewerView, index: int)
    ensures
        is_mirrored(view, view.display_item(index)),
{
    let after = view.display_item(index);
    lemma_mirrored_same(view, view);
    if !(view.closed || index >= view.pages.len() || view.pages[index] is None) {
        let page = view.pages[index]->0;
        let moved = ViewerView { active_index: index as usize, ..view };
        lemma_mirrored_same(view, moved);
        let leave = ViewerAction::DeactivatePage(view.active_page->0);
        lemma_mirrored_act(moved, leave);
        lemma_mirrored_transitive(view, moved, moved.act(leave));
        let left = match view.active_page {
            Some(previous) => if previous != page {
                moved.act(leave)
            } else {
                moved
            },
            None => moved,
        };
        let entered = ViewerView { active_page: Some(page), ..left };
        lemma_mirrored_same(left, entered);
        lemma_mirrored_transitive(view, left, entered);
        lemma_mirrored_act(entered, ViewerAction::ActivatePage(page));
        lemma_mirrored_transitive(view, entered, after);
    }
}

proof fn lemma_fetch_mirrored(view: ViewerView)
    ensures
        is_mirrored(view, view.maybe_fetch_older()),
{
    let fetching = ViewerView { is_fetching: true, ..view };
    let action = ViewerAction::FetchOlder {
        from_id: view.next_older_id,
        generation: view.open_generation,
    };
    lemma_mirrored_same(view, view);
    lemma_mirrored_same(view, fetching);
    lemma_mirrored_act(fetching, action);
    lemma_mirrored_transitive(view, fetching, fetching.act(action));
}

proof fn lemma_navigation_mirrored(view: ViewerView, index: int)
    ensures
        is_mirrored(view, view.update_navigation(index)),
{
    lemma_mirrored_act(
        view,
        ViewerAction::ShowButtons {
            previous: index > 0 || view.has_more,
            next: index + 1 < view.entries.len(),
        },
    );
}

/// Opening the viewer keeps the carousel in step.
pub proof fn law_carousel_follows_open(
    view: ViewerView,
    entries: Seq<ViewerEntry>,
    newer: Seq<ViewerEntry>,
    index: int,
)
    requires
        view.wf(),
        entries.len() > 0,
        entries.len() + newer.len() <= usize::MAX,
        index >= 0,
    ensures
        is_mirrored(view, view.open(entries, newer, index)),
{
    let shown = if index < entries.len() {
        index
    } else {
        entries.len() - 1
    };
    let all = entries + newer;
    let reset = ViewerView {
        open_generation: (view.open_generation + 1) as u64,
        closed: false,
        is_fetching: false,
        is_attached: true,
        oldest_message_id: oldest_of(entries),
        next_older_id: oldest_of(entries),
        has_more: true,
        ..view
    };
    let stopped = reset.act(ViewerAction::StopPlayback);
    let prepared = stopped.recycle_all();
    let emptied = ViewerView {
        entries: all,
        pages: Seq::new(all.len(), |i: int| None::<u64>),
        active_page: None,
        active_index: shown as usize,
        ..prepared
    };
    lemma_mirrored_same(view, reset);
    lemma_mirrored_act(reset, ViewerAction::StopPlayback);
    lemma_mirrored_transitive(view, reset, stopped);
    lemma_recycle_all_mirrored(stopped);
    lemma_mirrored_transitive(view, stopped, prepared);
    lemma_empty_front(emptied.pages, Seq::empty(), 0);
    assert(emptied.pages + Seq::<Option<u64>>::empty() =~= emptied.pages);
    lemma_mirrored_same(prepared, emptied);
    lemma_mirrored_transitive(view, prepared, emptied);
    lemma_emptied_wf(view, emptied);
    law_carousel_is_reconciled(emptied);
    let placed = emptied.reconcile_pages();
    lemma_mirrored_transitive(view, emptied, placed);
    let at = placed.active_index as int;
    let scroll = ViewerAction::ScrollTo(placed.pages[at]->0, false);
    lemma_mirrored_act(placed, scroll);
    lemma_mirrored_transitive(view, placed, placed.act(scroll));
    lemma_display_mirrored(placed.act(scroll), at);
    let displayed = placed.act(scroll).display_item(at);
    lemma_mirrored_transitive(view, placed.act(scroll), displayed);
    lemma_fetch_mirrored(displayed);
    lemma_mirrored_transitive(view, displayed, displayed.maybe_fetch_older());
    lemma_mirrored_act(displayed.maybe_fetch_older(), ViewerAction::Reveal);
    lemma_mirrored_transitive(
        view,
        displayed.maybe_fetch_older(),
        view.open(entries, newer, index),
    );
}

/// Settling on a page keeps the carousel in step.
pub proof fn law_carousel_follows_page_change(view: ViewerView, page: u64)
    requires
        view.wf(),
    ensures
        is_mirrored(view, view.page_changed(page)),
{
    lemma_mirrored_same(view, view);
    if !(view.closed || view.is_reconciling) {
        if let Some(index) = index_of_page(view.pages, page) {
            lemma_index_of_page(view.pages, page);
            let after = view.page_changed(page);
            if view.active_page == Some(page) {
                let moved = ViewerView { active_index: index as usize, ..view };
                lemma_mirrored_same(view, moved);
                lemma_navigation_mirrored(moved, index);
                let told = moved.update_navigation(index);
                lemma_mirrored_transitive(view, moved, told);
                lemma_mirrored_same(told, told);
                lemma_fetch_mirrored(told);
                lemma_mirrored_transitive(view, told, after);
            } else {
                let told = view.update_navigation(index);
                lemma_navigation_mirrored(view, index);
                let moved = ViewerView { active_index: index as usize, ..told };
                lemma_mirrored_same(told, moved);
                lemma_mirrored_transitive(view, told, moved);
                lemma_same_pages(view, moved);
                lemma_mirrored_same(moved, moved);
                law_carousel_is_reconciled(moved);
                let reconciled = if view.is_attached {
                    moved.reconcile_pages()
                } else {
                    moved
                };
                lemma_mirrored_transitive(view, moved, reconciled);
                lemma_display_mirrored(reconciled, index);
                let displayed = reconciled.display_item(index);
                lemma_mirrored_transitive(view, reconciled, displayed);
                lemma_mirrored_same(displayed, displayed);
                lemma_fetch_mirrored(displayed);
                lemma_mirrored_transitive(view, displayed, after);
            }
        }
    }
}

/// Adding older media keeps the carousel in step.
pub proof fn law_carousel_follows_older_media(
    view: ViewerView,
    messages: Seq<(HistoryMessage, MessageContent)>,
    next_from_id: MessageId,
)
    requires
        view.wf(),
        view.entries.len() + messages.len() <= usize::MAX,
    ensures
        is_mirrored(view, view.handle_media_page(messages, next_from_id)),
{
    let noted = ViewerView { has_more: next_from_id != 0, next_older_id: next_from_id, ..view };
    let fetched = older_media(messages, view.oldest_message_id);
    let added = stream_entries(fetched);
    let after = view.handle_media_page(messages, next_from_id);
    let index = view.active_index as int;
    if fetched.len() == 0 {
        lemma_mirrored_same(view, noted);
        lemma_navigation_mirrored(noted, index);
        lemma_mirrored_transitive(view, noted, after);
    } else {
        let known = ViewerView { oldest_message_id: fetched.last().0.id, ..noted };
        lemma_mirrored_same(view, known);
        if added.len() == 0 {
            lemma_navigation_mirrored(known, index);
            lemma_mirrored_transitive(view, known, after);
        } else {
            let front = Seq::new(added.len(), |i: int| None::<u64>);
            let grown = ViewerView {
                active_index: (view.active_index + added.len()) as usize,
                entries: added + view.entries,
                pages: front + view.pages,
                ..known
            };
            lemma_empty_front(front, view.pages, 0);
            lemma_mirrored_same(view, grown);
            assert(grown.wf()) by {
                lemma_stream_len(fetched);
                messages.lemma_filter_len(
                    |message: (HistoryMessage, MessageContent)|
                        message.0.id < view.oldest_message_id,
                );
                assert forall|page: u64| #[trigger] grown.has_one_place(page) by {
                    assert(view.has_one_place(page));
                    lemma_empty_front(front, view.pages, page);
                }
            }
            law_carousel_is_reconciled(grown);
            let reconciled = grown.reconcile_pages();
            lemma_mirrored_transitive(view, grown, reconciled);
            let at = reconciled.active_index as int;
            lemma_navigation_mirrored(reconciled, at);
            let told = reconciled.update_navigation(at);
            lemma_mirrored_transitive(view, reconciled, told);
            lemma_mirrored_same(told, told);
            lemma_fetch_mirrored(told);
            lemma_mirrored_transitive(view, told, after);
        }
    }
}

pub proof fn lemma_stream_len(messages: Seq<(HistoryMessage, MessageContent)>)
    ensures
        stream_entries(messages).len() <= messages.len(),
    decreases messages.len(),
{
    if messages.len() > 0 {
        lemma_stream_len(messages.drop_last());
    }
}

/// After reconciling, exactly the entries of the window around the displayed
/// one have pages.
pub proof fn law_window_has_pages(view: ViewerView, index: int)
    requires
        view.wf(),
        !view.closed,
        0 <= index < view.entries.len(),
    ensures
        view.reconcile_pages().pages[index] is Some <==> view.window_start() <= index
            <= view.window_end(),
        live_pages(view.reconcile_pages().pages).len() <= 2 * PAGE_WINDOW + 1,
{
    let start = view.window_start();
    let end = view.window_end();
    let centred = ViewerView { active_index: view.centre() as usize, ..view }.act(
        ViewerAction::IgnorePageChanges(true),
    );
    assert(centred.wf()) by {
        assert forall|page: u64| #[trigger] centred.has_one_place(page) by {
            assert(view.has_one_place(page));
        }
    }
    lemma_recycle_wf(centred, start, end);
    lemma_ensure_pages_wf(centred.recycle(start, end), start, end, end + 1);
    let filled = centred.recycle(start, end).ensure_pages(start, end + 1);
    assert(filled.pages[index] is Some <==> start <= index <= end);
}

/// A closed viewer displays nothing and asks for nothing.
pub proof fn law_closed_viewer_rests(view: ViewerView, page: u64, index: int)
    requires
        view.closed,
    ensures
        view.close() == view,
        view.page_changed(page) == view,
        view.display_item(index) == view,
        view.maybe_fetch_older() == view,
        view.reconcile_pages() == view,
{
}

/// Media is searched at most once at a time.
pub proof fn law_one_search_at_a_time(view: ViewerView)
    ensures
        view.maybe_fetch_older().maybe_fetch_older() == view.maybe_fetch_older(),
{
}

proof fn lemma_stream_ids(messages: Seq<(HistoryMessage, MessageContent)>, id: MessageId)
    requires
        forall|i: int| 0 <= i < messages.len() ==> (#[trigger] messages[i]).0.id < id,
    ensures
        forall|i: int|
            0 <= i < stream_entries(messages).len() ==> (#[trigger] stream_entries(
                messages,
            )[i]).message_id < id,
    decreases messages.len(),
{
    if messages.len() > 0 {
        let rest = messages.drop_last();
        assert forall|i: int| 0 <= i < rest.len() implies (#[trigger] rest[i]).0.id < id by {
            assert(rest[i] == messages[i]);
        }
        lemma_stream_ids(rest, id);
        assert(messages[messages.len() - 1].0.id < id);
        let result = stream_entries(messages);
        let newer = stream_entries(rest);
        assert forall|i: int| 0 <= i < result.len() implies (#[trigger] result[i]).message_id
            < id by {
            if result.len() == newer.len() {
                assert(result[i] == newer[i]);
            } else if i > 0 {
                assert(result[i] == newer[i - 1]);
            }
        }
    }
}

/// Older media joins in front of the entries that are there already, and no
/// message that is known is added again.
pub proof fn law_older_media_joins_in_front(
    view: ViewerView,
    messages: Seq<(HistoryMessage, MessageContent)>,
    next_from_id: MessageId,
)
    requires
        view.wf(),
        !view.closed,
        view.entries.len() + messages.len() <= usize::MAX,
    ensures
        ({
            let added = stream_entries(older_media(messages, view.oldest_message_id));
            &&& view.handle_media_page(messages, next_from_id).entries == added + view.entries
            &&& forall|i: int|
                0 <= i < added.len() ==> (#[trigger] added[i]).message_id < view.oldest_message_id
        }),
{
    let fetched = older_media(messages, view.oldest_message_id);
    let keep = |message: (HistoryMessage, MessageContent)| message.0.id < view.oldest_message_id;
    assert forall|i: int| 0 <= i < fetched.len() implies (#[trigger] fetched[i]).0.id
        < view.oldest_message_id by {
        messages.lemma_filter_pred(keep, i);
    }
    lemma_stream_ids(fetched, view.oldest_message_id);
    let added = stream_entries(fetched);
    let after = view.handle_media_page(messages, next_from_id);
    if added.len() == 0 {
        assert(added + view.entries =~= view.entries);
    } else {
        let front = Seq::new(added.len(), |i: int| None::<u64>);
        let grown = ViewerView {
            has_more: next_from_id != 0,
            next_older_id: next_from_id,
            oldest_message_id: fetched.last().0.id,
            active_index: (view.active_index + added.len()) as usize,
            entries: added + view.entries,
            pages: front + view.pages,
            ..view
        };
        lemma_reconcile_entries(grown);
    }
}

proof fn lemma_ensure_pages_entries(view: ViewerView, start: int, end: int)
    ensures
        view.ensure_pages(start, end).entries == view.entries,
    decreases end - start,
{
    if start < end {
        lemma_ensure_pages_entries(view, start, end - 1);
    }
}

/// Reconciling leaves the entries alone.
proof fn lemma_reconcile_entries(view: ViewerView)
    ensures
        view.reconcile_pages().entries == view.entries,
{
    let centred = ViewerView { active_index: view.centre() as usize, ..view }.act(
        ViewerAction::IgnorePageChanges(true),
    );
    lemma_ensure_pages_entries(
        centred.recycle(view.window_start(), view.window_end()),
        view.window_start(),
        view.window_end() + 1,
    );
}

/// The viewer opens on the entry that was asked for, or on the last one of
/// the group if there is none at that index, and searches older media right
/// away.
pub proof fn law_opens_on_entry(
    view: ViewerView,
    entries: Seq<ViewerEntry>,
    newer: Seq<ViewerEntry>,
    index: int,
)
    requires
        view.wf(),
        entries.len() > 0,
        entries.len() + newer.len() <= usize::MAX,
        index >= 0,
    ensures
        view.open(entries, newer, index).entries == entries + newer,
        view.open(entries, newer, index).active_index == if index < entries.len() {
            index
        } else {
            entries.len() - 1
        },
        view.open(entries, newer, index).oldest_message_id == oldest_of(entries),
        !view.open(entries, newer, index).closed,
        view.open(entries, newer, index).is_fetching,
{
    let shown = if index < entries.len() {
        index
    } else {
        entries.len() - 1
    };
    let all = entries + newer;
    let prepared = ViewerView {
        open_generation: (view.open_generation + 1) as u64,
        closed: false,
        is_fetching: false,
        is_attached: true,
        oldest_message_id: oldest_of(entries),
        next_older_id: oldest_of(entries),
        has_more: true,
        ..view
    }.act(ViewerAction::StopPlayback).recycle_all();
    let emptied = ViewerView {
        entries: all,
        pages: Seq::new(all.len(), |i: int| None::<u64>),
        active_page: None,
        active_index: shown as usize,
        ..prepared
    };
    lemma_emptied_wf(view, emptied);
    lemma_open_page(emptied);
    lemma_reconcile_entries(emptied);
    lemma_reconcile_keeps_rest(emptied);
}

proof fn lemma_ensure_pages_keeps_rest(view: ViewerView, start: int, end: int)
    ensures
        ({
            let after = view.ensure_pages(start, end);
            &&& after.closed == view.closed
            &&& after.has_more == view.has_more
            &&& after.is_fetching == view.is_fetching
            &&& after.is_attached == view.is_attached
            &&& after.oldest_message_id == view.oldest_message_id
        }),
    decreases end - start,
{
    if start < end {
        lemma_ensure_pages_keeps_rest(view, start, end - 1);
    }
}

pub proof fn lemma_reconcile_keeps_rest(view: ViewerView)
    ensures
        ({
            let after = view.reconcile_pages();
            &&& after.closed == view.closed
            &&& after.has_more == view.has_more
            &&& after.is_fetching == view.is_fetching
            &&& after.is_attached == view.is_attached
            &&& after.oldest_message_id == view.oldest_message_id
        }),
{
    let centred = ViewerView { active_index: view.centre() as usize, ..view }.act(
        ViewerAction::IgnorePageChanges(true),
    );
    lemma_ensure_pages_keeps_rest(
        centred.recycle(view.window_start(), view.window_end()),
        view.window_start(),
        view.window_end() + 1,
    );
}

// The newer media

proof fn lemma_entry_position(entries: Seq<ViewerEntry>, id: MessageId)
    requires
        is_chronological(entries),
    ensures
        entry_position(entries, id) <= entries.len(),
        forall|i: int|
            0 <= i < entry_position(entries, id) ==> (#[trigger] entries[i]).message_id <= id,
        forall|i: int|
            entry_position(entries, id) <= i < entries.len() ==> (
            #[trigger] entries[i]).message_id > id,
    decreases entries.len(),
{
    if entries.len() > 0 {
        let rest = entries.drop_last();
        let last = entries.len() - 1;
        if entries.last().message_id <= id {
            assert forall|i: int| 0 <= i < entries.len() implies (
            #[trigger] entries[i]).message_id <= id by {
                if i < last {
                    assert(entries[i].message_id < entries[last].message_id);
                }
            }
        } else {
            assert(is_chronological(rest)) by {
                assert forall|i: int, j: int|
                    #![trigger rest[i], rest[j]]
                    0 <= i < j < rest.len() implies rest[i].message_id < rest[j].message_id by {
                    assert(rest[i] == entries[i] && rest[j] == entries[j]);
                }
            }
            lemma_entry_position(rest, id);
            assert forall|i: int| 0 <= i < entry_position(entries, id) implies (
            #[trigger] entries[i]).message_id <= id by {
                assert(rest[i] == entries[i]);
            }
            assert forall|i: int| entry_position(entries, id) <= i < entries.len() implies (
            #[trigger] entries[i]).message_id > id by {
                if i < last {
                    assert(rest[i] == entries[i]);
                }
            }
        }
    }
}

/// An entry that joins others keeps them in order.
pub proof fn lemma_with_entry(entries: Seq<ViewerEntry>, entry: ViewerEntry)
    requires
        is_chronological(entries),
    ensures
        ({
            let position = entry_position(entries, entry.message_id) as int;
            &&& position <= entries.len()
            &&& has_entry(entries, entry.message_id) <==> position > 0 && entries[position
                - 1].message_id == entry.message_id
        }),
        is_chronological(with_entry(entries, entry)),
        has_entry(with_entry(entries, entry), entry.message_id),
        forall|i: int|
            0 <= i < entries.len() ==> with_entry(entries, entry).contains(#[trigger] entries[i]),
        forall|i: int|
            0 <= i < with_entry(entries, entry).len() ==> entries.contains(
                #[trigger] with_entry(entries, entry)[i],
            ) || with_entry(entries, entry)[i] == entry,
{
    let id = entry.message_id;
    let position = entry_position(entries, id) as int;
    let result = with_entry(entries, entry);
    lemma_entry_position(entries, id);
    if has_entry(entries, id) {
        let k = choose|k: int| 0 <= k < entries.len() && (#[trigger] entries[k]).message_id == id;
        assert(k < position);
        if k < position - 1 {
            assert(entries[k].message_id < entries[position - 1].message_id);
        }
        assert forall|i: int| 0 <= i < entries.len() implies result.contains(
            #[trigger] entries[i],
        ) by {
            assert(result[i] == entries[i]);
        }
    } else {
        assert forall|i: int, j: int|
            #![trigger result[i], result[j]]
            0 <= i < j < result.len() implies result[i].message_id < result[j].message_id by {
            let a = if i < position {
                i
            } else {
                i - 1
            };
            let b = if j < position {
                j
            } else {
                j - 1
            };
            if i == position {
                assert(result[j] == entries[b]);
            } else if j == position {
                assert(result[i] == entries[a]);
                assert(entries[a].message_id != id);
            } else {
                assert(result[i] == entries[a] && result[j] == entries[b]);
            }
        }
        assert(result[position] == entry);
        assert forall|i: int| 0 <= i < entries.len() implies result.contains(
            #[trigger] entries[i],
        ) by {
            if i < position {
                assert(result[i] == entries[i]);
            } else {
                assert(result[i + 1] == entries[i]);
            }
        }
        assert forall|i: int| 0 <= i < result.len() implies entries.contains(#[trigger] result[i])
            || result[i] == entry by {
            if i < position {
                assert(result[i] == entries[i]);
            } else if i > position {
                assert(result[i] == entries[i - 1]);
            }
        }
    }
}

/// Adding two runs of entries one after the other.
pub proof fn lemma_with_entries_concat(
    entries: Seq<ViewerEntry>,
    first: Seq<ViewerEntry>,
    second: Seq<ViewerEntry>,
)
    ensures
        with_entries(entries, first + second) == with_entries(with_entries(entries, first), second),
    decreases second.len(),
{
    if second.len() == 0 {
        assert(first + second =~= first);
    } else {
        lemma_with_entries_concat(entries, first, second.drop_last());
        assert((first + second).drop_last() =~= first + second.drop_last());
    }
}

proof fn lemma_chronological(entries: Seq<ViewerEntry>)
    ensures
        is_chronological(chronological(entries)),
        forall|i: int|
            0 <= i < entries.len() ==> has_entry(
                chronological(entries),
                (#[trigger] entries[i]).message_id,
            ),
        forall|i: int|
            0 <= i < chronological(entries).len() ==> entries.contains(
                #[trigger] chronological(entries)[i],
            ),
    decreases entries.len(),
{
    if entries.len() > 0 {
        let rest = entries.drop_last();
        let last = entries.last();
        let before = chronological(rest);
        let after = chronological(entries);
        lemma_chronological(rest);
        lemma_with_entry(before, last);
        assert forall|i: int| 0 <= i < entries.len() implies has_entry(
            after,
            (#[trigger] entries[i]).message_id,
        ) by {
            if i < rest.len() {
                assert(rest[i] == entries[i]);
                let k = choose|k: int|
                    0 <= k < before.len() && (#[trigger] before[k]).message_id
                        == rest[i].message_id;
                assert(after.contains(before[k]));
                let m = choose|m: int| 0 <= m < after.len() && after[m] == before[k];
                assert(after[m].message_id == entries[i].message_id);
            }
        }
        assert forall|i: int| 0 <= i < after.len() implies entries.contains(
            #[trigger] after[i],
        ) by {
            if before.contains(after[i]) {
                let k = choose|k: int| 0 <= k < before.len() && before[k] == after[i];
                assert(rest.contains(before[k]));
                let m = choose|m: int| 0 <= m < rest.len() && rest[m] == before[k];
                assert(entries[m] == after[i]);
            } else {
                assert(entries[entries.len() - 1] == after[i]);
            }
        }
    }
}

/// The entries of the members that are part of the media stream.
proof fn lemma_newer_among(
    messages: Map<u64, MessageView>,
    members: Seq<HistoryMessage>,
    anchor: MessageId,
    entry: ViewerEntry,
)
    ensures
        newer_among(messages, members, anchor).contains(entry) <==> exists|k: int|
            0 <= k < members.len() && newer_entry(messages, #[trigger] members[k], anchor) == Some(
                entry,
            ),
    decreases members.len(),
{
    if members.len() > 0 {
        let rest = members.drop_last();
        let last = members.len() - 1;
        let older = newer_among(messages, rest, anchor);
        let result = newer_among(messages, members, anchor);
        lemma_newer_among(messages, rest, anchor, entry);
        if result.contains(entry) {
            let i = choose|i: int| 0 <= i < result.len() && result[i] == entry;
            if i < older.len() {
                assert(older[i] == entry);
                let k = choose|k: int|
                    0 <= k < rest.len() && newer_entry(messages, #[trigger] rest[k], anchor)
                        == Some(entry);
                assert(members[k] == rest[k]);
            } else {
                assert(newer_entry(messages, members[last], anchor) == Some(entry));
            }
        }
        if exists|k: int|
            0 <= k < members.len() && newer_entry(messages, #[trigger] members[k], anchor) == Some(
                entry,
            ) {
            let k = choose|k: int|
                0 <= k < members.len() && newer_entry(messages, #[trigger] members[k], anchor)
                    == Some(entry);
            if k < last {
                assert(rest[k] == members[k]);
                let i = choose|i: int| 0 <= i < older.len() && older[i] == entry;
                assert(result[i] == entry);
            } else {
                assert(result[result.len() - 1] == entry);
            }
        }
    }
}

/// The entries of the rows are those of the messages that the rows show.
proof fn lemma_newer_entries(
    messages: Map<u64, MessageView>,
    history: HistoryView,
    list: Seq<ChatHistoryItem>,
    anchor: MessageId,
    entry: ViewerEntry,
)
    ensures
        newer_entries(messages, history, list, anchor).contains(entry) <==> exists|
            message: HistoryMessage,
        | #[trigger]
            is_newer_media(messages, history, list, anchor, message) && newer_entry(
                messages,
                message,
                anchor,
            ) == Some(entry),
    decreases list.len(),
{
    if list.len() == 0 {
        assert(newer_entries(messages, history, list, anchor) =~= Seq::empty());
    } else {
        let rest = list.skip(1);
        let members = shown_by(history, list[0]);
        let older = newer_entries(messages, history, rest, anchor);
        let own = newer_among(messages, members, anchor);
        let result = newer_entries(messages, history, list, anchor);
        lemma_newer_entries(messages, history, rest, anchor, entry);
        lemma_newer_among(messages, members, anchor, entry);
        if result.contains(entry) {
            let i = choose|i: int| 0 <= i < result.len() && result[i] == entry;
            if i < older.len() {
                assert(older[i] == entry);
                let message = choose|message: HistoryMessage| #[trigger]
                    is_newer_media(messages, history, rest, anchor, message) && newer_entry(
                        messages,
                        message,
                        anchor,
                    ) == Some(entry);
                let k = choose|k: int|
                    0 <= k < rest.len() && shown_by(history, #[trigger] rest[k]).contains(message);
                assert(list[k + 1] == rest[k]);
                assert(is_newer_media(messages, history, list, anchor, message));
            } else {
                assert(own[i - older.len()] == entry);
                let k = choose|k: int|
                    0 <= k < members.len() && newer_entry(messages, #[trigger] members[k], anchor)
                        == Some(entry);
                assert(shown_by(history, list[0]).contains(members[k]));
                assert(is_newer_media(messages, history, list, anchor, members[k]));
            }
        }
        if exists|message: HistoryMessage| #[trigger]
            is_newer_media(messages, history, list, anchor, message) && newer_entry(
                messages,
                message,
                anchor,
            ) == Some(entry) {
            let message = choose|message: HistoryMessage| #[trigger]
                is_newer_media(messages, history, list, anchor, message) && newer_entry(
                    messages,
                    message,
                    anchor,
                ) == Some(entry);
            let i = choose|i: int|
                0 <= i < list.len() && shown_by(history, #[trigger] list[i]).contains(message);
            if i > 0 {
                assert(rest[i - 1] == list[i]);
                assert(is_newer_media(messages, history, rest, anchor, message));
                let k = choose|k: int| 0 <= k < older.len() && older[k] == entry;
                assert(result[k] == entry);
            } else {
                let m = choose|m: int| 0 <= m < members.len() && members[m] == message;
                assert(newer_entry(messages, members[m], anchor) == Some(entry));
                let k = choose|k: int| 0 <= k < own.len() && own[k] == entry;
                assert(result[older.len() + k] == entry);
            }
        }
    }
}

/// The newer media that joins the viewer is in chronological order, each
/// message having one entry, and consists of exactly the media messages that
/// the loaded history shows, in albums or on their own, and that are newer
/// than the given one.
pub proof fn law_newer_media_is_complete(
    messages: Map<u64, MessageView>,
    history: HistoryView,
    anchor: MessageId,
)
    ensures
        ({
            let entries = chronological(newer_entries(messages, history, history.list, anchor));
            &&& is_chronological(entries)
            &&& forall|message: HistoryMessage| #[trigger]
                is_newer_media(messages, history, history.list, anchor, message) ==> has_entry(
                    entries,
                    message.id,
                )
            &&& forall|i: int|
                0 <= i < entries.len() ==> exists|message: HistoryMessage| #[trigger]
                    is_newer_media(messages, history, history.list, anchor, message)
                        && newer_entry(messages, message, anchor) == Some(#[trigger] entries[i])
        }),
{
    let list = history.list;
    let all = newer_entries(messages, history, list, anchor);
    let entries = chronological(all);
    lemma_chronological(all);
    assert forall|message: HistoryMessage| #[trigger]
        is_newer_media(messages, history, list, anchor, message) implies has_entry(
        entries,
        message.id,
    ) by {
        let entry = newer_entry(messages, message, anchor)->0;
        lemma_newer_entries(messages, history, list, anchor, entry);
        let i = choose|i: int| 0 <= i < all.len() && all[i] == entry;
        assert(has_entry(entries, all[i].message_id));
    }
    assert forall|i: int| 0 <= i < entries.len() implies exists|message: HistoryMessage| #[trigger]
        is_newer_media(messages, history, list, anchor, message) && newer_entry(
            messages,
            message,
            anchor,
        ) == Some(#[trigger] entries[i]) by {
        lemma_newer_entries(messages, history, list, anchor, entries[i]);
        assert(all.contains(entries[i]));
    }
}

// The order of the entries

/// Whether the entries are in chronological order and none of them is older
/// than the oldest message that is known.
pub open spec fn is_timeline(view: ViewerView) -> bool {
    &&& is_chronological(view.entries)
    &&& forall|i: int|
        0 <= i < view.entries.len() ==> (#[trigger] view.entries[i]).message_id
            >= view.oldest_message_id
}

proof fn lemma_extremes(entries: Seq<ViewerEntry>)
    requires
        entries.len() > 0,
    ensures
        forall|i: int|
            0 <= i < entries.len() ==> oldest_of(entries) <= (#[trigger] entries[i]).message_id
                <= newest_of(entries),
    decreases entries.len(),
{
    if entries.len() > 1 {
        let rest = entries.drop_last();
        lemma_extremes(rest);
        assert forall|i: int| 0 <= i < entries.len() implies oldest_of(entries) <= (
        #[trigger] entries[i]).message_id <= newest_of(entries) by {
            if i < rest.len() {
                assert(rest[i] == entries[i]);
            }
        }
    }
}

/// The viewer opens with its entries in chronological order: the newer media
/// of the loaded history follows the group that it is opened on.
pub proof fn law_opened_viewer_is_chronological(
    view: ViewerView,
    messages: Map<u64, MessageView>,
    history: HistoryView,
    entries: Seq<ViewerEntry>,
    index: int,
)
    requires
        view.wf(),
        entries.len() > 0,
        is_chronological(entries),
        entries.len() + chronological(
            newer_entries(messages, history, history.list, newest_of(entries)),
        ).len() <= usize::MAX,
        index >= 0,
    ensures
        is_timeline(
            view.open(
                entries,
                chronological(newer_entries(messages, history, history.list, newest_of(entries))),
                index,
            ),
        ),
{
    let anchor = newest_of(entries);
    let all = newer_entries(messages, history, history.list, anchor);
    let newer = chronological(all);
    let opened = view.open(entries, newer, index);
    law_opens_on_entry(view, entries, newer, index);
    lemma_extremes(entries);
    lemma_chronological(all);
    assert forall|i: int| 0 <= i < newer.len() implies (#[trigger] newer[i]).message_id
        > anchor by {
        assert(all.contains(newer[i]));
        lemma_newer_entries(messages, history, history.list, anchor, newer[i]);
    }
    assert forall|i: int, j: int|
        #![trigger opened.entries[i], opened.entries[j]]
        0 <= i < j < opened.entries.len() implies opened.entries[i].message_id
        < opened.entries[j].message_id by {
        if j < entries.len() {
            assert(opened.entries[i] == entries[i] && opened.entries[j] == entries[j]);
        } else {
            assert(opened.entries[j] == newer[j - entries.len()]);
            if i < entries.len() {
                assert(opened.entries[i] == entries[i]);
            } else {
                assert(opened.entries[i] == newer[i - entries.len()]);
            }
        }
    }
    assert forall|i: int| 0 <= i < opened.entries.len() implies (
    #[trigger] opened.entries[i]).message_id >= opened.oldest_message_id by {
        if i < entries.len() {
            assert(opened.entries[i] == entries[i]);
        } else {
            assert(opened.entries[i] == newer[i - entries.len()]);
            assert(entries[0].message_id <= anchor);
        }
    }
}

/// Whether the messages are in reverse chronological order.
pub open spec fn is_reverse_chronological(
    messages: Seq<(HistoryMessage, MessageContent)>,
) -> bool {
    forall|i: int, j: int|
        #![trigger messages[i], messages[j]]
        0 <= i < j < messages.len() ==> messages[i].0.id > messages[j].0.id
}

pub proof fn lemma_older_media(messages: Seq<(HistoryMessage, MessageContent)>, id: MessageId)
    requires
        is_reverse_chronological(messages),
    ensures
        is_reverse_chronological(older_media(messages, id)),
        forall|i: int|
            0 <= i < older_media(messages, id).len() ==> (#[trigger] older_media(
                messages,
                id,
            )[i]).0.id < id && messages.contains(older_media(messages, id)[i]),
    decreases messages.len(),
{
    reveal(Seq::filter);
    if messages.len() > 0 {
        let rest = messages.drop_last();
        let last = messages.len() - 1;
        let before = older_media(rest, id);
        let after = older_media(messages, id);
        assert(is_reverse_chronological(rest)) by {
            assert forall|i: int, j: int|
                #![trigger rest[i], rest[j]]
                0 <= i < j < rest.len() implies rest[i].0.id > rest[j].0.id by {
                assert(rest[i] == messages[i] && rest[j] == messages[j]);
            }
        }
        lemma_older_media(rest, id);
        assert forall|i: int| 0 <= i < before.len() implies (#[trigger] before[i]).0.id
            > messages[last].0.id && messages.contains(before[i]) by {
            assert(rest.contains(before[i]));
            let k = choose|k: int| 0 <= k < rest.len() && rest[k] == before[i];
            assert(messages[k] == before[i]);
            assert(messages[k].0.id > messages[last].0.id);
        }
        assert forall|i: int| 0 <= i < after.len() implies (#[trigger] after[i]).0.id < id
            && messages.contains(after[i]) by {
            if i < before.len() {
                assert(after[i] == before[i]);
            } else {
                assert(after[i] == messages[last]);
            }
        }
        assert forall|i: int, j: int|
            #![trigger after[i], after[j]]
            0 <= i < j < after.len() implies after[i].0.id > after[j].0.id by {
            assert(after[i] == before[i]);
            if j < before.len() {
                assert(after[j] == before[j]);
            } else {
                assert(after[j] == messages[last]);
            }
        }
    }
}

proof fn lemma_stream_entries(messages: Seq<(HistoryMessage, MessageContent)>)
    requires
        is_reverse_chronological(messages),
    ensures
        is_chronological(stream_entries(messages)),
        forall|i: int|
            0 <= i < stream_entries(messages).len() ==> messages.len() > 0 && (
            #[trigger] stream_entries(messages)[i]).message_id >= messages.last().0.id,
    decreases messages.len(),
{
    if messages.len() > 0 {
        let rest = messages.drop_last();
        let last = messages.len() - 1;
        let newer = stream_entries(rest);
        let result = stream_entries(messages);
        assert(is_reverse_chronological(rest)) by {
            assert forall|i: int, j: int|
                #![trigger rest[i], rest[j]]
                0 <= i < j < rest.len() implies rest[i].0.id > rest[j].0.id by {
                assert(rest[i] == messages[i] && rest[j] == messages[j]);
            }
        }
        lemma_stream_entries(rest);
        assert forall|i: int| 0 <= i < newer.len() implies (#[trigger] newer[i]).message_id
            > messages[last].0.id by {
            assert(rest.last() == messages[last - 1]);
            assert(messages[last - 1].0.id > messages[last].0.id);
        }
        if result.len() > newer.len() {
            assert forall|i: int, j: int|
                #![trigger result[i], result[j]]
                0 <= i < j < result.len() implies result[i].message_id < result[j].message_id by {
                assert(result[j] == newer[j - 1]);
                if i > 0 {
                    assert(result[i] == newer[i - 1]);
                }
            }
            assert forall|i: int| 0 <= i < result.len() implies (
            #[trigger] result[i]).message_id >= messages[last].0.id by {
                if i > 0 {
                    assert(result[i] == newer[i - 1]);
                }
            }
        }
    }
}

/// Older media that is found, in reverse chronological order, leaves the
/// entries in chronological order.
pub proof fn law_older_media_keeps_chronology(
    view: ViewerView,
    messages: Seq<(HistoryMessage, MessageContent)>,
    next_from_id: MessageId,
)
    requires
        view.wf(),
        !view.closed,
        view.entries.len() + messages.len() <= usize::MAX,
        is_timeline(view),
        is_reverse_chronological(messages),
    ensures
        is_timeline(view.handle_media_page(messages, next_from_id)),
{
    let after = view.handle_media_page(messages, next_from_id);
    let fetched = older_media(messages, view.oldest_message_id);
    let added = stream_entries(fetched);
    law_older_media_joins_in_front(view, messages, next_from_id);
    lemma_older_media(messages, view.oldest_message_id);
    lemma_stream_entries(fetched);
    assert(after.oldest_message_id == if fetched.len() > 0 {
        fetched.last().0.id
    } else {
        view.oldest_message_id
    }) by {
        if added.len() > 0 {
            lemma_reconcile_keeps_rest(
                ViewerView {
                    has_more: next_from_id != 0,
                    next_older_id: next_from_id,
                    oldest_message_id: fetched.last().0.id,
                    active_index: (view.active_index + added.len()) as usize,
                    entries: added + view.entries,
                    pages: Seq::new(added.len(), |i: int| None::<u64>) + view.pages,
                    ..view
                },
            );
        }
    }
    assert(fetched.len() > 0 ==> fetched.last().0.id < view.oldest_message_id);
    assert forall|i: int, j: int|
        #![trigger after.entries[i], after.entries[j]]
        0 <= i < j < after.entries.len() implies after.entries[i].message_id
        < after.entries[j].message_id by {
        if j < added.len() {
            assert(after.entries[i] == added[i] && after.entries[j] == added[j]);
        } else {
            assert(after.entries[j] == view.entries[j - added.len()]);
            if i < added.len() {
                assert(after.entries[i] == added[i]);
            } else {
                assert(after.entries[i] == view.entries[i - added.len()]);
            }
        }
    }
    assert forall|i: int| 0 <= i < after.entries.len() implies (
    #[trigger] after.entries[i]).message_id >= after.oldest_message_id by {
        if i < added.len() {
            assert(after.entries[i] == added[i]);
        } else {
            assert(after.entries[i] == view.entries[i - added.len()]);
        }
    }
}

} // verus!
