//! Facts about the pages of the media viewer.

use vstd::prelude::*;

use crate::ui::media_viewer_view::{
    index_of_page, inside, live_pages, occurrences, outside, uses, ViewerAction, ViewerView,
    PAGE_WINDOW,
};

verus! {

/// Looking at one more slot.
pub proof fn lemma_live_step(pages: Seq<Option<u64>>, index: int)
    requires
        0 <= index < pages.len(),
    ensures
        live_pages(pages.take(index + 1)) == match pages[index] {
            Some(page) => live_pages(pages.take(index)).push(page),
            None => live_pages(pages.take(index)),
        },
{
    assert(pages.take(index + 1).drop_last() =~= pages.take(index));
    assert(pages.take(index + 1).last() == pages[index]);
}

/// The live pages in front of and behind a slot.
pub proof fn lemma_live_split(pages: Seq<Option<u64>>, at: int)
    requires
        0 <= at <= pages.len(),
    ensures
        live_pages(pages) == live_pages(pages.take(at)) + live_pages(pages.skip(at)),
    decreases pages.len(),
{
    if at == pages.len() {
        assert(pages.take(at) =~= pages);
        assert(pages.skip(at) =~= Seq::empty());
    } else {
        let rest = pages.drop_last();
        lemma_live_split(rest, at);
        assert(rest.take(at) =~= pages.take(at));
        assert(pages.skip(at).drop_last() =~= rest.skip(at));
        assert(pages.skip(at).last() == pages.last());
        assert(live_pages(pages) =~= live_pages(pages.take(at)) + live_pages(pages.skip(at)));
    }
}

/// A page joins the live ones at its position.
pub proof fn lemma_live_update(pages: Seq<Option<u64>>, index: int, page: u64)
    requires
        0 <= index < pages.len(),
        pages[index] is None,
    ensures
        live_pages(pages.take(index)).len() <= live_pages(pages).len(),
        live_pages(pages.update(index, Some(page))) == live_pages(pages).insert(
            live_pages(pages.take(index)).len() as int,
            page,
        ),
{
    let updated = pages.update(index, Some(page));
    let front = live_pages(pages.take(index));
    lemma_live_split(pages, index + 1);
    lemma_live_split(updated, index + 1);
    lemma_live_step(pages, index);
    lemma_live_step(updated, index);
    assert(updated.take(index) =~= pages.take(index));
    assert(updated.skip(index + 1) =~= pages.skip(index + 1));
    assert(live_pages(updated) =~= live_pages(pages).insert(front.len() as int, page));
}

/// How many pages of the window can be live.
proof fn lemma_live_bound(pages: Seq<Option<u64>>, start: int, end: int, gap: int, n: int)
    requires
        0 <= start <= gap <= end,
        0 <= n <= pages.len(),
        forall|i: int|
            0 <= i < pages.len() && (i < start || i > end || i == gap) ==> (
            #[trigger] pages[i]) is None,
    ensures
        live_pages(pages.take(n)).len() <= if n <= start {
            0
        } else if n <= gap {
            n - start
        } else if n <= end {
            n - start - 1
        } else {
            end - start
        },
    decreases n,
{
    if n > 0 {
        lemma_live_bound(pages, start, end, gap, n - 1);
        lemma_live_step(pages, n - 1);
        assert(pages[n - 1] is Some ==> start <= n - 1 <= end && n - 1 != gap);
    } else {
        assert(pages.take(0) =~= Seq::empty());
    }
}

/// When there is a gap in the window, fewer pages are live than fit in it.
pub proof fn lemma_gap_leaves_room(pages: Seq<Option<u64>>, start: int, end: int, gap: int)
    requires
        0 <= start <= gap <= end,
        forall|i: int|
            0 <= i < pages.len() && (i < start || i > end || i == gap) ==> (
            #[trigger] pages[i]) is None,
    ensures
        live_pages(pages).len() <= end - start,
{
    lemma_live_bound(pages, start, end, gap, pages.len() as int);
    assert(pages.take(pages.len() as int) =~= pages);
}

/// Recycling moves every live page either to the one or to the other side.
pub proof fn lemma_split_window(pages: Seq<Option<u64>>, start: int, end: int, page: u64)
    ensures
        uses(pages, page) == uses(inside(pages, start, end), page) + uses(
            outside(pages, start, end),
            page,
        ),
        live_pages(pages).len() == live_pages(inside(pages, start, end)).len() + live_pages(
            outside(pages, start, end),
        ).len(),
    decreases pages.len(),
{
    if pages.len() > 0 {
        let rest = pages.drop_last();
        lemma_split_window(rest, start, end, page);
        assert(inside(pages, start, end).drop_last() =~= inside(rest, start, end));
        assert(outside(pages, start, end).drop_last() =~= outside(rest, start, end));
    }
}

/// The live pages occur as often as they are shown.
pub proof fn lemma_uses_live(pages: Seq<Option<u64>>, page: u64)
    ensures
        occurrences(live_pages(pages), page) == uses(pages, page),
    decreases pages.len(),
{
    if pages.len() > 0 {
        lemma_uses_live(pages.drop_last(), page);
        if let Some(last) = pages.last() {
            let rest = live_pages(pages.drop_last());
            assert(rest.push(last).drop_last() =~= rest);
        }
    }
}

pub proof fn lemma_occurrences_concat(first: Seq<u64>, second: Seq<u64>, page: u64)
    ensures
        occurrences(first + second, page) == occurrences(first, page) + occurrences(second, page),
    decreases second.len(),
{
    if second.len() == 0 {
        assert(first + second =~= first);
    } else {
        lemma_occurrences_concat(first, second.drop_last(), page);
        assert((first + second).drop_last() =~= first + second.drop_last());
    }
}

/// Showing a page for one more entry.
pub proof fn lemma_uses_update(pages: Seq<Option<u64>>, index: int, shown: u64, page: u64)
    requires
        0 <= index < pages.len(),
        pages[index] is None,
    ensures
        uses(pages.update(index, Some(shown)), page) == uses(pages, page) + (if page == shown {
            1nat
        } else {
            0
        }),
    decreases pages.len(),
{
    let updated = pages.update(index, Some(shown));
    if index < pages.len() - 1 {
        lemma_uses_update(pages.drop_last(), index, shown, page);
        assert(updated.drop_last() =~= pages.drop_last().update(index, Some(shown)));
    } else {
        assert(updated.drop_last() =~= pages.drop_last());
    }
}

/// Slots without pages in front change nothing.
pub proof fn lemma_empty_front(empty: Seq<Option<u64>>, pages: Seq<Option<u64>>, page: u64)
    requires
        forall|i: int| 0 <= i < empty.len() ==> (#[trigger] empty[i]) is None,
    ensures
        live_pages(empty + pages) == live_pages(pages),
        uses(empty + pages, page) == uses(pages, page),
    decreases empty.len() + pages.len(),
{
    if pages.len() > 0 {
        lemma_empty_front(empty, pages.drop_last(), page);
        assert((empty + pages).drop_last() =~= empty + pages.drop_last());
        assert((empty + pages).last() == pages.last());
    } else {
        assert(empty + pages =~= empty);
        if empty.len() > 0 {
            let rest = empty.drop_last();
            assert forall|i: int| 0 <= i < rest.len() implies (#[trigger] rest[i]) is None by {
                assert(rest[i] == empty[i]);
            }
            lemma_empty_front(rest, pages, page);
            assert(rest + pages =~= rest);
            assert(empty[empty.len() - 1] is None);
        }
    }
}

/// The index of a page is that of an entry that shows it.
pub proof fn lemma_index_of_page(pages: Seq<Option<u64>>, page: u64)
    ensures
        index_of_page(pages, page) matches Some(index) ==> 0 <= index < pages.len()
            && pages[index] == Some(page),
        index_of_page(pages, page) is None ==> forall|i: int|
            0 <= i < pages.len() ==> #[trigger] pages[i] != Some(page),
    decreases pages.len(),
{
    if pages.len() > 0 {
        let rest = pages.drop_last();
        lemma_index_of_page(rest, page);
        assert forall|i: int| 0 <= i < rest.len() implies rest[i] == #[trigger] pages[i] by {}
    }
}

/// What is in order stays in order while the pages of the window are made.
pub open spec fn is_in_window(view: ViewerView, start: int, end: int) -> bool {
    forall|i: int|
        0 <= i < view.pages.len() && (i < start || i > end) ==> (
        #[trigger] view.pages[i]) is None
}

/// Recycling keeps the pages in order and leaves only those of the window
/// live.
pub proof fn lemma_recycle_wf(view: ViewerView, start: int, end: int)
    requires
        view.wf(),
    ensures
        view.recycle(start, end).wf(),
        is_in_window(view.recycle(start, end), start, end),
{
    let after = view.recycle(start, end);
    let recycled = live_pages(outside(view.pages, start, end));
    assert forall|page: u64| #[trigger] after.has_one_place(page) by {
        assert(view.has_one_place(page));
        lemma_split_window(view.pages, start, end, page);
        lemma_uses_live(outside(view.pages, start, end), page);
        lemma_occurrences_concat(view.pool, recycled, page);
    }
    lemma_split_window(view.pages, start, end, 0);
}

/// Making a page for an entry of the window keeps the pages in order.
pub proof fn lemma_ensure_page_wf(view: ViewerView, start: int, end: int, index: int)
    requires
        view.wf(),
        is_in_window(view, start, end),
        0 <= start <= index <= end < view.pages.len(),
        end - start <= 2 * PAGE_WINDOW,
    ensures
        view.ensure_page(index).wf(),
        is_in_window(view.ensure_page(index), start, end),
        view.ensure_page(index).pages[index] is Some,
        forall|i: int|
            0 <= i < view.pages.len() && view.pages[i] is Some ==> (#[trigger] view.ensure_page(
                index,
            ).pages[i]) is Some,
{
    if view.pages[index] is None {
        let after = view.ensure_page(index);
        let made = if view.pool.len() > 0 {
            view.pool.last()
        } else {
            view.next_page
        };
        lemma_live_update(view.pages, index, made);
        lemma_gap_leaves_room(view.pages, start, end, index);
        assert forall|page: u64| #[trigger] after.has_one_place(page) by {
            assert(view.has_one_place(page));
            lemma_uses_update(view.pages, index, made, page);
        }
    }
}

/// Making pages for the window keeps them in order, and every entry of the
/// window has one afterwards.
pub proof fn lemma_ensure_pages_wf(view: ViewerView, start: int, end: int, upto: int)
    requires
        view.wf(),
        is_in_window(view, start, end),
        0 <= start <= upto <= end + 1,
        start <= end < view.pages.len(),
        end - start <= 2 * PAGE_WINDOW,
    ensures
        view.ensure_pages(start, upto).wf(),
        is_in_window(view.ensure_pages(start, upto), start, end),
        view.ensure_pages(start, upto).pages.len() == view.pages.len(),
        view.ensure_pages(start, upto).entries == view.entries,
        view.ensure_pages(start, upto).active_index == view.active_index,
        view.ensure_pages(start, upto).active_page == view.active_page,
        view.ensure_pages(start, upto).has_more == view.has_more,
        forall|i: int|
            start <= i < upto ==> (#[trigger] view.ensure_pages(start, upto).pages[i]) is Some,
    decreases upto - start,
{
    if start < upto {
        let before = view.ensure_pages(start, upto - 1);
        lemma_ensure_pages_wf(view, start, end, upto - 1);
        lemma_ensure_page_wf(before, start, end, upto - 1);
        let after = before.ensure_page(upto - 1);
        assert forall|i: int| start <= i < upto implies (#[trigger] after.pages[i]) is Some by {
            if i < upto - 1 {
                assert(before.pages[i] is Some);
            }
        }
    }
}

/// Reconciling keeps the pages in order.
pub proof fn lemma_reconcile_wf(view: ViewerView)
    requires
        view.wf(),
    ensures
        view.reconcile_pages().wf(),
{
    if !view.closed && view.entries.len() > 0 {
        let start = view.window_start();
        let end = view.window_end();
        let centred = ViewerView { active_index: view.centre() as usize, ..view }.act(
            ViewerAction::IgnorePageChanges(true),
        );
        assert(centred.wf()) by {
            assert forall|page: u64| #[trigger] centred.has_one_place(page) by {
                assert(view.has_one_place(page));
            }
        }
        lemma_recycle_wf(centred, start, end);
        let recycled = centred.recycle(start, end);
        lemma_ensure_pages_wf(recycled, start, end, end + 1);
        let filled = recycled.ensure_pages(start, end + 1);
        if let Some(page) = filled.active_page {
            lemma_index_of_page(filled.pages, page);
        }
        let after = view.reconcile_pages();
        assert forall|page: u64| #[trigger] after.has_one_place(page) by {
            assert(filled.has_one_place(page));
        }
    }
}

/// What does not concern the pages keeps them in order.
pub proof fn lemma_same_pages(before: ViewerView, after: ViewerView)
    requires
        before.wf(),
        after.entries == before.entries,
        after.pages == before.pages,
        after.pool == before.pool,
        after.next_page == before.next_page,
        after.active_index <= after.entries.len(),
    ensures
        after.wf(),
{
    assert forall|page: u64| #[trigger] after.has_one_place(page) by {
        assert(before.has_one_place(page));
    }
}

/// Recycling all the pages when the entries are replaced keeps them in order.
pub proof fn lemma_emptied_wf(before: ViewerView, emptied: ViewerView)
    requires
        before.wf(),
        emptied.pages.len() == emptied.entries.len(),
        forall|i: int| 0 <= i < emptied.pages.len() ==> (#[trigger] emptied.pages[i]) is None,
        emptied.pool == before.pool + live_pages(before.pages),
        emptied.next_page == before.next_page,
        emptied.active_index <= emptied.entries.len(),
    ensures
        emptied.wf(),
{
    assert(emptied.pages + Seq::<Option<u64>>::empty() =~= emptied.pages);
    assert forall|page: u64| #[trigger] emptied.has_one_place(page) by {
        assert(before.has_one_place(page));
        lemma_empty_front(emptied.pages, Seq::empty(), page);
        lemma_uses_live(before.pages, page);
        lemma_occurrences_concat(before.pool, live_pages(before.pages), page);
    }
    lemma_empty_front(emptied.pages, Seq::empty(), 0);
}

/// The entry that the viewer is opened on has a page.
pub proof fn lemma_open_page(view: ViewerView)
    requires
        view.wf(),
        !view.closed,
        view.active_index < view.entries.len(),
        view.active_page is None,
    ensures
        view.reconcile_pages().pages.len() == view.entries.len(),
        view.reconcile_pages().active_index == view.active_index,
        view.reconcile_pages().pages[view.active_index as int] is Some,
{
    let start = view.window_start();
    let end = view.window_end();
    let centred = ViewerView { active_index: view.centre() as usize, ..view }.act(
        ViewerAction::IgnorePageChanges(true),
    );
    lemma_same_pages(view, centred);
    lemma_recycle_wf(centred, start, end);
    lemma_ensure_pages_wf(centred.recycle(start, end), start, end, end + 1);
    let filled = centred.recycle(start, end).ensure_pages(start, end + 1);
    assert(filled.pages[view.active_index as int] is Some);
}

} // verus!
