//! The viewer that browses the photos and videos of a chat like a timeline.

use vstd::prelude::*;

use crate::model::chat::Chat;
use crate::model::chat_history_item::HistoryMessage;
use crate::model::chat_history_model::ChatHistoryModel;
use crate::model::message::{ContentKind, MessageContent};
use crate::types::{MessageId, TdlibError};
use crate::ui::media_viewer_laws::{lemma_with_entries_concat, lemma_with_entry};
use crate::ui::media_viewer_pages::{
    is_in_window, lemma_emptied_wf, lemma_empty_front, lemma_ensure_pages_wf, lemma_live_step,
    lemma_open_page, lemma_reconcile_wf, lemma_recycle_wf, lemma_same_pages,
};
use crate::ui::media_viewer_view::{
    chronological, entry_position, index_of_page, inside, is_chronological, item_of, live_pages,
    newer_among, newer_entries, newest_of, older_media, oldest_of, outside, recycle_actions,
    shown_by, stream_entries, stream_item_of, with_entries, with_entry, ViewerAction, ViewerEntry,
    ViewerItem, ViewerView, PAGE_WINDOW, PRELOAD_AHEAD,
};

verus! {

impl ViewerItem {
    /// The viewer item of a message with the given content.
    ///
    /// Returns `None` for messages without viewable media content.
    pub fn from_content(content: &MessageContent) -> (item: Option<ViewerItem>)
        ensures
            item == item_of(*content),
    {
        match content.kind {
            ContentKind::Photo => {
                if content.photo_sizes > 0 {
                    Some(ViewerItem::Photo { size: content.photo_sizes - 1 })
                } else {
                    None
                }
            },
            ContentKind::Video => Some(ViewerItem::Video { is_animation: false }),
            ContentKind::Animation => Some(ViewerItem::Video { is_animation: true }),
            ContentKind::Other => None,
        }
    }
}

/// The viewer item of a message with the given content for the media stream.
///
/// The stream only contains the photos and videos of the chat, so animations
/// are excluded from it even though the viewer can display them.
pub fn stream_item(content: &MessageContent) -> (item: Option<ViewerItem>)
    ensures
        item == stream_item_of(*content),
{
    match ViewerItem::from_content(content) {
        Some(ViewerItem::Video { is_animation: true }) => None,
        item => item,
    }
}

/// Adds the entry where it belongs, unless its message has one already.
fn add_entry(entries: &mut Vec<ViewerEntry>, entry: ViewerEntry)
    requires
        is_chronological(old(entries)@),
    ensures
        final(entries)@ == with_entry(old(entries)@, entry),
        is_chronological(final(entries)@),
{
    let ghost before = entries@;
    let mut position: usize = entries.len();
    assert(before.take(position as int) =~= before);
    while position > 0 && entries[position - 1].message_id > entry.message_id
        invariant
            entries@ == before,
            position <= before.len(),
            entry_position(before, entry.message_id) == entry_position(
                before.take(position as int),
                entry.message_id,
            ),
        decreases position,
    {
        position = position - 1;
        assert(before.take(position + 1).drop_last() =~= before.take(position as int));
    }
    proof {
        lemma_with_entry(before, entry);
    }
    if position > 0 && entries[position - 1].message_id == entry.message_id {
        return;
    }
    entries.insert(position, entry);
}

/// Adds the entries of the messages that are newer than the given one.
fn push_newer(
    chat: &Chat,
    members: &Vec<HistoryMessage>,
    anchor_newest_id: MessageId,
    entries: &mut Vec<ViewerEntry>,
)
    requires
        is_chronological(old(entries)@),
    ensures
        final(entries)@ == with_entries(
            old(entries)@,
            newer_among(chat@.messages, members@, anchor_newest_id),
        ),
        is_chronological(final(entries)@),
{
    let ghost before = entries@;
    let ghost messages = chat@.messages;
    let mut i: usize = 0;
    assert(members@.take(0) =~= Seq::empty());
    while i < members.len()
        invariant
            i <= members@.len(),
            messages == chat@.messages,
            entries@ == with_entries(
                before,
                newer_among(messages, members@.take(i as int), anchor_newest_id),
            ),
            is_chronological(entries@),
        decreases members@.len() - i,
    {
        let message = members[i];
        assert(members@.take(i + 1).drop_last() =~= members@.take(i as int));
        assert(members@.take(i + 1).last() == message);
        let ghost rest = newer_among(messages, members@.take(i as int), anchor_newest_id);
        if message.id > anchor_newest_id {
            if let Some(known) = chat.get(message.serial) {
                if let Some(item) = stream_item(&known.content()) {
                    let entry = ViewerEntry {
                        item,
                        message_id: message.id,
                        serial: message.serial,
                    };
                    add_entry(entries, entry);
                    assert(rest.push(entry).drop_last() =~= rest);
                }
            }
        }
        i = i + 1;
    }
    assert(members@.take(members@.len() as int) =~= members@);
}

/// Collects the entries of the media messages of the loaded history that are
/// newer than the message with the given id, in chronological order.
///
/// The history contains the messages that are currently loaded in the chat,
/// which usually includes all the media around the message the viewer was
/// opened for. Media that is newer but not loaded is not part of the result.
pub fn collect_newer_entries(
    chat: &Chat,
    history: &ChatHistoryModel,
    anchor_newest_id: MessageId,
) -> (entries: Vec<ViewerEntry>)
    requires
        history.wf(),
    ensures
        entries@ == chronological(
            newer_entries(chat@.messages, history@, history@.list, anchor_newest_id),
        ),
        is_chronological(entries@),
{
    let ghost list = history@.list;
    let ghost messages = chat@.messages;
    let mut entries: Vec<ViewerEntry> = Vec::new();
    let mut i: usize = history.n_items();
    assert(list.skip(i as int) =~= Seq::empty());
    assert(entries@ =~= Seq::empty());
    while i > 0
        invariant
            history.wf(),
            list == history@.list,
            messages == chat@.messages,
            i <= list.len(),
            entries@ == chronological(
                newer_entries(messages, history@, list.skip(i as int), anchor_newest_id),
            ),
            is_chronological(entries@),
        decreases i,
    {
        i = i - 1;
        assert(list.skip(i as int).skip(1) =~= list.skip(i + 1));
        assert(list.skip(i as int)[0] == list[i as int]);
        let mut members: Vec<HistoryMessage> = Vec::new();
        if let Some(item) = history.item(i) {
            if let Some(message) = item.message() {
                if message.media_album_id == 0 {
                    members.push(message);
                } else {
                    match history.media_album(&message) {
                        Some(album) => members = album,
                        None => members.push(message),
                    }
                }
            }
        }
        assert(members@ =~= shown_by(history@, list[i as int]));
        push_newer(chat, &members, anchor_newest_id, &mut entries);
        proof {
            lemma_with_entries_concat(
                Seq::empty(),
                newer_entries(messages, history@, list.skip(i + 1), anchor_newest_id),
                newer_among(messages, members@, anchor_newest_id),
            );
        }
    }
    assert(list.skip(0) =~= list);
    entries
}

/// The viewer.
#[derive(Debug)]
pub struct MediaViewer {
    /// The entries shown by the viewer, in chronological order, from the
    /// oldest to the newest message.
    ///
    /// This is the single source of truth of the content of the viewer: the
    /// carousel only holds the pages of the entries around the displayed one,
    /// which are recycled as the user navigates.
    entries: Vec<ViewerEntry>,
    /// The live page of each entry, if any.
    ///
    /// This is always aligned with `entries`: the page of an entry is `Some`
    /// only while the entry is within the window of pages kept alive around
    /// the displayed one.
    pages: Vec<Option<u64>>,
    /// The pages that were recycled and can be reused for other entries.
    pool: Vec<u64>,
    next_page: u64,
    /// Whether the live pages are currently being reconciled with the entries,
    /// in which case the page changes caused by the inserts and removals of
    /// the carousel are ignored.
    is_reconciling: bool,
    /// The id of the oldest media message that is shown. Fetched messages with
    /// a greater or equal id are known already and are filtered out.
    oldest_message_id: MessageId,
    /// The id from which the next batch of older media is searched, or `0` if
    /// there is none.
    next_older_id: MessageId,
    /// Whether there may be older media to load.
    has_more: bool,
    /// Whether a batch of older media is currently being searched.
    is_fetching: bool,
    /// The index of the currently displayed item.
    active_index: usize,
    /// The page of the currently displayed item, if any.
    active_page: Option<u64>,
    /// Whether the viewer was closed, in which case no item may be displayed
    /// anymore.
    ///
    /// The completion of a download is asynchronous, so it may still arrive
    /// after the viewer was closed.
    closed: bool,
    /// Incremented every time the viewer is opened, used to discard the
    /// results of asynchronous operations that became out-of-date.
    open_generation: u64,
    is_attached: bool,
    actions: Vec<ViewerAction>,
}

impl View for MediaViewer {
    type V = ViewerView;

    closed spec fn view(&self) -> ViewerView {
        ViewerView {
            entries: self.entries@,
            pages: self.pages@,
            pool: self.pool@,
            next_page: self.next_page,
            is_reconciling: self.is_reconciling,
            oldest_message_id: self.oldest_message_id,
            next_older_id: self.next_older_id,
            has_more: self.has_more,
            is_fetching: self.is_fetching,
            active_index: self.active_index,
            active_page: self.active_page,
            closed: self.closed,
            open_generation: self.open_generation,
            is_attached: self.is_attached,
            actions: self.actions@,
        }
    }
}

impl MediaViewer {
    pub open spec fn wf(self) -> bool {
        self@.wf()
    }

    /// A viewer that was not opened yet.
    pub fn new() -> (viewer: MediaViewer)
        ensures
            viewer.wf(),
            viewer@ == (ViewerView {
                entries: Seq::empty(),
                pages: Seq::empty(),
                pool: Seq::empty(),
                next_page: 0,
                is_reconciling: false,
                oldest_message_id: 0,
                next_older_id: 0,
                has_more: false,
                is_fetching: false,
                active_index: 0,
                active_page: None,
                closed: false,
                open_generation: 0,
                is_attached: false,
                actions: Seq::empty(),
            }),
    {
        MediaViewer {
            entries: Vec::new(),
            pages: Vec::new(),
            pool: Vec::new(),
            next_page: 0,
            is_reconciling: false,
            oldest_message_id: 0,
            next_older_id: 0,
            has_more: false,
            is_fetching: false,
            active_index: 0,
            active_page: None,
            closed: false,
            open_generation: 0,
            is_attached: false,
            actions: Vec::new(),
        }
    }

    fn act(&mut self, action: ViewerAction)
        ensures
            final(self)@ == old(self)@.act(action),
    {
        self.actions.push(action);
    }

    /// Moves the pages to the pool, which they leave the carousel for.
    fn recycle_pages(&mut self, recycled: &Vec<u64>)
        ensures
            final(self)@ == (ViewerView {
                pool: old(self)@.pool + recycled@,
                actions: old(self)@.actions + recycle_actions(recycled@),
                ..old(self)@
            }),
    {
        let ghost before = self@;
        let mut i: usize = 0;
        assert(recycled@.take(0) =~= Seq::empty());
        assert(before.pool + recycled@.take(0) =~= before.pool);
        assert(before.actions + recycle_actions(recycled@.take(0)) =~= before.actions);
        while i < recycled.len()
            invariant
                i <= recycled@.len(),
                self@ == (ViewerView {
                    pool: before.pool + recycled@.take(i as int),
                    actions: before.actions + recycle_actions(recycled@.take(i as int)),
                    ..before
                }),
            decreases recycled@.len() - i,
        {
            let page = recycled[i];
            let ghost done = recycled@.take(i as int);
            assert(recycled@.take(i + 1).drop_last() =~= done);
            assert(recycled@.take(i + 1).last() == page);
            self.act(ViewerAction::DeactivatePage(page));
            self.act(ViewerAction::RemovePage(page));
            self.pool.push(page);
            i = i + 1;
            assert(self@.pool =~= before.pool + recycled@.take(i as int));
            assert(self@.actions =~= before.actions + recycle_actions(recycled@.take(i as int)));
        }
        assert(recycled@.take(recycled@.len() as int) =~= recycled@);
    }

    /// Recycles the live pages outside of the window.
    fn recycle(&mut self, start: usize, end: usize)
        requires
            old(self).wf(),
        ensures
            final(self)@ == old(self)@.recycle(start as int, end as int),
            final(self).wf(),
    {
        let ghost before = self@;
        let ghost out = outside(before.pages, start as int, end as int);
        let ghost kept = inside(before.pages, start as int, end as int);
        let mut recycled: Vec<u64> = Vec::new();
        let mut i: usize = 0;
        assert(out.take(0) =~= Seq::empty());
        while i < self.pages.len()
            invariant
                i <= before.pages.len(),
                self.pages@.len() == before.pages.len(),
                out == outside(before.pages, start as int, end as int),
                kept == inside(before.pages, start as int, end as int),
                *self == (MediaViewer { pages: self.pages, ..*old(self) }),
                before == old(self)@,
                forall|k: int| 0 <= k < i ==> #[trigger] self.pages@[k] == kept[k],
                forall|k: int|
                    i <= k < before.pages.len() ==> #[trigger] self.pages@[k] == before.pages[k],
                recycled@ == live_pages(out.take(i as int)),
            decreases before.pages.len() - i,
        {
            proof {
                lemma_live_step(out, i as int);
            }
            if i < start || i > end {
                if let Some(page) = self.pages[i] {
                    recycled.push(page);
                }
                self.pages.set(i, None);
            }
            i = i + 1;
        }
        assert(out.take(before.pages.len() as int) =~= out);
        assert(self.pages@ =~= kept);
        self.recycle_pages(&recycled);
        proof {
            lemma_recycle_wf(before, start as int, end as int);
        }
    }

    /// Makes a page for the entry at the given index, reusing a recycled page
    /// if there is one, unless it has one.
    fn ensure_page(&mut self, index: usize)
        requires
            old(self)@.pages.len() == old(self)@.entries.len(),
            index < old(self)@.pages.len(),
            old(self)@.next_page <= 2 * PAGE_WINDOW + 1,
        ensures
            final(self)@ == old(self)@.ensure_page(index as int),
    {
        if self.pages[index].is_some() {
            return;
        }
        let ghost before = self@;
        let page = match self.pool.pop() {
            Some(page) => page,
            None => {
                let page = self.next_page;
                self.next_page = page + 1;
                self.act(ViewerAction::CreatePage(page));
                page
            },
        };
        let entry = self.entries[index];
        self.act(ViewerAction::SetItem(page, entry));
        let mut position: usize = 0;
        let mut i: usize = 0;
        assert(before.pages.take(0) =~= Seq::empty());
        while i < index
            invariant
                i <= index < before.pages.len(),
                self.pages@ == before.pages,
                position == live_pages(before.pages.take(i as int)).len(),
                position <= i,
            decreases index - i,
        {
            proof {
                lemma_live_step(before.pages, i as int);
            }
            if self.pages[i].is_some() {
                position = position + 1;
            }
            i = i + 1;
        }
        self.act(ViewerAction::InsertPage(page, position));
        self.pages.set(index, Some(page));
        assert(self@ =~= before.ensure_page(index as int));
    }

    /// The index of the entry that the page is shown for.
    fn position_of_page(&self, page: u64) -> (index: Option<usize>)
        ensures
            match index {
                Some(index) => index_of_page(self@.pages, page) == Some(index as int) && index
                    < self@.pages.len() && self@.pages[index as int] == Some(page),
                None => index_of_page(self@.pages, page) is None,
            },
    {
        let ghost pages = self.pages@;
        let mut i: usize = 0;
        assert(pages.take(0) =~= Seq::empty());
        while i < self.pages.len()
            invariant
                pages == self.pages@,
                i <= pages.len(),
                index_of_page(pages.take(i as int), page) is None,
            decreases pages.len() - i,
        {
            assert(pages.take(i + 1).drop_last() =~= pages.take(i as int));
            assert(pages.take(i + 1).last() == pages[i as int]);
            let is_found = match self.pages[i] {
                Some(other) => other == page,
                None => false,
            };
            if is_found {
                proof {
                    lemma_found_early(pages, page, i + 1);
                }
                return Some(i);
            }
            i = i + 1;
        }
        assert(pages.take(pages.len() as int) =~= pages);
        None
    }

    /// Makes sure that a page exists for every entry within the window around
    /// the displayed one, and recycles the pages outside of it.
    ///
    /// The carousel only ever holds the pages of the window, in the order of
    /// the entries. Inserts and removals shift the indices reported by the
    /// carousel, so the changes it reports in the meantime are ignored and the
    /// index of the displayed page is re-derived from the page itself
    /// afterwards.
    #[verifier::rlimit(40)]
    #[verifier::spinoff_prover]
    fn reconcile_pages(&mut self)
        requires
            old(self).wf(),
        ensures
            final(self).wf(),
            final(self)@ == old(self)@.reconcile_pages(),
    {
        let ghost before = self@;
        if self.closed {
            return;
        }
        let count = self.entries.len();
        if count == 0 {
            return;
        }
        self.act(ViewerAction::IgnorePageChanges(true));
        let active: usize = if self.active_index < count {
            self.active_index
        } else {
            count - 1
        };
        self.active_index = active;
        let start: usize = active.saturating_sub(PAGE_WINDOW);
        let end: usize = if PAGE_WINDOW < count - active {
            active + PAGE_WINDOW
        } else {
            count - 1
        };
        assert(start == before.window_start() && end == before.window_end());
        let ghost centred = self@;
        proof {
            assert forall|page: u64| #[trigger] centred.has_one_place(page) by {
                assert(before.has_one_place(page));
            }
        }
        self.recycle(start, end);
        let ghost recycled = self@;
        proof {
            lemma_recycle_wf(centred, start as int, end as int);
        }

        // Create or reuse a page for every entry of the window that has none
        // yet.
        let mut i: usize = start;
        while i <= end
            invariant
                start <= i <= end + 1,
                end < usize::MAX,
                end < recycled.pages.len(),
                end - start <= 2 * PAGE_WINDOW,
                recycled.wf(),
                is_in_window(recycled, start as int, end as int),
                self@ == recycled.ensure_pages(start as int, i as int),
            decreases end + 1 - i,
        {
            proof {
                lemma_ensure_pages_wf(recycled, start as int, end as int, i as int);
            }
            self.ensure_page(i);
            i = i + 1;
        }
        let ghost filled = self@;
        proof {
            lemma_ensure_pages_wf(recycled, start as int, end as int, end + 1);
        }
        if let Some(selected) = self.active_page {
            if let Some(index) = self.position_of_page(selected) {
                self.active_index = index;
            }
        }
        self.act(ViewerAction::IgnorePageChanges(false));
        self.update_navigation(self.active_index);
        proof {
            assert(self@ =~= before.reconcile_pages());
            lemma_reconcile_wf(before);
        }
    }

    /// Updates the navigation UI for the given index.
    fn update_navigation(&mut self, index: usize)
        ensures
            final(self)@ == old(self)@.update_navigation(index as int),
    {
        let count = self.entries.len();
        let previous = index > 0 || self.has_more;
        let next = index < count && 1 < count - index;
        self.act(ViewerAction::ShowButtons { previous, next });
    }

    /// Displays the item at the given index.
    ///
    /// The previously displayed page is deactivated, so that it drops its
    /// decoded photo and one video is played at any time. Displaying an item is
    /// up to the page.
    fn display_item(&mut self, index: usize)
        requires
            old(self).wf(),
        ensures
            final(self).wf(),
            final(self)@ == old(self)@.display_item(index as int),
    {
        let ghost before = self@;
        if self.closed || index >= self.pages.len() {
            return;
        }
        let page = match self.pages[index] {
            Some(page) => page,
            None => return,
        };
        self.active_index = index;
        if let Some(previous) = self.active_page {
            if previous != page {
                self.act(ViewerAction::DeactivatePage(previous));
            }
        }
        self.active_page = Some(page);
        self.act(ViewerAction::ActivatePage(page));
        proof {
            lemma_same_pages(before, self@);
        }
    }

    /// Fetches the next batch of older media, if there may be one and none is
    /// being fetched already.
    fn maybe_fetch_older(&mut self)
        requires
            old(self).wf(),
        ensures
            final(self).wf(),
            final(self)@ == old(self)@.maybe_fetch_older(),
    {
        let ghost before = self@;
        if self.closed || !self.has_more || self.is_fetching || !self.is_attached {
            return;
        }
        self.is_fetching = true;
        self.act(
            ViewerAction::FetchOlder {
                from_id: self.next_older_id,
                generation: self.open_generation,
            },
        );
        proof {
            lemma_same_pages(before, self@);
        }
    }

    /// Fetches the next batch of older media if the user is close to the
    /// beginning of the loaded media.
    fn maybe_preload(&mut self, index: usize)
        requires
            old(self).wf(),
        ensures
            final(self).wf(),
            final(self)@ == old(self)@.maybe_preload(index as int),
    {
        if self.has_more && index <= PRELOAD_AHEAD {
            self.maybe_fetch_older();
        }
    }

    /// Prepares the viewer to show the given entries, starting at `index`, and
    /// reveals it.
    ///
    /// The viewer browses the media of the chat of the entries like a
    /// timeline: navigating to the left scrolls back in history, towards older
    /// media, which is searched and prepended as the user reaches it, while
    /// the media that is newer than the initially displayed group is taken
    /// from the loaded history of the chat.
    pub fn open(
        &mut self,
        chat: &Chat,
        history: Option<&ChatHistoryModel>,
        entries: Vec<ViewerEntry>,
        index: usize,
    )
        requires
            old(self).wf(),
            old(self)@.open_generation < u64::MAX,
            history matches Some(history) ==> history.wf(),
        ensures
            final(self).wf(),
            final(self)@ == old(self)@.open(
                entries@,
                match history {
                    Some(history) => chronological(
                        newer_entries(
                            chat@.messages,
                            history@,
                            history@.list,
                            newest_of(entries@),
                        ),
                    ),
                    None => Seq::empty(),
                },
                index as int,
            ),
    {
        let ghost before = self@;
        if entries.len() == 0 {
            return;
        }
        let ghost own = entries@;
        let newest = newest_id(&entries);
        let oldest = oldest_id(&entries);
        let mut newer: Vec<ViewerEntry> = match history {
            Some(history) => collect_newer_entries(chat, history, newest),
            None => Vec::new(),
        };
        let ghost prefix = newer@;
        let count = entries.len();
        let index: usize = if index < count {
            index
        } else {
            count - 1
        };
        self.open_generation = self.open_generation + 1;
        self.closed = false;
        self.is_fetching = false;
        self.is_attached = true;
        self.act(ViewerAction::StopPlayback);
        self.oldest_message_id = oldest;
        self.next_older_id = oldest;
        self.has_more = true;
        self.recycle_all();
        let ghost prepared = self@;

        let mut all = entries;
        all.append(&mut newer);
        let mut pages: Vec<Option<u64>> = Vec::with_capacity(all.len());
        let mut i: usize = 0;
        while i < all.len()
            invariant
                i <= all@.len(),
                pages@ == Seq::new(i as nat, |k: int| None::<u64>),
            decreases all@.len() - i,
        {
            pages.push(None);
            i = i + 1;
            assert(pages@ =~= Seq::new(i as nat, |k: int| None::<u64>));
        }
        self.entries = all;
        self.pages = pages;
        self.active_page = None;
        self.active_index = index;
        let ghost emptied = self@;
        proof {
            assert(own + prefix =~= emptied.entries);
            lemma_emptied_wf(before, emptied);
        }
        self.reconcile_pages();
        let ghost placed = self@;
        proof {
            lemma_open_page(emptied);
        }
        if let Some(page) = self.pages[self.active_index] {
            self.act(ViewerAction::ScrollTo(page, false));
        }
        proof {
            lemma_same_pages(placed, self@);
        }
        self.display_item(self.active_index);
        self.maybe_fetch_older();
        let ghost shown = self@;
        self.act(ViewerAction::Reveal);
        proof {
            lemma_same_pages(shown, self@);
        }
    }

    /// Recycles all the live pages.
    fn recycle_all(&mut self)
        ensures
            final(self)@ == old(self)@.recycle_all(),
    {
        let ghost before = self@;
        let mut recycled: Vec<u64> = Vec::new();
        let mut i: usize = 0;
        assert(before.pages.take(0) =~= Seq::empty());
        while i < self.pages.len()
            invariant
                self.pages@ == before.pages,
                i <= before.pages.len(),
                recycled@ == live_pages(before.pages.take(i as int)),
            decreases before.pages.len() - i,
        {
            proof {
                lemma_live_step(before.pages, i as int);
            }
            if let Some(page) = self.pages[i] {
                recycled.push(page);
            }
            i = i + 1;
        }
        assert(before.pages.take(before.pages.len() as int) =~= before.pages);
        self.pages = Vec::new();
        self.recycle_pages(&recycled);
        assert(self@ =~= before.recycle_all());
    }

    /// Closes the viewer.
    pub fn close(&mut self)
        requires
            old(self).wf(),
        ensures
            final(self).wf(),
            final(self)@ == old(self)@.close(),
    {
        let ghost before = self@;
        if self.closed {
            return;
        }
        self.closed = true;
        if let Some(page) = self.active_page {
            self.act(ViewerAction::DeactivatePage(page));
        }
        self.act(ViewerAction::Hide);
        proof {
            lemma_same_pages(before, self@);
        }
    }

    /// Navigates to the next or previous item, if there is one.
    ///
    /// Navigating towards the beginning of the loaded media, which holds the
    /// oldest media, fetches more of it, so that the next navigation can
    /// continue.
    pub fn navigate(&mut self, delta: i32)
        requires
            old(self).wf(),
        ensures
            final(self).wf(),
            final(self)@ == old(self)@.navigate(delta as int),
    {
        let ghost before = self@;
        let index: i128 = self.active_index as i128 + delta as i128;
        if index < 0 {
            if delta < 0 {
                self.maybe_fetch_older();
            }
            return;
        }
        if index >= self.pages.len() as i128 {
            return;
        }
        if let Some(page) = self.pages[index as usize] {
            self.act(ViewerAction::ScrollTo(page, true));
            proof {
                lemma_same_pages(before, self@);
            }
        }
    }

    /// Updates the navigation UI and displays the page the carousel settled
    /// on.
    ///
    /// The carousel tells so only once the settle animation is done, so the
    /// items it flies through during a swipe are never loaded.
    pub fn handle_page_changed(&mut self, page: u64)
        requires
            old(self).wf(),
        ensures
            final(self).wf(),
            final(self)@ == old(self)@.page_changed(page),
    {
        let ghost before = self@;
        if self.closed || self.is_reconciling {
            return;
        }
        let index = match self.position_of_page(page) {
            Some(index) => index,
            None => return,
        };
        let is_selected = match self.active_page {
            Some(selected) => selected == page,
            None => false,
        };
        if is_selected {
            self.active_index = index;
            self.update_navigation(index);
            proof {
                lemma_same_pages(before, self@);
            }
            self.maybe_preload(index);
            return;
        }
        self.update_navigation(index);
        self.active_index = index;
        proof {
            lemma_same_pages(before, self@);
        }
        if self.is_attached {
            self.reconcile_pages();
        }
        self.display_item(index);
        self.maybe_preload(index);
    }

    /// Takes the answer to a request for older media.
    ///
    /// The messages are in reverse chronological order and are prepended one
    /// by one, so that the pages end up in chronological order at the
    /// beginning of the carousel. The pages of a media album stay together,
    /// since its messages are consecutive and every batch is a contiguous
    /// range of messages.
    pub fn older_media_fetched(
        &mut self,
        generation: u64,
        answer: Result<(Vec<(HistoryMessage, MessageContent)>, MessageId), TdlibError>,
    )
        requires
            old(self).wf(),
            answer matches Ok((messages, _)) ==> old(self)@.entries.len() + messages@.len()
                <= usize::MAX,
        ensures
            final(self).wf(),
            !old(self)@.awaits(generation) ==> final(self)@ == old(self)@,
            old(self)@.awaits(generation) ==> final(self)@ == match answer {
                Ok((messages, next_from_id)) => (ViewerView {
                    is_fetching: false,
                    ..old(self)@
                }).handle_media_page(messages@, next_from_id),
                Err(_) => old(self)@.fetch_failed(),
            },
    {
        let ghost before = self@;
        if self.closed || self.open_generation != generation {
            return;
        }
        self.is_fetching = false;
        proof {
            lemma_same_pages(before, self@);
        }
        match answer {
            Ok((messages, next_from_id)) => self.handle_media_page(&messages, next_from_id),
            Err(_) => {
                self.has_more = false;
                self.update_navigation(self.active_index);
                proof {
                    lemma_same_pages(before, self@);
                }
            },
        }
    }

    /// Adds a page of media messages to the viewer.
    fn handle_media_page(
        &mut self,
        messages: &Vec<(HistoryMessage, MessageContent)>,
        next_from_id: MessageId,
    )
        requires
            old(self).wf(),
            old(self)@.entries.len() + messages@.len() <= usize::MAX,
        ensures
            final(self).wf(),
            final(self)@ == old(self)@.handle_media_page(messages@, next_from_id),
    {
        let ghost before = self@;
        self.has_more = next_from_id != 0;
        self.next_older_id = next_from_id;
        proof {
            lemma_same_pages(before, self@);
        }
        let fetched = filter_older(messages, self.oldest_message_id);
        if fetched.len() == 0 {
            self.update_navigation(self.active_index);
            proof {
                lemma_same_pages(before, self@);
            }
            return;
        }
        self.oldest_message_id = fetched[fetched.len() - 1].0.id;
        let mut entries = collect_stream(&fetched);
        let n_new = entries.len();
        if n_new == 0 {
            self.update_navigation(self.active_index);
            proof {
                lemma_same_pages(before, self@);
            }
            return;
        }
        let ghost fresh = entries@;
        self.active_index = self.active_index + n_new;
        entries.append(&mut self.entries);
        self.entries = entries;
        let mut pages: Vec<Option<u64>> = Vec::with_capacity(self.entries.len());
        let mut i: usize = 0;
        while i < n_new
            invariant
                i <= n_new,
                pages@ == Seq::new(i as nat, |k: int| None::<u64>),
            decreases n_new - i,
        {
            pages.push(None);
            i = i + 1;
            assert(pages@ =~= Seq::new(i as nat, |k: int| None::<u64>));
        }
        let ghost front = pages@;
        pages.append(&mut self.pages);
        self.pages = pages;
        let ghost grown = self@;
        proof {
            assert(grown.pages =~= front + before.pages);
            assert forall|page: u64| #[trigger] grown.has_one_place(page) by {
                assert(before.has_one_place(page));
                lemma_empty_front(front, before.pages, page);
            }
            lemma_empty_front(front, before.pages, 0);
        }
        self.reconcile_pages();
        let ghost reconciled = self@;
        self.update_navigation(self.active_index);
        proof {
            lemma_same_pages(reconciled, self@);
        }
        self.maybe_preload(self.active_index);
    }

    /// Tells that the page changes that the carousel reports are to be
    /// ignored, or not anymore.
    pub fn set_reconciling(&mut self, is_reconciling: bool)
        requires
            old(self).wf(),
        ensures
            final(self).wf(),
            final(self)@ == (ViewerView { is_reconciling, ..old(self)@ }),
    {
        let ghost before = self@;
        self.is_reconciling = is_reconciling;
        proof {
            lemma_same_pages(before, self@);
        }
    }

    /// Tells that the session or the chat of the viewer doesn't exist anymore.
    pub fn detach(&mut self)
        requires
            old(self).wf(),
        ensures
            final(self).wf(),
            final(self)@ == (ViewerView { is_attached: false, ..old(self)@ }),
    {
        let ghost before = self@;
        self.is_attached = false;
        proof {
            lemma_same_pages(before, self@);
        }
    }

    /// What the widgets have to do, in order. It is handed out once.
    pub fn take_actions(&mut self) -> (actions: Vec<ViewerAction>)
        requires
            old(self).wf(),
        ensures
            final(self).wf(),
            actions@ == old(self)@.actions,
            final(self)@ == (ViewerView { actions: Seq::empty(), ..old(self)@ }),
    {
        let ghost before = self@;
        let mut actions: Vec<ViewerAction> = Vec::new();
        std::mem::swap(&mut actions, &mut self.actions);
        assert(self@ =~= ViewerView { actions: Seq::empty(), ..before });
        proof {
            lemma_same_pages(before, self@);
        }
        actions
    }

    /// Whether the viewer was closed.
    pub fn is_closed(&self) -> (result: bool)
        ensures
            result == self@.closed,
    {
        self.closed
    }

    /// The index of the currently displayed item.
    pub fn active_index(&self) -> (index: usize)
        ensures
            index == self@.active_index,
    {
        self.active_index
    }

    /// The entry at the given index, if there is one.
    pub fn entry(&self, index: usize) -> (entry: Option<ViewerEntry>)
        ensures
            entry == if index < self@.entries.len() {
                Some(self@.entries[index as int])
            } else {
                None
            },
    {
        if index < self.entries.len() {
            Some(self.entries[index])
        } else {
            None
        }
    }
}

/// The greatest of the message ids.
fn newest_id(entries: &Vec<ViewerEntry>) -> (id: MessageId)
    requires
        entries@.len() > 0,
    ensures
        id == newest_of(entries@),
{
    let mut id: MessageId = entries[0].message_id;
    let mut i: usize = 1;
    assert(entries@.take(1)[0] == entries@[0]);
    while i < entries.len()
        invariant
            1 <= i <= entries@.len(),
            id == newest_of(entries@.take(i as int)),
        decreases entries@.len() - i,
    {
        assert(entries@.take(i + 1).drop_last() =~= entries@.take(i as int));
        assert(entries@.take(i + 1).last() == entries@[i as int]);
        if entries[i].message_id > id {
            id = entries[i].message_id;
        }
        i = i + 1;
    }
    assert(entries@.take(entries@.len() as int) =~= entries@);
    id
}

/// The smallest of the message ids.
fn oldest_id(entries: &Vec<ViewerEntry>) -> (id: MessageId)
    requires
        entries@.len() > 0,
    ensures
        id == oldest_of(entries@),
{
    let mut id: MessageId = entries[0].message_id;
    let mut i: usize = 1;
    assert(entries@.take(1)[0] == entries@[0]);
    while i < entries.len()
        invariant
            1 <= i <= entries@.len(),
            id == oldest_of(entries@.take(i as int)),
        decreases entries@.len() - i,
    {
        assert(entries@.take(i + 1).drop_last() =~= entries@.take(i as int));
        assert(entries@.take(i + 1).last() == entries@[i as int]);
        if entries[i].message_id < id {
            id = entries[i].message_id;
        }
        i = i + 1;
    }
    assert(entries@.take(entries@.len() as int) =~= entries@);
    id
}

/// The messages that are older than the given id.
fn filter_older(messages: &Vec<(HistoryMessage, MessageContent)>, id: MessageId) -> (older: Vec<
    (HistoryMessage, MessageContent),
>)
    ensures
        older@ == older_media(messages@, id),
        older@.len() <= messages@.len(),
{
    let mut older: Vec<(HistoryMessage, MessageContent)> = Vec::new();
    let mut i: usize = 0;
    proof {
        reveal(Seq::filter);
        assert(messages@.take(0) =~= Seq::empty());
    }
    while i < messages.len()
        invariant
            i <= messages@.len(),
            older@ == older_media(messages@.take(i as int), id),
            older@.len() <= i,
        decreases messages@.len() - i,
    {
        reveal(Seq::filter);
        let message = messages[i];
        assert(messages@.take(i + 1).drop_last() =~= messages@.take(i as int));
        if message.0.id < id {
            older.push(message);
        }
        i = i + 1;
    }
    assert(messages@.take(messages@.len() as int) =~= messages@);
    older
}

/// The entries of the media messages, which are ordered from the newest to
/// the oldest one, from the oldest to the newest one.
fn collect_stream(messages: &Vec<(HistoryMessage, MessageContent)>) -> (entries: Vec<ViewerEntry>)
    ensures
        entries@ == stream_entries(messages@),
        entries@.len() <= messages@.len(),
{
    let ghost all = messages@;
    let mut entries: Vec<ViewerEntry> = Vec::new();
    let mut i: usize = messages.len();
    assert(all.take(i as int) =~= all);
    assert(entries@ + stream_entries(all) =~= stream_entries(all));
    while i > 0
        invariant
            all == messages@,
            i <= all.len(),
            stream_entries(all) == entries@ + stream_entries(all.take(i as int)),
            entries@.len() <= all.len() - i,
        decreases i,
    {
        i = i - 1;
        let (message, content) = messages[i];
        assert(all.take(i + 1).drop_last() =~= all.take(i as int));
        assert(all.take(i + 1).last() == all[i as int]);
        if let Some(item) = stream_item(&content) {
            let entry = ViewerEntry { item, message_id: message.id, serial: message.serial };
            let ghost before = entries@;
            entries.push(entry);
            assert(entries@ + stream_entries(all.take(i as int)) =~= before + (seq![entry]
                + stream_entries(all.take(i as int))));
        }
    }
    assert(all.take(0) =~= Seq::empty());
    assert(entries@ =~= stream_entries(all));
    entries
}

/// A page that is found among the first slots is found.
proof fn lemma_found_early(pages: Seq<Option<u64>>, page: u64, upto: int)
    requires
        0 <= upto <= pages.len(),
        index_of_page(pages.take(upto), page) is Some,
    ensures
        index_of_page(pages, page) == index_of_page(pages.take(upto), page),
    decreases pages.len() - upto,
{
    if upto < pages.len() {
        assert(pages.take(upto + 1).drop_last() =~= pages.take(upto));
        lemma_found_early(pages, page, upto + 1);
    } else {
        assert(pages.take(upto) =~= pages);
    }
}

} // verus!
