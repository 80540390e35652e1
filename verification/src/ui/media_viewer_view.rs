//! What the operations of the media viewer do, as functions on its state.

use vstd::prelude::*;

use crate::model::chat_history_item::{ChatHistoryItem, HistoryMessage};
use crate::model::history_view::HistoryView;
use crate::model::message::{ContentKind, MessageContent, MessageView};
use crate::types::MessageId;

verus! {

/// The number of media messages requested per search when older media is
/// loaded.
pub const MEDIA_PAGE_SIZE: i32 = 50;

/// How many pages from the beginning of the loaded media the next batch of
/// older media is fetched at the latest.
///
/// The beginning of the carousel holds the oldest media, which the user
/// reaches when navigating back in history.
pub const PRELOAD_AHEAD: usize = 3;

/// How many pages are kept alive on each side of the displayed one.
///
/// Pages further away are recycled, so that the viewer doesn't keep a widget
/// and a decoded image for every item of the media it browses. The window is
/// symmetric, so that the neighbors of the displayed item are always ready
/// while it is swiped.
pub const PAGE_WINDOW: usize = 2;

/// An item shown by the media viewer.
#[derive(Clone, Copy, Debug, PartialEq, Eq, Structural)]
pub enum ViewerItem {
    /// A photo, in the size at the given position.
    Photo { size: usize },
    /// A video or an animation (GIF), which loops and stays muted.
    Video { is_animation: bool },
}

/// An entry of the media viewer: an item together with the message it belongs
/// to.
///
/// The message ids are used to keep the pages of a media album together and
/// to avoid showing the same media twice.
#[derive(Clone, Copy, Debug, PartialEq, Eq, Structural)]
pub struct ViewerEntry {
    pub item: ViewerItem,
    pub message_id: MessageId,
    /// The number of the message among those that its chat holds.
    pub serial: u64,
}

/// Something that the widgets of the viewer have to do. Pages are named by
/// the order of their creation.
#[derive(Clone, Copy, Debug, PartialEq, Eq, Structural)]
pub enum ViewerAction {
    /// Stop what is being played.
    StopPlayback,
    CreatePage(u64),
    /// Show the item of the entry on the page.
    SetItem(u64, ViewerEntry),
    ActivatePage(u64),
    DeactivatePage(u64),
    /// Insert the page into the carousel at the given position.
    InsertPage(u64, usize),
    /// Remove the page from the carousel.
    RemovePage(u64),
    /// Scroll the carousel to the page, animated or not.
    ScrollTo(u64, bool),
    /// From now on, ignore the page changes that the carousel reports, or do
    /// so no more.
    IgnorePageChanges(bool),
    /// Show or hide the buttons that lead to older and to newer media.
    ShowButtons { previous: bool, next: bool },
    /// Search media from the message with the given id on, and hand the result
    /// back together with the generation.
    FetchOlder { from_id: MessageId, generation: u64 },
    Reveal,
    Hide,
}

/// The state of the media viewer.
#[verifier::ext_equal]
pub struct ViewerView {
    /// The entries shown by the viewer, from the oldest to the newest message.
    pub entries: Seq<ViewerEntry>,
    /// The live page of each entry, if any.
    pub pages: Seq<Option<u64>>,
    /// The pages that can be reused for other entries.
    pub pool: Seq<u64>,
    /// The number of the next page that is created.
    pub next_page: u64,
    pub is_reconciling: bool,
    pub oldest_message_id: MessageId,
    pub next_older_id: MessageId,
    pub has_more: bool,
    pub is_fetching: bool,
    pub active_index: usize,
    pub active_page: Option<u64>,
    pub closed: bool,
    pub open_generation: u64,
    /// Whether the session and the chat of the viewer still exist.
    pub is_attached: bool,
    /// What the widgets were not told to do yet.
    pub actions: Seq<ViewerAction>,
}

// Entries

/// The item that shows the content, if it is viewable.
pub open spec fn item_of(content: MessageContent) -> Option<ViewerItem> {
    match content.kind {
        ContentKind::Photo => if content.photo_sizes > 0 {
            Some(ViewerItem::Photo { size: (content.photo_sizes - 1) as usize })
        } else {
            None
        },
        ContentKind::Video => Some(ViewerItem::Video { is_animation: false }),
        ContentKind::Animation => Some(ViewerItem::Video { is_animation: true }),
        ContentKind::Other => None,
    }
}

/// The item that shows the content in the media stream, which animations are
/// not part of.
pub open spec fn stream_item_of(content: MessageContent) -> Option<ViewerItem> {
    if content.kind == ContentKind::Animation {
        None
    } else {
        item_of(content)
    }
}

/// The entry of the message in the media stream, if it is newer than the
/// given one.
pub open spec fn newer_entry(
    messages: Map<u64, MessageView>,
    message: HistoryMessage,
    anchor: MessageId,
) -> Option<ViewerEntry> {
    if message.id <= anchor || !messages.contains_key(message.serial) {
        None
    } else {
        match stream_item_of(messages[message.serial].content) {
            Some(item) => Some(
                ViewerEntry { item, message_id: message.id, serial: message.serial },
            ),
            None => None,
        }
    }
}

/// The entries of the messages in the media stream that are newer than the
/// given one.
pub open spec fn newer_among(
    messages: Map<u64, MessageView>,
    members: Seq<HistoryMessage>,
    anchor: MessageId,
) -> Seq<ViewerEntry>
    decreases members.len(),
{
    if members.len() == 0 {
        Seq::empty()
    } else {
        let rest = newer_among(messages, members.drop_last(), anchor);
        match newer_entry(messages, members.last(), anchor) {
            Some(entry) => rest.push(entry),
            None => rest,
        }
    }
}

/// The messages that the row shows: the members of an album if it shows one,
/// and the message itself otherwise.
pub open spec fn shown_by(history: HistoryView, item: ChatHistoryItem) -> Seq<HistoryMessage> {
    match item {
        ChatHistoryItem::DayDivider(_) => Seq::empty(),
        ChatHistoryItem::Message(message) => if message.media_album_id == 0 {
            seq![message]
        } else {
            match history.represented(message) {
                Some(album) => album,
                None => seq![message],
            }
        },
    }
}

/// Whether there is an entry of the message.
pub open spec fn has_entry(entries: Seq<ViewerEntry>, id: MessageId) -> bool {
    exists|i: int| 0 <= i < entries.len() && (#[trigger] entries[i]).message_id == id
}

/// Whether the entries are in chronological order, each message having one.
pub open spec fn is_chronological(entries: Seq<ViewerEntry>) -> bool {
    forall|i: int, j: int|
        #![trigger entries[i], entries[j]]
        0 <= i < j < entries.len() ==> entries[i].message_id < entries[j].message_id
}

/// The position behind the entries that are not newer than the given id.
pub open spec fn entry_position(entries: Seq<ViewerEntry>, id: MessageId) -> nat
    decreases entries.len(),
{
    if entries.len() == 0 || entries.last().message_id <= id {
        entries.len()
    } else {
        entry_position(entries.drop_last(), id)
    }
}

/// The entries with another one where it belongs, unless its message has one
/// already.
pub open spec fn with_entry(entries: Seq<ViewerEntry>, entry: ViewerEntry) -> Seq<ViewerEntry> {
    if has_entry(entries, entry.message_id) {
        entries
    } else {
        entries.insert(entry_position(entries, entry.message_id) as int, entry)
    }
}

/// The entries with other ones where they belong.
pub open spec fn with_entries(entries: Seq<ViewerEntry>, added: Seq<ViewerEntry>) -> Seq<
    ViewerEntry,
>
    decreases added.len(),
{
    if added.len() == 0 {
        entries
    } else {
        with_entry(with_entries(entries, added.drop_last()), added.last())
    }
}

/// The entries in chronological order.
pub open spec fn chronological(entries: Seq<ViewerEntry>) -> Seq<ViewerEntry> {
    with_entries(Seq::empty(), entries)
}

/// Whether the message is shown by a row of the list, newer than the given one
/// and part of the media stream.
pub open spec fn is_newer_media(
    messages: Map<u64, MessageView>,
    history: HistoryView,
    list: Seq<ChatHistoryItem>,
    anchor: MessageId,
    message: HistoryMessage,
) -> bool {
    &&& newer_entry(messages, message, anchor) is Some
    &&& exists|i: int|
        0 <= i < list.len() && shown_by(history, #[trigger] list[i]).contains(message)
}

/// The entries of the media messages of the loaded history that are newer
/// than the given one, from the oldest to the newest row.
pub open spec fn newer_entries(
    messages: Map<u64, MessageView>,
    history: HistoryView,
    list: Seq<ChatHistoryItem>,
    anchor: MessageId,
) -> Seq<ViewerEntry>
    decreases list.len(),
{
    if list.len() == 0 {
        Seq::empty()
    } else {
        newer_entries(messages, history, list.skip(1), anchor) + newer_among(
            messages,
            shown_by(history, list[0]),
            anchor,
        )
    }
}

/// The entries of the media messages, which are ordered from the newest to
/// the oldest one, in the order they are shown in.
pub open spec fn stream_entries(messages: Seq<(HistoryMessage, MessageContent)>) -> Seq<ViewerEntry>
    decreases messages.len(),
{
    if messages.len() == 0 {
        Seq::empty()
    } else {
        let (message, content) = messages.last();
        let newer = stream_entries(messages.drop_last());
        match stream_item_of(content) {
            Some(item) => seq![
                ViewerEntry { item, message_id: message.id, serial: message.serial },
            ] + newer,
            None => newer,
        }
    }
}

/// The messages that are older than the given id.
pub open spec fn older_media(
    messages: Seq<(HistoryMessage, MessageContent)>,
    id: MessageId,
) -> Seq<(HistoryMessage, MessageContent)> {
    messages.filter(|message: (HistoryMessage, MessageContent)| message.0.id < id)
}

/// The greatest of the message ids.
pub open spec fn newest_of(entries: Seq<ViewerEntry>) -> MessageId
    decreases entries.len(),
{
    if entries.len() <= 1 {
        entries[0].message_id
    } else {
        let rest = newest_of(entries.drop_last());
        if entries.last().message_id > rest {
            entries.last().message_id
        } else {
            rest
        }
    }
}

/// The smallest of the message ids.
pub open spec fn oldest_of(entries: Seq<ViewerEntry>) -> MessageId
    decreases entries.len(),
{
    if entries.len() <= 1 {
        entries[0].message_id
    } else {
        let rest = oldest_of(entries.drop_last());
        if entries.last().message_id < rest {
            entries.last().message_id
        } else {
            rest
        }
    }
}

// Pages

/// The live pages, in the order of their entries. This is what the carousel
/// holds.
pub open spec fn live_pages(pages: Seq<Option<u64>>) -> Seq<u64>
    decreases pages.len(),
{
    if pages.len() == 0 {
        Seq::empty()
    } else {
        match pages.last() {
            Some(page) => live_pages(pages.drop_last()).push(page),
            None => live_pages(pages.drop_last()),
        }
    }
}

/// The pages that are outside of the window.
pub open spec fn outside(pages: Seq<Option<u64>>, start: int, end: int) -> Seq<Option<u64>> {
    Seq::new(
        pages.len(),
        |i: int|
            if i < start || i > end {
                pages[i]
            } else {
                None
            },
    )
}

/// The pages that are inside of the window.
pub open spec fn inside(pages: Seq<Option<u64>>, start: int, end: int) -> Seq<Option<u64>> {
    Seq::new(
        pages.len(),
        |i: int|
            if i < start || i > end {
                None
            } else {
                pages[i]
            },
    )
}

/// The position of the page among the live ones, if it is one of them.
pub open spec fn index_of_page(pages: Seq<Option<u64>>, page: u64) -> Option<int>
    decreases pages.len(),
{
    if pages.len() == 0 {
        None
    } else {
        match index_of_page(pages.drop_last(), page) {
            Some(index) => Some(index),
            None => if pages.last() == Some(page) {
                Some(pages.len() - 1)
            } else {
                None
            },
        }
    }
}

/// How many entries the page is shown for.
pub open spec fn uses(pages: Seq<Option<u64>>, page: u64) -> nat
    decreases pages.len(),
{
    if pages.len() == 0 {
        0
    } else if pages.last() == Some(page) {
        uses(pages.drop_last(), page) + 1
    } else {
        uses(pages.drop_last(), page)
    }
}

/// How often the page occurs.
pub open spec fn occurrences(pages: Seq<u64>, page: u64) -> nat
    decreases pages.len(),
{
    if pages.len() == 0 {
        0
    } else if pages.last() == page {
        occurrences(pages.drop_last(), page) + 1
    } else {
        occurrences(pages.drop_last(), page)
    }
}

/// What has to be done to recycle the pages.
pub open spec fn recycle_actions(pages: Seq<u64>) -> Seq<ViewerAction>
    decreases pages.len(),
{
    if pages.len() == 0 {
        Seq::empty()
    } else {
        recycle_actions(pages.drop_last()).push(ViewerAction::DeactivatePage(pages.last())).push(
            ViewerAction::RemovePage(pages.last()),
        )
    }
}

impl ViewerView {
    /// The pages are aligned with the entries, every page that was created is
    /// either shown for one entry or in the pool, and there are not more of
    /// them than fit in the window.
    pub open spec fn wf(self) -> bool {
        &&& self.pages.len() == self.entries.len()
        &&& self.next_page <= 2 * PAGE_WINDOW + 1
        &&& live_pages(self.pages).len() + self.pool.len() == self.next_page
        &&& forall|page: u64| #[trigger] self.has_one_place(page)
        &&& self.active_index <= self.entries.len()
    }

    /// The page is in one place if it was created, and in none otherwise.
    pub open spec fn has_one_place(self, page: u64) -> bool {
        uses(self.pages, page) + occurrences(self.pool, page) == if page < self.next_page {
            1nat
        } else {
            0
        }
    }

    pub open spec fn act(self, action: ViewerAction) -> ViewerView {
        ViewerView { actions: self.actions.push(action), ..self }
    }

    pub open spec fn act_all(self, actions: Seq<ViewerAction>) -> ViewerView {
        ViewerView { actions: self.actions + actions, ..self }
    }

    /// The state after the live pages outside of the window were recycled.
    pub open spec fn recycle(self, start: int, end: int) -> ViewerView {
        let recycled = live_pages(outside(self.pages, start, end));
        ViewerView {
            pages: inside(self.pages, start, end),
            pool: self.pool + recycled,
            ..self
        }.act_all(recycle_actions(recycled))
    }

    /// The state after the entry at the given index got a page, unless it has
    /// one.
    pub open spec fn ensure_page(self, index: int) -> ViewerView {
        if self.pages[index] is Some {
            self
        } else {
            let position = live_pages(self.pages.take(index)).len() as usize;
            let made = if self.pool.len() > 0 {
                ViewerView { pool: self.pool.drop_last(), ..self }
            } else {
                ViewerView { next_page: (self.next_page + 1) as u64, ..self }.act(
                    ViewerAction::CreatePage(self.next_page),
                )
            };
            let page = if self.pool.len() > 0 {
                self.pool.last()
            } else {
                self.next_page
            };
            ViewerView { pages: self.pages.update(index, Some(page)), ..made }.act(
                ViewerAction::SetItem(page, self.entries[index]),
            ).act(ViewerAction::InsertPage(page, position))
        }
    }

    /// The state after all the entries from `start` up to `end` got pages.
    pub open spec fn ensure_pages(self, start: int, end: int) -> ViewerView
        decreases end - start,
    {
        if start >= end {
            self
        } else {
            self.ensure_pages(start, end - 1).ensure_page(end - 1)
        }
    }

    /// The state after the buttons were shown or hidden for the given index.
    pub open spec fn update_navigation(self, index: int) -> ViewerView {
        self.act(
            ViewerAction::ShowButtons {
                previous: index > 0 || self.has_more,
                next: index + 1 < self.entries.len(),
            },
        )
    }

    /// The index of the entry that the window lies around.
    pub open spec fn centre(self) -> int {
        if self.active_index < self.entries.len() {
            self.active_index as int
        } else {
            self.entries.len() - 1
        }
    }

    /// The first index of the window.
    pub open spec fn window_start(self) -> int {
        if self.centre() > PAGE_WINDOW {
            self.centre() - PAGE_WINDOW
        } else {
            0
        }
    }

    /// The last index of the window.
    pub open spec fn window_end(self) -> int {
        if self.centre() + PAGE_WINDOW < self.entries.len() {
            self.centre() + PAGE_WINDOW
        } else {
            self.entries.len() - 1
        }
    }

    /// The state after a page exists for every entry within the window around
    /// the displayed one, and the pages outside of it were recycled.
    pub open spec fn reconcile_pages(self) -> ViewerView {
        if self.closed || self.entries.len() == 0 {
            self
        } else {
            let centred = ViewerView { active_index: self.centre() as usize, ..self }.act(
                ViewerAction::IgnorePageChanges(true),
            );
            let filled = centred.recycle(self.window_start(), self.window_end()).ensure_pages(
                self.window_start(),
                self.window_end() + 1,
            );
            let index = match filled.active_page {
                Some(page) => match index_of_page(filled.pages, page) {
                    Some(index) => index,
                    None => filled.active_index as int,
                },
                None => filled.active_index as int,
            };
            ViewerView { active_index: index as usize, ..filled }.act(
                ViewerAction::IgnorePageChanges(false),
            ).update_navigation(index)
        }
    }

    /// The state after the entry at the given index was displayed.
    pub open spec fn display_item(self, index: int) -> ViewerView {
        if self.closed || index >= self.pages.len() || self.pages[index] is None {
            self
        } else {
            let page = self.pages[index]->0;
            let moved = ViewerView { active_index: index as usize, ..self };
            let left = match self.active_page {
                Some(previous) => if previous != page {
                    moved.act(ViewerAction::DeactivatePage(previous))
                } else {
                    moved
                },
                None => moved,
            };
            ViewerView { active_page: Some(page), ..left }.act(ViewerAction::ActivatePage(page))
        }
    }

    /// The state after the next batch of older media was asked for, if there
    /// may be one and none is being fetched already.
    pub open spec fn maybe_fetch_older(self) -> ViewerView {
        if self.closed || !self.has_more || self.is_fetching || !self.is_attached {
            self
        } else {
            ViewerView { is_fetching: true, ..self }.act(
                ViewerAction::FetchOlder {
                    from_id: self.next_older_id,
                    generation: self.open_generation,
                },
            )
        }
    }

    /// The state after older media was asked for if the given index is close
    /// to the beginning of the loaded media.
    pub open spec fn maybe_preload(self, index: int) -> ViewerView {
        if self.has_more && index <= PRELOAD_AHEAD {
            self.maybe_fetch_older()
        } else {
            self
        }
    }

    /// The state after all the live pages were recycled.
    pub open spec fn recycle_all(self) -> ViewerView {
        let recycled = live_pages(self.pages);
        ViewerView { pages: Seq::empty(), pool: self.pool + recycled, ..self }.act_all(
            recycle_actions(recycled),
        )
    }

    /// The state after the viewer was opened on the given entries, followed by
    /// the newer ones.
    pub open spec fn open(
        self,
        entries: Seq<ViewerEntry>,
        newer: Seq<ViewerEntry>,
        index: int,
    ) -> ViewerView {
        if entries.len() == 0 {
            self
        } else {
            let index = if index < entries.len() {
                index
            } else {
                entries.len() - 1
            };
            let prepared = ViewerView {
                open_generation: (self.open_generation + 1) as u64,
                closed: false,
                is_fetching: false,
                is_attached: true,
                oldest_message_id: oldest_of(entries),
                next_older_id: oldest_of(entries),
                has_more: true,
                ..self
            }.act(ViewerAction::StopPlayback).recycle_all();
            let all = entries + newer;
            let placed = ViewerView {
                entries: all,
                pages: Seq::new(all.len(), |i: int| None),
                active_page: None,
                active_index: index as usize,
                ..prepared
            }.reconcile_pages();
            placed.act(
                ViewerAction::ScrollTo(placed.pages[placed.active_index as int]->0, false),
            ).display_item(placed.active_index as int).maybe_fetch_older().act(
                ViewerAction::Reveal,
            )
        }
    }

    /// The state after the viewer was closed.
    pub open spec fn close(self) -> ViewerView {
        if self.closed {
            self
        } else {
            let closed = ViewerView { closed: true, ..self };
            match self.active_page {
                Some(page) => closed.act(ViewerAction::DeactivatePage(page)),
                None => closed,
            }.act(ViewerAction::Hide)
        }
    }

    /// The state after the user asked for the next or the previous item.
    pub open spec fn navigate(self, delta: int) -> ViewerView {
        let index = self.active_index + delta;
        if index < 0 {
            if delta < 0 {
                self.maybe_fetch_older()
            } else {
                self
            }
        } else if index >= self.pages.len() {
            self
        } else {
            match self.pages[index] {
                Some(page) => self.act(ViewerAction::ScrollTo(page, true)),
                None => self,
            }
        }
    }

    /// The state after the carousel settled on the page.
    pub open spec fn page_changed(self, page: u64) -> ViewerView {
        if self.closed || self.is_reconciling {
            self
        } else {
            match index_of_page(self.pages, page) {
                None => self,
                Some(index) => if self.active_page == Some(page) {
                    ViewerView { active_index: index as usize, ..self }.update_navigation(
                        index,
                    ).maybe_preload(index)
                } else {
                    let moved = ViewerView {
                        active_index: index as usize,
                        ..self.update_navigation(index)
                    };
                    let reconciled = if self.is_attached {
                        moved.reconcile_pages()
                    } else {
                        moved
                    };
                    reconciled.display_item(index).maybe_preload(index)
                },
            }
        }
    }

    /// The state after a page of media messages was found.
    pub open spec fn handle_media_page(
        self,
        messages: Seq<(HistoryMessage, MessageContent)>,
        next_from_id: MessageId,
    ) -> ViewerView {
        let noted = ViewerView {
            has_more: next_from_id != 0,
            next_older_id: next_from_id,
            ..self
        };
        let fetched = older_media(messages, self.oldest_message_id);
        let entries = stream_entries(fetched);
        if fetched.len() == 0 {
            noted.update_navigation(self.active_index as int)
        } else {
            let known = ViewerView { oldest_message_id: fetched.last().0.id, ..noted };
            if entries.len() == 0 {
                known.update_navigation(self.active_index as int)
            } else {
                let reconciled = ViewerView {
                    active_index: (self.active_index + entries.len()) as usize,
                    entries: entries + self.entries,
                    pages: Seq::new(entries.len(), |i: int| None) + self.pages,
                    ..known
                }.reconcile_pages();
                reconciled.update_navigation(reconciled.active_index as int).maybe_preload(
                    reconciled.active_index as int,
                )
            }
        }
    }

    /// Whether the answer to a request of the given generation is still of
    /// interest.
    pub open spec fn awaits(self, generation: u64) -> bool {
        !self.closed && self.open_generation == generation
    }

    /// The state after the search for older media failed.
    pub open spec fn fetch_failed(self) -> ViewerView {
        ViewerView { is_fetching: false, has_more: false, ..self }.update_navigation(
            self.active_index as int,
        )
    }
}

} // verus!
