use paper_plane::model::chat::{Chat, ChatData};
use paper_plane::model::chat_history_item::HistoryMessage;
use paper_plane::model::chat_history_model::ChatHistoryModel;
use paper_plane::model::chat_view::ChatType;
use paper_plane::model::message::{ContentKind, MessageContent, MessageData, MessageSender};
use paper_plane::types::{CalendarDay, TdlibError, Timestamp};
use paper_plane::ui::media_viewer::{collect_newer_entries, stream_item, MediaViewer};
use paper_plane::ui::media_viewer_view::{ViewerAction, ViewerEntry, ViewerItem};

fn content(kind: ContentKind) -> MessageContent {
    MessageContent { kind, photo_sizes: 2, snapshot: 1 }
}

fn day() -> CalendarDay {
    CalendarDay { year: 2024, month: 1, day: 1 }
}

fn data(id: i64, kind: ContentKind, media_album_id: i64) -> MessageData {
    MessageData {
        id,
        sender: MessageSender::User(1),
        is_outgoing: false,
        sending_state: None,
        date: Timestamp { unix: id as i32, day: day() },
        edit_date: 0,
        interaction_info: None,
        forward_origin: None,
        reply_to: None,
        media_album_id,
        content: content(kind),
    }
}

fn chat() -> Chat {
    Chat::new(ChatData {
        id: 50,
        chat_type: ChatType::BasicGroup { basic_group_id: 8 },
        block_list: None,
        title: String::from("Group"),
        photo: None,
        last_read_inbox_message_id: 0,
        last_read_outbox_message_id: 0,
        is_marked_as_unread: false,
        last_message: None,
        unread_mention_count: 0,
        unread_count: 0,
        draft_message: None,
        notification_settings: 1,
        permissions: 1,
    })
}

/// A chat and its history, which holds the given messages.
fn loaded(messages: Vec<MessageData>) -> (Chat, ChatHistoryModel) {
    let mut chat = chat();
    let mut history = ChatHistoryModel::new(0, 0);
    let serials = chat.history_loaded(messages.into_iter().map(Some).collect());
    let rows = serials.iter().map(|serial| chat.history_message(*serial).unwrap()).collect();
    let request = history.load_older_messages(30).unwrap();
    history.older_messages_loaded(request, Ok(rows)).unwrap();
    (chat, history)
}

fn photo(id: i64) -> ViewerEntry {
    ViewerEntry { item: ViewerItem::Photo { size: 1 }, message_id: id, serial: id as u64 }
}

fn fetched(id: i64, kind: ContentKind) -> (HistoryMessage, MessageContent) {
    (
        HistoryMessage {
            id,
            serial: id as u64,
            timestamp: Timestamp { unix: id as i32, day: day() },
            media_album_id: 0,
            is_groupable: true,
        },
        content(kind),
    )
}

fn entry_ids(viewer: &MediaViewer) -> Vec<i64> {
    (0..).map_while(|index| viewer.entry(index)).map(|entry| entry.message_id).collect()
}

/// What the actions make of the pages of a carousel, with the entries that
/// they show.
#[derive(Default)]
struct Carousel {
    pages: Vec<u64>,
    shown: Vec<(u64, i64)>,
    active: Option<u64>,
    requests: Vec<(i64, u64)>,
}

impl Carousel {
    fn follow(&mut self, actions: Vec<ViewerAction>) {
        for action in actions {
            match action {
                ViewerAction::InsertPage(page, position) => self.pages.insert(position, page),
                ViewerAction::RemovePage(page) => self.pages.retain(|other| *other != page),
                ViewerAction::SetItem(page, entry) => {
                    self.shown.retain(|(other, _)| *other != page);
                    self.shown.push((page, entry.message_id));
                }
                ViewerAction::ActivatePage(page) => self.active = Some(page),
                ViewerAction::FetchOlder { from_id, generation } => {
                    self.requests.push((from_id, generation));
                }
                _ => {}
            }
        }
    }

    fn id_on(&self, page: u64) -> i64 {
        self.shown.iter().find(|(other, _)| *other == page).unwrap().1
    }

    fn ids(&self) -> Vec<i64> {
        self.pages.iter().map(|page| self.id_on(*page)).collect()
    }

    fn page_of(&self, id: i64) -> u64 {
        *self.pages.iter().find(|page| self.id_on(**page) == id).unwrap()
    }
}

#[test]
fn contents_are_shown_if_they_are_media() {
    let item = |kind| ViewerItem::from_content(&content(kind));
    assert_eq!(item(ContentKind::Photo), Some(ViewerItem::Photo { size: 1 }));
    assert_eq!(item(ContentKind::Video), Some(ViewerItem::Video { is_animation: false }));
    assert_eq!(item(ContentKind::Animation), Some(ViewerItem::Video { is_animation: true }));
    assert_eq!(item(ContentKind::Other), None);
    let empty = MessageContent { photo_sizes: 0, ..content(ContentKind::Photo) };
    assert_eq!(ViewerItem::from_content(&empty), None);
    // Animations are not part of the stream of media.
    assert_eq!(stream_item(&content(ContentKind::Animation)), None);
    assert_eq!(stream_item(&content(ContentKind::Photo)), Some(ViewerItem::Photo { size: 1 }));
}

#[test]
fn newer_media_is_collected_from_the_history() {
    let (chat, history) = loaded(vec![
        data(9, ContentKind::Video, 0),
        data(8, ContentKind::Animation, 0),
        data(7, ContentKind::Photo, 4),
        data(6, ContentKind::Photo, 4),
        data(5, ContentKind::Other, 0),
        data(4, ContentKind::Photo, 0),
        data(3, ContentKind::Photo, 0),
    ]);
    let entries = collect_newer_entries(&chat, &history, 3);
    let ids: Vec<i64> = entries.iter().map(|entry| entry.message_id).collect();
    assert_eq!(ids, [4, 6, 7, 9]);
    assert_eq!(entries[3].item, ViewerItem::Video { is_animation: false });
    assert!(collect_newer_entries(&chat, &history, 9).is_empty());
}

#[test]
fn newer_media_is_collected_in_chronological_order() {
    let (chat, history) = loaded(vec![
        data(8, ContentKind::Photo, 5),
        data(6, ContentKind::Photo, 0),
        data(4, ContentKind::Video, 5),
    ]);
    assert_eq!(history.n_items(), 3);
    let entries = collect_newer_entries(&chat, &history, 0);
    let ids: Vec<i64> = entries.iter().map(|entry| entry.message_id).collect();
    assert_eq!(ids, [4, 6, 8]);
    assert_eq!(entries[0].item, ViewerItem::Video { is_animation: false });
}

#[test]
fn last_message_of_an_album_is_collected() {
    let (chat, mut history) = loaded(vec![
        data(9, ContentKind::Photo, 5),
        data(8, ContentKind::Photo, 5),
        data(7, ContentKind::Photo, 0),
    ]);
    let deleted = chat.history_message(chat.message(8).unwrap()).unwrap();
    history.handle_deleted_message(&deleted);
    let entries = collect_newer_entries(&chat, &history, 0);
    let ids: Vec<i64> = entries.iter().map(|entry| entry.message_id).collect();
    assert_eq!(ids, [7, 9]);
}

#[test]
fn viewer_opens_on_the_given_entry() {
    let (chat, history) = loaded(vec![
        data(9, ContentKind::Photo, 0),
        data(8, ContentKind::Photo, 0),
        data(4, ContentKind::Photo, 0),
    ]);
    let mut viewer = MediaViewer::new();
    viewer.open(&chat, Some(&history), vec![photo(4)], 0);
    assert!(!viewer.is_closed());
    assert_eq!(entry_ids(&viewer), [4, 8, 9]);
    assert_eq!(viewer.active_index(), 0);
    let mut carousel = Carousel::default();
    carousel.follow(viewer.take_actions());
    assert_eq!(carousel.ids(), [4, 8, 9]);
    assert_eq!(carousel.active, Some(carousel.page_of(4)));
    // There may be older media, too.
    assert_eq!(carousel.requests.len(), 1);
    assert_eq!(carousel.requests[0].0, 4);
}

#[test]
fn viewer_keeps_a_window_of_pages() {
    let chat = chat();
    let mut viewer = MediaViewer::new();
    let mut carousel = Carousel::default();
    viewer.open(&chat, None, (1..=9).map(photo).collect(), 4);
    carousel.follow(viewer.take_actions());
    assert_eq!(carousel.ids(), [3, 4, 5, 6, 7]);
    assert_eq!(carousel.active, Some(carousel.page_of(5)));

    viewer.handle_page_changed(carousel.page_of(7));
    carousel.follow(viewer.take_actions());
    assert_eq!(viewer.active_index(), 6);
    assert_eq!(carousel.ids(), [5, 6, 7, 8, 9]);
    assert_eq!(carousel.active, Some(carousel.page_of(7)));

    viewer.handle_page_changed(carousel.page_of(9));
    carousel.follow(viewer.take_actions());
    assert_eq!(carousel.ids(), [7, 8, 9]);
    // Pages are used again.
    assert!(carousel.pages.iter().all(|page| *page < 5));
}

#[test]
fn older_media_joins_in_front() {
    let chat = chat();
    let mut viewer = MediaViewer::new();
    let mut carousel = Carousel::default();
    viewer.open(&chat, None, vec![photo(20)], 0);
    carousel.follow(viewer.take_actions());
    let (from_id, generation) = carousel.requests[0];
    assert_eq!(from_id, 20);

    // An answer for another time that the viewer was open is ignored.
    viewer.older_media_fetched(generation + 1, Ok((vec![fetched(1, ContentKind::Photo)], 0)));
    assert_eq!(entry_ids(&viewer), [20]);

    viewer.older_media_fetched(
        generation,
        Ok((
            vec![
                fetched(20, ContentKind::Photo),
                fetched(18, ContentKind::Photo),
                fetched(17, ContentKind::Animation),
                fetched(15, ContentKind::Video),
            ],
            0,
        )),
    );
    carousel.follow(viewer.take_actions());
    assert_eq!(entry_ids(&viewer), [15, 18, 20]);
    assert_eq!(viewer.active_index(), 2);
    assert_eq!(carousel.ids(), [15, 18, 20]);
    assert_eq!(carousel.active, Some(carousel.page_of(20)));
}

#[test]
fn entries_stay_in_chronological_order() {
    let (chat, history) = loaded(vec![
        data(28, ContentKind::Photo, 5),
        data(26, ContentKind::Photo, 0),
        data(24, ContentKind::Photo, 5),
        data(22, ContentKind::Photo, 0),
    ]);
    let mut viewer = MediaViewer::new();
    let mut carousel = Carousel::default();
    viewer.open(&chat, Some(&history), vec![photo(20), photo(22)], 0);
    assert_eq!(entry_ids(&viewer), [20, 22, 24, 26, 28]);
    carousel.follow(viewer.take_actions());
    let (_, generation) = carousel.requests[0];
    viewer.older_media_fetched(
        generation,
        Ok((vec![fetched(18, ContentKind::Photo), fetched(15, ContentKind::Video)], 0)),
    );
    assert_eq!(entry_ids(&viewer), [15, 18, 20, 22, 24, 26, 28]);
    assert_eq!(viewer.active_index(), 2);
}

#[test]
fn failed_search_for_older_media_is_the_last_one() {
    let chat = chat();
    let mut viewer = MediaViewer::new();
    viewer.open(&chat, None, vec![photo(20)], 0);
    let mut carousel = Carousel::default();
    carousel.follow(viewer.take_actions());
    let (_, generation) = carousel.requests[0];
    let error = TdlibError { code: 500, message: String::from("offline") };
    viewer.older_media_fetched(generation, Err(error));
    assert_eq!(entry_ids(&viewer), [20]);
    assert_eq!(
        viewer.take_actions(),
        [ViewerAction::ShowButtons { previous: false, next: false }],
    );
    viewer.navigate(-1);
    assert_eq!(viewer.take_actions(), []);
}

#[test]
fn navigation_scrolls_to_the_neighbors() {
    let chat = chat();
    let mut viewer = MediaViewer::new();
    let mut carousel = Carousel::default();
    viewer.open(&chat, None, vec![photo(1), photo(2), photo(3)], 1);
    carousel.follow(viewer.take_actions());
    viewer.navigate(1);
    assert_eq!(viewer.take_actions(), [ViewerAction::ScrollTo(carousel.page_of(3), true)]);
    viewer.navigate(-1);
    assert_eq!(viewer.take_actions(), [ViewerAction::ScrollTo(carousel.page_of(1), true)]);
    viewer.navigate(2);
    assert_eq!(viewer.take_actions(), []);
}

#[test]
fn page_changes_are_ignored_while_pages_are_rearranged() {
    let chat = chat();
    let mut viewer = MediaViewer::new();
    let mut carousel = Carousel::default();
    viewer.open(&chat, None, vec![photo(1), photo(2), photo(3)], 1);
    carousel.follow(viewer.take_actions());
    viewer.set_reconciling(true);
    viewer.handle_page_changed(carousel.page_of(3));
    assert_eq!(viewer.active_index(), 1);
    viewer.set_reconciling(false);
    viewer.handle_page_changed(carousel.page_of(3));
    assert_eq!(viewer.active_index(), 2);
}

#[test]
fn closed_viewer_rests() {
    let chat = chat();
    let mut viewer = MediaViewer::new();
    let mut carousel = Carousel::default();
    viewer.open(&chat, None, vec![photo(1), photo(2)], 0);
    carousel.follow(viewer.take_actions());
    let page = carousel.page_of(2);
    viewer.close();
    assert!(viewer.is_closed());
    viewer.take_actions();
    viewer.handle_page_changed(page);
    assert_eq!(viewer.take_actions(), []);
}
