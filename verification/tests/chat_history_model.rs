use paper_plane::model::chat_history_item::{ChatHistoryItem, HistoryMessage};
use paper_plane::model::chat_history_model::{
    AnchorStep, ChatHistoryError, ChatHistoryModel, HistoryEvent, HistoryRequest,
};
use paper_plane::types::{CalendarDay, TdlibError, Timestamp};

fn at(unix: i32, day: i32) -> Timestamp {
    Timestamp { unix, day: CalendarDay { year: 2024, month: 5, day } }
}

/// A text message with the given id, sent on the given day of the month.
fn text(id: i64, day: i32) -> HistoryMessage {
    HistoryMessage {
        id,
        serial: id as u64,
        timestamp: at(day * 86400 + id as i32, day),
        media_album_id: 0,
        is_groupable: false,
    }
}

fn photo(id: i64, day: i32, album: i64) -> HistoryMessage {
    HistoryMessage { media_album_id: album, is_groupable: true, ..text(id, day) }
}

/// The list as ids of messages and negated days of dividers.
fn rows(model: &ChatHistoryModel) -> Vec<i64> {
    (0..model.n_items())
        .map(|position| match model.item(position).unwrap() {
            ChatHistoryItem::Message(message) => message.id,
            ChatHistoryItem::DayDivider(day) => -i64::from(day.day.day),
        })
        .collect()
}

/// What the events make of a list that was shown before.
fn replay(mut shown: Vec<ChatHistoryItem>, events: Vec<HistoryEvent>) -> Vec<ChatHistoryItem> {
    for event in events {
        if let HistoryEvent::ItemsChanged { position, removed, items } = event {
            shown.splice(position..position + removed, items);
        }
    }
    shown
}

fn items(model: &ChatHistoryModel) -> Vec<ChatHistoryItem> {
    (0..model.n_items()).map(|position| model.item(position).unwrap()).collect()
}

fn failure() -> TdlibError {
    TdlibError { code: 500, message: String::from("no connection") }
}

fn load_older(model: &mut ChatHistoryModel, messages: Vec<HistoryMessage>) -> bool {
    let request = model.load_older_messages(30).unwrap();
    model.older_messages_loaded(request, Ok(messages)).unwrap()
}

#[test]
fn history_of_a_read_chat_begins_at_the_newest_message() {
    let model = ChatHistoryModel::new(0, 40);
    assert_eq!(model.anchor(), 0);
    assert!(!model.is_unread_anchor());
    assert!(model.at_newest());
    assert_eq!(model.n_items(), 0);
    assert_eq!(model.item(0), None);
}

#[test]
fn history_of_an_unread_chat_begins_at_the_last_read_message() {
    let model = ChatHistoryModel::new(3, 40);
    assert_eq!(model.anchor(), 40);
    assert!(model.is_unread_anchor());
    assert!(!model.at_newest());

    let never_read = ChatHistoryModel::new(3, 0);
    assert_eq!(never_read.anchor(), 0);
    assert!(never_read.at_newest());

    let jumped = ChatHistoryModel::new_for_message(12);
    assert_eq!(jumped.anchor(), 12);
    assert!(!jumped.is_unread_anchor());
    assert!(!jumped.at_newest());
}

#[test]
fn days_are_divided() {
    let mut model = ChatHistoryModel::new(0, 0);
    assert!(load_older(&mut model, vec![text(9, 3), text(8, 3), text(5, 2), text(4, 1)]));
    assert_eq!(rows(&model), [9, 8, -3, 5, -2, 4, -1]);
}

#[test]
fn dividers_move_when_older_messages_of_a_day_arrive() {
    let mut model = ChatHistoryModel::new(0, 0);
    load_older(&mut model, vec![text(9, 3), text(8, 3)]);
    assert_eq!(rows(&model), [9, 8, -3]);
    let before = items(&model);
    model.take_events();
    assert!(load_older(&mut model, vec![text(7, 3), text(6, 2)]));
    assert_eq!(rows(&model), [9, 8, 7, -3, 6, -2]);
    assert_eq!(replay(before, model.take_events()), items(&model));
}

#[test]
fn loaded_messages_are_not_shown_twice() {
    let mut model = ChatHistoryModel::new(0, 0);
    load_older(&mut model, vec![text(9, 1), text(8, 1)]);
    let request = model.load_older_messages(30).unwrap();
    assert_eq!(request, HistoryRequest { from_message_id: 8, offset: 0, limit: 30 });
    assert_eq!(model.older_messages_loaded(request, Ok(vec![text(8, 1)])), Ok(false));
    assert_eq!(rows(&model), [9, 8, -1]);
}

#[test]
fn messages_are_loaded_once_at_a_time() {
    let mut model = ChatHistoryModel::new(0, 0);
    let request = model.load_older_messages(30).unwrap();
    assert_eq!(model.load_older_messages(30), Err(ChatHistoryError::AlreadyLoading));
    assert_eq!(model.load_around_anchor(), Err(ChatHistoryError::AlreadyLoading));
    assert_eq!(
        model.older_messages_loaded(request, Err(failure())),
        Err(ChatHistoryError::Tdlib(failure())),
    );
    assert!(model.load_older_messages(30).is_ok());
}

#[test]
fn new_messages_are_shown_in_front() {
    let mut model = ChatHistoryModel::new(0, 0);
    load_older(&mut model, vec![text(9, 3)]);
    model.take_events();
    let before = items(&model);
    model.handle_new_message(text(10, 3));
    assert_eq!(rows(&model), [10, 9, -3]);
    model.handle_new_message(text(11, 4));
    assert_eq!(rows(&model), [11, -4, 10, 9, -3]);
    assert_eq!(replay(before, model.take_events()), items(&model));
}

#[test]
fn deleting_undoes_receiving() {
    let mut model = ChatHistoryModel::new(0, 0);
    load_older(&mut model, vec![text(9, 3)]);
    let before = items(&model);
    model.handle_new_message(text(11, 4));
    model.take_events();
    let shown = items(&model);
    model.handle_deleted_message(&text(11, 4));
    assert_eq!(items(&model), before);
    assert_eq!(replay(shown, model.take_events()), before);
    model.handle_deleted_message(&text(11, 4));
    assert_eq!(items(&model), before);
}

#[test]
fn messages_are_found_among_dividers() {
    let mut model = ChatHistoryModel::new(0, 0);
    load_older(&mut model, vec![text(9, 3), text(8, 3), text(5, 2), text(4, 1)]);
    assert_eq!(model.find_message_position(&text(9, 3)), Some(0));
    assert_eq!(model.find_message_position(&text(8, 3)), Some(1));
    assert_eq!(model.find_message_position(&text(5, 2)), Some(3));
    assert_eq!(model.find_message_position(&text(4, 1)), Some(5));
    assert_eq!(model.find_message_position(&text(6, 2)), None);
}

#[test]
fn messages_around_the_anchor_are_loaded() {
    let mut model = ChatHistoryModel::new(2, 7);
    let request = model.load_around_anchor().unwrap();
    assert_eq!(request, HistoryRequest { from_message_id: 7, offset: -50, limit: 100 });
    let step = model
        .around_anchor_loaded(Ok(vec![text(9, 1), text(7, 1)]), Some(9), Some(text(7, 1)))
        .unwrap();
    assert_eq!(step, AnchorStep::Done);
    assert!(model.at_newest());
    assert_eq!(rows(&model), [9, 7, -1]);
}

#[test]
fn missing_anchor_is_fetched() {
    let mut model = ChatHistoryModel::new_for_message(7);
    model.load_around_anchor().unwrap();
    let step = model
        .around_anchor_loaded(Ok(vec![text(9, 1), text(6, 1)]), Some(12), Some(text(7, 1)))
        .unwrap();
    assert_eq!(step, AnchorStep::FetchAnchor { message_id: 7, reached_newest: false });
    assert_eq!(model.anchor_fetched(Ok(text(7, 1)), false), Ok(()));
    assert!(!model.at_newest());
    assert_eq!(rows(&model), [9, 7, 6, -1]);
}

#[test]
fn anchor_can_fail_to_load() {
    let mut model = ChatHistoryModel::new_for_message(7);
    model.load_around_anchor().unwrap();
    assert_eq!(
        model.around_anchor_loaded(Err(failure()), None, None),
        Err(ChatHistoryError::Tdlib(failure())),
    );
    model.load_around_anchor().unwrap();
    let step = model.around_anchor_loaded(Ok(vec![]), Some(9), None).unwrap();
    assert_eq!(step, AnchorStep::FetchAnchor { message_id: 7, reached_newest: false });
    assert_eq!(
        model.anchor_fetched(Err(failure()), false),
        Err(ChatHistoryError::Tdlib(failure())),
    );
}

#[test]
fn new_messages_wait_for_those_in_between() {
    let mut model = ChatHistoryModel::new_for_message(7);
    model.load_around_anchor().unwrap();
    model.around_anchor_loaded(Ok(vec![text(8, 1), text(7, 1)]), Some(10), Some(text(7, 1))).unwrap();
    model.handle_new_message(text(11, 1));
    assert_eq!(rows(&model), [8, 7, -1]);

    let request = model.load_newer_messages(50).unwrap().unwrap();
    assert_eq!(request, HistoryRequest { from_message_id: 8, offset: -50, limit: 51 });
    assert_eq!(model.load_newer_messages(50), Err(ChatHistoryError::AlreadyLoading));
    assert_eq!(
        model.newer_messages_loaded(request, Ok(vec![text(10, 1), text(9, 1), text(8, 1)])),
        Ok(true),
    );
    assert_eq!(rows(&model), [10, 9, 8, 7, -1]);

    let request = model.load_newer_messages(500).unwrap().unwrap();
    assert_eq!(request, HistoryRequest { from_message_id: 10, offset: -99, limit: 100 });
    assert_eq!(model.newer_messages_loaded(request, Ok(vec![text(10, 1)])), Ok(false));
    assert!(model.at_newest());
    assert_eq!(rows(&model), [11, 10, 9, 8, 7, -1]);
    assert_eq!(model.load_newer_messages(50), Ok(None));
}

#[test]
fn newer_messages_can_fail_to_load() {
    let mut model = ChatHistoryModel::new_for_message(7);
    let request = model.load_newer_messages(0).unwrap().unwrap();
    assert_eq!(request, HistoryRequest { from_message_id: 7, offset: -1, limit: 2 });
    assert_eq!(
        model.newer_messages_loaded(request, Err(failure())),
        Err(ChatHistoryError::Tdlib(failure())),
    );
    assert!(model.load_newer_messages(50).is_ok());
}

#[test]
fn pending_message_that_was_deleted_is_forgotten() {
    let mut model = ChatHistoryModel::new_for_message(7);
    model.handle_new_message(text(11, 1));
    model.handle_deleted_message(&text(11, 1));
    let request = model.load_newer_messages(50).unwrap().unwrap();
    assert_eq!(model.newer_messages_loaded(request, Ok(vec![])), Ok(false));
    assert_eq!(model.n_items(), 0);
}

#[test]
fn album_is_shown_by_its_oldest_message() {
    let mut model = ChatHistoryModel::new(0, 0);
    load_older(&mut model, vec![photo(9, 1, 5), photo(8, 1, 5), text(3, 1)]);
    assert_eq!(rows(&model), [8, 3, -1]);
    let members = model.media_album(&photo(8, 1, 5)).unwrap();
    assert_eq!(members.iter().map(|m| m.id).collect::<Vec<_>>(), [8, 9]);
    assert!(model.media_album(&photo(9, 1, 5)).is_none());

    load_older(&mut model, vec![]);
    model.handle_new_message(photo(10, 1, 5));
    assert_eq!(rows(&model), [8, 3, -1]);
    assert_eq!(model.find_message_position(&photo(10, 1, 5)), Some(0));

    // Newer messages are those that are newer than the whole album.
    model.trim_back();
    assert_eq!(rows(&model), [8, 3, -1]);
}

#[test]
fn oldest_row_of_a_day_takes_its_divider_over() {
    let mut model = ChatHistoryModel::new(0, 0);
    model.handle_new_message(photo(5, 1, 9));
    model.handle_new_message(text(6, 1));
    assert_eq!(rows(&model), [6, 5, -1]);
    let before = items(&model);
    model.take_events();
    load_older(&mut model, vec![photo(4, 1, 9)]);
    assert_eq!(rows(&model), [6, 4, -1]);
    assert_eq!(model.item(2), Some(ChatHistoryItem::DayDivider(photo(4, 1, 9).timestamp)));
    let events = model.take_events();
    assert_eq!(replay(before, events), items(&model));
    assert_eq!(model.find_message_position(&text(6, 1)), Some(0));
    assert_eq!(model.find_message_position(&photo(4, 1, 9)), Some(1));
    assert_eq!(model.find_message_position(&photo(5, 1, 9)), Some(1));
}

#[test]
fn message_of_an_album_that_is_not_loaded_has_no_position() {
    let mut model = ChatHistoryModel::new(0, 0);
    model.handle_new_message(photo(5, 1, 9));
    assert_eq!(model.find_message_position(&photo(5, 1, 9)), Some(0));
    assert_eq!(model.find_message_position(&photo(4, 1, 9)), None);
    model.handle_new_message(photo(7, 1, 9));
    assert_eq!(model.find_message_position(&photo(7, 1, 9)), Some(0));
    assert_eq!(model.find_message_position(&photo(6, 1, 9)), None);
}

#[test]
fn anchor_of_an_album_that_is_partly_loaded_is_fetched() {
    let mut model = ChatHistoryModel::new_for_message(4);
    model.load_around_anchor().unwrap();
    let step = model
        .around_anchor_loaded(Ok(vec![photo(5, 1, 9), text(3, 1)]), None, Some(photo(4, 1, 9)))
        .unwrap();
    assert_eq!(step, AnchorStep::FetchAnchor { message_id: 4, reached_newest: false });
    model.anchor_fetched(Ok(photo(4, 1, 9)), false).unwrap();
    assert_eq!(rows(&model), [4, 3, -1]);
}

#[test]
fn album_goes_on_without_its_oldest_message() {
    let mut model = ChatHistoryModel::new(0, 0);
    load_older(&mut model, vec![photo(9, 1, 5), photo(8, 1, 5), photo(7, 1, 5)]);
    assert_eq!(rows(&model), [7, -1]);
    let before = items(&model);
    model.take_events();
    model.handle_deleted_message(&photo(7, 1, 5));
    assert_eq!(rows(&model), [8, -1]);
    assert_eq!(replay(before, model.take_events()), items(&model));
    // With one message left, it is shown as a message of its own.
    model.handle_deleted_message(&photo(8, 1, 5));
    assert_eq!(rows(&model), [9, -1]);
    assert!(model.media_album(&photo(9, 1, 5)).is_none());
    model.handle_deleted_message(&photo(9, 1, 5));
    assert_eq!(model.n_items(), 0);
}

#[test]
fn photos_without_an_album_have_rows_of_their_own() {
    let mut model = ChatHistoryModel::new(0, 0);
    load_older(&mut model, vec![photo(9, 1, 0), photo(8, 1, 0)]);
    assert_eq!(rows(&model), [9, 8, -1]);
    let mut ungroupable = photo(7, 1, 5);
    ungroupable.is_groupable = false;
    load_older(&mut model, vec![ungroupable]);
    assert_eq!(rows(&model), [9, 8, 7, -1]);
    assert!(model.media_album(&ungroupable).is_none());
}

#[test]
fn album_updates_are_told() {
    let mut model = ChatHistoryModel::new(0, 0);
    model.handle_new_message(photo(8, 1, 5));
    model.handle_new_message(photo(9, 1, 5));
    let changes: Vec<(usize, usize, usize)> = model
        .take_events()
        .iter()
        .filter_map(|event| match event {
            HistoryEvent::AlbumChanged { album_id: 5, position, removed, messages } => {
                Some((*position, *removed, messages.len()))
            }
            _ => None,
        })
        .collect();
    assert_eq!(changes, [(0, 0, 1), (1, 0, 1)]);
}

#[test]
fn long_history_is_trimmed_in_front() {
    let mut model = ChatHistoryModel::new(0, 0);
    let newest: Vec<HistoryMessage> = (0..500).map(|i| text(2000 - i, 1)).collect();
    load_older(&mut model, newest);
    // 500 messages and a divider are more than enough.
    assert_eq!(model.n_items(), 300);
    assert!(!model.at_newest());
    assert_eq!(rows(&model)[0], 1799);
    assert_eq!(*rows(&model).last().unwrap(), -1);
}

#[test]
fn history_of_medium_length_is_kept() {
    let mut model = ChatHistoryModel::new(0, 0);
    let newest: Vec<HistoryMessage> = (0..499).map(|i| text(2000 - i, 1)).collect();
    load_older(&mut model, newest);
    assert_eq!(model.n_items(), 500);
    assert!(model.at_newest());
    model.trim_back();
    assert_eq!(model.n_items(), 500);
    model.handle_new_message(text(2001, 1));
    let before = items(&model);
    model.take_events();
    model.trim_back();
    assert_eq!(model.n_items(), 300);
    assert_eq!(rows(&model)[0], 2001);
    assert_eq!(replay(before, model.take_events()), items(&model));
}

#[test]
fn content_that_cannot_be_grouped_leaves_its_album_alone() {
    let mut model = ChatHistoryModel::new(0, 0);
    load_older(&mut model, vec![photo(9, 1, 5), photo(8, 1, 5)]);
    model.handle_content_changed(9, false);
    assert_eq!(rows(&model), [8, -1]);
    assert_eq!(model.media_album(&photo(8, 1, 5)).unwrap().len(), 2);
}

#[test]
fn album_that_is_still_shown_is_not_forgotten() {
    let mut model = ChatHistoryModel::new(0, 0);
    let expired = HistoryMessage { media_album_id: 7, ..text(1701, 1) };
    let mut messages: Vec<HistoryMessage> = (0..200).map(|i| text(2000 - i, 1)).collect();
    messages.extend([photo(1702, 1, 7), expired, photo(1700, 1, 7)]);
    messages.extend((0..298).map(|i| text(1600 - i, 1)));
    load_older(&mut model, messages);

    // The row of the expired photo was the last one to be trimmed.
    assert_eq!(model.n_items(), 300);
    assert_eq!(rows(&model)[..2], [1700, 1600]);
    let members = model.media_album(&photo(1700, 1, 7)).unwrap();
    assert_eq!(members.iter().map(|member| member.id).collect::<Vec<i64>>(), [1700, 1702]);
    let request = model.load_newer_messages(10).unwrap().unwrap();
    assert_eq!(request.from_message_id, 1702);

    model.newer_messages_loaded(request, Ok(vec![photo(1703, 1, 7)])).unwrap();
    assert_eq!(rows(&model)[..2], [1700, 1600]);
    assert_eq!(model.media_album(&photo(1700, 1, 7)).unwrap().len(), 3);
}

#[test]
fn album_that_was_trimmed_is_created_again() {
    let mut model = ChatHistoryModel::new(0, 0);
    let mut messages: Vec<HistoryMessage> = (0..200).map(|i| text(2000 - i, 1)).collect();
    messages.extend([photo(1702, 1, 7), photo(1701, 1, 7)]);
    messages.extend((0..300).map(|i| text(1600 - i, 1)));
    load_older(&mut model, messages);
    assert_eq!(rows(&model)[..1], [1599]);
    assert!(model.media_album(&photo(1701, 1, 7)).is_none());
    let request = model.load_newer_messages(10).unwrap().unwrap();
    let newer = vec![photo(1702, 1, 7), text(1600, 1)];
    model.newer_messages_loaded(request, Ok(newer)).unwrap();
    assert_eq!(rows(&model)[..3], [1702, 1600, 1599]);
    assert_eq!(model.media_album(&photo(1702, 1, 7)).unwrap().len(), 1);
}
