use paper_plane::model::chat_history_item::HistoryMessage;
use paper_plane::model::media_album::{caption_position, MediaAlbum};
use paper_plane::types::{CalendarDay, Timestamp};

fn member(id: i64) -> HistoryMessage {
    HistoryMessage {
        id,
        serial: id as u64,
        timestamp: Timestamp {
            unix: id as i32,
            day: CalendarDay { year: 2024, month: 1, day: 1 },
        },
        media_album_id: 7,
        is_groupable: true,
    }
}

fn ids(messages: &[HistoryMessage]) -> Vec<i64> {
    messages.iter().map(|message| message.id).collect()
}

#[test]
fn album_keeps_its_messages_sorted() {
    let mut album = MediaAlbum::new(7);
    assert!(album.is_empty());
    assert_eq!(album.id(), 7);
    assert_eq!(album.first_message_id(), None);
    assert_eq!(album.last_message_id(), None);

    assert_eq!(album.add_message(member(5)), Some(0));
    assert_eq!(album.add_message(member(9)), Some(1));
    assert_eq!(album.add_message(member(6)), Some(1));
    assert_eq!(album.add_message(member(1)), Some(0));

    assert_eq!(album.len(), 4);
    assert_eq!(ids(&album.chronological()), [1, 5, 6, 9]);
    assert_eq!(ids(&album.messages()), [9, 6, 5, 1]);
    assert_eq!(album.first_message_id(), Some(1));
    assert_eq!(album.first_message(), Some(member(1)));
    assert_eq!(album.last_message_id(), Some(9));
}

#[test]
fn album_ignores_messages_it_has() {
    let mut album = MediaAlbum::new(7);
    album.add_message(member(5));
    assert_eq!(album.add_message(member(5)), None);
    assert_eq!(album.len(), 1);
}

#[test]
fn removing_from_an_album_undoes_adding() {
    let mut album = MediaAlbum::new(7);
    album.add_message(member(5));
    album.add_message(member(9));
    album.add_message(member(6));
    assert_eq!(album.remove_message(6), Some((1, member(6))));
    assert_eq!(ids(&album.chronological()), [5, 9]);
    assert_eq!(album.remove_message(6), None);
    assert_eq!(album.remove_message(5), Some((0, member(5))));
    assert_eq!(album.remove_message(9), Some((0, member(9))));
    assert!(album.is_empty());
}

#[test]
fn last_caption_of_an_album_is_shown() {
    let caption = |text: &str| Some(String::from(text));
    assert_eq!(caption_position(&vec![]), None);
    assert_eq!(caption_position(&vec![caption(""), None]), None);
    assert_eq!(caption_position(&vec![caption("a"), caption("b"), caption("")]), Some(1));
    assert_eq!(caption_position(&vec![caption("a"), None]), Some(0));
}
