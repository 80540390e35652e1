use paper_plane::model::chat_history_model::ChatHistoryError;
use paper_plane::model::chat_view::ChatType;
use paper_plane::types::TdlibError;
use paper_plane::ui::chat_history::{
    anchor_scroll_position, can_leave, sponsored_message_count, ChatHistory, ChatSwitch,
    FillAction, FillEvent, HistoryFill, LoadRequest, ScrollDown, ScrollPosition,
};

fn at(at_end: bool, near_oldest: bool, near_newest: bool) -> ScrollPosition {
    ScrollPosition { at_end, near_oldest, near_newest }
}

fn group() -> Option<(i64, ChatType, bool)> {
    Some((5, ChatType::BasicGroup { basic_group_id: 1 }, false))
}

/// A history that shows a chat and is filled.
fn filled() -> ChatHistory {
    let mut history = ChatHistory::new();
    history.set_chat(group());
    history.handle_filled(Some(true));
    history
}

#[test]
fn chats_are_switched() {
    let mut history = ChatHistory::new();
    assert_eq!(history.set_chat(None), None);
    assert_eq!(
        history.set_chat(group()),
        Some(ChatSwitch { close: None, open: Some(5), can_leave: Some(true) }),
    );
    assert_eq!(history.set_chat(group()), None);
    assert_eq!(
        history.set_chat(Some((6, ChatType::Private { user_id: 2 }, false))),
        Some(ChatSwitch { close: Some(5), open: Some(6), can_leave: Some(false) }),
    );
    assert_eq!(
        history.set_chat(None),
        Some(ChatSwitch { close: Some(6), open: None, can_leave: None }),
    );
    assert_eq!(history.chat(), None);
}

#[test]
fn groups_can_be_left_once() {
    let supergroup = ChatType::Supergroup { supergroup_id: 1 };
    assert!(can_leave(supergroup, false));
    assert!(!can_leave(supergroup, true));
    assert!(!can_leave(ChatType::Secret { secret_chat_id: 1, partner_id: 2 }, false));
}

#[test]
fn scrolling_loads_messages() {
    let mut history = filled();
    let actions = history.handle_scroll(at(false, true, false));
    assert!(actions.schedule_view_messages);
    assert!(actions.notify_sticky);
    assert_eq!(actions.load, Some(LoadRequest::Older(30)));
    // Nothing else is loaded meanwhile.
    let actions = history.handle_scroll(at(false, false, true));
    assert_eq!(actions.load, None);
    assert!(!actions.schedule_view_messages);
    history.handle_load_finished();
    let actions = history.handle_scroll(at(false, false, true));
    assert_eq!(actions.load, Some(LoadRequest::Newer(50)));
    history.handle_load_finished();
    // The oldest messages come first.
    assert_eq!(
        history.handle_scroll(at(false, true, true)).load,
        Some(LoadRequest::Older(30)),
    );
}

#[test]
fn history_is_filled_before_scrolling_loads_messages() {
    let mut history = ChatHistory::new();
    history.set_chat(group());
    assert_eq!(history.handle_scroll(at(false, true, true)).load, None);
    assert!(history.handle_filled(Some(true)));
    assert!(history.sticky());
    assert_eq!(
        history.handle_scroll(at(true, true, true)).load,
        Some(LoadRequest::Older(30)),
    );
}

#[test]
fn view_stays_at_the_newest_message() {
    let mut history = filled();
    assert!(history.handle_upper_changed());
    // While it scrolls down by itself, nothing else happens.
    let actions = history.handle_scroll(at(false, true, true));
    assert_eq!((actions.notify_sticky, actions.load), (false, None));
    history.handle_scroll(at(true, false, false));
    assert!(history.sticky());
    history.handle_scroll(at(false, false, false));
    assert!(!history.sticky());
    assert!(!history.handle_upper_changed());
    history.scroll_down();
    assert!(history.handle_upper_changed());
}

#[test]
fn scroll_down_button_goes_where_it_is_due() {
    let history = filled();
    assert_eq!(history.handle_scroll_down(3, 9, true), ScrollDown::Scroll);
    assert_eq!(history.handle_scroll_down(3, 9, false), ScrollDown::JumpToFirstUnread);
    assert_eq!(history.handle_scroll_down(3, 0, false), ScrollDown::GoToNewest);
    assert_eq!(history.handle_scroll_down(0, 9, false), ScrollDown::GoToNewest);
    assert_eq!(ChatHistory::new().handle_scroll_down(3, 9, false), ScrollDown::Scroll);
}

#[test]
fn viewed_messages_are_reported_when_they_changed() {
    let mut history = filled();
    assert_eq!(history.view_messages(), None);
    history.add_to_viewed_message_ids(4);
    history.add_to_viewed_message_ids(5);
    history.add_to_viewed_message_ids(4);
    // The ids come in any order.
    let (chat, mut ids) = history.view_messages().unwrap();
    ids.sort();
    assert_eq!((chat, ids), (5, vec![4, 5]));
    assert_eq!(history.view_messages(), None);
    history.add_to_viewed_message_ids(4);
    assert_eq!(history.view_messages(), None);
    history.remove_from_viewed_message_ids(4);
    history.remove_from_viewed_message_ids(9);
    assert_eq!(history.view_messages(), Some((5, vec![5])));
    assert!(history.schedule_view_messages());
    assert!(!history.schedule_view_messages());
    history.handle_view_messages_due();
    assert!(history.schedule_view_messages());
}

#[test]
fn unread_messages_are_shown_instead_of_the_anchor() {
    assert_eq!(anchor_scroll_position(10, true, 3, 1), 8);
    assert_eq!(anchor_scroll_position(2, true, 3, 1), 1);
    assert_eq!(anchor_scroll_position(10, false, 3, 1), 11);
}

#[test]
fn sponsored_messages_are_counted() {
    assert_eq!(sponsored_message_count(None, 5), 0);
    assert_eq!(sponsored_message_count(Some(6), 5), 1);
    assert_eq!(sponsored_message_count(Some(4), 5), 0);
}

#[test]
fn list_is_filled_in_smaller_and_smaller_steps() {
    let mut fill = HistoryFill::new();
    assert_eq!(fill.step(FillEvent::Started(Some(true))), FillAction::Check);
    for limit in [30, 15, 7, 3, 2, 2] {
        assert_eq!(
            fill.step(FillEvent::Checked { is_at_start: true }),
            FillAction::LoadOlder(limit),
        );
        assert_eq!(fill.step(FillEvent::Loaded(Ok(true))), FillAction::Check);
    }
    assert_eq!(
        fill.step(FillEvent::Checked { is_at_start: false }),
        FillAction::Finish(Some(true)),
    );
}

#[test]
fn filling_ends_or_is_tried_again() {
    let mut fill = HistoryFill::new();
    assert_eq!(fill.step(FillEvent::Started(None)), FillAction::Finish(None));
    assert_eq!(fill.step(FillEvent::Started(Some(false))), FillAction::LoadAroundAnchor);
    assert_eq!(fill.step(FillEvent::AnchorLoaded), FillAction::Finish(Some(false)));
    assert_eq!(
        fill.step(FillEvent::Loaded(Err(ChatHistoryError::AlreadyLoading))),
        FillAction::Wait(20),
    );
    assert_eq!(fill.step(FillEvent::Waited), FillAction::Check);
    assert_eq!(fill.step(FillEvent::Loaded(Ok(false))), FillAction::Finish(Some(true)));
    let error = TdlibError { code: 1, message: String::new() };
    assert_eq!(
        fill.step(FillEvent::Loaded(Err(ChatHistoryError::Tdlib(error)))),
        FillAction::Finish(Some(true)),
    );
}
