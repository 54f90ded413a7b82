use fractal_gtk::app_state::AppState;
use fractal_gtk::back_history::BackHistory;

#[test]
fn back_returns_to_previous_view() {
    let mut h = BackHistory::new();
    h.push(AppState::Directory);
    h.push(AppState::AccountSettings);
    assert_eq!(h.back(true), Some(AppState::Directory));
    assert_eq!(h.len(), 1);
    assert_eq!(h.last(), Some(AppState::Directory));
}

#[test]
fn back_undoes_push() {
    let mut h = BackHistory::new();
    h.push(AppState::Room);
    h.push(AppState::MediaViewer);
    assert_eq!(h.back(false), Some(AppState::Room));
    assert_eq!(h.len(), 1);
    assert_eq!(h.last(), Some(AppState::Room));
}

#[test]
fn back_to_empty_history_goes_to_no_room_when_logged_in() {
    let mut h = BackHistory::new();
    h.push(AppState::Directory);
    assert_eq!(h.back(true), Some(AppState::NoRoom));
    assert_eq!(h.len(), 0);
    let mut h = BackHistory::new();
    h.push(AppState::Directory);
    assert_eq!(h.back(false), None);
    assert_eq!(h.len(), 0);
}

#[test]
fn back_on_empty_history() {
    let mut h = BackHistory::new();
    assert_eq!(h.back(true), Some(AppState::NoRoom));
    assert_eq!(h.len(), 0);
    assert_eq!(h.back(false), None);
    assert_eq!(h.len(), 0);
    assert_eq!(h.last(), None);
}

#[test]
fn open_room_twice_records_once() {
    let mut h = BackHistory::new();
    h.open_room();
    h.open_room();
    assert_eq!(h.len(), 1);
    assert_eq!(h.last(), Some(AppState::Room));
    h.push(AppState::RoomSettings);
    h.open_room();
    assert_eq!(h.len(), 3);
    assert_eq!(h.back(true), Some(AppState::RoomSettings));
}

#[test]
fn back_after_open_room_returns() {
    let mut h = BackHistory::new();
    h.push(AppState::Directory);
    h.open_room();
    assert_eq!(h.back(true), Some(AppState::Directory));
}

#[test]
fn history_never_holds_two_rooms_in_a_row() {
    let mut h = BackHistory::new();
    h.open_room();
    h.open_room();
    h.push(AppState::MediaViewer);
    h.open_room();
    h.open_room();
    h.back(true);
    h.open_room();
    let mut prev = None;
    while let Some(s) = h.last() {
        if prev == Some(AppState::Room) {
            assert_ne!(s, AppState::Room);
        }
        prev = Some(s);
        h.back(false);
    }
}
