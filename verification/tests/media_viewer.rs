use fractal_gtk::media_viewer::{
    full_screen_button_action, key_release_leaves_full_screen, FullScreenAction, HoverEvent,
    MediaViewerHover, HIDE_DELAY_MS,
};

#[test]
fn full_screen_button_toggles() {
    assert_eq!(full_screen_button_action(None), None);
    assert_eq!(full_screen_button_action(Some(false)), Some(FullScreenAction::Enter));
    assert_eq!(full_screen_button_action(Some(true)), Some(FullScreenAction::Leave));
}

#[test]
fn escape_leaves_full_screen() {
    assert!(key_release_leaves_full_screen(Some(true), true));
    assert!(!key_release_leaves_full_screen(None, true));
    assert!(!key_release_leaves_full_screen(Some(false), true));
    assert!(!key_release_leaves_full_screen(Some(true), false));
    assert!(!key_release_leaves_full_screen(None, false));
}

#[test]
fn motion_reveals_and_schedules() {
    let mut h = MediaViewerHover::new();
    let a = h.step(HoverEvent::Motion { pointer: Some((3, true)) });
    assert!(!a.cancel_pending_hide);
    assert_eq!(a.reveal_header, Some(true));
    assert_eq!(a.reveal_nav, Some(true));
    assert_eq!(a.schedule_hide_ms, Some(HIDE_DELAY_MS));
    assert!(h.hide_pending);
    let a = h.step(HoverEvent::Motion { pointer: Some((6, false)) });
    assert!(a.cancel_pending_hide);
    assert_eq!(a.reveal_header, None);
    let a = h.step(HoverEvent::Motion { pointer: Some((7, true)) });
    assert_eq!(a.reveal_header, None);
    let a = h.step(HoverEvent::Motion { pointer: Some((6, true)) });
    assert_eq!(a.reveal_header, Some(true));
    let a = h.step(HoverEvent::Motion { pointer: None });
    assert_eq!(a.reveal_header, None);
    assert_eq!(a.reveal_nav, Some(true));
}

#[test]
fn timeout_hides_what_is_not_hovered() {
    let mut h = MediaViewerHover::new();
    h.step(HoverEvent::Motion { pointer: None });
    let a = h.step(HoverEvent::HideTimeout);
    assert_eq!(a.reveal_header, Some(false));
    assert_eq!(a.reveal_nav, Some(false));
    assert!(!a.cancel_pending_hide);
    assert_eq!(a.schedule_hide_ms, None);
    assert!(!h.hide_pending);
}

#[test]
fn timeout_keeps_hovered_controls() {
    let mut h = MediaViewerHover::new();
    let a = h.step(HoverEvent::HeaderEnter);
    assert_eq!(a.reveal_header, None);
    assert!(h.header_hovered);
    h.step(HoverEvent::NavEnter);
    h.step(HoverEvent::Motion { pointer: None });
    let a = h.step(HoverEvent::HideTimeout);
    assert_eq!(a.reveal_header, None);
    assert_eq!(a.reveal_nav, None);
    h.step(HoverEvent::NavLeave);
    h.step(HoverEvent::Motion { pointer: None });
    let a = h.step(HoverEvent::HideTimeout);
    assert_eq!(a.reveal_header, None);
    assert_eq!(a.reveal_nav, Some(false));
    h.step(HoverEvent::HeaderLeave);
    assert!(!h.header_hovered);
    assert!(!h.nav_hovered);
}
