use fractal_gtk::message_menu::{get_selected_text, str_byte_range, Message, MessageMenu, SelectedText};

fn msg(mtype: &str, body: &str, source: Option<&str>) -> Message {
    Message {
        mtype: mtype.to_string(),
        body: body.to_string(),
        source: source.map(|s| s.to_string()),
    }
}

#[test]
fn selection_of_ascii_label() {
    let sel = get_selected_text(Some((0, 5)), Some("hello world")).unwrap();
    assert_eq!(sel.text, "hello");
    assert_eq!(sel.start, 0);
    assert_eq!(sel.end, 5);
    let sel = get_selected_text(Some((6, 11)), Some("hello world")).unwrap();
    assert_eq!(sel.text, "world");
}

#[test]
fn selection_counts_bytes() {
    // "é" takes two bytes
    let sel = get_selected_text(Some((1, 3)), Some("héllo")).unwrap();
    assert_eq!(sel.text, "é");
    assert!(get_selected_text(Some((1, 2)), Some("héllo")).is_none());
    assert!(get_selected_text(Some((2, 4)), Some("héllo")).is_none());
}

#[test]
fn selection_rejects_bad_bounds() {
    assert!(get_selected_text(Some((3, 2)), Some("hello")).is_none());
    assert!(get_selected_text(Some((0, 6)), Some("hello")).is_none());
    assert!(get_selected_text(Some((-1, 2)), Some("hello")).is_none());
    assert!(get_selected_text(Some((0, -2)), Some("hello")).is_none());
}

#[test]
fn selection_needs_bounds_and_text() {
    assert!(get_selected_text(None, Some("hello")).is_none());
    assert!(get_selected_text(Some((0, 1)), None).is_none());
}

#[test]
fn empty_and_whole_selection() {
    let sel = get_selected_text(Some((2, 2)), Some("hello")).unwrap();
    assert_eq!(sel.text, "");
    let t = "a☃b";
    let sel = get_selected_text(Some((0, t.len() as i32)), Some(t)).unwrap();
    assert_eq!(sel.text, t);
}

#[test]
fn byte_range_agrees_with_str_get() {
    let samples = ["", "abc", "héllo", "a☃b😀c"];
    for s in samples.iter() {
        for a in 0..s.len() + 2 {
            for b in 0..s.len() + 2 {
                assert_eq!(str_byte_range(s, a, b), s.get(a..b), "{:?} {} {}", s, a, b);
            }
        }
    }
}

#[test]
fn menu_for_image() {
    let m = MessageMenu::new_message_menu(msg("m.image", "pic.png", None), None);
    let v = m.menu_visibility();
    assert!(!v.copy_selected_text);
    assert!(v.open_with);
    assert!(v.save_image_as);
    assert!(v.copy_image);
    assert!(!v.copy_text);
}

#[test]
fn menu_for_text_with_selection() {
    let sel = SelectedText { text: "hi".to_string(), start: 0, end: 2 };
    let m = MessageMenu::new_message_menu(msg("m.text", "hi there", None), Some(sel));
    let v = m.menu_visibility();
    assert!(v.copy_selected_text);
    assert!(!v.open_with);
    assert!(!v.save_image_as);
    assert!(!v.copy_image);
    assert!(v.copy_text);
    assert_eq!(m.selected_text.as_ref().unwrap().text, "hi");
}

#[test]
fn menu_quote() {
    let m = MessageMenu::new_message_menu(msg("m.text", "one\ntwo", None), None);
    assert_eq!(m.quote(), "> one\n> two\n\n");
}

#[test]
fn menu_source_text() {
    let m = MessageMenu::new_message_menu(msg("m.text", "x", Some("{\"a\": 1}")), None);
    assert_eq!(m.source_text(), "{\"a\": 1}");
    let m = MessageMenu::new_message_menu(msg("m.text", "x", None), None);
    assert_eq!(m.source_text(), "This message has no source.");
}
