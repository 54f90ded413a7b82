use fractal_gtk::app_state::AppState;

const ALL: [AppState; 8] = [
    AppState::Login,
    AppState::Loading,
    AppState::NoRoom,
    AppState::Room,
    AppState::RoomSettings,
    AppState::MediaViewer,
    AppState::AccountSettings,
    AppState::Directory,
];

#[test]
fn names_read_as_states() {
    assert_eq!(AppState::from_name("login"), Some(AppState::Login));
    assert_eq!(AppState::from_name("loading"), Some(AppState::Loading));
    assert_eq!(AppState::from_name("no-room"), Some(AppState::NoRoom));
    assert_eq!(AppState::from_name("room"), Some(AppState::Room));
    assert_eq!(AppState::from_name("media-viewer"), Some(AppState::MediaViewer));
    assert_eq!(AppState::from_name("account-settings"), Some(AppState::AccountSettings));
    assert_eq!(AppState::from_name("room-settings"), Some(AppState::RoomSettings));
    assert_eq!(AppState::from_name("directory"), Some(AppState::Directory));
}

#[test]
fn unknown_names_read_as_nothing() {
    assert_eq!(AppState::from_name(""), None);
    assert_eq!(AppState::from_name("Room"), None);
    assert_eq!(AppState::from_name("room "), None);
    assert_eq!(AppState::from_name("room-setting"), None);
    assert_eq!(AppState::from_name("settings"), None);
}

#[test]
fn from_string_converts_known_names() {
    assert_eq!(AppState::from_string("room".to_string()), AppState::Room);
    assert_eq!(AppState::from_string("directory".to_string()), AppState::Directory);
}

#[test]
fn variant_names() {
    assert_eq!(AppState::Login.variant_name(), "login");
    assert_eq!(AppState::Loading.variant_name(), "loading");
    assert_eq!(AppState::NoRoom.variant_name(), "no-room");
    assert_eq!(AppState::Room.variant_name(), "room");
    assert_eq!(AppState::MediaViewer.variant_name(), "media-viewer");
    assert_eq!(AppState::AccountSettings.variant_name(), "account-settings");
    assert_eq!(AppState::RoomSettings.variant_name(), "room-setting");
    assert_eq!(AppState::Directory.variant_name(), "directory");
}

#[test]
fn variant_names_read_back_but_room_settings() {
    for s in ALL.iter() {
        let back = AppState::from_name(s.variant_name());
        if *s == AppState::RoomSettings {
            assert_eq!(back, None);
        } else {
            assert_eq!(back, Some(*s));
        }
    }
}

#[test]
fn variant_names_distinct() {
    for (i, a) in ALL.iter().enumerate() {
        for (j, b) in ALL.iter().enumerate() {
            if i != j {
                assert_ne!(a.variant_name(), b.variant_name());
            }
        }
    }
}
