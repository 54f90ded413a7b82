use vstd::prelude::*;

use crate::text::same_text;

verus! {

/// The view the application window shows.
#[derive(Debug, Clone, Copy, PartialEq, Eq, Structural)]
pub enum AppState {
    Login,
    Loading,
    NoRoom,
    Room,
    RoomSettings,
    MediaViewer,
    AccountSettings,
    Directory,
}

/// The state that a name read back from an action parameter stands for;
/// `None` for a name that stands for no state.
pub open spec fn state_of_name(name: Seq<char>) -> Option<AppState> {
    if name == "login"@ {
        Some(AppState::Login)
    } else if name == "loading"@ {
        Some(AppState::Loading)
    } else if name == "no-room"@ {
        Some(AppState::NoRoom)
    } else if name == "room"@ {
        Some(AppState::Room)
    } else if name == "media-viewer"@ {
        Some(AppState::MediaViewer)
    } else if name == "account-settings"@ {
        Some(AppState::AccountSettings)
    } else if name == "room-settings"@ {
        Some(AppState::RoomSettings)
    } else if name == "directory"@ {
        Some(AppState::Directory)
    } else {
        None
    }
}

/// The name under which a state is written into an action parameter.
/// The room settings view is written as `room-setting`, which
/// `state_of_name` does not read back.
pub open spec fn variant_name_of(state: AppState) -> Seq<char> {
    match state {
        AppState::Login => "login"@,
        AppState::Loading => "loading"@,
        AppState::NoRoom => "no-room"@,
        AppState::Room => "room"@,
        AppState::MediaViewer => "media-viewer"@,
        AppState::AccountSettings => "account-settings"@,
        AppState::RoomSettings => "room-setting"@,
        AppState::Directory => "directory"@,
    }
}

impl AppState {
    /// Reads a state from its name; `None` where the name stands for no state.
    pub fn from_name(name: &str) -> (r: Option<AppState>)
        ensures
            r == state_of_name(name@),
    {
        if same_text(name, "login") {
            Some(AppState::Login)
        } else if same_text(name, "loading") {
            Some(AppState::Loading)
        } else if same_text(name, "no-room") {
            Some(AppState::NoRoom)
        } else if same_text(name, "room") {
            Some(AppState::Room)
        } else if same_text(name, "media-viewer") {
            Some(AppState::MediaViewer)
        } else if same_text(name, "account-settings") {
            Some(AppState::AccountSettings)
        } else if same_text(name, "room-settings") {
            Some(AppState::RoomSettings)
        } else if same_text(name, "directory") {
            Some(AppState::Directory)
        } else {
            None
        }
    }

    /// Converts an owned name into the state it stands for. Only names that
    /// stand for a state are accepted.
    pub fn from_string(v: String) -> (r: AppState)
        requires
            state_of_name(v@) is Some,
        ensures
            state_of_name(v@) == Some(r),
    {
        match AppState::from_name(v.as_str()) {
            Some(s) => s,
            None => {
                proof {
                    assert(false);
                }
                AppState::NoRoom
            },
        }
    }

    /// The name under which this state is written into an action parameter.
    pub fn variant_name(&self) -> (r: &'static str)
        ensures
            r@ == variant_name_of(*self),
    {
        match self {
            AppState::Login => "login",
            AppState::Loading => "loading",
            AppState::NoRoom => "no-room",
            AppState::Room => "room",
            AppState::MediaViewer => "media-viewer",
            AppState::AccountSettings => "account-settings",
            AppState::RoomSettings => "room-setting",
            AppState::Directory => "directory",
        }
    }
}

/// Every state but the room settings view is read back from the name it is
/// written under.
pub proof fn lemma_variant_name_reads_back(state: AppState)
    requires
        state != AppState::RoomSettings,
    ensures
        state_of_name(variant_name_of(state)) == Some(state),
{
    reveal_strlit("login");
    reveal_strlit("loading");
    reveal_strlit("no-room");
    reveal_strlit("room");
    reveal_strlit("media-viewer");
    reveal_strlit("account-settings");
    reveal_strlit("room-settings");
    reveal_strlit("directory");
    assert("login"@.len() == 5);
    assert("loading"@.len() == 7);
    assert("no-room"@.len() == 7);
    assert("room"@.len() == 4);
    assert("media-viewer"@.len() == 12);
    assert("account-settings"@.len() == 16);
    assert("room-settings"@.len() == 13);
    assert("directory"@.len() == 9);
    assert("loading"@[0] != "no-room"@[0]);
}

/// Two names that stand for the same state are the same name.
pub proof fn lemma_state_of_name_injective(a: Seq<char>, b: Seq<char>)
    requires
        state_of_name(a) is Some,
        state_of_name(a) == state_of_name(b),
    ensures
        a == b,
{
}

/// Different states are written under different names.
pub proof fn lemma_variant_names_distinct(s: AppState, t: AppState)
    requires
        s != t,
    ensures
        variant_name_of(s) != variant_name_of(t),
{
    reveal_strlit("login");
    reveal_strlit("loading");
    reveal_strlit("no-room");
    reveal_strlit("room");
    reveal_strlit("media-viewer");
    reveal_strlit("account-settings");
    reveal_strlit("room-setting");
    reveal_strlit("directory");
    if variant_name_of(s) == variant_name_of(t) {
        assert(variant_name_of(s).len() == variant_name_of(t).len());
        assert(variant_name_of(s)[0] == variant_name_of(t)[0]);
        assert(variant_name_of(s)[variant_name_of(s).len() - 1] == variant_name_of(t)[variant_name_of(t).len() - 1]);
    }
}

} // verus!
