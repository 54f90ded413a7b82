use vstd::prelude::*;

use crate::app_state::AppState;

verus! {

/// The history of views, so that the back action can return to the view
/// shown before the current one. The last entry is the current view.
pub struct BackHistory {
    states: Vec<AppState>,
}

/// The history after a room is opened: `Room` is pushed unless the current
/// view already is `Room`.
pub open spec fn after_open_room(h: Seq<AppState>) -> Seq<AppState> {
    if h.len() > 0 && h.last() == AppState::Room {
        h
    } else {
        h.push(AppState::Room)
    }
}

/// The history after the back action: the current view is removed.
pub open spec fn after_back(h: Seq<AppState>) -> Seq<AppState> {
    if h.len() == 0 {
        h
    } else {
        h.drop_last()
    }
}

/// The view the back action switches to: the view below the current one,
/// or, where there is none, `NoRoom` when logged in and nothing otherwise.
pub open spec fn back_target(h: Seq<AppState>, logged_in: bool) -> Option<AppState> {
    let rest = after_back(h);
    if rest.len() > 0 {
        Some(rest.last())
    } else if logged_in {
        Some(AppState::NoRoom)
    } else {
        None
    }
}

impl View for BackHistory {
    type V = Seq<AppState>;

    closed spec fn view(&self) -> Seq<AppState> {
        self.states@
    }
}

impl BackHistory {
    /// An empty history.
    pub fn new() -> (r: BackHistory)
        ensures
            r@ == Seq::<AppState>::empty(),
    {
        BackHistory { states: Vec::new() }
    }

    /// The number of views in the history.
    pub fn len(&self) -> (r: usize)
        ensures
            r == self@.len(),
    {
        self.states.len()
    }

    /// The current view, if any.
    pub fn last(&self) -> (r: Option<AppState>)
        ensures
            r == (if self@.len() > 0 { Some(self@.last()) } else { None::<AppState> }),
    {
        let n = self.states.len();
        if n > 0 {
            Some(self.states[n - 1])
        } else {
            None
        }
    }

    /// Records that the window switched to `state`.
    pub fn push(&mut self, state: AppState)
        ensures
            final(self)@ == old(self)@.push(state),
    {
        self.states.push(state);
    }

    /// Records that a room was opened: `Room` is pushed only where the
    /// current view is not `Room` already.
    pub fn open_room(&mut self)
        ensures
            final(self)@ == after_open_room(old(self)@),
    {
        let push = match self.last() {
            Some(last) => last != AppState::Room,
            None => true,
        };
        if push {
            self.states.push(AppState::Room);
        }
    }

    /// The back action: removes the current view and returns the view to
    /// switch to, if any.
    pub fn back(&mut self, logged_in: bool) -> (r: Option<AppState>)
        ensures
            final(self)@ == after_back(old(self)@),
            r == back_target(old(self)@, logged_in),
    {
        let _ = self.states.pop();
        match self.last() {
            Some(state) => Some(state),
            None => {
                if logged_in {
                    Some(AppState::NoRoom)
                } else {
                    None
                }
            },
        }
    }
}

/// The back action undoes a push: the history is restored, and the view
/// switched to is the one that was current before the push.
pub proof fn lemma_back_undoes_push(h: Seq<AppState>, state: AppState, logged_in: bool)
    ensures
        after_back(h.push(state)) == h,
        back_target(h.push(state), logged_in) == (if h.len() > 0 {
            Some(h.last())
        } else if logged_in {
            Some(AppState::NoRoom)
        } else {
            None::<AppState>
        }),
{
    assert(h.push(state).drop_last() =~= h);
}

/// Opening a room twice in a row records it once.
pub proof fn lemma_open_room_idempotent(h: Seq<AppState>)
    ensures
        after_open_room(after_open_room(h)) == after_open_room(h),
        after_open_room(h).last() == AppState::Room,
{
}

/// Going back from the room that was just opened returns to the view shown
/// before, where the room was not already the current view.
pub proof fn lemma_back_after_open_room(h: Seq<AppState>)
    requires
        h.len() == 0 || h.last() != AppState::Room,
    ensures
        after_back(after_open_room(h)) == h,
{
    assert(h.push(AppState::Room).drop_last() =~= h);
}

/// The back action on an empty history keeps it empty and switches to
/// `NoRoom` exactly when logged in.
pub proof fn lemma_back_on_empty(logged_in: bool)
    ensures
        after_back(Seq::<AppState>::empty()) == Seq::<AppState>::empty(),
        back_target(Seq::<AppState>::empty(), logged_in) == (if logged_in {
            Some(AppState::NoRoom)
        } else {
            None::<AppState>
        }),
{
}

/// The entries at `i` and `i + 1` are both `Room`.
pub open spec fn room_pair_at(h: Seq<AppState>, i: int) -> bool {
    h[i] == AppState::Room && h[i + 1] == AppState::Room
}

/// No two adjacent entries of the history are both `Room`.
pub open spec fn no_repeated_room(h: Seq<AppState>) -> bool {
    forall|i: int| 0 <= i < h.len() - 1 ==> !#[trigger] room_pair_at(h, i)
}

/// The history never holds two `Room` entries in a row: an empty history
/// has none, and opening a room, going back and recording any view other
/// than `Room` all keep it so.
pub proof fn lemma_no_repeated_room_kept(h: Seq<AppState>, state: AppState)
    requires
        no_repeated_room(h),
    ensures
        no_repeated_room(Seq::<AppState>::empty()),
        no_repeated_room(after_open_room(h)),
        no_repeated_room(after_back(h)),
        state != AppState::Room ==> no_repeated_room(h.push(state)),
{
    let o = after_open_room(h);
    assert forall|i: int| 0 <= i < o.len() - 1 implies !#[trigger] room_pair_at(o, i) by {
        if o.len() != h.len() && i == h.len() - 1 {
            assert(o[i] == h.last());
        } else {
            assert(room_pair_at(o, i) == room_pair_at(h, i));
        }
    }
    let b = after_back(h);
    assert forall|i: int| 0 <= i < b.len() - 1 implies !#[trigger] room_pair_at(b, i) by {
        assert(room_pair_at(b, i) == room_pair_at(h, i));
    }
    if state != AppState::Room {
        let p = h.push(state);
        assert forall|i: int| 0 <= i < p.len() - 1 implies !#[trigger] room_pair_at(p, i) by {
            if i < h.len() - 1 {
                assert(room_pair_at(p, i) == room_pair_at(h, i));
            }
        }
    }
}

} // verus!
