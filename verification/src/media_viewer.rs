use vstd::prelude::*;

verus! {

/// How close to the top of the window, in pixels, the pointer must be to
/// reveal the header bar in full screen.
pub const HEADER_REVEAL_ZONE: i32 = 6;

/// How long, in milliseconds, the controls stay revealed after the pointer
/// last moved.
pub const HIDE_DELAY_MS: u32 = 1000;

/// What the full screen button asks of the application.
#[derive(Debug, Clone, Copy, PartialEq, Eq, Structural)]
pub enum FullScreenAction {
    Enter,
    Leave,
}

/// The full screen button: `window_fullscreen` is `None` where the main
/// window has no window of its own yet, and otherwise whether it is in full
/// screen. Nothing happens without a window; otherwise the button toggles.
pub fn full_screen_button_action(window_fullscreen: Option<bool>) -> (r: Option<FullScreenAction>)
    ensures
        r == (match window_fullscreen {
            None => None,
            Some(false) => Some(FullScreenAction::Enter),
            Some(true) => Some(FullScreenAction::Leave),
        }),
{
    match window_fullscreen {
        None => None,
        Some(fullscreen) => {
            if !fullscreen {
                Some(FullScreenAction::Enter)
            } else {
                Some(FullScreenAction::Leave)
            }
        },
    }
}

/// Whether a released key leaves full screen: only the Escape key does, and
/// only while the main window is in full screen (`window_fullscreen` is
/// `None` where the main window has no window of its own yet, and then it
/// is not in full screen).
pub fn key_release_leaves_full_screen(window_fullscreen: Option<bool>, is_escape: bool) -> (r:
    bool)
    ensures
        r == (is_escape && window_fullscreen == Some(true)),
{
    match window_fullscreen {
        Some(true) => is_escape,
        _ => false,
    }
}

/// What the media viewer knows of the pointer: whether it is over the
/// header bar, whether it is over a navigation button, and whether a timer
/// to hide the controls is running.
#[derive(Debug, Clone, Copy, PartialEq, Eq, Structural)]
pub struct MediaViewerHover {
    pub header_hovered: bool,
    pub nav_hovered: bool,
    pub hide_pending: bool,
}

/// What happens in the media viewer that the controls react to. A motion
/// carries the pointer's vertical position in the main window and whether
/// that window is in full screen, where both could be read.
#[derive(Debug, Clone, Copy)]
pub enum HoverEvent {
    HeaderEnter,
    HeaderLeave,
    NavEnter,
    NavLeave,
    Motion { pointer: Option<(i32, bool)> },
    HideTimeout,
}

/// What the controls do in answer to an event: cancel the running hide
/// timer, reveal or hide the header bar, reveal or hide both navigation
/// buttons (`None`: leave as is), and start a hide timer of the given delay.
#[derive(Debug, Clone, Copy, PartialEq, Eq, Structural)]
pub struct RevealActions {
    pub cancel_pending_hide: bool,
    pub reveal_header: Option<bool>,
    pub reveal_nav: Option<bool>,
    pub schedule_hide_ms: Option<u32>,
}

/// No action at all.
pub open spec fn no_actions() -> RevealActions {
    RevealActions {
        cancel_pending_hide: false,
        reveal_header: None,
        reveal_nav: None,
        schedule_hide_ms: None,
    }
}

/// The state and the actions after `e` in state `s`.
pub open spec fn hover_step(s: MediaViewerHover, e: HoverEvent) -> (MediaViewerHover, RevealActions) {
    match e {
        HoverEvent::HeaderEnter => (MediaViewerHover { header_hovered: true, ..s }, no_actions()),
        HoverEvent::HeaderLeave => (MediaViewerHover { header_hovered: false, ..s }, no_actions()),
        HoverEvent::NavEnter => (MediaViewerHover { nav_hovered: true, ..s }, no_actions()),
        HoverEvent::NavLeave => (MediaViewerHover { nav_hovered: false, ..s }, no_actions()),
        HoverEvent::Motion { pointer } => (
            MediaViewerHover { hide_pending: true, ..s },
            RevealActions {
                cancel_pending_hide: s.hide_pending,
                reveal_header: match pointer {
                    Some((y, fullscreen)) => if y <= HEADER_REVEAL_ZONE && fullscreen {
                        Some(true)
                    } else {
                        None
                    },
                    None => None,
                },
                reveal_nav: Some(true),
                schedule_hide_ms: Some(HIDE_DELAY_MS),
            },
        ),
        HoverEvent::HideTimeout => (
            MediaViewerHover { hide_pending: false, ..s },
            RevealActions {
                cancel_pending_hide: false,
                reveal_header: if s.header_hovered {
                    None
                } else {
                    Some(false)
                },
                reveal_nav: if s.nav_hovered {
                    None
                } else {
                    Some(false)
                },
                schedule_hide_ms: None,
            },
        ),
    }
}

impl MediaViewerHover {
    /// Nothing hovered, no timer running.
    pub fn new() -> (r: MediaViewerHover)
        ensures
            !r.header_hovered,
            !r.nav_hovered,
            !r.hide_pending,
    {
        MediaViewerHover { header_hovered: false, nav_hovered: false, hide_pending: false }
    }

    /// Takes in one event and answers with the actions to perform.
    pub fn step(&mut self, e: HoverEvent) -> (r: RevealActions)
        ensures
            (*final(self), r) == hover_step(*old(self), e),
            e matches HoverEvent::Motion { pointer: Some((y, fullscreen)) } ==> r.reveal_header == (
            if y <= 6 && fullscreen {
                Some(true)
            } else {
                None::<bool>
            }),
            e matches HoverEvent::Motion { pointer: None } ==> r.reveal_header is None,
    {
        match e {
            HoverEvent::HeaderEnter => {
                self.header_hovered = true;
                RevealActions {
                    cancel_pending_hide: false,
                    reveal_header: None,
                    reveal_nav: None,
                    schedule_hide_ms: None,
                }
            },
            HoverEvent::HeaderLeave => {
                self.header_hovered = false;
                RevealActions {
                    cancel_pending_hide: false,
                    reveal_header: None,
                    reveal_nav: None,
                    schedule_hide_ms: None,
                }
            },
            HoverEvent::NavEnter => {
                self.nav_hovered = true;
                RevealActions {
                    cancel_pending_hide: false,
                    reveal_header: None,
                    reveal_nav: None,
                    schedule_hide_ms: None,
                }
            },
            HoverEvent::NavLeave => {
                self.nav_hovered = false;
                RevealActions {
                    cancel_pending_hide: false,
                    reveal_header: None,
                    reveal_nav: None,
                    schedule_hide_ms: None,
                }
            },
            HoverEvent::Motion { pointer } => {
                let cancel = self.hide_pending;
                let reveal_header = match pointer {
                    Some((y, fullscreen)) => {
                        if y <= HEADER_REVEAL_ZONE && fullscreen {
                            Some(true)
                        } else {
                            None
                        }
                    },
                    None => None,
                };
                self.hide_pending = true;
                RevealActions {
                    cancel_pending_hide: cancel,
                    reveal_header,
                    reveal_nav: Some(true),
                    schedule_hide_ms: Some(HIDE_DELAY_MS),
                }
            },
            HoverEvent::HideTimeout => {
                let reveal_header = if self.header_hovered {
                    None
                } else {
                    Some(false)
                };
                let reveal_nav = if self.nav_hovered {
                    None
                } else {
                    Some(false)
                };
                self.hide_pending = false;
                RevealActions {
                    cancel_pending_hide: false,
                    reveal_header,
                    reveal_nav,
                    schedule_hide_ms: None,
                }
            },
        }
    }
}

/// A timer is cancelled only while one is running, and after any event at
/// most the timer just started is running: timers never pile up.
pub proof fn lemma_hide_timers_never_pile_up(s: MediaViewerHover, e: HoverEvent)
    ensures
        hover_step(s, e).1.cancel_pending_hide ==> s.hide_pending,
        hover_step(s, e).1.schedule_hide_ms is Some ==> (s.hide_pending
            ==> hover_step(s, e).1.cancel_pending_hide),
        hover_step(s, e).0.hide_pending == (hover_step(s, e).1.schedule_hide_ms is Some || (
        s.hide_pending && e != HoverEvent::HideTimeout)),
{
}

/// The hide timer never hides a control the pointer is over.
pub proof fn lemma_hovered_controls_stay(s: MediaViewerHover)
    ensures
        s.header_hovered ==> hover_step(s, HoverEvent::HideTimeout).1.reveal_header is None,
        s.nav_hovered ==> hover_step(s, HoverEvent::HideTimeout).1.reveal_nav is None,
{
}

/// A motion followed by the end of its timer, with the pointer over no
/// control, reveals the navigation buttons and then hides the header bar and
/// the navigation buttons, leaving no timer running.
pub proof fn lemma_motion_then_timeout(s: MediaViewerHover, pointer: Option<(i32, bool)>)
    requires
        !s.header_hovered,
        !s.nav_hovered,
    ensures
        ({
            let (s1, a1) = hover_step(s, HoverEvent::Motion { pointer });
            let (s2, a2) = hover_step(s1, HoverEvent::HideTimeout);
            &&& a1.reveal_nav == Some(true)
            &&& a1.schedule_hide_ms == Some(HIDE_DELAY_MS)
            &&& a2.reveal_header == Some(false)
            &&& a2.reveal_nav == Some(false)
            &&& !s2.hide_pending
        }),
{
}

/// A pointer motion reveals the header bar exactly when the pointer is at
/// most 6 pixels from the top of the window (the very top edge included) and
/// the window is in full screen; otherwise the header bar is left as it is.
/// Every motion reveals the navigation buttons and starts a one second timer.
pub proof fn lemma_motion_reveals_header_near_top(s: MediaViewerHover, y: i32, fullscreen: bool)
    ensures
        HEADER_REVEAL_ZONE == 6,
        HIDE_DELAY_MS == 1000,
        hover_step(s, HoverEvent::Motion { pointer: Some((y, fullscreen)) }).1.reveal_header == (
        if y <= 6 && fullscreen {
            Some(true)
        } else {
            None::<bool>
        }),
        hover_step(s, HoverEvent::Motion { pointer: None }).1.reveal_header is None,
        hover_step(s, HoverEvent::Motion { pointer: Some((y, fullscreen)) }).1.reveal_nav == Some(
            true,
        ),
        hover_step(s, HoverEvent::Motion { pointer: Some((y, fullscreen)) }).1.schedule_hide_ms
            == Some(1000u32),
{
}

} // verus!
