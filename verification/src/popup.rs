//! The popup's open/close interaction state machine.
//!
//! The host keeps one [`PopupState`] per widget identity across frames. Each
//! frame it gathers what happened — display-button click, Escape, a click
//! outside the popup, a month picked from the dropdown — into a
//! [`FrameInput`] and steps the state with [`frame_transition`].

use vstd::prelude::*;

verus! {

/// Per-widget popup state the host persists across frames.
#[derive(Clone, Copy, PartialEq, Eq, Structural, Debug)]
pub struct PopupState {
    /// The popup is shown.
    pub is_open: bool,
    /// A month was just chosen from the dropdown: the next outside-click
    /// close is suppressed once. Cleared at the end of every open pass.
    pub month_menu_just_used: bool,
}

impl PopupState {
    /// The state a widget starts in: popup closed, no suppression pending.
    pub fn closed() -> (s: PopupState)
        ensures
            s == (PopupState { is_open: false, month_menu_just_used: false }),
    {
        PopupState { is_open: false, month_menu_just_used: false }
    }
}

/// What the host observed during one frame.
#[derive(Clone, Copy, PartialEq, Eq, Structural, Debug)]
pub struct FrameInput {
    /// The date-display button was clicked.
    pub display_button_clicked: bool,
    /// Escape was pressed.
    pub escape_pressed: bool,
    /// A pointer click landed outside the popup area.
    pub clicked_outside: bool,
    /// A month was chosen from the dropdown during this frame's render.
    pub month_menu_used: bool,
}

/// One frame of the popup state machine. A display-button click toggles the
/// popup. While the popup is shown, it closes on Escape, or on a click
/// outside it unless a month-menu selection suppresses that close; the
/// suppression flag is cleared at the end of every open pass.
pub open spec fn frame_transition_of(st: PopupState, ev: FrameInput) -> PopupState {
    let open_now = if ev.display_button_clicked {
        !st.is_open
    } else {
        st.is_open
    };
    if open_now {
        let suppress = st.month_menu_just_used || ev.month_menu_used;
        let close = !ev.display_button_clicked && (ev.escape_pressed || (!suppress
            && ev.clicked_outside));
        PopupState { is_open: !close, month_menu_just_used: false }
    } else {
        PopupState { is_open: false, month_menu_just_used: st.month_menu_just_used }
    }
}

/// Steps the popup state by one frame.
pub fn frame_transition(st: PopupState, ev: FrameInput) -> (r: PopupState)
    ensures
        r == frame_transition_of(st, ev),
        // a click on the display button of a closed widget opens the popup
        !st.is_open && ev.display_button_clicked ==> r.is_open,
        // a second click on the display button closes it again
        st.is_open && ev.display_button_clicked ==> !r.is_open,
        // Escape closes an open popup
        st.is_open && !ev.display_button_clicked && ev.escape_pressed ==> !r.is_open,
        // a click outside closes an open popup, unless suppressed
        st.is_open && !ev.display_button_clicked && ev.clicked_outside && !ev.month_menu_used
            && !st.month_menu_just_used ==> !r.is_open,
        // a month-menu selection keeps the popup open through an outside click
        st.is_open && !ev.display_button_clicked && !ev.escape_pressed && ev.month_menu_used
            ==> r.is_open,
        // with nothing observed, an open popup stays open (a day click alone
        // never closes it)
        st.is_open && !ev.display_button_clicked && !ev.escape_pressed && !ev.clicked_outside
            ==> r.is_open,
        // every open pass clears the suppression flag
        (if ev.display_button_clicked {
            !st.is_open
        } else {
            st.is_open
        }) ==> !r.month_menu_just_used,
{
    let open_now = if ev.display_button_clicked {
        !st.is_open
    } else {
        st.is_open
    };
    if open_now {
        let suppress = st.month_menu_just_used || ev.month_menu_used;
        let close = !ev.display_button_clicked && (ev.escape_pressed || (!suppress
            && ev.clicked_outside));
        PopupState { is_open: !close, month_menu_just_used: false }
    } else {
        PopupState { is_open: false, month_menu_just_used: st.month_menu_just_used }
    }
}

} // verus!
