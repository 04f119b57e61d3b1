//! Display mode of the sidebar.
use vstd::prelude::*;

verus! {

/// Mode for the sidebar display
#[derive(Debug, Clone, Copy, PartialEq, Eq, Structural)]
pub enum SidebarMode {
    Comments,
    Actions,
    PendingReview,
}

/// The mode that `toggle` leads to: Comments and Actions swap, PendingReview stays.
pub open spec fn toggled(m: SidebarMode) -> SidebarMode {
    match m {
        SidebarMode::Comments => SidebarMode::Actions,
        SidebarMode::Actions => SidebarMode::Comments,
        SidebarMode::PendingReview => SidebarMode::PendingReview,
    }
}

/// The name shown for a mode.
pub open spec fn mode_label(m: SidebarMode) -> Seq<char> {
    match m {
        SidebarMode::Comments => "Comments"@,
        SidebarMode::Actions => "Actions"@,
        SidebarMode::PendingReview => "Pending Review"@,
    }
}

impl Default for SidebarMode {
    fn default() -> (m: Self)
        ensures
            m == SidebarMode::Comments,
    {
        SidebarMode::Comments
    }
}

impl SidebarMode {
    /// Comments and Actions swap; the pending review mode stays.
    pub fn toggle(&self) -> (m: Self)
        ensures
            m == toggled(*self),
    {
        match self {
            SidebarMode::Comments => SidebarMode::Actions,
            SidebarMode::Actions => SidebarMode::Comments,
            SidebarMode::PendingReview => SidebarMode::PendingReview,
        }
    }

    /// The name shown for the mode.
    pub fn to_display(&self) -> (s: &'static str)
        ensures
            s@ == mode_label(*self),
    {
        match self {
            SidebarMode::Comments => "Comments",
            SidebarMode::Actions => "Actions",
            SidebarMode::PendingReview => "Pending Review",
        }
    }
}

/// Toggling twice gives back the mode one started from.
pub proof fn lemma_toggle_involutive(m: SidebarMode)
    ensures
        toggled(toggled(m)) == m,
{
}

/// Only the pending review mode is left unchanged by a toggle.
pub proof fn lemma_toggle_fixes_only_pending(m: SidebarMode)
    ensures
        (toggled(m) == m) <==> (m == SidebarMode::PendingReview),
{
}

} // verus!
