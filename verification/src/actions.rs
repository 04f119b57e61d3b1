//! Selection among the workflow suites shown in actions mode.
use vstd::prelude::*;
use crate::ui::navigation::{back_index, forward_index};

verus! {

/// Simple navigator for actions mode
pub struct ActionsNavigator {
    current_index: usize,
    count: usize,
}

/// The selected suite and the number of suites.
pub struct ActionsNavigatorView {
    pub current: int,
    pub count: int,
}

/// The selection is in range (zero when there is nothing to select).
pub open spec fn selection_in_range(v: ActionsNavigatorView) -> bool {
    if v.count == 0 {
        v.current == 0
    } else {
        0 <= v.current < v.count
    }
}

impl View for ActionsNavigator {
    type V = ActionsNavigatorView;

    closed spec fn view(&self) -> ActionsNavigatorView {
        ActionsNavigatorView { current: self.current_index as int, count: self.count as int }
    }
}

impl ActionsNavigator {
    #[verifier::type_invariant]
    spec fn well_formed(self) -> bool {
        selection_in_range(self@)
    }

    /// Starts on the first of `count` suites.
    pub fn new(count: usize) -> (nav: Self)
        ensures
            nav@.current == 0,
            nav@.count == count,
            selection_in_range(nav@),
    {
        ActionsNavigator { current_index: 0, count }
    }

    /// Whether there are no suites.
    pub fn is_empty(&self) -> (b: bool)
        ensures
            b == (self@.count == 0),
    {
        self.count == 0
    }

    /// The selected suite.
    pub fn current_index(&self) -> (i: usize)
        ensures
            i == self@.current,
            selection_in_range(self@),
    {
        proof {
            use_type_invariant(self);
        }
        self.current_index
    }

    /// Selects suite `index` when it exists; otherwise the selection stays.
    pub fn set_index(&mut self, index: usize)
        ensures
            final(self)@.count == old(self)@.count,
            final(self)@.current == if index < old(self)@.count {
                index as int
            } else {
                old(self)@.current
            },
            selection_in_range(final(self)@),
    {
        proof {
            use_type_invariant(&*self);
        }
        if index < self.count {
            self.current_index = index;
        }
    }

    /// Moves to the next suite, staying on the last one.
    pub fn next(&mut self)
        ensures
            final(self)@.count == old(self)@.count,
            final(self)@.current == forward_index(old(self)@.current, old(self)@.count),
            selection_in_range(final(self)@),
    {
        proof {
            use_type_invariant(&*self);
        }
        if self.count > 0 && self.current_index < self.count - 1 {
            self.current_index = self.current_index + 1;
        }
    }

    /// Moves to the previous suite, staying on the first one.
    pub fn prev(&mut self)
        ensures
            final(self)@.count == old(self)@.count,
            final(self)@.current == back_index(old(self)@.current),
            selection_in_range(final(self)@),
    {
        proof {
            use_type_invariant(&*self);
        }
        if self.current_index > 0 {
            self.current_index = self.current_index - 1;
        }
    }
}

} // verus!
