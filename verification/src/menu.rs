//! The two tabs of the interface.

use vstd::prelude::*;

verus! {

/// A named view of the feed, shown as a tab.
#[derive(Copy, Clone, Debug, PartialEq, Eq, Structural)]
pub enum MenuItem {
    Top,
    New,
}

impl MenuItem {
    /// The other tab.
    pub open spec fn other(self) -> MenuItem {
        match self {
            MenuItem::Top => MenuItem::New,
            MenuItem::New => MenuItem::Top,
        }
    }

    /// The position of the tab in the tab bar.
    pub open spec fn spec_index(self) -> usize {
        match self {
            MenuItem::Top => 0,
            MenuItem::New => 1,
        }
    }

    /// Switches to the other tab.
    pub fn scroll(&mut self)
        ensures
            *final(self) == old(self).other(),
    {
        match *self {
            MenuItem::Top => {
                *self = MenuItem::New;
            },
            MenuItem::New => {
                *self = MenuItem::Top;
            },
        }
    }

    /// The position of the tab in the tab bar: 0 for `Top`, 1 for `New`.
    #[verifier::when_used_as_spec(spec_index)]
    pub fn index(self) -> (i: usize)
        ensures
            i == self.spec_index(),
    {
        match self {
            MenuItem::Top => 0,
            MenuItem::New => 1,
        }
    }
}

impl From<MenuItem> for usize {
    fn from(input: MenuItem) -> (i: usize) {
        input.index()
    }
}

impl vstd::std_specs::convert::FromSpecImpl<MenuItem> for usize {
    open spec fn obeys_from_spec() -> bool {
        true
    }

    open spec fn from_spec(input: MenuItem) -> usize {
        input.spec_index()
    }
}

/// Switching tabs twice comes back to the tab one started from.
pub proof fn lemma_scroll_twice(m: MenuItem)
    ensures
        m.other().other() == m,
        m.other() != m,
{
}

} // verus!
