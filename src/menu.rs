//! Keyboard selection in a vertical menu.

use vstd::prelude::*;

verus! {

/// The highlighted entry of a menu of `item_count` entries.
#[derive(Clone, Copy, Debug, PartialEq, Eq, Structural)]
pub struct MenuSelection {
    pub selected_index: usize,
    pub item_count: usize,
}

impl MenuSelection {
    pub open spec fn wf(self) -> bool {
        self.selected_index < self.item_count
    }

    /// A selection on the first of `item_count` entries.
    pub fn new(item_count: usize) -> (r: MenuSelection)
        ensures
            r.selected_index == 0,
            r.item_count == item_count,
    {
        MenuSelection { selected_index: 0, item_count }
    }

    /// Moves up one entry, wrapping from the first to the last.
    pub fn move_up(&mut self)
        requires
            old(self).item_count > 0,
        ensures
            final(self).item_count == old(self).item_count,
            final(self).selected_index == if old(self).selected_index == 0 {
                old(self).item_count - 1
            } else {
                old(self).selected_index - 1
            },
    {
        if self.selected_index == 0 {
            self.selected_index = self.item_count - 1;
        } else {
            self.selected_index = self.selected_index - 1;
        }
    }

    /// Moves down one entry, wrapping from the last to the first.
    pub fn move_down(&mut self)
        requires
            old(self).item_count > 0,
            old(self).selected_index < usize::MAX,
        ensures
            final(self).item_count == old(self).item_count,
            final(self).selected_index == (old(self).selected_index + 1) % (old(self).item_count as int),
            final(self).wf(),
    {
        self.selected_index = (self.selected_index + 1) % self.item_count;
    }
}

} // verus!
