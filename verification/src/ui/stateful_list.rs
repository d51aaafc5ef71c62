//! A list with a cursor.

use vstd::prelude::*;

verus! {

/// Which item of a list is selected, if any.
#[derive(Debug, Clone, Copy, PartialEq, Eq, Structural)]
pub struct Selection {
    pub selected: Option<usize>,
}

impl Selection {
    /// Nothing is selected.
    pub fn new() -> (state: Selection)
        ensures
            state.selected is None,
    {
        Selection { selected: None }
    }

    /// The place of the selected item.
    pub fn selected(&self) -> (index: Option<usize>)
        ensures
            index == self.selected,
    {
        self.selected
    }

    /// Selects the item at `index`, or none.
    pub fn select(&mut self, index: Option<usize>)
        ensures
            final(self).selected == index,
    {
        self.selected = index;
    }
}

/// The items of a list and its cursor.
#[derive(Debug)]
pub struct StatefulList<Element> {
    pub state: Selection,
    pub items: Vec<Element>,
}

/// Where the cursor stands after a step down in a list of `len` items: on
/// the next item, on the first after the last, on the first where nothing
/// was selected.
pub open spec fn index_below(selected: Option<usize>, len: nat) -> usize {
    match selected {
        Some(i) => if i + 1 >= len {
            0
        } else {
            (i + 1) as usize
        },
        None => 0,
    }
}

/// Where the cursor stands after a step up in a list of `len` items: on
/// the item before, on the last before the first, on the first where
/// nothing was selected.
pub open spec fn index_above(selected: Option<usize>, len: nat) -> usize {
    match selected {
        Some(i) => if i == 0 {
            (len - 1) as usize
        } else {
            (i - 1) as usize
        },
        None => 0,
    }
}

impl<Element> StatefulList<Element> {
    /// The cursor stands on an item of the list, where it stands at all.
    pub open spec fn in_range(&self) -> bool {
        self.state.selected matches Some(i) ==> i < self.items@.len()
    }

    /// A list of `items` with nothing selected.
    pub fn from(items: Vec<Element>) -> (list: StatefulList<Element>)
        ensures
            list.items@ == items@,
            list.state.selected is None,
    {
        StatefulList { state: Selection::new(), items }
    }

    /// Moves the cursor one item down, from the last item to the first.
    pub fn next(&mut self)
        requires
            old(self).state.selected is Some ==> old(self).items@.len() > 0,
        ensures
            final(self).items@ == old(self).items@,
            final(self).state.selected == Some(
                index_below(old(self).state.selected, old(self).items@.len()),
            ),
    {
        let i: usize = match self.state.selected() {
            Some(i) => {
                if i >= self.items.len() - 1 {
                    0
                } else {
                    i + 1
                }
            },
            None => 0,
        };
        self.state.select(Some(i));
    }

    /// Moves the cursor one item up, from the first item to the last.
    pub fn previous(&mut self)
        requires
            old(self).state.selected is Some ==> old(self).items@.len() > 0,
        ensures
            final(self).items@ == old(self).items@,
            final(self).state.selected == Some(
                index_above(old(self).state.selected, old(self).items@.len()),
            ),
    {
        let i: usize = match self.state.selected() {
            Some(i) => {
                if i == 0 {
                    self.items.len() - 1
                } else {
                    i - 1
                }
            },
            None => 0,
        };
        self.state.select(Some(i));
    }

    /// Takes the cursor off the list.
    pub fn unselect(&mut self)
        ensures
            final(self).items@ == old(self).items@,
            final(self).state.selected is None,
    {
        self.state.select(None);
    }
}

/// In a list that is not empty the cursor stays on the list, and a step up
/// undoes a step down, as a step down undoes a step up.
pub proof fn lemma_cursor_steps(i: usize, len: nat)
    requires
        i < len,
        len <= usize::MAX,
    ensures
        index_below(Some(i), len) < len,
        index_above(Some(i), len) < len,
        index_below(None, len) < len,
        index_above(Some(index_below(Some(i), len)), len) == i,
        index_below(Some(index_above(Some(i), len)), len) == i,
{
}

} // verus!
