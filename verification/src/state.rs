//! The view state that the search coordinator, the interaction loop and the
//! redraw loop share: the live query, the results on display with their
//! selection, and the count of lookups in flight.

use crate::search::Package;
use vstd::prelude::*;

verus! {

/// The number of frames of the busy indicator.
pub const SPINNER_FRAMES: usize = 8;

/// A list of rows with a cursor on at most one of them.
pub struct StatefulTable<T> {
    pub selected: Option<usize>,
    pub items: Vec<T>,
}

/// The row that the cursor moves to on Down: the next one, from the last row
/// or from no row the first. A cursor that points past the rows comes back to
/// the last row.
pub open spec fn row_below(rows: nat, selected: Option<usize>) -> Option<usize> {
    if rows == 0 {
        selected
    } else {
        match selected {
            None => Some(0usize),
            Some(i) => if i + 1 == rows {
                Some(0usize)
            } else if i + 1 < rows {
                Some((i + 1) as usize)
            } else {
                Some((rows - 1) as usize)
            },
        }
    }
}

/// The row that the cursor moves to on Up: the one before, from the first row
/// or from no row the last.
pub open spec fn row_above(rows: nat, selected: Option<usize>) -> Option<usize> {
    if rows == 0 {
        selected
    } else {
        match selected {
            None => Some((rows - 1) as usize),
            Some(i) => if i == 0 {
                Some((rows - 1) as usize)
            } else {
                Some((i - 1) as usize)
            },
        }
    }
}

/// Whether a cursor is on one of `rows` rows, or on none.
pub open spec fn selection_valid(rows: nat, selected: Option<usize>) -> bool {
    selected matches Some(i) ==> i < rows
}

/// A table without rows has no row selected, and Up and Down leave it so.
pub proof fn lemma_no_rows_no_selection(selected: Option<usize>)
    requires
        selection_valid(0, selected),
    ensures
        selected.is_none(),
        row_below(0, selected).is_none(),
        row_above(0, selected).is_none(),
{
}

/// Up and Down leave the cursor on a row of the table, from wherever it was,
/// and each undoes the other where the cursor was on a row.
pub proof fn lemma_rows_wrap_around(rows: nat, selected: Option<usize>)
    requires
        0 < rows <= usize::MAX,
    ensures
        selection_valid(rows, row_below(rows, selected)),
        selection_valid(rows, selected) ==> selection_valid(rows, row_above(rows, selected)),
        selected matches Some(i) && i < rows ==> row_above(rows, row_below(rows, selected))
            == selected && row_below(rows, row_above(rows, selected)) == selected,
        row_below(rows, None) == Some(0usize),
        row_below(rows, Some((rows - 1) as usize)) == Some(0usize),
        row_above(rows, None) == Some((rows - 1) as usize),
        row_above(rows, Some(0usize)) == Some((rows - 1) as usize),
{
}

impl<T> StatefulTable<T> {
    /// The cursor, where there is one, is on a row of the table.
    pub open spec fn wf(&self) -> bool {
        selection_valid(self.items@.len(), self.selected)
    }

    /// A table of the given rows with no row selected.
    #[must_use]
    pub fn new(items: Vec<T>) -> (table: StatefulTable<T>)
        ensures
            table.items == items,
            table.selected.is_none(),
            table.wf(),
    {
        StatefulTable { selected: None, items }
    }

    /// Moves the cursor one row down, from the last row to the first.
    pub fn next(&mut self)
        ensures
            final(self).items == old(self).items,
            final(self).selected == row_below(old(self).items@.len(), old(self).selected),
            old(self).wf() ==> final(self).wf(),
            old(self).items@.len() > 0 ==> final(self).wf(),
    {
        let rows = self.items.len();
        if rows == 0 {
            return ;
        }
        let below: usize = match self.selected {
            Some(i) => if i == rows - 1 {
                0
            } else if i < rows - 1 {
                i + 1
            } else {
                rows - 1
            },
            None => 0,
        };
        self.selected = Some(below);
    }

    /// Moves the cursor one row up, from the first row to the last.
    pub fn previous(&mut self)
        ensures
            final(self).items == old(self).items,
            final(self).selected == row_above(old(self).items@.len(), old(self).selected),
            old(self).wf() ==> final(self).wf(),
    {
        let rows = self.items.len();
        if rows == 0 {
            return ;
        }
        let above: usize = match self.selected {
            Some(i) => if i == 0 {
                rows - 1
            } else {
                i - 1
            },
            None => rows - 1,
        };
        self.selected = Some(above);
    }
}

/// The state on display.
pub struct State {
    /// The live query, as typed so far.
    pub input: String,
    /// The results on display, with the selected row.
    pub results: StatefulTable<Package>,
    /// The number of lookups that were started and have not returned.
    pub pending_searches: usize,
    /// The frame of the busy indicator that is drawn next.
    pub spinner_index: usize,
}

/// What a `State` holds, as plain values.
pub struct StateView {
    pub input: Seq<char>,
    pub items: Seq<Package>,
    pub selected: Option<usize>,
    pub pending: nat,
    pub spinner: nat,
}

impl StateView {
    /// The state at start: nothing typed, nothing shown, nothing in flight.
    pub open spec fn initial() -> StateView {
        StateView {
            input: Seq::empty(),
            items: Seq::empty(),
            selected: None,
            pending: 0,
            spinner: 0,
        }
    }

    /// The cursor is on a row on display or on none, and the busy indicator
    /// is at one of its frames.
    pub open spec fn wf(self) -> bool {
        &&& selection_valid(self.items.len(), self.selected)
        &&& self.spinner < SPINNER_FRAMES
    }

    /// This state with `items` on display in place of the present results, and
    /// no row selected.
    pub open spec fn showing(self, items: Seq<Package>) -> StateView {
        StateView { items, selected: None, ..self }
    }
}

impl View for State {
    type V = StateView;

    open spec fn view(&self) -> StateView {
        StateView {
            input: self.input@,
            items: self.results.items@,
            selected: self.results.selected,
            pending: self.pending_searches as nat,
            spinner: self.spinner_index as nat,
        }
    }
}

impl State {
    pub open spec fn wf(&self) -> bool {
        self@.wf()
    }
}

impl Default for State {
    fn default() -> (state: State)
        ensures
            state@ == StateView::initial(),
            state.wf(),
    {
        State {
            input: String::new(),
            results: StatefulTable::new(Vec::new()),
            pending_searches: 0,
            spinner_index: 0,
        }
    }
}

} // verus!
