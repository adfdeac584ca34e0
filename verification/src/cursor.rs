//! The selection in a list of display rows, of which each item takes one or two.
//!
//! The selection always stands on the first row of an item, or, where the list
//! may be scrolled past, on the row after the last. It moves by one item and
//! wraps at both ends.

use vstd::prelude::*;
use crate::record::ROWS_PER_ITEM;

verus! {

/// The rows that belong to whole items: the number of rows, less what is left
/// over when it is divided by the rows of one item.
pub open spec fn whole_rows(len: int, step: int) -> int {
    len - len % step
}

/// The last row on which the selection can stand, in a list that has rows:
/// the row after the last where the list may be scrolled past, the first row
/// of the last item where it may not.
pub open spec fn last_stop(rows: int, step: int, scroll_past_list: bool) -> int {
    if scroll_past_list {
        rows
    } else {
        rows - step
    }
}

/// Whether a selection is one that the list can have: none; or, in a list that
/// has rows, a multiple of the rows of one item, up to the last stop.
pub open spec fn selectable(
    selected: Option<usize>,
    rows: int,
    step: int,
    scroll_past_list: bool,
) -> bool {
    match selected {
        None => true,
        Some(row) => rows > 0 && (row as int) % step == 0 && row <= last_stop(
            rows,
            step,
            scroll_past_list,
        ),
    }
}

/// The selection after a move down: the first row from no selection; the first
/// row again from the last stop; else one item further. A list without rows
/// has no selection.
pub open spec fn after_next(
    selected: Option<usize>,
    rows: int,
    step: int,
    scroll_past_list: bool,
) -> Option<usize> {
    if rows == 0 {
        None
    } else {
        match selected {
            None => Some(0),
            Some(row) => if row + step > last_stop(rows, step, scroll_past_list) {
                Some(0)
            } else {
                Some((row + step) as usize)
            },
        }
    }
}

/// The selection after a move up: the first row from no selection; the last
/// stop from the first row; else one item back. A list without rows has no
/// selection.
pub open spec fn after_previous(
    selected: Option<usize>,
    rows: int,
    step: int,
    scroll_past_list: bool,
) -> Option<usize> {
    if rows == 0 {
        None
    } else {
        match selected {
            None => Some(0),
            Some(row) => if row == 0 {
                Some(last_stop(rows, step, scroll_past_list) as usize)
            } else {
                Some((row - step) as usize)
            },
        }
    }
}

/// The selection for a list that has changed: none in a list without rows; the
/// last stop where the selection stood beyond it; else the selection as it was.
pub open spec fn clamped(
    selected: Option<usize>,
    rows: int,
    step: int,
    scroll_past_list: bool,
) -> Option<usize> {
    match selected {
        None => None,
        Some(row) => if rows == 0 {
            None
        } else if row > last_stop(rows, step, scroll_past_list) {
            Some(last_stop(rows, step, scroll_past_list) as usize)
        } else {
            Some(row)
        },
    }
}

/// The item on whose first row the selection stands.
pub open spec fn item_at(selected: Option<usize>, rows: int, step: int) -> Option<usize> {
    match selected {
        Some(row) => if row < rows {
            Some((row as int / step) as usize)
        } else {
            None
        },
        None => None,
    }
}

/// What is left over of a number divided by one is nothing, and divided by two
/// it is what is left over of it divided by two.
proof fn lemma_left_over(x: int, step: int)
    requires
        step == 1 || step == 2,
    ensures
        x % step == if step == 1 {
            0
        } else {
            x % 2
        },
{
    if step == 1 {
        assert(x % step == 0) by (nonlinear_arith)
            requires
                step == 1,
        ;
    } else {
        assert(x % step == x % 2) by (nonlinear_arith)
            requires
                step == 2,
        ;
    }
}

/// A list of display rows with a selection.
#[derive(Clone, Debug)]
pub struct StatefulList<T> {
    selected: Option<usize>,
    items: Vec<T>,
    scroll_past_list: bool,
    step: usize,
}

impl<T> StatefulList<T> {
    /// The selected row, if any.
    pub closed spec fn spec_selected(&self) -> Option<usize> {
        self.selected
    }

    /// The rows of the list.
    pub closed spec fn spec_items(&self) -> Seq<T> {
        self.items@
    }

    /// Whether the selection may stand on the row after the last.
    pub closed spec fn spec_scroll_past_list(&self) -> bool {
        self.scroll_past_list
    }

    /// How many rows one item takes.
    pub closed spec fn spec_step(&self) -> usize {
        self.step
    }

    /// How many rows belong to whole items.
    pub open spec fn rows(&self) -> int {
        whole_rows(self.spec_items().len() as int, self.spec_step() as int)
    }

    /// Whether a move past the last item goes to the first row; otherwise it
    /// goes to the row after the last.
    pub open spec fn spec_wrap_past_end(&self) -> bool {
        !self.spec_scroll_past_list()
    }

    /// An item takes one row or two, and the selection is one that the list can
    /// have.
    pub open spec fn wf(&self) -> bool {
        &&& self.spec_step() == 1 || self.spec_step() == 2
        &&& selectable(
            self.spec_selected(),
            self.rows(),
            self.spec_step() as int,
            self.spec_scroll_past_list(),
        )
    }

    /// A list of rows as they are made for records, each of which takes
    /// `ROWS_PER_ITEM`, with nothing selected.
    pub fn new(items: Vec<T>, scroll_past_list: bool) -> (list: StatefulList<T>)
        ensures
            list.wf(),
            list.spec_items() == items@,
            list.spec_selected() == None::<usize>,
            list.spec_scroll_past_list() == scroll_past_list,
            list.spec_step() == ROWS_PER_ITEM,
    {
        StatefulList { selected: None, items, scroll_past_list, step: ROWS_PER_ITEM }
    }

    /// A list of rows of which each item takes `step`, with nothing selected.
    pub fn with_step(items: Vec<T>, step: usize, scroll_past_list: bool) -> (list: StatefulList<T>)
        requires
            step == 1 || step == 2,
        ensures
            list.wf(),
            list.spec_items() == items@,
            list.spec_selected() == None::<usize>,
            list.spec_scroll_past_list() == scroll_past_list,
            list.spec_step() == step,
    {
        StatefulList { selected: None, items, scroll_past_list, step }
    }

    /// The selected row, if any.
    #[verifier::when_used_as_spec(spec_selected)]
    pub fn selected(&self) -> (selected: Option<usize>)
        ensures
            selected == self.spec_selected(),
    {
        self.selected
    }

    /// The rows of the list.
    pub fn items(&self) -> (items: &Vec<T>)
        ensures
            items@ == self.spec_items(),
    {
        &self.items
    }

    /// How many rows one item takes.
    #[verifier::when_used_as_spec(spec_step)]
    pub fn step(&self) -> (step: usize)
        ensures
            step == self.spec_step(),
    {
        self.step
    }

    /// Whether the selection may stand on the row after the last.
    #[verifier::when_used_as_spec(spec_scroll_past_list)]
    pub fn scroll_past_list(&self) -> (scroll: bool)
        ensures
            scroll == self.spec_scroll_past_list(),
    {
        self.scroll_past_list
    }

    /// Whether a move past the last item goes to the first row.
    #[verifier::when_used_as_spec(spec_wrap_past_end)]
    pub fn wrap_past_end(&self) -> (wrap: bool)
        ensures
            wrap == self.spec_wrap_past_end(),
    {
        !self.scroll_past_list
    }

    /// How many rows belong to whole items.
    fn row_count(&self) -> (rows: usize)
        requires
            self.spec_step() == 1 || self.spec_step() == 2,
        ensures
            rows == self.rows(),
            rows % self.spec_step() == 0,
            rows > 0 ==> rows >= self.spec_step(),
    {
        let len = self.items.len();
        let rows = if self.step == 1 {
            len
        } else {
            len - len % 2
        };
        proof {
            lemma_left_over(len as int, self.step as int);
            lemma_left_over(rows as int, self.step as int);
        }
        rows
    }

    /// The last row on which the selection can stand.
    fn stop(&self, rows: usize) -> (stop: usize)
        requires
            self.spec_step() == 1 || self.spec_step() == 2,
            rows == self.rows(),
            rows > 0,
            rows % self.spec_step() == 0,
        ensures
            stop == last_stop(rows as int, self.spec_step() as int, self.spec_scroll_past_list()),
            stop % self.spec_step() == 0,
    {
        proof {
            lemma_left_over(rows as int, self.step as int);
            lemma_left_over(rows - self.step, self.step as int);
        }
        if self.scroll_past_list {
            rows
        } else {
            rows - self.step
        }
    }

    /// Moves the selection down by one item. In a list without rows nothing is
    /// selected, before and after.
    pub fn next(&mut self)
        requires
            old(self).wf(),
        ensures
            final(self).wf(),
            final(self).spec_items() == old(self).spec_items(),
            final(self).spec_step() == old(self).spec_step(),
            final(self).spec_scroll_past_list() == old(self).spec_scroll_past_list(),
            final(self).spec_selected() == after_next(
                old(self).spec_selected(),
                old(self).rows(),
                old(self).spec_step() as int,
                old(self).spec_scroll_past_list(),
            ),
            old(self).rows() == 0 ==> final(self).spec_selected() == None::<usize>,
    {
        let rows = self.row_count();
        if rows == 0 {
            return ;
        }
        let stop = self.stop(rows);
        let row = match self.selected {
            Some(row) => {
                if row >= stop {
                    0
                } else if stop - row < self.step {
                    0
                } else {
                    row + self.step
                }
            },
            None => 0,
        };
        proof {
            lemma_left_over(row as int, self.step as int);
            lemma_left_over(stop as int, self.step as int);
            if old(self).spec_selected() is Some {
                lemma_left_over(old(self).spec_selected()->0 as int, self.step as int);
            }
        }
        self.selected = Some(row);
    }

    /// Moves the selection up by one item. In a list without rows nothing is
    /// selected, before and after.
    pub fn previous(&mut self)
        requires
            old(self).wf(),
        ensures
            final(self).wf(),
            final(self).spec_items() == old(self).spec_items(),
            final(self).spec_step() == old(self).spec_step(),
            final(self).spec_scroll_past_list() == old(self).spec_scroll_past_list(),
            final(self).spec_selected() == after_previous(
                old(self).spec_selected(),
                old(self).rows(),
                old(self).spec_step() as int,
                old(self).spec_scroll_past_list(),
            ),
            old(self).rows() == 0 ==> final(self).spec_selected() == None::<usize>,
    {
        let rows = self.row_count();
        if rows == 0 {
            return ;
        }
        let stop = self.stop(rows);
        let row = match self.selected {
            Some(row) => {
                if row == 0 {
                    stop
                } else {
                    row - self.step
                }
            },
            None => 0,
        };
        proof {
            lemma_left_over(row as int, self.step as int);
            lemma_left_over(stop as int, self.step as int);
            if old(self).spec_selected() is Some {
                lemma_left_over(old(self).spec_selected()->0 as int, self.step as int);
            }
        }
        self.selected = Some(row);
    }

    /// The index of the selected item, counted from 0: the selected row divided
    /// by the rows of one item. `None` where nothing is selected or the
    /// selection stands past the list.
    pub fn selected_item(&self) -> (item: Option<usize>)
        requires
            self.wf(),
        ensures
            item == item_at(self.spec_selected(), self.rows(), self.spec_step() as int),
            item matches Some(index) ==> index * self.spec_step() == self.spec_selected()->0
                && index * self.spec_step() + self.spec_step() <= self.spec_items().len(),
    {
        let rows = self.row_count();
        match self.selected {
            Some(row) => {
                if row < rows {
                    Some(row / self.step)
                } else {
                    None
                }
            },
            None => None,
        }
    }

    /// Puts other rows in place of the list's. The selection stays where it is
    /// if the new list has that stop, goes to the last stop if it stood beyond,
    /// and is dropped if the new list has no rows.
    pub fn set_items(&mut self, items: Vec<T>)
        requires
            old(self).wf(),
        ensures
            final(self).wf(),
            final(self).spec_items() == items@,
            final(self).spec_step() == old(self).spec_step(),
            final(self).spec_scroll_past_list() == old(self).spec_scroll_past_list(),
            final(self).spec_selected() == clamped(
                old(self).spec_selected(),
                final(self).rows(),
                old(self).spec_step() as int,
                old(self).spec_scroll_past_list(),
            ),
    {
        self.items = items;
        let rows = self.row_count();
        match self.selected {
            Some(row) => {
                if rows == 0 {
                    self.selected = None;
                } else {
                    let stop = self.stop(rows);
                    if row > stop {
                        self.selected = Some(stop);
                    }
                }
            },
            None => {},
        }
    }
}

/// A move keeps the selection on the first row of an item, or on the row after
/// the last where the list may be scrolled past: all three give a selection
/// that the list can have.
pub proof fn lemma_moves_stay_selectable(
    selected: Option<usize>,
    len: int,
    step: int,
    scroll_past_list: bool,
)
    requires
        step == 1 || step == 2,
        0 <= len <= usize::MAX,
        selectable(selected, whole_rows(len, step), step, scroll_past_list),
    ensures
        selectable(
            after_next(selected, whole_rows(len, step), step, scroll_past_list),
            whole_rows(len, step),
            step,
            scroll_past_list,
        ),
        selectable(
            after_previous(selected, whole_rows(len, step), step, scroll_past_list),
            whole_rows(len, step),
            step,
            scroll_past_list,
        ),
        selectable(
            clamped(selected, whole_rows(len, step), step, scroll_past_list),
            whole_rows(len, step),
            step,
            scroll_past_list,
        ),
{
    let rows = whole_rows(len, step);
    lemma_left_over(len, step);
    lemma_left_over(rows, step);
    lemma_left_over(rows - step, step);
    if selected is Some {
        let row = selected->0;
        lemma_left_over(row as int, step);
        lemma_left_over(row + step, step);
        lemma_left_over(row - step, step);
    }
}

/// Up undoes down, and down undoes up, once something is selected.
pub proof fn lemma_up_undoes_down(
    row: usize,
    len: int,
    step: int,
    scroll_past_list: bool,
)
    requires
        step == 1 || step == 2,
        0 <= len <= usize::MAX,
        selectable(Some(row), whole_rows(len, step), step, scroll_past_list),
    ensures
        after_previous(
            after_next(Some(row), whole_rows(len, step), step, scroll_past_list),
            whole_rows(len, step),
            step,
            scroll_past_list,
        ) == Some(row),
        after_next(
            after_previous(Some(row), whole_rows(len, step), step, scroll_past_list),
            whole_rows(len, step),
            step,
            scroll_past_list,
        ) == Some(row),
{
    let rows = whole_rows(len, step);
    lemma_left_over(len, step);
    lemma_left_over(rows, step);
    lemma_left_over(rows - step, step);
    lemma_left_over(row as int, step);
    lemma_left_over(row + step, step);
    lemma_left_over(row - step, step);
}

/// In a list without rows no move selects anything.
pub proof fn lemma_empty_list_selects_nothing(
    selected: Option<usize>,
    step: int,
    scroll_past_list: bool,
)
    requires
        selectable(selected, 0, step, scroll_past_list),
    ensures
        selected == None::<usize>,
        after_next(selected, 0, step, scroll_past_list) == None::<usize>,
        after_previous(selected, 0, step, scroll_past_list) == None::<usize>,
{
}

} // verus!
