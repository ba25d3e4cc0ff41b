//! One viewer: a table with its navigation, width, aggregation and input state.

use vstd::prelude::*;
use std::collections::HashMap;
use crate::aggregate::{AggregateValue, AggregationFunction, FUNCTION_COUNT, aggregate, function_at, function_index, is_aggregate_of};
use crate::selection::{FunctionSet, toggled_selection};
use crate::sort::{NumKey, sort_rows, sort_outcome};
use vstd::string::StringExecFns;
use crate::table::{TableData, VirtualTable};
use crate::width::{ColumnWidth, DEFAULT_FIXED_WIDTH, column_width, rendered_width, clamp_usize, toggled};
use crate::sort::sorted_by;

verus! {

broadcast use vstd::std_specs::hash::group_hash_axioms;

/// Columns taken by the frame around the grid.
pub const FRAME_WIDTH: usize = 2;

/// Where the viewer is in its key sequences.
#[derive(Clone, Copy, Debug, PartialEq, Eq, Structural)]
pub enum InputMode {
    Normal,
    /// The chord prefix was pressed; the next key completes or abandons it.
    ChordPending,
    /// The aggregation popup is open, its cursor on function `cursor`.
    PopupOpen { cursor: usize },
}

/// A key press.
#[derive(Clone, Copy, Debug, PartialEq, Eq, Structural)]
pub enum Key {
    Up,
    Down,
    Left,
    Right,
    Enter,
    Char(char),
    Other,
}

/// What one poll of the input gave.
#[derive(Clone, Copy, Debug, PartialEq, Eq, Structural)]
pub enum InputEvent {
    Key(Key),
    /// No key within the poll interval, or an event that is not a key.
    NoKey,
}

/// What the caller is asked to do after an event.
#[derive(Clone, Copy, Debug, PartialEq, Eq, Structural)]
pub enum Action {
    Continue,
    /// Sort the rows by the selected column.
    Sort { ascending: bool },
    /// Open a detail view of the selected row above this viewer.
    OpenDetail,
    /// Close this viewer.
    Quit,
}

/// Starts a two-key chord.
pub const CHORD_PREFIX: char = 'g';
/// Completes a chord: clears every aggregation selection.
pub const CLEAR_AGGREGATIONS_KEY: char = '-';
/// Toggles the selected column's width; completing a chord, every column's.
pub const WIDTH_KEY: char = '_';
pub const SORT_ASCENDING_KEY: char = '[';
pub const SORT_DESCENDING_KEY: char = ']';
/// Opens the aggregation popup; inside it, toggles the function under the cursor.
pub const POPUP_KEY: char = ' ';
/// Closes the viewer; inside the popup, closes the popup.
pub const QUIT_KEY: char = 'q';

/// A table and the state of its viewer.
pub struct TuiApp {
    pub table: VirtualTable,
    pub selected_row: usize,
    pub selected_column: usize,
    pub mode: InputMode,
    pub selected_aggregations: HashMap<usize, FunctionSet>,
    pub column_widths: Vec<ColumnWidth>,
    pub horizontal_offset: usize,
    pub table_area_width: usize,
}

/// Start of column `i` in a row of columns of widths `w`, one separator after each.
pub open spec fn span_start(w: Seq<int>, i: int) -> int
    decreases i,
{
    if i <= 0 {
        0
    } else {
        span_start(w, i - 1) + w[i - 1] + 1
    }
}

/// The new horizontal offset that brings the span `[s, s + w)` into the
/// window of width `v` at `off`, moving it as little as possible.
pub open spec fn scrolled_offset(off: int, s: int, w: int, v: int) -> int {
    if s < off {
        s
    } else if s + w > off + v {
        s + w - v
    } else {
        off
    }
}

/// The start of a column never lies before the start of an earlier one.
pub proof fn lemma_span_start_monotone(w: Seq<int>, i: int, j: int)
    requires
        0 <= i <= j <= w.len(),
        forall|k: int| 0 <= k < w.len() ==> #[trigger] w[k] >= 0,
    ensures
        span_start(w, i) <= span_start(w, j),
        j < w.len() ==> span_start(w, i) <= span_start(w, j) + w[j],
    decreases j - i,
{
    if i < j {
        lemma_span_start_monotone(w, i, j - 1);
    }
}

/// The horizontal offset that `adjust_horizontal_offset` gives on `a`.
pub open spec fn adjusted_offset(a: TuiApp) -> int {
    let w = a.widths();
    let c = a.selected_column as int;
    if a.cols() > 0 && span_start(w, c) + w[c] < usize::MAX {
        scrolled_offset(a.horizontal_offset as int, span_start(w, c), w[c], a.visible_width())
    } else {
        a.horizontal_offset as int
    }
}

/// Effect of key `k` on a viewer in normal mode, from `a` to `b`, with the
/// action `act` asked of the caller.
pub open spec fn normal_key_outcome(a: TuiApp, b: TuiApp, k: Key, act: Action) -> bool {
    match k {
        Key::Up => act == Action::Continue && b == TuiApp {
            selected_row: if a.selected_row > 0 { (a.selected_row - 1) as usize } else { a.selected_row },
            ..a
        },
        Key::Down => act == Action::Continue && b == TuiApp {
            selected_row: if a.selected_row + 1 < a.rows() { (a.selected_row + 1) as usize } else { a.selected_row },
            ..a
        },
        Key::Left => {
            let moved = TuiApp {
                selected_column: if a.selected_column > 0 { (a.selected_column - 1) as usize } else { a.selected_column },
                ..a
            };
            act == Action::Continue && b == TuiApp { horizontal_offset: b.horizontal_offset, ..moved }
                && b.horizontal_offset as int == adjusted_offset(moved)
        },
        Key::Right => {
            let moved = TuiApp {
                selected_column: if a.selected_column + 1 < a.cols() { (a.selected_column + 1) as usize } else { a.selected_column },
                ..a
            };
            act == Action::Continue && b == TuiApp { horizontal_offset: b.horizontal_offset, ..moved }
                && b.horizontal_offset as int == adjusted_offset(moved)
        },
        Key::Enter => b == a && act == if a.has_detail() { Action::OpenDetail } else { Action::Continue },
        Key::Char(c) => if c == CHORD_PREFIX {
            act == Action::Continue && b == TuiApp { mode: InputMode::ChordPending, ..a }
        } else if c == WIDTH_KEY {
            act == Action::Continue && b == TuiApp { column_widths: b.column_widths, ..a }
                && b.column_widths@ == if a.cols() > 0 {
                    a.column_widths@.update(a.selected_column as int, toggled(a.column_widths@[a.selected_column as int]))
                } else {
                    a.column_widths@
                }
        } else if c == SORT_ASCENDING_KEY {
            b == a && act == if a.cols() > 0 { Action::Sort { ascending: true } } else { Action::Continue }
        } else if c == SORT_DESCENDING_KEY {
            b == a && act == if a.cols() > 0 { Action::Sort { ascending: false } } else { Action::Continue }
        } else if c == POPUP_KEY {
            act == Action::Continue && b == TuiApp { mode: InputMode::PopupOpen { cursor: 0 }, ..a }
        } else if c == QUIT_KEY {
            b == a && act == Action::Quit
        } else {
            b == a && act == Action::Continue
        },
        Key::Other => b == a && act == Action::Continue,
    }
}

/// Effect of event `ev` on a viewer whose chord prefix is pending.
pub open spec fn chord_outcome(a: TuiApp, b: TuiApp, ev: InputEvent) -> bool {
    if ev == InputEvent::Key(Key::Char(CLEAR_AGGREGATIONS_KEY)) {
        b == TuiApp { mode: InputMode::Normal, selected_aggregations: b.selected_aggregations, ..a }
            && b.selections() == Map::<usize, Set<AggregationFunction>>::empty()
    } else if ev == InputEvent::Key(Key::Char(WIDTH_KEY)) {
        b == TuiApp { mode: InputMode::Normal, column_widths: b.column_widths, ..a }
            && b.column_widths@ == a.column_widths@.map_values(|w: ColumnWidth| toggled(w))
    } else {
        b == TuiApp { mode: InputMode::Normal, ..a }
    }
}

/// Effect of event `ev` on a viewer whose popup is open with its cursor on `cursor`.
pub open spec fn popup_outcome(a: TuiApp, b: TuiApp, cursor: usize, ev: InputEvent) -> bool {
    match ev {
        InputEvent::Key(Key::Up) => b == TuiApp {
            mode: InputMode::PopupOpen { cursor: if cursor == 0 { (FUNCTION_COUNT - 1) as usize } else { (cursor - 1) as usize } },
            ..a
        },
        InputEvent::Key(Key::Down) => b == TuiApp {
            mode: InputMode::PopupOpen { cursor: if cursor + 1 >= FUNCTION_COUNT { 0 } else { (cursor + 1) as usize } },
            ..a
        },
        InputEvent::Key(Key::Char(c)) => if c == POPUP_KEY {
            b == TuiApp { selected_aggregations: b.selected_aggregations, ..a }
                && b.selections() == if a.cols() > 0 {
                    toggled_selection(a.selections(), a.selected_column, function_at(cursor as nat))
                } else {
                    a.selections()
                }
        } else if c == QUIT_KEY {
            b == TuiApp { mode: InputMode::Normal, ..a }
        } else {
            b == a
        },
        InputEvent::Key(Key::Enter) => b == TuiApp { mode: InputMode::Normal, ..a },
        _ => b == a,
    }
}

/// Effect of event `ev` on viewer `a`, giving `b` and the action `act`.
pub open spec fn event_outcome(a: TuiApp, b: TuiApp, ev: InputEvent, act: Action) -> bool {
    match a.mode {
        InputMode::Normal => match ev {
            InputEvent::Key(k) => normal_key_outcome(a, b, k, act),
            InputEvent::NoKey => b == a && act == Action::Continue,
        },
        InputMode::ChordPending => chord_outcome(a, b, ev) && act == Action::Continue,
        InputMode::PopupOpen { cursor } => popup_outcome(a, b, cursor, ev) && act == Action::Continue,
    }
}

/// The text "Field".
pub open spec fn field_text() -> Seq<char> {
    seq!['F', 'i', 'e', 'l', 'd']
}

/// The text "Value".
pub open spec fn value_text() -> Seq<char> {
    seq!['V', 'a', 'l', 'u', 'e']
}

/// `child` is a fresh viewer on the detail table of `parent`'s selected row:
/// columns "Field" and "Value", row `i` holding the name of column `i` of the
/// parent and its cell in the selected row.
pub open spec fn is_detail_of(parent: TuiApp, child: TuiApp) -> bool {
    &&& child.is_fresh(child.table)
    &&& child.table.data.header_text() == seq![field_text(), value_text()]
    &&& child.table.data.columns@.len() == 2
    &&& child.table.data.column_text(0) == parent.table.data.header_text()
    &&& child.table.data.column_text(1) == Seq::new(
        parent.cols(),
        |c: int| parent.table.data.cell(c, parent.selected_row as int),
    )
}

impl TuiApp {
    /// Number of rows of the table.
    pub open spec fn rows(&self) -> nat {
        self.table.data.num_rows()
    }

    /// Number of columns of the table.
    pub open spec fn cols(&self) -> nat {
        self.table.data.num_cols()
    }

    /// The selection has a detail view: a selected row, or no columns at all
    /// (the detail table is then empty).
    pub open spec fn has_detail(&self) -> bool {
        self.cols() == 0 || self.rows() > 0
    }

    /// The requested aggregation functions of each column.
    pub open spec fn selections(&self) -> Map<usize, Set<AggregationFunction>> {
        self.selected_aggregations@.map_values(|s: FunctionSet| s@)
    }

    /// Rendered width of every column.
    pub open spec fn widths(&self) -> Seq<int> {
        Seq::new(self.cols(), |i: int| rendered_width(self.column_widths@[i], self.table.data.column_text(i)))
    }

    /// Width of the grid's window onto the columns.
    pub open spec fn visible_width(&self) -> int {
        if self.table_area_width >= FRAME_WIDTH {
            self.table_area_width - FRAME_WIDTH
        } else {
            0
        }
    }

    /// Every column's span ends within `usize::MAX`.
    pub open spec fn spans_fit(&self) -> bool {
        span_start(self.widths(), self.cols() as int) <= usize::MAX
    }

    /// The selection lies in the table, each column has a width policy, and
    /// every entry of the selection map names a column and a non-empty set.
    pub open spec fn wf(&self) -> bool {
        &&& self.table.data.wf()
        &&& self.column_widths@.len() == self.cols()
        &&& if self.rows() > 0 { self.selected_row < self.rows() } else { self.selected_row == 0 }
        &&& if self.cols() > 0 { self.selected_column < self.cols() } else { self.selected_column == 0 }
        &&& (self.mode matches InputMode::PopupOpen { cursor } ==> cursor < FUNCTION_COUNT)
        &&& forall|k: usize| #[trigger] self.selected_aggregations@.contains_key(k) ==> k < self.cols()
            && self.selected_aggregations@[k]@ != Set::<AggregationFunction>::empty()
    }

    /// The state of a viewer that has just been opened on `table`.
    pub open spec fn is_fresh(&self, table: VirtualTable) -> bool {
        &&& self.table == table
        &&& self.selected_row == 0
        &&& self.selected_column == 0
        &&& self.mode == InputMode::Normal
        &&& self.selected_aggregations@ == Map::<usize, FunctionSet>::empty()
        &&& self.column_widths@ == Seq::new(table.data.num_cols(), |i: int| ColumnWidth::Fixed(DEFAULT_FIXED_WIDTH))
        &&& self.horizontal_offset == 0
        &&& self.table_area_width == 0
    }

    /// A viewer on `table`, at its first cell, every column fixed at the default width.
    pub fn new(table: VirtualTable) -> (r: Self)
        requires
            table.data.wf(),
        ensures
            r.wf(),
            r.is_fresh(table),
    {
        let n = table.data.headers.len();
        let mut column_widths: Vec<ColumnWidth> = Vec::new();
        let mut i: usize = 0;
        while i < n
            invariant
                i <= n,
                column_widths@ == Seq::new(i as nat, |k: int| ColumnWidth::Fixed(DEFAULT_FIXED_WIDTH)),
            decreases n - i,
        {
            column_widths.push(ColumnWidth::Fixed(DEFAULT_FIXED_WIDTH));
            i += 1;
            assert(column_widths@ =~= Seq::new(i as nat, |k: int| ColumnWidth::Fixed(DEFAULT_FIXED_WIDTH)));
        }
        let r = TuiApp {
            table,
            selected_row: 0,
            selected_column: 0,
            mode: InputMode::Normal,
            selected_aggregations: HashMap::new(),
            column_widths,
            horizontal_offset: 0,
            table_area_width: 0,
        };
        r
    }

    /// Number of rows of the table.
    pub fn row_count(&self) -> (n: usize)
        ensures
            n == self.rows(),
    {
        self.table.data.row_count()
    }

    /// Rendered width of column `index`; a width beyond `usize::MAX` is given as `usize::MAX`.
    pub fn get_column_width(&self, index: usize) -> (r: usize)
        requires
            self.wf(),
            index < self.cols(),
        ensures
            r as int == clamp_usize(self.widths()[index as int]),
    {
        column_width(self.column_widths[index], &self.table.data.columns[index])
    }

    /// Rendered widths are never negative.
    pub proof fn lemma_widths_nonnegative(&self)
        ensures
            forall|i: int| 0 <= i < self.cols() ==> #[trigger] self.widths()[i] >= 0,
    {
    }

    /// Scrolls horizontally so that the selected column's span lies in the
    /// window, moving as little as possible. Where that span would not end
    /// below `usize::MAX`, the offset stays.
    pub fn adjust_horizontal_offset(&mut self)
        requires
            old(self).wf(),
        ensures
            final(self).wf(),
            *final(self) == (TuiApp { horizontal_offset: final(self).horizontal_offset, ..*old(self) }),
            final(self).horizontal_offset as int == adjusted_offset(*old(self)),
    {
        let n = self.table.data.headers.len();
        if n == 0 {
            return;
        }
        let ghost w = self.widths();
        proof {
            self.lemma_widths_nonnegative();
        }
        let c = self.selected_column;
        let mut start: usize = 0;
        let mut i: usize = 0;
        while i < c
            invariant
                self.wf(),
                w == self.widths(),
                c == self.selected_column,
                c < self.cols(),
                i <= c,
                start as int == span_start(w, i as int),
                forall|k: int| 0 <= k < self.cols() ==> #[trigger] w[k] >= 0,
            decreases c - i,
        {
            let cw = self.get_column_width(i);
            match start.checked_add(cw) {
                Some(x) => match x.checked_add(1) {
                    Some(y) => {
                        start = y;
                    },
                    None => {
                        proof {
                            lemma_span_start_monotone(w, i as int + 1, c as int);
                        }
                        return;
                    },
                },
                None => {
                    proof {
                        lemma_span_start_monotone(w, i as int + 1, c as int);
                    }
                    return;
                },
            }
            i += 1;
        }
        let cw = self.get_column_width(c);
        if cw == usize::MAX {
            return;
        }
        let end = match start.checked_add(cw) {
            Some(e) => e,
            None => {
                return;
            },
        };
        if end == usize::MAX {
            return;
        }
        let visible = self.table_area_width.saturating_sub(FRAME_WIDTH);
        if start < self.horizontal_offset {
            self.horizontal_offset = start;
        } else if end > visible && end - visible > self.horizontal_offset {
            self.horizontal_offset = end - visible;
        }
    }

    /// Sets the width of the grid's area and scrolls the selected column into view.
    pub fn set_table_area_width(&mut self, width: usize)
        requires
            old(self).wf(),
        ensures
            final(self).wf(),
            *final(self) == (TuiApp { horizontal_offset: final(self).horizontal_offset, table_area_width: width, ..*old(self) }),
            final(self).horizontal_offset as int == adjusted_offset(TuiApp { table_area_width: width, ..*old(self) }),
    {
        self.table_area_width = width;
        self.adjust_horizontal_offset();
    }

    /// Toggles the width policy of the selected column (nothing without columns).
    fn toggle_selected_column_width(&mut self)
        requires
            old(self).wf(),
        ensures
            final(self).wf(),
            *final(self) == (TuiApp { column_widths: final(self).column_widths, ..*old(self) }),
            final(self).column_widths@ == if old(self).cols() > 0 {
                old(self).column_widths@.update(old(self).selected_column as int, toggled(old(self).column_widths@[old(self).selected_column as int]))
            } else {
                old(self).column_widths@
            },
    {
        let c = self.selected_column;
        if c < self.column_widths.len() {
            let w = self.column_widths[c].toggle();
            self.column_widths.set(c, w);
        }
    }

    /// Toggles the width policy of every column.
    pub fn toggle_all_widths(&mut self)
        requires
            old(self).wf(),
        ensures
            final(self).wf(),
            *final(self) == (TuiApp { column_widths: final(self).column_widths, ..*old(self) }),
            final(self).column_widths@ == old(self).column_widths@.map_values(|w: ColumnWidth| toggled(w)),
    {
        let ghost before = self.column_widths@;
        let mut i: usize = 0;
        while i < self.column_widths.len()
            invariant
                i <= self.column_widths@.len(),
                self.column_widths@.len() == before.len(),
                forall|k: int| 0 <= k < i ==> #[trigger] self.column_widths@[k] == toggled(before[k]),
                forall|k: int| i <= k < before.len() ==> #[trigger] self.column_widths@[k] == before[k],
                *self == (TuiApp { column_widths: self.column_widths, ..*old(self) }),
                old(self).column_widths@ == before,
            decreases before.len() - i,
        {
            let w = self.column_widths[i].toggle();
            self.column_widths.set(i, w);
            i += 1;
        }
        assert(self.column_widths@ =~= before.map_values(|w: ColumnWidth| toggled(w)));
    }

    /// Removes every aggregation selection.
    pub fn clear_aggregations(&mut self)
        requires
            old(self).wf(),
        ensures
            final(self).wf(),
            *final(self) == (TuiApp { selected_aggregations: final(self).selected_aggregations, ..*old(self) }),
            final(self).selections() == Map::<usize, Set<AggregationFunction>>::empty(),
    {
        self.selected_aggregations.clear();
        assert(self.selections() =~= Map::<usize, Set<AggregationFunction>>::empty());
    }

    /// Adds `f` to the selection of the selected column, or removes it if it
    /// is there; a column whose selection becomes empty leaves the map.
    /// Nothing happens without columns.
    pub fn toggle_aggregation(&mut self, f: AggregationFunction)
        requires
            old(self).wf(),
        ensures
            final(self).wf(),
            *final(self) == (TuiApp { selected_aggregations: final(self).selected_aggregations, ..*old(self) }),
            final(self).selections() == if old(self).cols() > 0 {
                toggled_selection(old(self).selections(), old(self).selected_column, f)
            } else {
                old(self).selections()
            },
    {
        if self.table.data.headers.len() == 0 {
            return;
        }
        let col = self.selected_column;
        let ghost m = self.selections();
        let current = match self.selected_aggregations.get(&col) {
            Some(s) => *s,
            None => FunctionSet::empty(),
        };
        assert(current@ == if m.contains_key(col) { m[col] } else { Set::<AggregationFunction>::empty() });
        let next = current.toggle(f);
        if next.is_empty() {
            self.selected_aggregations.remove(&col);
            assert(self.selections() =~= m.remove(col));
        } else {
            self.selected_aggregations.insert(col, next);
            assert(self.selections() =~= m.insert(col, next@));
        }
    }

    /// Sorts every row by the selected column, with `keys` the numeric reading
    /// of each of its cells, and selects the first row.
    pub fn sort_table(&mut self, ascending: bool, keys: &Vec<Option<NumKey>>)
        requires
            old(self).wf(),
            old(self).cols() > 0,
            keys@.len() == old(self).rows(),
        ensures
            final(self).wf(),
            *final(self) == (TuiApp { table: final(self).table, selected_row: 0, ..*old(self) }),
            exists|p: Seq<int>| sort_outcome(old(self).table.data, final(self).table.data, old(self).selected_column as int, keys@, ascending, p),
            ascending && sorted_by(old(self).table.data, old(self).selected_column as int, keys@, true) ==> forall|c: int, r: int|
                0 <= c < old(self).cols() && 0 <= r < old(self).rows() ==> #[trigger] final(self).table.data.cell(c, r) == old(self).table.data.cell(c, r),
    {
        sort_rows(&mut self.table.data, self.selected_column, keys, ascending);
        self.selected_row = 0;
        proof {
            let p = choose|p: Seq<int>| sort_outcome(old(self).table.data, self.table.data, self.selected_column as int, keys@, ascending, p);
            assert(sort_outcome(old(self).table.data, self.table.data, old(self).selected_column as int, keys@, ascending, p));
        }
    }

    /// A fresh viewer on the detail table of the selected row.
    pub fn open_detail_view(&self) -> (r: TuiApp)
        requires
            self.wf(),
            self.has_detail(),
        ensures
            r.wf(),
            is_detail_of(*self, r),
    {
        let row = self.selected_row;
        let n = self.table.data.headers.len();
        let mut fields: Vec<String> = Vec::new();
        let mut values: Vec<String> = Vec::new();
        let mut c: usize = 0;
        while c < n
            invariant
                self.wf(),
                n == self.cols(),
                n == 0 || row < self.rows(),
                c <= n,
                fields@.len() == c,
                values@.len() == c,
                forall|k: int| 0 <= k < c ==> #[trigger] fields@[k]@ == self.table.data.headers@[k]@,
                forall|k: int| 0 <= k < c ==> #[trigger] values@[k]@ == self.table.data.cell(k, row as int),
            decreases n - c,
        {
            fields.push(self.table.data.headers[c].clone());
            values.push(self.table.data.columns[c][row].clone());
            c += 1;
        }
        proof {
            reveal_strlit("Field");
            reveal_strlit("Value");
        }
        let mut headers: Vec<String> = Vec::new();
        let field = String::from_str("Field");
        let value = String::from_str("Value");
        assert(field@ =~= field_text());
        assert(value@ =~= value_text());
        headers.push(field);
        headers.push(value);
        let mut columns: Vec<Vec<String>> = Vec::new();
        columns.push(fields);
        columns.push(values);
        let data = TableData::new(headers, columns);
        proof {
            assert(data.header_text() =~= seq![field_text(), value_text()]);
            assert(data.column_text(0) =~= self.table.data.header_text());
            assert(data.column_text(1) =~= Seq::new(self.cols(), |k: int| self.table.data.cell(k, row as int)));
        }
        TuiApp::new(VirtualTable::new(data))
    }

    /// Handles a key in normal mode.
    fn handle_normal_key(&mut self, k: Key) -> (act: Action)
        requires
            old(self).wf(),
            old(self).mode == InputMode::Normal,
        ensures
            final(self).wf(),
            normal_key_outcome(*old(self), *final(self), k, act),
    {
        match k {
            Key::Up => {
                if self.selected_row > 0 {
                    self.selected_row -= 1;
                }
                Action::Continue
            },
            Key::Down => {
                let n = self.row_count();
                if n > 0 && self.selected_row < n - 1 {
                    self.selected_row += 1;
                }
                Action::Continue
            },
            Key::Left => {
                if self.selected_column > 0 {
                    self.selected_column -= 1;
                }
                self.adjust_horizontal_offset();
                Action::Continue
            },
            Key::Right => {
                let n = self.table.data.headers.len();
                if n > 0 && self.selected_column < n - 1 {
                    self.selected_column += 1;
                }
                self.adjust_horizontal_offset();
                Action::Continue
            },
            Key::Enter => {
                if self.table.data.headers.len() == 0 || self.row_count() > 0 {
                    Action::OpenDetail
                } else {
                    Action::Continue
                }
            },
            Key::Char(c) => {
                if c == CHORD_PREFIX {
                    self.mode = InputMode::ChordPending;
                    Action::Continue
                } else if c == WIDTH_KEY {
                    self.toggle_selected_column_width();
                    Action::Continue
                } else if c == SORT_ASCENDING_KEY || c == SORT_DESCENDING_KEY {
                    if self.table.data.headers.len() > 0 {
                        Action::Sort { ascending: c == SORT_ASCENDING_KEY }
                    } else {
                        Action::Continue
                    }
                } else if c == POPUP_KEY {
                    self.mode = InputMode::PopupOpen { cursor: 0 };
                    Action::Continue
                } else if c == QUIT_KEY {
                    Action::Quit
                } else {
                    Action::Continue
                }
            },
            Key::Other => Action::Continue,
        }
    }

    /// Handles an event while the chord prefix is pending: a completing key
    /// applies its command, anything else abandons the chord.
    fn handle_chord_event(&mut self, ev: InputEvent)
        requires
            old(self).wf(),
            old(self).mode == InputMode::ChordPending,
        ensures
            final(self).wf(),
            chord_outcome(*old(self), *final(self), ev),
    {
        self.mode = InputMode::Normal;
        match ev {
            InputEvent::Key(Key::Char(c)) => {
                if c == CLEAR_AGGREGATIONS_KEY {
                    self.clear_aggregations();
                } else if c == WIDTH_KEY {
                    self.toggle_all_widths();
                }
            },
            _ => {},
        }
    }

    /// Handles an event while the aggregation popup is open.
    fn handle_popup_event(&mut self, cursor: usize, ev: InputEvent)
        requires
            old(self).wf(),
            old(self).mode == (InputMode::PopupOpen { cursor }),
        ensures
            final(self).wf(),
            popup_outcome(*old(self), *final(self), cursor, ev),
    {
        match ev {
            InputEvent::Key(Key::Up) => {
                let next = if cursor == 0 { FUNCTION_COUNT - 1 } else { cursor - 1 };
                self.mode = InputMode::PopupOpen { cursor: next };
            },
            InputEvent::Key(Key::Down) => {
                let next = if cursor + 1 >= FUNCTION_COUNT { 0 } else { cursor + 1 };
                self.mode = InputMode::PopupOpen { cursor: next };
            },
            InputEvent::Key(Key::Char(c)) => {
                if c == POPUP_KEY {
                    self.toggle_aggregation(AggregationFunction::from_index(cursor));
                } else if c == QUIT_KEY {
                    self.mode = InputMode::Normal;
                }
            },
            InputEvent::Key(Key::Enter) => {
                self.mode = InputMode::Normal;
            },
            _ => {},
        }
    }

    /// Applies one input event and says what the caller is to do next.
    pub fn handle_event(&mut self, ev: InputEvent) -> (act: Action)
        requires
            old(self).wf(),
        ensures
            final(self).wf(),
            event_outcome(*old(self), *final(self), ev, act),
    {
        match self.mode {
            InputMode::PopupOpen { cursor } => {
                self.handle_popup_event(cursor, ev);
                Action::Continue
            },
            InputMode::ChordPending => {
                self.handle_chord_event(ev);
                Action::Continue
            },
            InputMode::Normal => match ev {
                InputEvent::Key(k) => self.handle_normal_key(k),
                InputEvent::NoKey => Action::Continue,
            },
        }
    }

    /// What the aggregation panel shows for column `col` and function `f`,
    /// with `keys` the numeric reading of each cell of that column:
    /// `NotApplicable`, shown as the placeholder, where `f` is not requested
    /// for `col`; else the result of `f`.
    pub fn panel_cell(&self, col: usize, f: AggregationFunction, keys: &Vec<Option<NumKey>>) -> (r: AggregateValue)
        requires
            self.wf(),
            col < self.cols(),
            keys@.len() == self.rows(),
        ensures
            !(self.selections().contains_key(col) && self.selections()[col].contains(f)) ==> r == AggregateValue::NotApplicable,
            self.selections().contains_key(col) && self.selections()[col].contains(f) ==> is_aggregate_of(
                r,
                self.table.data,
                col as int,
                f,
                keys@,
            ),
    {
        if self.is_aggregation_selected(col, f) {
            aggregate(&self.table.data, col, f, keys)
        } else {
            AggregateValue::NotApplicable
        }
    }

    /// The first column whose span starts at or after the horizontal offset;
    /// the grid is drawn from there. It is the number of columns where every
    /// span starts before the offset.
    pub fn first_visible_column(&self) -> (r: usize)
        requires
            self.wf(),
        ensures
            r <= self.cols(),
            forall|i: int| 0 <= i < r ==> #[trigger] span_start(self.widths(), i) < self.horizontal_offset,
            r < self.cols() ==> span_start(self.widths(), r as int) >= self.horizontal_offset,
    {
        let n = self.table.data.headers.len();
        let ghost w = self.widths();
        proof {
            self.lemma_widths_nonnegative();
        }
        let mut start: usize = 0;
        let mut i: usize = 0;
        while i < n && start < self.horizontal_offset
            invariant
                self.wf(),
                n == self.cols(),
                w == self.widths(),
                i <= n,
                start as int == span_start(w, i as int),
                forall|k: int| 0 <= k < i ==> #[trigger] span_start(w, k) < self.horizontal_offset,
                forall|k: int| 0 <= k < self.cols() ==> #[trigger] w[k] >= 0,
            decreases n - i,
        {
            let cw = self.get_column_width(i);
            match start.checked_add(cw) {
                Some(x) => match x.checked_add(1) {
                    Some(y) => {
                        start = y;
                    },
                    None => {
                        return i + 1;
                    },
                },
                None => {
                    return i + 1;
                },
            }
            i += 1;
        }
        i
    }

    /// Whether the aggregation panel is shown: some column has a selection.
    pub fn shows_panel(&self) -> (r: bool)
        ensures
            r == (self.selections().dom() != Set::<usize>::empty()),
    {
        let r = !self.selected_aggregations.is_empty();
        assert(self.selections().dom() =~= self.selected_aggregations@.dom());
        proof {
            if !r {
                assert(self.selected_aggregations@.dom() =~= Set::<usize>::empty());
            }
        }
        r
    }

    /// Whether the header of column `col` is highlighted: it is the selected column.
    pub fn is_header_highlighted(&self, col: usize) -> (r: bool)
        ensures
            r == (col == self.selected_column),
    {
        col == self.selected_column
    }

    /// Whether the cell at `row`, `col` is highlighted: it is the selected cell.
    pub fn is_cell_highlighted(&self, row: usize, col: usize) -> (r: bool)
        ensures
            r == (row == self.selected_row && col == self.selected_column),
    {
        row == self.selected_row && col == self.selected_column
    }

    /// Whether `f` is requested for column `col`.
    pub fn is_aggregation_selected(&self, col: usize, f: AggregationFunction) -> (r: bool)
        ensures
            r == (self.selections().contains_key(col) && self.selections()[col].contains(f)),
    {
        match self.selected_aggregations.get(&col) {
            Some(set) => set.contains(f),
            None => false,
        }
    }

    /// The columns of the aggregation panel: those with a selection, in
    /// increasing order.
    pub fn panel_columns(&self) -> (r: Vec<usize>)
        requires
            self.wf(),
        ensures
            forall|i: int, j: int| 0 <= i < j < r@.len() ==> r@[i] < r@[j],
            forall|c: usize| r@.contains(c) <==> self.selections().contains_key(c),
    {
        let n = self.table.data.headers.len();
        let mut r: Vec<usize> = Vec::new();
        let mut c: usize = 0;
        while c < n
            invariant
                self.wf(),
                n == self.cols(),
                c <= n,
                forall|i: int, j: int| 0 <= i < j < r@.len() ==> r@[i] < r@[j],
                forall|i: int| 0 <= i < r@.len() ==> r@[i] < c,
                forall|k: usize| k < c ==> (r@.contains(k) <==> self.selections().contains_key(k)),
            decreases n - c,
        {
            let ghost before = r@;
            if self.selected_aggregations.contains_key(&c) {
                r.push(c);
                assert forall|k: usize| k < c + 1 implies (r@.contains(k) <==> self.selections().contains_key(k)) by {
                    if k < c && before.contains(k) {
                        let i = choose|i: int| 0 <= i < before.len() && before[i] == k;
                        assert(r@[i] == k);
                    }
                    if r@.contains(k) && k < c {
                        let i = choose|i: int| 0 <= i < r@.len() && r@[i] == k;
                        assert(i < before.len());
                        assert(before.contains(k));
                    }
                    if k == c {
                        assert(r@[before.len() as int] == k);
                    }
                }
            } else {
                assert forall|k: usize| k < c + 1 implies (r@.contains(k) <==> self.selections().contains_key(k)) by {
                    if k == c && r@.contains(k) {
                        let i = choose|i: int| 0 <= i < r@.len() && r@[i] == k;
                    }
                }
            }
            c += 1;
        }
        proof {
            assert forall|k: usize| r@.contains(k) <==> self.selections().contains_key(k) by {
                if r@.contains(k) {
                    let i = choose|i: int| 0 <= i < r@.len() && r@[i] == k;
                }
            }
        }
        r
    }

    /// The functions of the aggregation panel: those requested for at least
    /// one column, in their fixed order.
    pub fn panel_functions(&self) -> (r: Vec<AggregationFunction>)
        requires
            self.wf(),
        ensures
            forall|i: int, j: int| 0 <= i < j < r@.len() ==> function_index(r@[i]) < function_index(r@[j]),
            forall|f: AggregationFunction| r@.contains(f) <==> exists|c: usize|
                #[trigger] self.selections().contains_key(c) && self.selections()[c].contains(f),
    {
        let n = self.table.data.headers.len();
        let mut r: Vec<AggregationFunction> = Vec::new();
        let mut i: usize = 0;
        while i < FUNCTION_COUNT
            invariant
                self.wf(),
                n == self.cols(),
                i <= FUNCTION_COUNT,
                forall|a: int, b: int| 0 <= a < b < r@.len() ==> function_index(r@[a]) < function_index(r@[b]),
                forall|a: int| 0 <= a < r@.len() ==> function_index(r@[a]) < i,
                forall|f: AggregationFunction| function_index(f) < i ==> (r@.contains(f) <==> exists|c: usize|
                    #[trigger] self.selections().contains_key(c) && self.selections()[c].contains(f)),
            decreases FUNCTION_COUNT - i,
        {
            let f = AggregationFunction::from_index(i);
            let mut used = false;
            let mut c: usize = 0;
            while c < n
                invariant
                    self.wf(),
                    n == self.cols(),
                    c <= n,
                    used <==> exists|k: usize| k < c && #[trigger] self.selections().contains_key(k) && self.selections()[k].contains(f),
                decreases n - c,
            {
                if self.is_aggregation_selected(c, f) {
                    used = true;
                }
                c += 1;
            }
            proof {
                if exists|k: usize| #[trigger] self.selections().contains_key(k) && self.selections()[k].contains(f) {
                    let k = choose|k: usize| #[trigger] self.selections().contains_key(k) && self.selections()[k].contains(f);
                    assert(self.selected_aggregations@.contains_key(k));
                    assert(k < n);
                }
            }
            let ghost before = r@;
            if used {
                r.push(f);
            }
            proof {
                assert forall|g: AggregationFunction| function_index(g) < i + 1 implies (r@.contains(g) <==> exists|c: usize|
                    #[trigger] self.selections().contains_key(c) && self.selections()[c].contains(g)) by {
                    if function_index(g) < i {
                        if before.contains(g) {
                            let a = choose|a: int| 0 <= a < before.len() && before[a] == g;
                            assert(r@[a] == g);
                        }
                        if r@.contains(g) {
                            let a = choose|a: int| 0 <= a < r@.len() && r@[a] == g;
                            if a == before.len() {
                                assert(function_index(g) == i);
                            }
                            assert(before[a] == g);
                        }
                    } else {
                        assert(g == f);
                        if used {
                            assert(r@[before.len() as int] == g);
                        } else if r@.contains(g) {
                            let a = choose|a: int| 0 <= a < r@.len() && r@[a] == g;
                            assert(function_index(before[a]) < i);
                        }
                    }
                }
            }
            i += 1;
        }
        proof {
            assert forall|f: AggregationFunction| r@.contains(f) <==> exists|c: usize|
                #[trigger] self.selections().contains_key(c) && self.selections()[c].contains(f) by {
                assert(function_index(f) < FUNCTION_COUNT);
            }
        }
        r
    }
}

} // verus!
