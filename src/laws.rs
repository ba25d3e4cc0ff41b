//! Properties that relate several operations of the engine.

use vstd::prelude::*;
use std::cmp::Ordering;
use crate::aggregate::{AggregationFunction, aggregate_text, distinct_count};
use crate::selection::toggled_selection;
use crate::sort::{NumKey, inverse_pair, is_permutation, rows_permuted, row_order, sort_outcome, sorted_by};
use crate::table::TableData;
use crate::tui_app::{
    Action, InputEvent, InputMode, Key, TuiApp, CHORD_PREFIX, CLEAR_AGGREGATIONS_KEY, WIDTH_KEY,
    event_outcome, span_start,
};
use crate::view_stack::ViewStack;

verus! {

/// Sorting keeps the number of distinct cells of every column.
pub proof fn lemma_sort_keeps_unique_count(
    old: TableData,
    new: TableData,
    col: int,
    keys: Seq<Option<NumKey>>,
    ascending: bool,
    p: Seq<int>,
    c: int,
)
    requires
        old.wf(),
        sort_outcome(old, new, col, keys, ascending, p),
        0 <= c < old.num_cols(),
    ensures
        distinct_count(new.column_text(c)) == distinct_count(old.column_text(c)),
        aggregate_text(new, c, AggregationFunction::UniqueCount) == aggregate_text(old, c, AggregationFunction::UniqueCount),
{
    let n = old.num_rows();
    let q = choose|q: Seq<int>| inverse_pair(p, q, n);
    let a = old.column_text(c);
    let b = new.column_text(c);
    assert(old.columns@[c]@.len() == n);
    assert(new.columns@[c]@.len() == n);
    assert forall|x: Seq<char>| b.to_set().contains(x) <==> a.to_set().contains(x) by {
        if b.to_set().contains(x) {
            let r = choose|r: int| 0 <= r < b.len() && b[r] == x;
            assert(new.cell(c, r) == old.cell(c, p[r]));
            assert(a[p[r]] == x);
        }
        if a.to_set().contains(x) {
            let k = choose|k: int| 0 <= k < a.len() && a[k] == x;
            assert(0 <= q[k] < n && p[q[k]] == k);
            assert(new.cell(c, q[k]) == old.cell(c, p[q[k]]));
            assert(b[q[k]] == x);
        }
    }
    assert(b.to_set() =~= a.to_set());
}

/// Two sorts in a row, in any directions, rearrange the rows of the first
/// table: no row is made, lost or doubled.
pub proof fn lemma_sort_twice_permutes(
    t0: TableData,
    t1: TableData,
    t2: TableData,
    col: int,
    k0: Seq<Option<NumKey>>,
    k1: Seq<Option<NumKey>>,
    asc0: bool,
    asc1: bool,
    p: Seq<int>,
    q: Seq<int>,
)
    requires
        t0.wf(),
        sort_outcome(t0, t1, col, k0, asc0, p),
        sort_outcome(t1, t2, col, k1, asc1, q),
    ensures
        t2.num_rows() == t0.num_rows(),
        exists|r: Seq<int>| is_permutation(r, t0.num_rows()) && rows_permuted(t0, t2, r),
{
    let n = t0.num_rows();
    if t1.columns@.len() > 0 {
        assert(t1.columns@[0]@.len() == p.len());
    }
    assert(t1.num_rows() == n);
    if t2.columns@.len() > 0 {
        assert(t2.columns@[0]@.len() == q.len());
    }
    let pi = choose|pi: Seq<int>| inverse_pair(p, pi, n);
    let qi = choose|qi: Seq<int>| inverse_pair(q, qi, n);
    let r = Seq::new(n, |i: int| p[q[i]]);
    let ri = Seq::new(n, |k: int| qi[pi[k]]);
    assert forall|i: int| 0 <= i < n implies 0 <= #[trigger] r[i] < n && ri[r[i]] == i by {
        assert(0 <= q[i] < n && qi[q[i]] == i);
        assert(0 <= p[q[i]] < n && pi[p[q[i]]] == q[i]);
    }
    assert forall|k: int| 0 <= k < n implies 0 <= #[trigger] ri[k] < n && r[ri[k]] == k by {
        assert(0 <= pi[k] < n && p[pi[k]] == k);
        assert(0 <= qi[pi[k]] < n && q[qi[pi[k]]] == pi[k]);
    }
    assert(inverse_pair(r, ri, n));
    assert forall|c: int, i: int| 0 <= c < t2.columns@.len() && 0 <= i < r.len() implies #[trigger] t2.cell(c, i) == t0.cell(c, r[i]) by {
        assert(t2.cell(c, i) == t1.cell(c, q[i]));
        assert(0 <= q[i] < n);
        assert(t1.cell(c, q[i]) == t0.cell(c, p[q[i]]));
    }
    assert(rows_permuted(t0, t2, r));
}

/// Sorting true twice: the second sort, with the numeric readings
/// carried along with their rows, changes nothing.
pub proof fn lemma_sort_idempotent(
    t0: TableData,
    t1: TableData,
    t2: TableData,
    col: int,
    k0: Seq<Option<NumKey>>,
    p: Seq<int>,
    q: Seq<int>,
)
    requires
        t0.wf(),
        0 <= col < t0.num_cols(),
        k0.len() == t0.num_rows(),
        sort_outcome(t0, t1, col, k0, true, p),
        sort_outcome(t1, t2, col, Seq::new(p.len(), |i: int| k0[p[i]]), true, q),
    ensures
        forall|c: int, r: int| 0 <= c < t0.num_cols() && 0 <= r < t0.num_rows() ==> #[trigger] t2.cell(c, r) == t1.cell(c, r),
{
    let n = t0.num_rows();
    let k1 = Seq::new(p.len(), |i: int| k0[p[i]]);
    assert(t1.columns@[0]@.len() == p.len());
    assert(t1.num_rows() == n);
    let pi = choose|pi: Seq<int>| inverse_pair(p, pi, n);
    assert forall|r: int| 0 < r < t1.num_rows() implies #[trigger] row_order(t1, col, k1, true, r - 1, r) != Ordering::Greater by {
        assert(row_order(t0, col, k0, true, p[r - 1], p[r]) != Ordering::Greater);
        assert(0 <= p[r - 1] < n && 0 <= p[r] < n);
        assert(t1.cell(col, r - 1) == t0.cell(col, p[r - 1]));
        assert(t1.cell(col, r) == t0.cell(col, p[r]));
    }
    assert(sorted_by(t1, col, k1, true));
    assert forall|c: int, r: int| 0 <= c < t0.num_cols() && 0 <= r < t0.num_rows() implies #[trigger] t2.cell(c, r) == t1.cell(c, r) by {
        assert(q[r] == r);
    }
}

/// Selecting a function for a column that has no selection, then
/// deselecting it, leaves the map as it was, without that column.
pub proof fn lemma_toggle_twice_leaves_column_absent(
    m: Map<usize, Set<AggregationFunction>>,
    col: usize,
    f: AggregationFunction,
)
    requires
        !m.contains_key(col),
    ensures
        toggled_selection(toggled_selection(m, col, f), col, f) == m,
        !toggled_selection(toggled_selection(m, col, f), col, f).contains_key(col),
{
    let one = Set::<AggregationFunction>::empty().insert(f);
    assert(one.contains(f));
    assert(one != Set::<AggregationFunction>::empty());
    let m1 = toggled_selection(m, col, f);
    assert(m1 == m.insert(col, one));
    assert(one.remove(f) =~= Set::<AggregationFunction>::empty());
    assert(toggled_selection(m1, col, f) =~= m);
}

/// After a Left or Right key in normal mode, the selected column's span lies
/// in the window, whatever came before; so it does after any run of such
/// keys. This holds where the column fits in the window and its span ends
/// below `usize::MAX`.
pub proof fn lemma_horizontal_move_shows_column(a: TuiApp, b: TuiApp, k: Key, act: Action)
    requires
        a.wf(),
        a.mode == InputMode::Normal,
        k == Key::Left || k == Key::Right,
        event_outcome(a, b, InputEvent::Key(k), act),
        b.cols() > 0,
        span_start(b.widths(), b.selected_column as int) + b.widths()[b.selected_column as int] < usize::MAX,
        b.widths()[b.selected_column as int] <= b.visible_width(),
    ensures
        b.horizontal_offset <= span_start(b.widths(), b.selected_column as int),
        span_start(b.widths(), b.selected_column as int) + b.widths()[b.selected_column as int]
            <= b.horizontal_offset + b.visible_width(),
{
}

/// A chord prefix followed by any event that does not complete it leaves the
/// viewer exactly as it was, in normal mode.
pub proof fn lemma_abandoned_chord_changes_nothing(
    a: TuiApp,
    b: TuiApp,
    c: TuiApp,
    ev: InputEvent,
    act0: Action,
    act1: Action,
)
    requires
        a.mode == InputMode::Normal,
        event_outcome(a, b, InputEvent::Key(Key::Char(CHORD_PREFIX)), act0),
        event_outcome(b, c, ev, act1),
        ev != InputEvent::Key(Key::Char(CLEAR_AGGREGATIONS_KEY)),
        ev != InputEvent::Key(Key::Char(WIDTH_KEY)),
    ensures
        c == a,
        act1 == Action::Continue,
{
}

/// Opening a detail view and closing it again gives back the stack as it
/// was: the parent viewer resumes with all its state.
pub proof fn lemma_detail_then_back(s0: ViewStack, s1: ViewStack, s2: ViewStack)
    requires
        s1.viewers@.drop_last() == s0.viewers@,
        s1.viewers@.len() == s0.viewers@.len() + 1,
        s2.viewers@ == s1.viewers@.drop_last(),
    ensures
        s2.viewers@ == s0.viewers@,
{
}

} // verus!
