//! Numeric-aware, stable reordering of all rows of a table by one column.

use vstd::prelude::*;
use std::cmp::Ordering;
use crate::table::TableData;

verus! {

/// How the numeric reading of a cell takes part in ordering.
#[derive(Clone, Copy, Debug, PartialEq, Eq, Structural)]
pub enum NumKey {
    /// A number that compares equal to every other number.
    NotANumber,
    /// A number, encoded so that the order of the integers is the numeric order.
    Ordered(u64),
}

/// The opposite ordering.
pub open spec fn reverse(o: Ordering) -> Ordering {
    match o {
        Ordering::Less => Ordering::Greater,
        Ordering::Greater => Ordering::Less,
        Ordering::Equal => Ordering::Equal,
    }
}

/// Lexicographic order of two texts by code point.
pub open spec fn lex_order(a: Seq<char>, b: Seq<char>) -> Ordering
    decreases a.len(),
{
    if a.len() == 0 {
        if b.len() == 0 {
            Ordering::Equal
        } else {
            Ordering::Less
        }
    } else if b.len() == 0 {
        Ordering::Greater
    } else if (a[0] as u32) < (b[0] as u32) {
        Ordering::Less
    } else if (a[0] as u32) > (b[0] as u32) {
        Ordering::Greater
    } else {
        lex_order(a.drop_first(), b.drop_first())
    }
}

/// Numeric order of two readings; a value that is not a number equals every other.
pub open spec fn numeric_order(x: NumKey, y: NumKey) -> Ordering {
    match (x, y) {
        (NumKey::Ordered(p), NumKey::Ordered(q)) => if p < q {
            Ordering::Less
        } else if p > q {
            Ordering::Greater
        } else {
            Ordering::Equal
        },
        _ => Ordering::Equal,
    }
}

/// Order of two cells: numeric when both read as numbers, else lexicographic.
pub open spec fn cell_order(a: Seq<char>, an: Option<NumKey>, b: Seq<char>, bn: Option<NumKey>) -> Ordering {
    if an is Some && bn is Some {
        numeric_order(an->0, bn->0)
    } else {
        lex_order(a, b)
    }
}

/// An ordering, or its reverse for a descending sort.
pub open spec fn directed(o: Ordering, ascending: bool) -> Ordering {
    if ascending {
        o
    } else {
        reverse(o)
    }
}

/// Relies on `Ord for str`: strings are ordered lexicographically by their
/// UTF-8 bytes, which is the order of their code points.
#[verifier::external_body]
fn str_cmp(a: &str, b: &str) -> (r: Ordering)
    ensures
        r == lex_order(a@, b@),
{
    a.cmp(b)
}

/// Compares two cells, given the numeric reading of each (`None`: not a number).
pub fn compare_cells(a: &str, a_num: Option<NumKey>, b: &str, b_num: Option<NumKey>) -> (r: Ordering)
    ensures
        r == cell_order(a@, a_num, b@, b_num),
{
    match (a_num, b_num) {
        (Some(NumKey::Ordered(p)), Some(NumKey::Ordered(q))) => {
            if p < q {
                Ordering::Less
            } else if p > q {
                Ordering::Greater
            } else {
                Ordering::Equal
            }
        },
        (Some(_), Some(_)) => Ordering::Equal,
        _ => str_cmp(a, b),
    }
}

/// Swapping two texts reverses their lexicographic order.
pub proof fn lemma_lex_antisymmetric(a: Seq<char>, b: Seq<char>)
    ensures
        lex_order(a, b) == reverse(lex_order(b, a)),
    decreases a.len(),
{
    if a.len() > 0 && b.len() > 0 && (a[0] as u32) == (b[0] as u32) {
        lemma_lex_antisymmetric(a.drop_first(), b.drop_first());
    }
}

/// Swapping the two cells reverses their order.
pub proof fn lemma_cell_order_antisymmetric(
    a: Seq<char>,
    an: Option<NumKey>,
    b: Seq<char>,
    bn: Option<NumKey>,
    ascending: bool,
)
    ensures
        directed(cell_order(a, an, b, bn), ascending) == reverse(
            directed(cell_order(b, bn, a, an), ascending),
        ),
{
    lemma_lex_antisymmetric(a, b);
}

/// `p` and `q` are inverse bijections of `0..n`.
pub open spec fn inverse_pair(p: Seq<int>, q: Seq<int>, n: nat) -> bool {
    &&& p.len() == n
    &&& q.len() == n
    &&& forall|i: int| 0 <= i < n ==> 0 <= #[trigger] p[i] < n && q[p[i]] == i
    &&& forall|k: int| 0 <= k < n ==> 0 <= #[trigger] q[k] < n && p[q[k]] == k
}

/// `p` is a permutation of `0..n`.
pub open spec fn is_permutation(p: Seq<int>, n: nat) -> bool {
    exists|q: Seq<int>| inverse_pair(p, q, n)
}

/// Row `r` of `new` is row `p[r]` of `old`, in every column; the names stay.
pub open spec fn rows_permuted(old: TableData, new: TableData, p: Seq<int>) -> bool {
    &&& new.headers == old.headers
    &&& new.columns@.len() == old.columns@.len()
    &&& forall|c: int| 0 <= c < new.columns@.len() ==> (#[trigger] new.columns@[c])@.len() == p.len()
    &&& forall|c: int, r: int|
        0 <= c < new.columns@.len() && 0 <= r < p.len() ==> #[trigger] new.cell(c, r) == old.cell(c, p[r])
}

/// Order of the cells of column `col` at rows `i` and `j`, for the given direction.
pub open spec fn row_order(t: TableData, col: int, keys: Seq<Option<NumKey>>, ascending: bool, i: int, j: int) -> Ordering {
    directed(cell_order(t.cell(col, i), keys[i], t.cell(col, j), keys[j]), ascending)
}

/// Column `col` of `t`, read with `keys`, is in order: no row is greater than the next.
pub open spec fn sorted_by(t: TableData, col: int, keys: Seq<Option<NumKey>>, ascending: bool) -> bool {
    forall|r: int| 0 < r < t.num_rows() ==> #[trigger] row_order(t, col, keys, ascending, r - 1, r) != Ordering::Greater
}

/// `q` is an ascending order of the rows of `old` by column `col`: no row is
/// greater than the next, rows that compare equal keep their former relative
/// order, and rows already in ascending order stay where they are.
pub open spec fn ascending_order_of(old: TableData, col: int, keys: Seq<Option<NumKey>>, q: Seq<int>) -> bool {
    &&& forall|r: int| 0 < r < q.len() ==> #[trigger] row_order(old, col, keys, true, q[r - 1], q[r]) != Ordering::Greater
    &&& forall|a: int, b: int| 0 <= a < b < q.len() && row_order(old, col, keys, true, q[a], q[b]) == Ordering::Equal
        ==> #[trigger] q[a] < #[trigger] q[b]
    &&& sorted_by(old, col, keys, true) ==> forall|r: int| 0 <= r < q.len() ==> #[trigger] q[r] == r
}

/// `p` read from its end.
pub open spec fn reversed(p: Seq<int>) -> Seq<int> {
    Seq::new(p.len(), |i: int| p[p.len() - 1 - i])
}

/// What sorting `old` by column `col` gives: `new` holds the rows of `old` in
/// the order `p`. Ascending, `p` is an ascending order; descending, `p` is an
/// ascending order read backwards, so rows that compare equal come out in
/// reverse of their former order.
pub open spec fn sort_outcome(
    old: TableData,
    new: TableData,
    col: int,
    keys: Seq<Option<NumKey>>,
    ascending: bool,
    p: Seq<int>,
) -> bool {
    &&& is_permutation(p, old.num_rows())
    &&& rows_permuted(old, new, p)
    &&& if ascending {
        ascending_order_of(old, col, keys, p)
    } else {
        ascending_order_of(old, col, keys, reversed(p))
    }
}

/// A permutation read backwards is a permutation.
pub proof fn lemma_reversed_permutation(p: Seq<int>, n: nat)
    requires
        is_permutation(p, n),
    ensures
        is_permutation(reversed(p), n),
{
    let q = choose|q: Seq<int>| inverse_pair(p, q, n);
    let rp = reversed(p);
    let rq = Seq::new(n, |v: int| n - 1 - q[v]);
    assert forall|i: int| 0 <= i < n implies 0 <= #[trigger] rp[i] < n && rq[rp[i]] == i by {
        assert(0 <= p[n - 1 - i] < n && q[p[n - 1 - i]] == n - 1 - i);
    }
    assert forall|k: int| 0 <= k < n implies 0 <= #[trigger] rq[k] < n && rp[rq[k]] == k by {
        assert(0 <= q[k] < n && p[q[k]] == k);
    }
    assert(inverse_pair(rp, rq, n));
}

/// `v` read from its end.
fn reverse_order(v: &Vec<usize>) -> (r: Vec<usize>)
    ensures
        r@.len() == v@.len(),
        forall|k: int| 0 <= k < v@.len() ==> #[trigger] r@[k] == v@[v@.len() - 1 - k],
{
    let n = v.len();
    let mut r: Vec<usize> = Vec::new();
    let mut k: usize = 0;
    while k < n
        invariant
            n == v@.len(),
            k <= n,
            r@.len() == k,
            forall|m: int| 0 <= m < k ==> #[trigger] r@[m] == v@[n - 1 - m],
        decreases n - k,
    {
        r.push(v[n - 1 - k]);
        k += 1;
    }
    r
}

/// The entries of `o` as mathematical integers.
pub open spec fn as_ints(o: Seq<usize>) -> Seq<int> {
    o.map_values(|x: usize| x as int)
}

/// Compares the cells of column `col` at rows `i` and `j`.
fn compare_rows(t: &TableData, col: usize, keys: &Vec<Option<NumKey>>, ascending: bool, i: usize, j: usize) -> (r: Ordering)
    requires
        t.wf(),
        col < t.num_cols(),
        keys@.len() == t.num_rows(),
        i < t.num_rows(),
        j < t.num_rows(),
    ensures
        r == row_order(*t, col as int, keys@, ascending, i as int, j as int),
{
    let column = &t.columns[col];
    let o = compare_cells(column[i].as_str(), keys[i], column[j].as_str(), keys[j]);
    if ascending {
        o
    } else {
        match o {
            Ordering::Less => Ordering::Greater,
            Ordering::Greater => Ordering::Less,
            Ordering::Equal => Ordering::Equal,
        }
    }
}

/// Among the first `hi` positions of `o`, a row that stands after a row of
/// higher index is greater than it.
pub open spec fn inversions_justified(
    t: TableData,
    col: int,
    keys: Seq<Option<NumKey>>,
    ascending: bool,
    o: Seq<usize>,
    hi: int,
) -> bool {
    forall|a: int, b: int|
        0 <= a < b < hi && o[a] > o[b] ==> #[trigger] row_order(t, col, keys, ascending, o[b] as int, o[a] as int) == Ordering::Greater
}

/// The stable order of the rows of `t` by column `col`: insertion sort on row
/// indices, which moves a row only past a row that is greater.
fn sort_order(t: &TableData, col: usize, keys: &Vec<Option<NumKey>>, ascending: bool) -> (order: Vec<usize>)
    requires
        t.wf(),
        col < t.num_cols(),
        keys@.len() == t.num_rows(),
    ensures
        is_permutation(as_ints(order@), t.num_rows()),
        forall|r: int| 0 < r < order@.len() ==> #[trigger] row_order(*t, col as int, keys@, ascending, order@[r - 1] as int, order@[r] as int) != Ordering::Greater,
        sorted_by(*t, col as int, keys@, ascending) ==> forall|r: int| 0 <= r < order@.len() ==> #[trigger] order@[r] == r,
        forall|a: int, b: int| 0 <= a < b < order@.len() && row_order(*t, col as int, keys@, ascending, order@[a] as int, order@[b] as int) == Ordering::Equal
            ==> #[trigger] order@[a] < #[trigger] order@[b],
{
    let n = t.row_count();
    let ghost presorted = sorted_by(*t, col as int, keys@, ascending);
    let mut order: Vec<usize> = Vec::new();
    let mut i: usize = 0;
    while i < n
        invariant
            i <= n,
            n == t.num_rows(),
            order@.len() == i,
            forall|k: int| 0 <= k < i ==> #[trigger] order@[k] == k,
        decreases n - i,
    {
        order.push(i);
        i += 1;
    }
    let ghost mut inv: Seq<int> = as_ints(order@);
    assert(inverse_pair(as_ints(order@), inv, n as nat));
    i = 0;
    while i < n
        invariant
            i <= n,
            n == t.num_rows(),
            t.wf(),
            col < t.num_cols(),
            keys@.len() == n,
            inverse_pair(as_ints(order@), inv, n as nat),
            forall|k: int| 0 <= k < n ==> (#[trigger] order@[k]) < n,
            forall|k: int| 0 < k < i ==> #[trigger] row_order(*t, col as int, keys@, ascending, order@[k - 1] as int, order@[k] as int) != Ordering::Greater,
            presorted == sorted_by(*t, col as int, keys@, ascending),
            presorted ==> forall|k: int| 0 <= k < n ==> #[trigger] order@[k] == k,
            forall|k: int| i <= k < n ==> #[trigger] order@[k] == k,
            forall|k: int| 0 <= k < i ==> #[trigger] order@[k] < i,
            inversions_justified(*t, col as int, keys@, ascending, order@, i as int),
        decreases n - i,
    {
        let mut j: usize = i;
        while j > 0 && matches!(compare_rows(t, col, keys, ascending, order[j - 1], order[j]), Ordering::Greater)
            invariant
                j <= i < n,
                n == t.num_rows(),
                t.wf(),
                col < t.num_cols(),
                keys@.len() == n,
                inverse_pair(as_ints(order@), inv, n as nat),
                forall|k: int| 0 <= k < n ==> (#[trigger] order@[k]) < n,
                forall|k: int| 0 < k <= i && k != j ==> #[trigger] row_order(*t, col as int, keys@, ascending, order@[k - 1] as int, order@[k] as int) != Ordering::Greater,
                0 < j < i ==> row_order(*t, col as int, keys@, ascending, order@[j - 1] as int, order@[j + 1] as int) != Ordering::Greater,
                presorted == sorted_by(*t, col as int, keys@, ascending),
                presorted ==> j == i && forall|k: int| 0 <= k < n ==> #[trigger] order@[k] == k,
                order@[j as int] == i,
                forall|k: int| i < k < n ==> #[trigger] order@[k] == k,
                forall|k: int| 0 <= k <= i && k != j ==> #[trigger] order@[k] < i,
                inversions_justified(*t, col as int, keys@, ascending, order@, i + 1),
            decreases j,
        {
            let a = order[j - 1];
            let b = order[j];
            let ghost before = order@;
            proof {
                let x = b as int;
                let y = a as int;
                lemma_cell_order_antisymmetric(t.cell(col as int, y), keys@[y], t.cell(col as int, x), keys@[x], ascending);
                if presorted {
                    assert(row_order(*t, col as int, keys@, ascending, j - 1, j as int) != Ordering::Greater);
                }
                if j >= 2 {
                    let k = j - 1;
                    assert(row_order(*t, col as int, keys@, ascending, order@[k - 1] as int, order@[k] as int) != Ordering::Greater);
                }
                let perm_before = as_ints(order@);
                let inv0 = inv;
                assert(perm_before[j - 1] == y && perm_before[j as int] == x);
                inv = inv0.update(x, j - 1).update(y, j as int);
                let perm_after = perm_before.update(j - 1, x).update(j as int, y);
                assert forall|m: int| 0 <= m < n implies 0 <= #[trigger] perm_after[m] < n && inv[perm_after[m]] == m by {
                    assert(0 <= perm_before[m] < n && inv0[perm_before[m]] == m);
                }
                assert forall|k: int| 0 <= k < n implies 0 <= #[trigger] inv[k] < n && perm_after[inv[k]] == k by {
                    assert(0 <= inv0[k] < n && perm_before[inv0[k]] == k);
                }
                assert(inverse_pair(perm_after, inv, n as nat));
            }
            order.set(j - 1, b);
            order.set(j, a);
            proof {
                assert(as_ints(order@) =~= as_ints(before).update(j - 1, b as int).update(j as int, a as int));
                assert forall|p: int, q: int|
                    0 <= p < q < i + 1 && order@[p] > order@[q] implies #[trigger] row_order(*t, col as int, keys@, ascending, order@[q] as int, order@[p] as int) == Ordering::Greater by {
                    let sp = if p == j - 1 { j as int } else if p == j { j - 1 } else { p };
                    let sq = if q == j - 1 { j as int } else if q == j { j - 1 } else { q };
                    assert(order@[p] == before[sp] && order@[q] == before[sq]);
                    if !(p == j - 1 && q == j) {
                        assert(sp < sq);
                        assert(before[sp] > before[sq]);
                    }
                }
                if j - 1 > 0 {
                    assert(order@[j - 2] == before[j - 2] && order@[j as int] == a);
                    assert(row_order(*t, col as int, keys@, ascending, order@[j - 2] as int, order@[j as int] as int) != Ordering::Greater);
                }
            }
            j -= 1;
        }
        proof {
            assert forall|p: int, q: int|
                0 <= p < q < i + 1 && order@[p] > order@[q] implies #[trigger] row_order(*t, col as int, keys@, ascending, order@[q] as int, order@[p] as int) == Ordering::Greater by {
            }
            assert forall|k: int| 0 <= k < i + 1 implies #[trigger] order@[k] < i + 1 by {
                if k != j {
                    assert(order@[k] < i);
                }
            }
        }
        i += 1;
    }
    assert(inverse_pair(as_ints(order@), inv, n as nat));
    assert forall|a: int, b: int| 0 <= a < b < order@.len() && row_order(*t, col as int, keys@, ascending, order@[a] as int, order@[b] as int) == Ordering::Equal
        implies #[trigger] order@[a] < #[trigger] order@[b] by {
        let x = order@[a] as int;
        let y = order@[b] as int;
        lemma_cell_order_antisymmetric(t.cell(col as int, x), keys@[x], t.cell(col as int, y), keys@[y], ascending);
        assert(as_ints(order@)[a] == x && as_ints(order@)[b] == y);
        assert(inv[x] == a && inv[y] == b);
        if x > y {
            assert(inversions_justified(*t, col as int, keys@, ascending, order@, n as int));
            assert(row_order(*t, col as int, keys@, ascending, y, x) == Ordering::Greater);
        }
    }
    order
}


/// The cells of `column` taken in the order `order`.
fn permute_column(column: &Vec<String>, order: &Vec<usize>) -> (r: Vec<String>)
    requires
        forall|k: int| 0 <= k < order@.len() ==> (#[trigger] order@[k]) < column@.len(),
    ensures
        r@.len() == order@.len(),
        forall|k: int| 0 <= k < order@.len() ==> #[trigger] r@[k] == column@[order@[k] as int],
{
    let mut r: Vec<String> = Vec::new();
    let mut k: usize = 0;
    while k < order.len()
        invariant
            k <= order@.len(),
            r@.len() == k,
            forall|m: int| 0 <= m < order@.len() ==> (#[trigger] order@[m]) < column@.len(),
            forall|m: int| 0 <= m < k ==> #[trigger] r@[m] == column@[order@[m] as int],
        decreases order@.len() - k,
    {
        r.push(column[order[k]].clone());
        k += 1;
    }
    r
}

/// Reorders every row of `t` by the cells of column `col`, read with `keys`
/// (the numeric reading of each cell of that column), ascending or
/// descending. Ascending, rows that compare equal keep their relative order;
/// descending is the ascending result reversed.
pub fn sort_rows(t: &mut TableData, col: usize, keys: &Vec<Option<NumKey>>, ascending: bool)
    requires
        old(t).wf(),
        col < old(t).num_cols(),
        keys@.len() == old(t).num_rows(),
    ensures
        final(t).wf(),
        final(t).num_rows() == old(t).num_rows(),
        exists|p: Seq<int>| sort_outcome(*old(t), *final(t), col as int, keys@, ascending, p),
        ascending && sorted_by(*old(t), col as int, keys@, true) ==> forall|c: int, r: int|
            0 <= c < old(t).num_cols() && 0 <= r < old(t).num_rows() ==> #[trigger] final(t).cell(c, r) == old(t).cell(c, r),
{
    let up = sort_order(t, col, keys, true);
    let ghost n = t.num_rows();
    let ghost pa = as_ints(up@);
    proof {
        assert forall|r: int| 0 < r < pa.len() implies #[trigger] row_order(*t, col as int, keys@, true, pa[r - 1], pa[r]) != Ordering::Greater by {
            assert(row_order(*t, col as int, keys@, true, up@[r - 1] as int, up@[r] as int) != Ordering::Greater);
        }
        assert forall|a: int, b: int| 0 <= a < b < pa.len() && row_order(*t, col as int, keys@, true, pa[a], pa[b]) == Ordering::Equal
            implies #[trigger] pa[a] < #[trigger] pa[b] by {
            assert(pa[a] == up@[a] as int && pa[b] == up@[b] as int);
        }
        if sorted_by(*t, col as int, keys@, true) {
            assert forall|r: int| 0 <= r < pa.len() implies #[trigger] pa[r] == r by {
                assert(up@[r] == r);
            }
        }
        assert(ascending_order_of(*t, col as int, keys@, pa));
    }
    let order = if ascending {
        up
    } else {
        reverse_order(&up)
    };
    let ghost p = as_ints(order@);
    proof {
        if !ascending {
            assert(reversed(p) =~= pa);
            lemma_reversed_permutation(pa, n);
            assert(p =~= reversed(pa));
        } else {
            assert(p == pa);
        }
        assert(is_permutation(p, n));
        let q = choose|q: Seq<int>| inverse_pair(p, q, n);
    }
    let mut columns: Vec<Vec<String>> = Vec::new();
    let mut c: usize = 0;
    proof {
        assert forall|k: int| 0 <= k < order@.len() implies (#[trigger] order@[k]) < n by {
            assert(0 <= p[k] < n);
        }
    }
    while c < t.columns.len()
        invariant
            c <= t.columns@.len(),
            t.wf(),
            n == t.num_rows(),
            order@.len() == n,
            p == as_ints(order@),
            forall|k: int| 0 <= k < order@.len() ==> (#[trigger] order@[k]) < n,
            columns@.len() == c,
            forall|m: int| 0 <= m < c ==> (#[trigger] columns@[m])@.len() == n,
            forall|m: int, r: int| 0 <= m < c && 0 <= r < n ==> #[trigger] columns@[m]@[r] == t.columns@[m]@[order@[r] as int],
        decreases t.columns@.len() - c,
    {
        let column = permute_column(&t.columns[c], &order);
        columns.push(column);
        c += 1;
    }
    let ghost before = *t;
    t.columns = columns;
    proof {
        assert(before.columns@.len() > 0 ==> t.columns@[0]@.len() == n);
        assert forall|c: int, r: int| 0 <= c < t.columns@.len() && 0 <= r < p.len() implies #[trigger] t.cell(c, r) == before.cell(c, p[r]) by {
            assert(t.columns@[c]@[r] == before.columns@[c]@[order@[r] as int]);
        }
        assert(rows_permuted(before, *t, p));
        assert(sort_outcome(before, *t, col as int, keys@, ascending, p));
    }
}

} // verus!
