//! Aggregation functions over one column of a table.

use vstd::prelude::*;
use crate::sort::NumKey;
use crate::table::TableData;

verus! {

/// The aggregation functions, in their fixed order.
#[derive(Clone, Copy, Debug, PartialEq, Eq, Structural, Hash, PartialOrd, Ord)]
pub enum AggregationFunction {
    Count,
    UniqueCount,
    Sum,
}

/// How many aggregation functions there are.
pub const FUNCTION_COUNT: usize = 3;

/// Position of `f` in the fixed order of the functions.
pub open spec fn function_index(f: AggregationFunction) -> nat {
    match f {
        AggregationFunction::Count => 0,
        AggregationFunction::UniqueCount => 1,
        AggregationFunction::Sum => 2,
    }
}

/// The function at position `i` of the fixed order.
pub open spec fn function_at(i: nat) -> AggregationFunction {
    if i == 0 {
        AggregationFunction::Count
    } else if i == 1 {
        AggregationFunction::UniqueCount
    } else {
        AggregationFunction::Sum
    }
}

impl AggregationFunction {
    /// The function at position `index` of the fixed order.
    pub fn from_index(index: usize) -> (f: AggregationFunction)
        requires
            index < FUNCTION_COUNT,
        ensures
            function_index(f) == index,
            f == function_at(index as nat),
    {
        if index == 0 {
            AggregationFunction::Count
        } else if index == 1 {
            AggregationFunction::UniqueCount
        } else {
            AggregationFunction::Sum
        }
    }

    /// Position of the function in the fixed order.
    pub fn index(self) -> (i: usize)
        ensures
            i == function_index(self),
            i < FUNCTION_COUNT,
    {
        match self {
            AggregationFunction::Count => 0,
            AggregationFunction::UniqueCount => 1,
            AggregationFunction::Sum => 2,
        }
    }

    /// The function's name as shown to the user.
    pub fn name(self) -> (s: &'static str)
        ensures
            s@ == function_name(self),
    {
        proof {
            reveal_strlit("Count");
            reveal_strlit("UniqueCount");
            reveal_strlit("Sum");
        }
        match self {
            AggregationFunction::Count => "Count",
            AggregationFunction::UniqueCount => "UniqueCount",
            AggregationFunction::Sum => "Sum",
        }
    }
}

/// The function's name as shown to the user.
pub open spec fn function_name(f: AggregationFunction) -> Seq<char> {
    match f {
        AggregationFunction::Count => seq!['C', 'o', 'u', 'n', 't'],
        AggregationFunction::UniqueCount => seq!['U', 'n', 'i', 'q', 'u', 'e', 'C', 'o', 'u', 'n', 't'],
        AggregationFunction::Sum => seq!['S', 'u', 'm'],
    }
}

/// Result of one aggregation function on one column.
#[derive(Debug, PartialEq, Eq)]
pub enum AggregateValue {
    /// The result, as text.
    Text(String),
    /// Every cell reads as a number: the result is the sum of those numbers.
    NumericSum,
    /// The function does not apply to this column.
    NotApplicable,
}

/// The decimal digit `d`.
pub open spec fn digit(d: nat) -> char {
    if d == 0 { '0' } else if d == 1 { '1' } else if d == 2 { '2' } else if d == 3 { '3' }
    else if d == 4 { '4' } else if d == 5 { '5' } else if d == 6 { '6' } else if d == 7 { '7' }
    else if d == 8 { '8' } else { '9' }
}

/// Decimal notation of `n`, without leading zeros.
pub open spec fn decimal(n: nat) -> Seq<char>
    decreases n,
{
    if n < 10 {
        seq![digit(n)]
    } else {
        decimal(n / 10) + seq![digit(n % 10)]
    }
}

/// The decimal digit `d` as text.
fn digit_str(d: usize) -> (s: &'static str)
    requires
        d < 10,
    ensures
        s@ == seq![digit(d as nat)],
{
    proof {
        reveal_strlit("0");
        reveal_strlit("1");
        reveal_strlit("2");
        reveal_strlit("3");
        reveal_strlit("4");
        reveal_strlit("5");
        reveal_strlit("6");
        reveal_strlit("7");
        reveal_strlit("8");
        reveal_strlit("9");
    }
    if d == 0 { "0" } else if d == 1 { "1" } else if d == 2 { "2" } else if d == 3 { "3" }
    else if d == 4 { "4" } else if d == 5 { "5" } else if d == 6 { "6" } else if d == 7 { "7" }
    else if d == 8 { "8" } else { "9" }
}

/// Appends the decimal notation of `n` to `s`.
fn push_decimal(s: &mut String, n: usize)
    ensures
        final(s)@ == old(s)@ + decimal(n as nat),
    decreases n,
{
    if n >= 10 {
        push_decimal(s, n / 10);
    }
    s.append(digit_str(n % 10));
    proof {
        if n >= 10 {
            assert(final(s)@ =~= old(s)@ + decimal(n as nat));
        }
    }
}

/// Decimal notation of `n`.
pub fn to_decimal(n: usize) -> (s: String)
    ensures
        s@ == decimal(n as nat),
{
    let mut s = String::new();
    push_decimal(&mut s, n);
    proof {
        assert(s@ =~= decimal(n as nat));
    }
    s
}

/// Number of distinct texts in `s`.
pub open spec fn distinct_count(s: Seq<Seq<char>>) -> nat {
    s.to_set().len()
}

/// Every entry of `keys` is a number, and there is at least one.
pub open spec fn all_numeric(keys: Seq<Option<NumKey>>) -> bool {
    &&& keys.len() > 0
    &&& forall|i: int| 0 <= i < keys.len() ==> (#[trigger] keys[i]) is Some
}

/// The text that `f` gives on column `col` of `t`; `None` for the sum,
/// whose value is computed on the numbers themselves.
pub open spec fn aggregate_text(t: TableData, col: int, f: AggregationFunction) -> Option<Seq<char>> {
    match f {
        AggregationFunction::Count => Some(decimal(t.num_rows())),
        AggregationFunction::UniqueCount => Some(decimal(distinct_count(t.column_text(col)))),
        AggregationFunction::Sum => None,
    }
}

/// Number of distinct cells of `column`.
pub fn unique_count(column: &Vec<String>) -> (r: usize)
    ensures
        r == distinct_count(column@.map_values(|s: String| s@)),
{
    let ghost text = column@.map_values(|s: String| s@);
    let mut count: usize = 0;
    let mut i: usize = 0;
    proof {
        assert(text.subrange(0, 0).to_set() =~= Set::<Seq<char>>::empty());
    }
    while i < column.len()
        invariant
            i <= column@.len(),
            text == column@.map_values(|s: String| s@),
            count as nat == text.subrange(0, i as int).to_set().len(),
            count <= i,
        decreases column@.len() - i,
    {
        let ghost before = text.subrange(0, i as int);
        let ghost x = text[i as int];
        let mut seen = false;
        let mut j: usize = 0;
        while j < i
            invariant
                j <= i < column@.len(),
                text == column@.map_values(|s: String| s@),
                before == text.subrange(0, i as int),
                x == text[i as int],
                seen <==> exists|k: int| 0 <= k < j && #[trigger] text[k] == x,
            decreases i - j,
        {
            proof {
                assert(text[j as int] == column@[j as int]@ && x == column@[i as int]@);
            }
            if column[j] == column[i] {
                seen = true;
            }
            j += 1;
        }
        proof {
            let after = text.subrange(0, i + 1);
            assert(after.to_set() =~= before.to_set().insert(x)) by {
                assert forall|y: Seq<char>| after.to_set().contains(y) <==> before.to_set().insert(x).contains(y) by {
                    if after.to_set().contains(y) {
                        let k = choose|k: int| 0 <= k < after.len() && after[k] == y;
                        if k < i {
                            assert(before[k] == y);
                        }
                    }
                    if before.to_set().contains(y) {
                        let k = choose|k: int| 0 <= k < before.len() && before[k] == y;
                        assert(after[k] == y);
                    }
                    if y == x {
                        assert(after[i as int] == y);
                    }
                }
            }
            if seen {
                let k = choose|k: int| 0 <= k < i && #[trigger] text[k] == x;
                assert(before[k] == x);
                assert(before.to_set().contains(x));
            } else {
                assert(!before.to_set().contains(x));
            }
        }
        if !seen {
            count += 1;
        }
        i += 1;
    }
    proof {
        assert(text.subrange(0, column@.len() as int) =~= text);
    }
    count
}

/// Whether every entry of `keys` is a number, and there is at least one.
pub fn is_all_numeric(keys: &Vec<Option<NumKey>>) -> (r: bool)
    ensures
        r == all_numeric(keys@),
{
    if keys.len() == 0 {
        return false;
    }
    let mut i: usize = 0;
    while i < keys.len()
        invariant
            i <= keys@.len(),
            forall|k: int| 0 <= k < i ==> (#[trigger] keys@[k]) is Some,
        decreases keys@.len() - i,
    {
        if keys[i].is_none() {
            assert(!(keys@[i as int] is Some));
            return false;
        }
        i += 1;
    }
    true
}

/// `r` is what `f` gives on column `col` of `t`: the text of a count, or
/// for the sum, `NumericSum` where every cell reads as a number and there is
/// at least one, else `NotApplicable`.
pub open spec fn is_aggregate_of(r: AggregateValue, t: TableData, col: int, f: AggregationFunction, keys: Seq<Option<NumKey>>) -> bool {
    match f {
        AggregationFunction::Sum => if all_numeric(keys) {
            r == AggregateValue::NumericSum
        } else {
            r == AggregateValue::NotApplicable
        },
        _ => exists|s: String| r == AggregateValue::Text(s) && Some(s@) == aggregate_text(t, col, f),
    }
}

/// Applies `f` to column `col` of `t`. `keys` is the numeric reading of each
/// cell of that column (`None`: the cell is not a number).
pub fn aggregate(t: &TableData, col: usize, f: AggregationFunction, keys: &Vec<Option<NumKey>>) -> (r: AggregateValue)
    requires
        t.wf(),
        col < t.num_cols(),
        keys@.len() == t.num_rows(),
    ensures
        is_aggregate_of(r, *t, col as int, f, keys@),
{
    match f {
        AggregationFunction::Count => {
            let s = to_decimal(t.row_count());
            AggregateValue::Text(s)
        },
        AggregationFunction::UniqueCount => {
            let n = unique_count(&t.columns[col]);
            let s = to_decimal(n);
            AggregateValue::Text(s)
        },
        AggregationFunction::Sum => {
            if is_all_numeric(keys) {
                AggregateValue::NumericSum
            } else {
                AggregateValue::NotApplicable
            }
        },
    }
}

} // verus!
