//! Which aggregation functions are requested, per column.

use vstd::prelude::*;
use crate::aggregate::AggregationFunction;

verus! {

/// A set of aggregation functions, one flag per function.
#[derive(Clone, Copy, Debug, PartialEq, Eq, Structural)]
pub struct FunctionSet {
    pub count: bool,
    pub unique_count: bool,
    pub sum: bool,
}

impl FunctionSet {
    /// Whether the flag of `f` is set.
    pub open spec fn has(self, f: AggregationFunction) -> bool {
        match f {
            AggregationFunction::Count => self.count,
            AggregationFunction::UniqueCount => self.unique_count,
            AggregationFunction::Sum => self.sum,
        }
    }

    /// The functions whose flag is set.
    pub open spec fn view(self) -> Set<AggregationFunction> {
        Set::new(|f: AggregationFunction| self.has(f))
    }

    /// The empty set.
    pub fn empty() -> (r: FunctionSet)
        ensures
            r@ == Set::<AggregationFunction>::empty(),
    {
        let r = FunctionSet { count: false, unique_count: false, sum: false };
        assert(r@ =~= Set::<AggregationFunction>::empty());
        r
    }

    /// Whether `f` is in the set.
    pub fn contains(self, f: AggregationFunction) -> (r: bool)
        ensures
            r == self@.contains(f),
    {
        match f {
            AggregationFunction::Count => self.count,
            AggregationFunction::UniqueCount => self.unique_count,
            AggregationFunction::Sum => self.sum,
        }
    }

    /// Whether the set is empty.
    pub fn is_empty(self) -> (r: bool)
        ensures
            r == (self@ == Set::<AggregationFunction>::empty()),
    {
        let r = !self.count && !self.unique_count && !self.sum;
        proof {
            if !r {
                if self.count {
                    assert(self@.contains(AggregationFunction::Count));
                } else if self.unique_count {
                    assert(self@.contains(AggregationFunction::UniqueCount));
                } else {
                    assert(self@.contains(AggregationFunction::Sum));
                }
            } else {
                assert(self@ =~= Set::<AggregationFunction>::empty());
            }
        }
        r
    }

    /// The set with `f` added if it was absent, or removed if it was present.
    pub fn toggle(self, f: AggregationFunction) -> (r: FunctionSet)
        ensures
            r@ == toggled_set(self@, f),
    {
        let r = match f {
            AggregationFunction::Count => FunctionSet { count: !self.count, ..self },
            AggregationFunction::UniqueCount => FunctionSet { unique_count: !self.unique_count, ..self },
            AggregationFunction::Sum => FunctionSet { sum: !self.sum, ..self },
        };
        assert(r@ =~= toggled_set(self@, f));
        r
    }
}

/// `s` with `f` added if absent, removed if present.
pub open spec fn toggled_set(s: Set<AggregationFunction>, f: AggregationFunction) -> Set<AggregationFunction> {
    if s.contains(f) {
        s.remove(f)
    } else {
        s.insert(f)
    }
}

/// The selection map after toggling `f` for column `col`: an entry whose set
/// becomes empty is removed.
pub open spec fn toggled_selection(
    m: Map<usize, Set<AggregationFunction>>,
    col: usize,
    f: AggregationFunction,
) -> Map<usize, Set<AggregationFunction>> {
    let s = if m.contains_key(col) {
        m[col]
    } else {
        Set::empty()
    };
    let t = toggled_set(s, f);
    if t == Set::<AggregationFunction>::empty() {
        m.remove(col)
    } else {
        m.insert(col, t)
    }
}

} // verus!
