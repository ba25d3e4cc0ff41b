//! Column width policy: a fixed width, or the width of the longest cell.

use vstd::prelude::*;

verus! {

/// Width given to a column in fixed mode by the toggles.
pub const DEFAULT_FIXED_WIDTH: u16 = 15;

/// Content width assumed for a column without cells.
pub const EMPTY_CONTENT_WIDTH: usize = 10;

/// Room added to the longest cell of a content-fit column.
pub const CONTENT_PADDING: usize = 2;

/// Width policy of one column.
#[derive(Clone, Copy, Debug, PartialEq, Eq, Structural)]
pub enum ColumnWidth {
    Fixed(u16),
    Content,
}

/// Length in characters of the longest text of `s` (zero when empty).
pub open spec fn max_len(s: Seq<Seq<char>>) -> nat
    decreases s.len(),
{
    if s.len() == 0 {
        0
    } else {
        let m = max_len(s.drop_last());
        if s.last().len() > m {
            s.last().len()
        } else {
            m
        }
    }
}

/// Rendered width of a content-fit column with cells `s`.
pub open spec fn content_width(s: Seq<Seq<char>>) -> int {
    if s.len() == 0 {
        EMPTY_CONTENT_WIDTH + CONTENT_PADDING
    } else {
        max_len(s) + CONTENT_PADDING
    }
}

/// Rendered width of a column with policy `w` and cells `s`.
pub open spec fn rendered_width(w: ColumnWidth, s: Seq<Seq<char>>) -> int {
    match w {
        ColumnWidth::Fixed(n) => n as int,
        ColumnWidth::Content => content_width(s),
    }
}

/// `x`, or `usize::MAX` where it does not fit.
pub open spec fn clamp_usize(x: int) -> int {
    if x <= usize::MAX {
        x
    } else {
        usize::MAX as int
    }
}

/// The other policy: fixed becomes content-fit, content-fit becomes the
/// default fixed width.
pub open spec fn toggled(w: ColumnWidth) -> ColumnWidth {
    match w {
        ColumnWidth::Fixed(_) => ColumnWidth::Content,
        ColumnWidth::Content => ColumnWidth::Fixed(DEFAULT_FIXED_WIDTH),
    }
}

impl ColumnWidth {
    /// The other policy, as `toggled` states.
    pub fn toggle(self) -> (r: ColumnWidth)
        ensures
            r == toggled(self),
    {
        match self {
            ColumnWidth::Fixed(_) => ColumnWidth::Content,
            ColumnWidth::Content => ColumnWidth::Fixed(DEFAULT_FIXED_WIDTH),
        }
    }
}

/// Rendered width of a column with policy `w` and cells `column`; a width
/// beyond `usize::MAX` is given as `usize::MAX`.
pub fn column_width(w: ColumnWidth, column: &Vec<String>) -> (r: usize)
    ensures
        r as int == clamp_usize(rendered_width(w, column@.map_values(|s: String| s@))),
{
    let ghost text = column@.map_values(|s: String| s@);
    match w {
        ColumnWidth::Fixed(n) => n as usize,
        ColumnWidth::Content => {
            if column.len() == 0 {
                return EMPTY_CONTENT_WIDTH + CONTENT_PADDING;
            }
            let mut m: usize = 0;
            let mut i: usize = 0;
            while i < column.len()
                invariant
                    i <= column@.len(),
                    text == column@.map_values(|s: String| s@),
                    m as nat == max_len(text.subrange(0, i as int)),
                decreases column@.len() - i,
            {
                let l = column[i].as_str().unicode_len();
                proof {
                    assert(text.subrange(0, i + 1).drop_last() =~= text.subrange(0, i as int));
                }
                if l > m {
                    m = l;
                }
                i += 1;
            }
            proof {
                assert(text.subrange(0, column@.len() as int) =~= text);
            }
            m.saturating_add(CONTENT_PADDING)
        },
    }
}

} // verus!
