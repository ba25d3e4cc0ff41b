//! The in-memory table: column names and columns of string cells.

use vstd::prelude::*;

verus! {

/// A table as a list of column names and one list of cells per column.
#[derive(Debug)]
pub struct TableData {
    pub headers: Vec<String>,
    pub columns: Vec<Vec<String>>,
}

/// A table held by a viewer.
#[derive(Debug)]
pub struct VirtualTable {
    pub data: TableData,
}

impl TableData {
    pub fn new(headers: Vec<String>, columns: Vec<Vec<String>>) -> (r: Self)
        ensures
            r.headers == headers,
            r.columns == columns,
    {
        TableData { headers, columns }
    }

    /// Number of rows: the length of the first column, or zero without columns.
    pub open spec fn num_rows(&self) -> nat {
        if self.columns@.len() == 0 {
            0
        } else {
            self.columns@[0]@.len()
        }
    }

    /// Number of columns.
    pub open spec fn num_cols(&self) -> nat {
        self.columns@.len()
    }

    /// The text of the cell in column `c`, row `r`.
    pub open spec fn cell(&self, c: int, r: int) -> Seq<char> {
        self.columns@[c]@[r]@
    }

    /// The cells of column `c` as text.
    pub open spec fn column_text(&self, c: int) -> Seq<Seq<char>> {
        self.columns@[c]@.map_values(|s: String| s@)
    }

    /// The text of the column names.
    pub open spec fn header_text(&self) -> Seq<Seq<char>> {
        self.headers@.map_values(|s: String| s@)
    }

    /// Rectangular: one name per column, every column as long as the first.
    pub open spec fn wf(&self) -> bool {
        &&& self.headers@.len() == self.columns@.len()
        &&& forall|c: int| 0 <= c < self.columns@.len() ==> #[trigger] self.columns@[c]@.len() == self.num_rows()
    }

    /// Number of rows, read from the first column.
    pub fn row_count(&self) -> (n: usize)
        ensures
            n == self.num_rows(),
    {
        if self.columns.len() == 0 {
            0
        } else {
            self.columns[0].len()
        }
    }
}

impl VirtualTable {
    pub fn new(data: TableData) -> (r: Self)
        ensures
            r.data == data,
    {
        VirtualTable { data }
    }
}

} // verus!
