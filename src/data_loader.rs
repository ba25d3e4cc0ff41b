//! Choosing a loader by file format, and building a table from records.

use vstd::prelude::*;
use vstd::string::StringExecFns;
use crate::aggregate::{decimal, to_decimal};
use crate::table::TableData;

verus! {

/// Why a table could not be loaded.
#[derive(Debug, PartialEq, Eq)]
pub enum LoadError {
    /// No loader reads files of this format.
    UnsupportedFormat(String),
    /// Record `record` (counted from zero, after the header) has a number of
    /// fields other than the header's.
    UnequalLengths { record: usize },
}

/// Lower-case form of a text, as `str::to_lowercase` gives it.
pub uninterp spec fn lower_of(s: Seq<char>) -> Seq<char>;

/// Relies on `str::to_lowercase`: the result depends on the characters alone.
#[verifier::external_body]
fn lowercase(s: &str) -> (r: String)
    ensures
        r@ == lower_of(s@),
{
    s.to_lowercase()
}

/// The format name "csv".
pub open spec fn csv_text() -> Seq<char> {
    seq!['c', 's', 'v']
}

/// Text before the format name in the message for an unsupported format.
pub open spec fn unsupported_prefix() -> Seq<char> {
    "File format '"@
}

/// Text after the format name in that message.
pub open spec fn unsupported_suffix() -> Seq<char> {
    "' is not supported"@
}

/// Text after the record number in the message for a record of the wrong length.
pub open spec fn unequal_suffix() -> Seq<char> {
    " has a number of fields other than the header's"@
}

impl LoadError {
    /// A message for the user that names the cause.
    pub fn message(&self) -> (r: String)
        ensures
            self matches LoadError::UnsupportedFormat(ext) ==> r@ == unsupported_prefix() + ext@ + unsupported_suffix(),
            self matches LoadError::UnequalLengths { record } ==> r@ == "record "@ + decimal(record as nat) + unequal_suffix(),
    {
        match self {
            LoadError::UnsupportedFormat(ext) => {
                let mut m = String::from_str("File format '");
                m.append(ext.as_str());
                m.append("' is not supported");
                m
            },
            LoadError::UnequalLengths { record } => {
                let mut m = String::from_str("record ");
                m.append(to_decimal(*record).as_str());
                m.append(" has a number of fields other than the header's");
                m
            },
        }
    }
}

/// Builds a table from the header record and the data records of a file.
pub trait DataLoader {
    fn table_from_records(&self, headers: Vec<String>, records: Vec<Vec<String>>) -> (r: Result<TableData, LoadError>)
        ensures
            records_match(headers@.len(), records@) ==> (r matches Ok(t) && is_table_of(t, headers, records@)),
            !records_match(headers@.len(), records@) ==> (r matches Err(LoadError::UnequalLengths { record })
                && first_mismatch(headers@.len(), records@, record as int)),
    ;
}

/// Every record has `n` fields.
pub open spec fn records_match(n: nat, records: Seq<Vec<String>>) -> bool {
    forall|r: int| 0 <= r < records.len() ==> (#[trigger] records[r])@.len() == n
}

/// `r` is the first record without `n` fields.
pub open spec fn first_mismatch(n: nat, records: Seq<Vec<String>>, r: int) -> bool {
    &&& 0 <= r < records.len()
    &&& records[r]@.len() != n
    &&& records_match(n, records.subrange(0, r))
}

/// `t` has the names `headers` and, in row `r` of column `c`, field `c` of record `r`.
pub open spec fn is_table_of(t: TableData, headers: Vec<String>, records: Seq<Vec<String>>) -> bool {
    &&& t.wf()
    &&& t.headers == headers
    &&& forall|c: int| 0 <= c < t.columns@.len() ==> (#[trigger] t.columns@[c])@.len() == records.len()
    &&& forall|c: int, r: int| 0 <= c < t.columns@.len() && 0 <= r < records.len() ==> #[trigger] t.cell(c, r) == records[r]@[c]@
}

/// The loader of comma-separated files.
pub struct CsvLoader;

impl DataLoader for CsvLoader {
    fn table_from_records(&self, headers: Vec<String>, records: Vec<Vec<String>>) -> (r: Result<TableData, LoadError>) {
        let n = headers.len();
        let mut r: usize = 0;
        while r < records.len()
            invariant
                r <= records@.len(),
                n == headers@.len(),
                records_match(n as nat, records@.subrange(0, r as int)),
            decreases records@.len() - r,
        {
            if records[r].len() != n {
                return Err(LoadError::UnequalLengths { record: r });
            }
            assert(records@.subrange(0, r + 1).drop_last() =~= records@.subrange(0, r as int));
            r += 1;
        }
        assert(records@.subrange(0, records@.len() as int) =~= records@);
        let mut columns: Vec<Vec<String>> = Vec::new();
        let mut c: usize = 0;
        while c < n
            invariant
                c <= n,
                n == headers@.len(),
                records_match(n as nat, records@),
                columns@.len() == c,
                forall|k: int| 0 <= k < c ==> (#[trigger] columns@[k])@.len() == records@.len(),
                forall|k: int, m: int| 0 <= k < c && 0 <= m < records@.len() ==> #[trigger] columns@[k]@[m]@ == records@[m]@[k]@,
            decreases n - c,
        {
            let mut column: Vec<String> = Vec::new();
            let mut m: usize = 0;
            while m < records.len()
                invariant
                    c < n,
                    n == headers@.len(),
                    records_match(n as nat, records@),
                    m <= records@.len(),
                    column@.len() == m,
                    forall|j: int| 0 <= j < m ==> #[trigger] column@[j]@ == records@[j]@[c as int]@,
                decreases records@.len() - m,
            {
                assert(records@[m as int]@.len() == n);
                column.push(records[m][c].clone());
                m += 1;
            }
            columns.push(column);
            c += 1;
        }
        let t = TableData::new(headers, columns);
        Ok(t)
    }
}

/// The loader for a format, given the format name already in lower case
/// (`lowered`) and as the user wrote it (`extension`).
pub fn loader_for_lowercase(lowered: &str, extension: &str) -> (r: Result<CsvLoader, LoadError>)
    ensures
        r is Ok <==> lowered@ == csv_text(),
        r matches Err(e) ==> (e matches LoadError::UnsupportedFormat(s) && s@ == extension@),
{
    let l = String::from_str(lowered);
    let csv = String::from_str("csv");
    proof {
        reveal_strlit("csv");
        assert(csv@ =~= csv_text());
    }
    if l == csv {
        Ok(CsvLoader)
    } else {
        Err(LoadError::UnsupportedFormat(String::from_str(extension)))
    }
}

/// The loader for a format named by a file extension or an explicit choice,
/// in any letter case.
pub fn get_loader(extension: &str) -> (r: Result<CsvLoader, LoadError>)
    ensures
        r is Ok <==> lower_of(extension@) == csv_text(),
        r matches Err(e) ==> (e matches LoadError::UnsupportedFormat(s) && s@ == extension@),
{
    let lowered = lowercase(extension);
    loader_for_lowercase(lowered.as_str(), extension)
}

} // verus!
