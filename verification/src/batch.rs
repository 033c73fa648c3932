//! Columnar record tables, the shape in which signals and target weights
//! arrive: named columns of strings or of fixed-point numbers with a validity
//! bit per row, looked up by name.

use vstd::prelude::*;

verus! {

/// The data of one column.
pub enum ColumnData {
    /// UTF-8 strings, one per row.
    Utf8(Vec<String>),
    /// Fixed-point numbers, one per row; `valid[i]` is false where row `i` is null
    /// (the number stored there is then whatever the column holds in that slot).
    Float64 { values: Vec<i64>, valid: Vec<bool> },
    /// A column of any other type.
    Other,
}

/// A named column.
pub struct Column {
    pub name: String,
    pub data: ColumnData,
}

/// A table of named columns, each with `num_rows` rows.
pub struct RecordTable {
    pub columns: Vec<Column>,
    pub num_rows: usize,
}

/// How a column lookup failed.
#[derive(Debug, Clone, Copy, PartialEq, Eq, Structural)]
pub enum BatchErrorKind {
    NotFound,
    NotStringArray,
    NotFloat64Array,
}

/// A column that the logic needs is missing or has another type.
pub struct BatchError {
    pub kind: BatchErrorKind,
    pub column: String,
}

pub open spec fn text_values(d: ColumnData) -> Seq<Seq<char>> {
    match d {
        ColumnData::Utf8(v) => v@.map_values(|s: String| s@),
        _ => Seq::empty(),
    }
}

pub open spec fn number_values(d: ColumnData) -> Seq<i64> {
    match d {
        ColumnData::Float64 { values, .. } => values@,
        _ => Seq::empty(),
    }
}

pub open spec fn number_valid(d: ColumnData) -> Seq<bool> {
    match d {
        ColumnData::Float64 { valid, .. } => valid@,
        _ => Seq::empty(),
    }
}

/// The index of the first of the first `k` columns named `name`.
pub open spec fn first_named(cols: Seq<Column>, name: Seq<char>, k: nat) -> Option<int>
    decreases k,
{
    if k == 0 {
        None
    } else {
        match first_named(cols, name, (k - 1) as nat) {
            Some(i) => Some(i),
            None => if cols[k - 1].name@ == name {
                Some(k - 1)
            } else {
                None
            },
        }
    }
}

impl RecordTable {
    /// Every string and number column has one entry per row.
    pub open spec fn wf(&self) -> bool {
        forall|i: int| #![trigger self.columns@[i]]
            0 <= i < self.columns@.len() ==> match self.columns@[i].data {
                ColumnData::Utf8(v) => v@.len() == self.num_rows,
                ColumnData::Float64 { values, valid } => values@.len() == self.num_rows
                    && valid@.len() == self.num_rows,
                ColumnData::Other => true,
            }
    }

    /// The index of the first column named `name`, if any.
    pub open spec fn column_index(&self, name: Seq<char>) -> Option<int> {
        first_named(self.columns@, name, self.columns@.len())
    }

    /// The data of the first column named `name`, if any.
    pub open spec fn column_data(&self, name: Seq<char>) -> Option<ColumnData> {
        match self.column_index(name) {
            Some(i) => Some(self.columns@[i].data),
            None => None,
        }
    }

    /// The index of the first column named `name`, if any.
    pub fn find_column(&self, name: &str) -> (r: Option<usize>)
        ensures
            match r {
                Some(i) => self.column_index(name@) == Some(i as int),
                None => self.column_index(name@) is None,
            },
            r matches Some(i) ==> i < self.columns@.len(),
    {
        let key = String::from_str(name);
        let n = self.columns.len();
        for k in 0..n
            invariant
                n == self.columns@.len(),
                key@ == name@,
                first_named(self.columns@, name@, k as nat) is None,
        {
            if self.columns[k].name == key {
                proof {
                    assert(first_named(self.columns@, name@, (k + 1) as nat) == Some(k as int));
                    lemma_first_named_after(self.columns@, name@, (k + 1) as nat, n as nat);
                }
                return Some(k);
            }
        }
        None
    }

    /// The first column named `name`, which must hold strings.
    pub fn string_column(&self, name: &str) -> (r: Result<usize, BatchError>)
        ensures
            match self.column_data(name@) {
                None => r matches Err(e) && e.kind == BatchErrorKind::NotFound && e.column@ == name@,
                Some(ColumnData::Utf8(_)) => r == Ok::<usize, BatchError>(
                    self.column_index(name@).unwrap() as usize,
                ),
                Some(_) => r matches Err(e) && e.kind == BatchErrorKind::NotStringArray && e.column@ == name@,
            },
            r matches Ok(i) ==> i < self.columns@.len() && self.column_index(name@) == Some(i as int),
    {
        match self.find_column(name) {
            None => Err(BatchError { kind: BatchErrorKind::NotFound, column: String::from_str(name) }),
            Some(i) => match &self.columns[i].data {
                ColumnData::Utf8(_) => Ok(i),
                _ => Err(BatchError { kind: BatchErrorKind::NotStringArray, column: String::from_str(name) }),
            },
        }
    }

    /// The first column named `name`, which must hold numbers.
    pub fn number_column(&self, name: &str) -> (r: Result<usize, BatchError>)
        ensures
            match self.column_data(name@) {
                None => r matches Err(e) && e.kind == BatchErrorKind::NotFound && e.column@ == name@,
                Some(ColumnData::Float64 { .. }) => r == Ok::<usize, BatchError>(
                    self.column_index(name@).unwrap() as usize,
                ),
                Some(_) => r matches Err(e) && e.kind == BatchErrorKind::NotFloat64Array && e.column@ == name@,
            },
            r matches Ok(i) ==> i < self.columns@.len() && self.column_index(name@) == Some(i as int),
    {
        match self.find_column(name) {
            None => Err(BatchError { kind: BatchErrorKind::NotFound, column: String::from_str(name) }),
            Some(i) => match &self.columns[i].data {
                ColumnData::Float64 { .. } => Ok(i),
                _ => Err(BatchError { kind: BatchErrorKind::NotFloat64Array, column: String::from_str(name) }),
            },
        }
    }

    /// The first column named `name` when it holds numbers; none when there is
    /// no such column or the first one holds something else.
    pub fn optional_number_column(&self, name: &str) -> (r: Option<usize>)
        ensures
            match self.column_data(name@) {
                Some(ColumnData::Float64 { .. }) => r == Some(self.column_index(name@).unwrap() as usize),
                _ => r is None,
            },
            r matches Some(i) ==> i < self.columns@.len() && self.column_index(name@) == Some(i as int),
    {
        match self.find_column(name) {
            None => None,
            Some(i) => match &self.columns[i].data {
                ColumnData::Float64 { .. } => Some(i),
                _ => None,
            },
        }
    }
}

proof fn lemma_first_named_after(cols: Seq<Column>, name: Seq<char>, k: nat, m: nat)
    requires
        k <= m,
        first_named(cols, name, k) is Some,
    ensures
        first_named(cols, name, m) == first_named(cols, name, k),
    decreases m - k,
{
    if m > k {
        lemma_first_named_after(cols, name, k, (m - 1) as nat);
    }
}

/// The text of an error, as the engine reports it.
pub open spec fn error_text(e: BatchError) -> Seq<char> {
    "Column '"@ + e.column@ + match e.kind {
        BatchErrorKind::NotFound => "' not found"@,
        BatchErrorKind::NotStringArray => "' is not a StringArray"@,
        BatchErrorKind::NotFloat64Array => "' is not a Float64Array"@,
    }
}

impl BatchError {
    /// The text of the error, as the engine reports it.
    pub fn message(&self) -> (r: String)
        ensures
            r@ == error_text(*self),
    {
        let mut s = String::from_str("Column '");
        s.append(self.column.as_str());
        match self.kind {
            BatchErrorKind::NotFound => s.append("' not found"),
            BatchErrorKind::NotStringArray => s.append("' is not a StringArray"),
            BatchErrorKind::NotFloat64Array => s.append("' is not a Float64Array"),
        }
        s
    }
}

} // verus!
