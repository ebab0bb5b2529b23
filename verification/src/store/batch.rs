//! Tables in memory: named columns of equal length.

use crate::error::NanoError;
use crate::text::{cat5, same, views};
use vstd::prelude::*;

verus! {

/// The cells of a column. A number column has a value in every cell, and says which of
/// them count.
#[derive(Debug)]
#[allow(inconsistent_fields)]
pub enum ColumnData {
    Utf8(Vec<String>),
    UInt64 { values: Vec<u64>, valid: Vec<bool> },
    UInt32 { values: Vec<u32>, valid: Vec<bool> },
    Float32 { bits: Vec<u32>, valid: Vec<bool> },
    Other,
}

pub enum ColumnModel {
    Utf8(Seq<Seq<char>>),
    UInt64(Seq<u64>, Seq<bool>),
    UInt32(Seq<u32>, Seq<bool>),
    Float32(Seq<u32>, Seq<bool>),
    Other,
}

impl View for ColumnData {
    type V = ColumnModel;

    open spec fn view(&self) -> ColumnModel {
        match *self {
            ColumnData::Utf8(v) => ColumnModel::Utf8(views(v@)),
            ColumnData::UInt64 { values, valid } => ColumnModel::UInt64(values@, valid@),
            ColumnData::UInt32 { values, valid } => ColumnModel::UInt32(values@, valid@),
            ColumnData::Float32 { bits, valid } => ColumnModel::Float32(bits@, valid@),
            ColumnData::Other => ColumnModel::Other,
        }
    }
}

/// Whether a column has `n` cells.
pub open spec fn column_has(c: ColumnModel, n: nat) -> bool {
    match c {
        ColumnModel::Utf8(v) => v.len() == n,
        ColumnModel::UInt64(v, ok) => v.len() == n && ok.len() == n,
        ColumnModel::UInt32(v, ok) => v.len() == n && ok.len() == n,
        ColumnModel::Float32(v, ok) => v.len() == n && ok.len() == n,
        ColumnModel::Other => true,
    }
}

/// A named column.
#[derive(Debug)]
pub struct Column {
    pub name: String,
    pub data: ColumnData,
}

impl View for Column {
    type V = (Seq<char>, ColumnModel);

    open spec fn view(&self) -> (Seq<char>, ColumnModel) {
        (self.name@, self.data@)
    }
}

/// Columns of equal length.
#[derive(Debug)]
pub struct Batch {
    pub num_rows: usize,
    pub columns: Vec<Column>,
}

pub struct BatchModel {
    pub num_rows: nat,
    pub columns: Seq<(Seq<char>, ColumnModel)>,
}

impl View for Batch {
    type V = BatchModel;

    open spec fn view(&self) -> BatchModel {
        BatchModel { num_rows: self.num_rows as nat, columns: views(self.columns@) }
    }
}

/// Whether every column of a batch has a cell for every row.
pub open spec fn batch_ok(b: BatchModel) -> bool {
    forall|i: int| 0 <= i < b.columns.len() ==> column_has((#[trigger] b.columns[i]).1, b.num_rows)
}

/// The first column of a given name, from `i` on.
pub open spec fn column_named(b: BatchModel, name: Seq<char>, i: int) -> Option<ColumnModel>
    decreases b.columns.len() - i,
{
    if i < 0 || i >= b.columns.len() {
        None
    } else if b.columns[i].0 == name {
        Some(b.columns[i].1)
    } else {
        column_named(b, name, i + 1)
    }
}

/// A column that is found has a cell for every row.
pub proof fn lemma_column_named(b: BatchModel, name: Seq<char>, i: int)
    requires
        batch_ok(b),
    ensures
        column_named(b, name, i) matches Some(c) ==> column_has(c, b.num_rows),
    decreases b.columns.len() - i,
{
    if i < 0 || i >= b.columns.len() {
    } else if b.columns[i].0 == name {
    } else {
        lemma_column_named(b, name, i + 1);
    }
}

/// The message of a column that is not there.
pub open spec fn missing_column(table: Seq<char>, name: Seq<char>) -> Seq<char> {
    table + " batch missing "@ + name + " column"@
}

/// The message of a column of another type.
pub open spec fn mistyped_column(table: Seq<char>, name: Seq<char>, wanted: Seq<char>) -> Seq<char> {
    table + " "@ + name + " column is not "@ + wanted
}

/// The strings of a column.
pub open spec fn utf8_column(b: BatchModel, table: Seq<char>, name: Seq<char>) -> Result<
    Seq<Seq<char>>,
    Seq<char>,
> {
    match column_named(b, name, 0) {
        None => Err(missing_column(table, name)),
        Some(ColumnModel::Utf8(v)) => Ok(v),
        Some(_) => Err(mistyped_column(table, name, "Utf8"@)),
    }
}

/// The values of a column of 64 bit numbers.
pub open spec fn u64_column(b: BatchModel, table: Seq<char>, name: Seq<char>) -> Result<
    Seq<u64>,
    Seq<char>,
> {
    match column_named(b, name, 0) {
        None => Err(missing_column(table, name)),
        Some(ColumnModel::UInt64(v, _)) => Ok(v),
        Some(_) => Err(mistyped_column(table, name, "UInt64"@)),
    }
}

/// The values of a column of 32 bit numbers.
pub open spec fn u32_column(b: BatchModel, table: Seq<char>, name: Seq<char>) -> Result<
    Seq<u32>,
    Seq<char>,
> {
    match column_named(b, name, 0) {
        None => Err(missing_column(table, name)),
        Some(ColumnModel::UInt32(v, _)) => Ok(v),
        Some(_) => Err(mistyped_column(table, name, "UInt32"@)),
    }
}

impl Batch {
    /// The first column of a given name.
    pub fn column_by_name(&self, name: &str) -> (r: Option<&ColumnData>)
        ensures
            match r {
                Some(c) => column_named(self@, name@, 0) == Some(c@),
                None => column_named(self@, name@, 0) is None,
            },
    {
        let mut i: usize = 0;
        while i < self.columns.len()
            invariant
                i <= self.columns@.len(),
                column_named(self@, name@, 0) == column_named(self@, name@, i as int),
            decreases self.columns@.len() - i,
        {
            assert(self@.columns[i as int] == self.columns@[i as int]@);
            if same(&self.columns[i].name, name) {
                return Some(&self.columns[i].data);
            }
            i = i + 1;
        }
        None
    }

    fn missing(table: &str, name: &str) -> (r: NanoError)
        ensures
            r matches NanoError::Storage(m) && m@ == missing_column(table@, name@),
    {
        let mut m = table.to_owned();
        m.append(" batch missing ");
        m.append(name);
        m.append(" column");
        NanoError::Storage(m)
    }

    fn mistyped(table: &str, name: &str, wanted: &str) -> (r: NanoError)
        ensures
            r matches NanoError::Storage(m) && m@ == mistyped_column(table@, name@, wanted@),
    {
        NanoError::Storage(cat5(table, " ", name, " column is not ", wanted))
    }

    /// The strings of a column.
    pub fn utf8(&self, table: &str, name: &str) -> (r: Result<&Vec<String>, NanoError>)
        requires
            batch_ok(self@),
        ensures
            match r {
                Ok(v) => utf8_column(self@, table@, name@) == Ok::<Seq<Seq<char>>, Seq<char>>(
                    views(v@),
                ) && v@.len() == self.num_rows,
                Err(NanoError::Storage(m)) => utf8_column(self@, table@, name@) == Err::<
                    Seq<Seq<char>>,
                    Seq<char>,
                >(m@),
                Err(_) => false,
            },
    {
        proof {
            lemma_column_named(self@, name@, 0);
        }
        match self.column_by_name(name) {
            None => Err(Batch::missing(table, name)),
            Some(ColumnData::Utf8(v)) => {
                assert(views(v@).len() == v@.len());
                Ok(v)
            },
            Some(_) => Err(Batch::mistyped(table, name, "Utf8")),
        }
    }

    /// The values of a column of 64 bit numbers.
    pub fn uint64(&self, table: &str, name: &str) -> (r: Result<&Vec<u64>, NanoError>)
        requires
            batch_ok(self@),
        ensures
            match r {
                Ok(v) => u64_column(self@, table@, name@) == Ok::<Seq<u64>, Seq<char>>(v@)
                    && v@.len() == self.num_rows,
                Err(NanoError::Storage(m)) => u64_column(self@, table@, name@) == Err::<
                    Seq<u64>,
                    Seq<char>,
                >(m@),
                Err(_) => false,
            },
    {
        proof {
            lemma_column_named(self@, name@, 0);
        }
        match self.column_by_name(name) {
            None => Err(Batch::missing(table, name)),
            Some(ColumnData::UInt64 { values, .. }) => Ok(values),
            Some(_) => Err(Batch::mistyped(table, name, "UInt64")),
        }
    }

    /// The values of a column of 32 bit numbers.
    pub fn uint32(&self, table: &str, name: &str) -> (r: Result<&Vec<u32>, NanoError>)
        requires
            batch_ok(self@),
        ensures
            match r {
                Ok(v) => u32_column(self@, table@, name@) == Ok::<Seq<u32>, Seq<char>>(v@)
                    && v@.len() == self.num_rows,
                Err(NanoError::Storage(m)) => u32_column(self@, table@, name@) == Err::<
                    Seq<u32>,
                    Seq<char>,
                >(m@),
                Err(_) => false,
            },
    {
        proof {
            lemma_column_named(self@, name@, 0);
        }
        match self.column_by_name(name) {
            None => Err(Batch::missing(table, name)),
            Some(ColumnData::UInt32 { values, .. }) => Ok(values),
            Some(_) => Err(Batch::mistyped(table, name, "UInt32")),
        }
    }
}

} // verus!
