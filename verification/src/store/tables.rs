//! The tables of a graph as they are read for listing and export.

use crate::json::{Json, JsonModel};
use crate::text::{same, views};
use vstd::prelude::*;

verus! {

/// A column: its cells, and the same cells as numbers where it is a column of unsigned
/// 64 bit numbers.
#[derive(Debug)]
pub struct StoredColumn {
    pub name: String,
    pub numbers: Option<Vec<u64>>,
    pub cells: Vec<Json>,
}

/// The mathematical value of a `StoredColumn`.
pub struct StoredColumnModel {
    pub name: Seq<char>,
    pub numbers: Option<Seq<u64>>,
    pub cells: Seq<JsonModel>,
}

impl View for StoredColumn {
    type V = StoredColumnModel;

    open spec fn view(&self) -> StoredColumnModel {
        StoredColumnModel {
            name: self.name@,
            numbers: match self.numbers {
                Some(v) => Some(v@),
                None => None,
            },
            cells: views(self.cells@),
        }
    }
}

/// The rows of one node or edge type.
#[derive(Debug)]
pub struct StoredTable {
    pub name: String,
    pub num_rows: usize,
    pub columns: Vec<StoredColumn>,
}

/// The mathematical value of a `StoredTable`.
pub struct StoredTableModel {
    pub name: Seq<char>,
    pub num_rows: nat,
    pub columns: Seq<StoredColumnModel>,
}

impl View for StoredTable {
    type V = StoredTableModel;

    open spec fn view(&self) -> StoredTableModel {
        StoredTableModel {
            name: self.name@,
            num_rows: self.num_rows as nat,
            columns: views(self.columns@),
        }
    }
}

/// The tables of a graph.
#[derive(Debug)]
pub struct StoredGraph {
    pub nodes: Vec<StoredTable>,
    pub edges: Vec<StoredTable>,
}

/// The mathematical value of a `StoredGraph`.
pub struct StoredGraphModel {
    pub nodes: Seq<StoredTableModel>,
    pub edges: Seq<StoredTableModel>,
}

impl View for StoredGraph {
    type V = StoredGraphModel;

    open spec fn view(&self) -> StoredGraphModel {
        StoredGraphModel { nodes: views(self.nodes@), edges: views(self.edges@) }
    }
}

/// Whether a column has a cell for each of `n` rows.
pub open spec fn stored_column_ok(c: StoredColumnModel, n: nat) -> bool {
    c.cells.len() == n && (c.numbers matches Some(v) ==> v.len() == n)
}

/// Whether every column of a table has a cell for every row.
pub open spec fn stored_table_ok(t: StoredTableModel) -> bool {
    forall|i: int| 0 <= i < t.columns.len() ==> stored_column_ok(#[trigger] t.columns[i], t.num_rows)
}

/// Whether every table of a graph is whole.
pub open spec fn stored_graph_ok(g: StoredGraphModel) -> bool {
    &&& forall|i: int| 0 <= i < g.nodes.len() ==> stored_table_ok(#[trigger] g.nodes[i])
    &&& forall|i: int| 0 <= i < g.edges.len() ==> stored_table_ok(#[trigger] g.edges[i])
}

/// The position from `i` on of the table of a type.
pub open spec fn table_position(tables: Seq<StoredTableModel>, name: Seq<char>, i: int) -> Option<
    int,
>
    decreases tables.len() - i,
{
    if i < 0 || i >= tables.len() {
        None
    } else if tables[i].name == name {
        Some(i)
    } else {
        table_position(tables, name, i + 1)
    }
}

/// The table of a type, if it has one.
pub open spec fn table_of(tables: Seq<StoredTableModel>, name: Seq<char>) -> Option<
    StoredTableModel,
> {
    match table_position(tables, name, 0) {
        Some(i) => Some(tables[i]),
        None => None,
    }
}

/// The number of rows of a type; none where it has no table.
pub open spec fn rows_of(tables: Seq<StoredTableModel>, name: Seq<char>) -> nat {
    match table_of(tables, name) {
        Some(t) => t.num_rows,
        None => 0,
    }
}

/// The position from `i` on of the column of a name.
pub open spec fn column_position(columns: Seq<StoredColumnModel>, name: Seq<char>, i: int) -> Option<
    int,
>
    decreases columns.len() - i,
{
    if i < 0 || i >= columns.len() {
        None
    } else if columns[i].name == name {
        Some(i)
    } else {
        column_position(columns, name, i + 1)
    }
}

/// The values of the first column of a name, if those are unsigned 64 bit numbers.
pub open spec fn numbers_of(t: StoredTableModel, name: Seq<char>) -> Option<Seq<u64>> {
    match column_position(t.columns, name, 0) {
        Some(i) => t.columns[i].numbers,
        None => None,
    }
}

/// The table of a type, if it has one.
pub fn find_table<'a>(tables: &'a Vec<StoredTable>, name: &str) -> (r: Option<&'a StoredTable>)
    ensures
        match r {
            Some(t) => table_of(views(tables@), name@) == Some(t@) && exists|i: int|
                0 <= i < tables@.len() && t == #[trigger] tables@[i],
            None => table_of(views(tables@), name@) is None,
        },
{
    let mut i: usize = 0;
    while i < tables.len()
        invariant
            i <= tables@.len(),
            table_position(views(tables@), name@, 0) == table_position(
                views(tables@),
                name@,
                i as int,
            ),
        decreases tables@.len() - i,
    {
        assert(views(tables@)[i as int] == tables@[i as int]@);
        if same(&tables[i].name, name) {
            return Some(&tables[i]);
        }
        i = i + 1;
    }
    None
}

/// The number of rows of a type; none where it has no table.
pub fn count_rows(tables: &Vec<StoredTable>, name: &str) -> (r: u64)
    ensures
        r == rows_of(views(tables@), name@),
{
    match find_table(tables, name) {
        Some(t) => t.num_rows as u64,
        None => 0,
    }
}

impl StoredTable {
    /// The position from `from` on of the column of a name.
    pub fn position(&self, name: &str, from: usize) -> (r: Option<usize>)
        ensures
            match r {
                Some(i) => column_position(self@.columns, name@, from as int) == Some(i as int) && i
                    < self.columns@.len(),
                None => column_position(self@.columns, name@, from as int) is None,
            },
    {
        let mut i: usize = from;
        while i < self.columns.len()
            invariant
                column_position(self@.columns, name@, from as int) == column_position(
                    self@.columns,
                    name@,
                    i as int,
                ),
            decreases self.columns@.len() - i,
        {
            assert(self@.columns[i as int] == self.columns@[i as int]@);
            if same(&self.columns[i].name, name) {
                return Some(i);
            }
            i = i + 1;
        }
        None
    }

    /// The values of the first column of a name, if those are unsigned 64 bit numbers.
    pub fn numbers(&self, name: &str) -> (r: Option<&Vec<u64>>)
        requires
            stored_table_ok(self@),
        ensures
            match r {
                Some(v) => numbers_of(self@, name@) == Some(v@) && v@.len() == self.num_rows,
                None => numbers_of(self@, name@) is None,
            },
    {
        match self.position(name, 0) {
            Some(i) => {
                assert(self@.columns[i as int] == self.columns@[i as int]@);
                assert(stored_column_ok(self@.columns[i as int], self@.num_rows));
                match &self.columns[i].numbers {
                    Some(v) => Some(v),
                    None => None,
                }
            },
            None => None,
        }
    }
}

} // verus!
