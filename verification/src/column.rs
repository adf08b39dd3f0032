//! Named, typed column values: what is bound to a statement on the way to
//! the database and what a row holds on the way back.

use crate::text::str_equal;
use time::Timespec;
use vstd::prelude::*;

verus! {

/// A value of one column, by its type.
#[derive(Debug, PartialEq)]
pub enum ColumnValue {
    /// A unique identifier: the 128 bits of a UUID, most significant first.
    Uuid(u128),
    /// Text.
    Text(String),
    /// A native timestamp.
    Timestamp(Timespec),
    /// No value: the column is unset.
    Null,
}

/// A column value as mathematics sees it.
pub ghost enum Cell {
    Uuid(u128),
    Text(Seq<char>),
    Timestamp(Timespec),
    Null,
}

impl View for ColumnValue {
    type V = Cell;

    open spec fn view(&self) -> Cell {
        match self {
            ColumnValue::Uuid(id) => Cell::Uuid(*id),
            ColumnValue::Text(text) => Cell::Text(text@),
            ColumnValue::Timestamp(timestamp) => Cell::Timestamp(*timestamp),
            ColumnValue::Null => Cell::Null,
        }
    }
}

/// A column: its name and its value.
#[derive(Debug, PartialEq)]
pub struct Column {
    /// The name of the column.
    pub name: String,
    /// The value of the column.
    pub value: ColumnValue,
}

impl View for Column {
    type V = (Seq<char>, Cell);

    open spec fn view(&self) -> (Seq<char>, Cell) {
        (self.name@, self.value@)
    }
}

/// Columns in their order, as mathematics sees them.
pub type Cells = Seq<(Seq<char>, Cell)>;

/// The columns of a vector in their order.
pub open spec fn cells_of(columns: Seq<Column>) -> Cells {
    Seq::new(columns.len(), |i: int| columns[i]@)
}

/// The value of the first column that goes by `name`, if any does.
pub open spec fn cell(cells: Cells, name: Seq<char>) -> Option<Cell>
    decreases cells.len(),
{
    if cells.len() == 0 {
        None
    } else if cells[0].0 == name {
        Some(cells[0].1)
    } else {
        cell(cells.drop_first(), name)
    }
}

/// The values bound to a statement, each under the name of its column, in
/// the order of the statement's parameters.
#[derive(Debug, PartialEq)]
pub struct QueryValues {
    /// The columns in the order of the parameters.
    pub columns: Vec<Column>,
}

impl View for QueryValues {
    type V = Cells;

    open spec fn view(&self) -> Cells {
        cells_of(self.columns@)
    }
}

/// A row as it comes back from the database: its columns by name.
#[derive(Debug, PartialEq)]
pub struct Row {
    /// The columns in the order of the result.
    pub columns: Vec<Column>,
}

impl View for Row {
    type V = Cells;

    open spec fn view(&self) -> Cells {
        cells_of(self.columns@)
    }
}

/// Looking a name up from the `from`th column on finds what looking it up
/// among those columns alone finds.
proof fn lemma_cell_skip(cells: Cells, name: Seq<char>, from: int)
    requires
        0 <= from < cells.len(),
    ensures
        cell(cells.skip(from), name) == if cells[from].0 == name {
            Some(cells[from].1)
        } else {
            cell(cells.skip(from + 1), name)
        },
{
    assert(cells.skip(from)[0] == cells[from]);
    assert(cells.skip(from).drop_first() =~= cells.skip(from + 1));
}

impl Row {
    /// The value of the first column that goes by `name`, if any does.
    pub fn get(&self, name: &str) -> (found: Option<&ColumnValue>)
        ensures
            match found {
                Some(value) => cell(self@, name@) == Some(value@),
                None => cell(self@, name@) is None,
            },
    {
        let mut i: usize = 0;
        proof {
            assert(self@.skip(0) =~= self@);
        }
        while i < self.columns.len()
            invariant
                i <= self.columns.len(),
                self@.len() == self.columns.len(),
                cell(self@, name@) == cell(self@.skip(i as int), name@),
            decreases self.columns.len() - i,
        {
            proof {
                lemma_cell_skip(self@, name@, i as int);
                assert(self@[i as int] == self.columns@[i as int]@);
            }
            if str_equal(self.columns[i].name.as_str(), name) {
                return Some(&self.columns[i].value);
            }
            i += 1;
        }
        proof {
            assert(self@.skip(i as int).len() == 0);
        }
        None
    }
}

} // verus!
