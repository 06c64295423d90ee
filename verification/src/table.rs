use vstd::prelude::*;

use crate::row::Row;
use crate::row::strings_view;
use vstd::slice::slice_index_get;

verus! {

/// The character sequences behind a rendered list of cell lines.
pub open spec fn cell_lines_view(v: Vec<Vec<String>>) -> Seq<Seq<Seq<char>>> {
    v@.map_values(|cs: Vec<String>| strings_view(cs))
}

/// An ordered, homogeneous collection of rows of one type, with a name.
/// Insertion order is meaningful and preserved; the table itself never fails:
/// name collisions and type mismatches are enforced one layer up, by
/// [`Database`](crate::Database), before a `Table` operation is reached.
pub struct Table<T: Row> {
    /// The table's name, fixed at construction.
    pub name: String,
    /// The rows, in insertion order.
    pub rows: Vec<T>,
}

impl<T: Row> Table<T> {
    /// The per-row cell sequences the table reports through the rows'
    /// [`Row`] capability, in insertion order.
    pub open spec fn spec_cell_rows(&self) -> Seq<Seq<Seq<char>>> {
        self.rows@.map_values(|r: T| r.spec_cells())
    }

    /// Constructs an empty table under the given name. Never fails.
    pub fn new(name: String) -> (r: Self)
        ensures
            r.name == name,
            r.rows@ == Seq::<T>::empty(),
    {
        Table { name, rows: Vec::new() }
    }

    /// Appends one row; order is preserved.
    pub fn insert(&mut self, row: T)
        ensures
            final(self).name == old(self).name,
            final(self).rows@ == old(self).rows@.push(row),
    {
        self.rows.push(row);
    }

    /// Appends a sequence of rows in the given order, equivalent to repeated
    /// [`Table::insert`]. The table's row order afterwards is its old rows
    /// followed by exactly the given rows: nothing is reordered or dropped.
    pub fn insert_many(&mut self, rows: &[T])
        ensures
            final(self).name == old(self).name,
            final(self).rows@ == old(self).rows@ + rows@,
    {
        let n = rows.len();
        let mut i: usize = 0;
        while i < n
            invariant
                i <= n,
                n == rows@.len(),
                self.name == old(self).name,
                self.rows@ == old(self).rows@ + rows@.subrange(0, i as int),
            decreases n - i,
        {
            let row = slice_index_get(rows, i).dup();
            self.rows.push(row);
            proof {
                assert(self.rows@ =~= old(self).rows@ + rows@.subrange(0, i + 1));
            }
            i = i + 1;
        }
        proof {
            assert(rows@.subrange(0, n as int) =~= rows@);
        }
    }

    /// An independent copy of the table: the same name, and rows equal to the
    /// originals, in the same order.
    pub fn dup(&self) -> (r: Self)
        ensures
            r.name == self.name,
            r.rows@ == self.rows@,
    {
        let name = self.name.clone();
        let mut rows: Vec<T> = Vec::new();
        let n = self.rows.len();
        let mut i: usize = 0;
        while i < n
            invariant
                i <= n,
                n == self.rows@.len(),
                rows@ == self.rows@.subrange(0, i as int),
            decreases n - i,
        {
            rows.push(self.rows[i].dup());
            proof {
                assert(rows@ =~= self.rows@.subrange(0, i + 1));
            }
            i = i + 1;
        }
        proof {
            assert(self.rows@.subrange(0, n as int) =~= self.rows@);
        }
        Table { name, rows }
    }

    /// Renders the table for a tabular text renderer: the header the row type
    /// reports, and one ordered cell sequence per row, in insertion order.
    /// Pure: the table is not changed.
    pub fn render(&self) -> (r: (Vec<String>, Vec<Vec<String>>))
        ensures
            strings_view(r.0) == T::spec_header(),
            cell_lines_view(r.1) == self.spec_cell_rows(),
    {
        let header = T::header();
        let mut lines: Vec<Vec<String>> = Vec::new();
        let n = self.rows.len();
        let mut i: usize = 0;
        while i < n
            invariant
                i <= n,
                n == self.rows@.len(),
                lines@.len() == i,
                forall|j: int|
                    0 <= j < i ==> #[trigger] strings_view(lines@[j])
                        == self.rows@[j].spec_cells(),
            decreases n - i,
        {
            lines.push(self.rows[i].cells());
            i = i + 1;
        }
        proof {
            assert(cell_lines_view(lines) =~= self.spec_cell_rows());
        }
        (header, lines)
    }
}

} // verus!
