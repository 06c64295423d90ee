use vstd::prelude::*;

verus! {

/// The character sequences behind a vector of display strings.
pub open spec fn strings_view(v: Vec<String>) -> Seq<Seq<char>> {
    v@.map_values(|s: String| s@)
}

/// The capability a type needs so that its values can be stored in a
/// [`Table`](crate::Table): report a column header (fixed per type) and, per
/// instance, one display cell for each header column. Rows must also be
/// duplicable, so that batch insertion and joins can take independent copies.
pub trait Row: Sized {
    /// The header the type reports, one entry per column. It depends on the
    /// type alone, never on an instance. An implementor outside the verified
    /// world may leave this default, an unspecified value; nothing is then
    /// known of its header, only stated of it.
    open spec fn spec_header() -> Seq<Seq<char>> {
        arbitrary()
    }

    /// The cells an instance reports, one entry per column. Like
    /// [`Row::spec_header`], unspecified unless the implementor says more.
    open spec fn spec_cells(&self) -> Seq<Seq<char>> {
        arbitrary()
    }

    /// The column header, as display strings.
    fn header() -> (r: Vec<String>)
        ensures
            strings_view(r) == Self::spec_header(),
    ;

    /// The instance's cells, as display strings.
    fn cells(&self) -> (r: Vec<String>)
        ensures
            strings_view(r) == self.spec_cells(),
    ;

    /// An independent copy of the row, equal to the original.
    fn dup(&self) -> (r: Self)
        ensures
            r == *self,
    ;
}

/// A composite row pairing one row of a left table with one row of a right
/// table. It exists so that the product of a cross join satisfies [`Row`] and
/// can be stored and rendered like any other table: its header and cells are
/// the concatenation of the two constituents'.
pub struct JoinedRow<L: Row, R: Row> {
    /// The row drawn from the left table.
    pub left: L,
    /// The row drawn from the right table.
    pub right: R,
}

impl<L: Row, R: Row> Row for JoinedRow<L, R> {
    open spec fn spec_header() -> Seq<Seq<char>> {
        L::spec_header() + R::spec_header()
    }

    open spec fn spec_cells(&self) -> Seq<Seq<char>> {
        self.left.spec_cells() + self.right.spec_cells()
    }

    fn header() -> (r: Vec<String>) {
        let mut r = L::header();
        let mut rest = R::header();
        let ghost left_part = r;
        let ghost right_part = rest;
        r.append(&mut rest);
        proof {
            assert(strings_view(r) =~= strings_view(left_part) + strings_view(right_part));
        }
        r
    }

    fn cells(&self) -> (r: Vec<String>) {
        let mut r = self.left.cells();
        let mut rest = self.right.cells();
        let ghost left_part = r;
        let ghost right_part = rest;
        r.append(&mut rest);
        proof {
            assert(strings_view(r) =~= strings_view(left_part) + strings_view(right_part));
        }
        r
    }

    fn dup(&self) -> (r: Self) {
        JoinedRow { left: self.left.dup(), right: self.right.dup() }
    }
}

} // verus!
