use vstd::prelude::*;

use crate::row::Row;
use crate::table::Table;

verus! {

/// Type-erased storage for one registered table. The registry must hold
/// tables of arbitrarily different row types side by side, so each table is
/// stored behind this opaque handle; the handle preserves the table's type
/// identity, and [`recover`] narrows it back to a concrete row type, failing
/// rather than ever reinterpreting the storage as a different type.
#[verifier::external_body]
pub struct Erased {
    inner: Box<dyn core::any::Any>,
}

/// The cell matrix of the table a handle holds: one cell sequence per row, in
/// insertion order, as the rows report them through their [`Row`] capability.
pub uninterp spec fn erased_cell_rows(e: Erased) -> Seq<Seq<Seq<char>>>;

/// The name of the table a handle holds.
pub uninterp spec fn erased_name(e: Erased) -> Seq<char>;

/// Relies on `Box::new` of std: the handle holds exactly the given table,
/// with its concrete type as the recoverable type identity.
#[verifier::external_body]
pub(crate) fn erase<T: Row + 'static>(t: Table<T>) -> (e: Erased)
    ensures
        erased_cell_rows(e) == t.spec_cell_rows(),
        erased_name(e) == t.name@,
{
    Erased { inner: Box::new(t) }
}

/// Relies on `<dyn Any>::downcast_ref` of std: it returns a reference to the
/// held value exactly when that value's type is `Table<T>`, and `None` for
/// every other type; it never reinterprets the held value.
#[verifier::external_body]
pub(crate) fn recover<T: Row + 'static>(e: &Erased) -> (r: Option<Table<T>>)
    ensures
        r matches Some(t) ==> t.spec_cell_rows() == erased_cell_rows(*e)
            && t.name@ == erased_name(*e),
{
    e.inner.downcast_ref::<Table<T>>().map(|t| t.dup())
}

} // verus!
