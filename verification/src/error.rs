use vstd::prelude::*;

verus! {

/// The failures a `Database` operation can report. Each variant carries the
/// name of the table the caller addressed, for diagnostic display.
#[derive(Debug)]
pub enum Error {
    /// Creation was asked for a name that is already registered.
    TableAlreadyExists(String),
    /// A name-keyed access named a table that is not registered.
    TableNotFound(String),
    /// The name resolved to a table, but the caller's assumed row type is not
    /// the type the table was created with.
    InvalidRowType(String),
}

impl Error {
    /// The name of the table the error is about.
    pub fn table_name(&self) -> (r: &String)
        ensures
            r@ == self.spec_table_name(),
    {
        match self {
            Error::TableAlreadyExists(n) => n,
            Error::TableNotFound(n) => n,
            Error::InvalidRowType(n) => n,
        }
    }

    /// The name carried by any variant.
    pub open spec fn spec_table_name(&self) -> Seq<char> {
        match self {
            Error::TableAlreadyExists(n) => n@,
            Error::TableNotFound(n) => n@,
            Error::InvalidRowType(n) => n@,
        }
    }
}

} // verus!
