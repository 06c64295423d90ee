use vstd::prelude::*;

mod database;
mod erased;
mod error;
mod row;
mod table;

pub use database::Database;
pub use database::create_table_result;
pub use database::lemma_create_table_twice;
pub use error::Error;
pub use row::JoinedRow;
pub use row::Row;
pub use table::Table;

verus! {

} // verus!
