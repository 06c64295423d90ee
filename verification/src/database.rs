use vstd::prelude::*;

use crate::erased::Erased;
use crate::erased::erase;
use crate::erased::erased_cell_rows;
use crate::erased::erased_name;
use crate::erased::recover;
use crate::error::Error;
use crate::row::JoinedRow;
use crate::row::Row;
use crate::table::Table;
use vstd::string::StringExecFns;

verus! {

/// One registry slot: a table name and the type-erased table stored under it.
struct Entry {
    name: String,
    table: Erased,
}

/// A registry mapping table name to a type-erased table. The registry owns
/// table creation (uniqueness of names), type-checked lookup, and the cross
/// join. It owns its tables' storage exclusively: callers address a table by
/// its name, mutate it through [`Database::insert_into`], and receive
/// independent copies from [`Database::from`]. Its abstract value, written
/// `db@`, is the map from each registered name to the stored table's cell
/// matrix: one cell sequence per row, in insertion order.
pub struct Database {
    entries: Vec<Entry>,
}

impl View for Database {
    type V = Map<Seq<char>, Seq<Seq<Seq<char>>>>;

    closed spec fn view(&self) -> Map<Seq<char>, Seq<Seq<Seq<char>>>> {
        Map::new(
            |n: Seq<char>| self.contains_name(n),
            |n: Seq<char>| erased_cell_rows(self.entries@[self.idx_of(n)].table),
        )
    }
}

impl Database {
    /// Names are unique, and each erased table is stored under its own name.
    #[verifier::type_invariant]
    spec fn wf(self) -> bool {
        &&& forall|i: int, j: int|
            0 <= i < j < self.entries@.len() ==> self.entries@[i].name@
                != self.entries@[j].name@
        &&& forall|i: int|
            0 <= i < self.entries@.len() ==> #[trigger] erased_name(self.entries@[i].table)
                == self.entries@[i].name@
    }

    /// Whether some slot is registered under the given name.
    closed spec fn contains_name(&self, name: Seq<char>) -> bool {
        exists|i: int| 0 <= i < self.entries@.len() && #[trigger] self.entries@[i].name@ == name
    }

    /// The slot registered under the given name, where one is.
    closed spec fn idx_of(&self, name: Seq<char>) -> int {
        choose|i: int| 0 <= i < self.entries@.len() && #[trigger] self.entries@[i].name@ == name
    }

    /// A slot's name decides the registry's value at that name.
    proof fn lemma_entry_view(&self, k: int)
        requires
            self.wf(),
            0 <= k < self.entries@.len(),
        ensures
            self.idx_of(self.entries@[k].name@) == k,
            self@.contains_key(self.entries@[k].name@),
            self@[self.entries@[k].name@] == erased_cell_rows(self.entries@[k].table),
    {
        let n = self.entries@[k].name@;
        assert(self.contains_name(n));
        let i = self.idx_of(n);
        if i != k {
            assert(self.entries@[i].name@ != self.entries@[k].name@);
        }
    }

    /// Constructs an empty registry.
    pub fn new() -> (r: Self)
        ensures
            r@ == Map::<Seq<char>, Seq<Seq<Seq<char>>>>::empty(),
    {
        let r = Database { entries: Vec::new() };
        proof {
            assert(r@ =~= Map::<Seq<char>, Seq<Seq<Seq<char>>>>::empty());
        }
        r
    }

    /// Registers an empty table of row type `T` under `name`. Fails with
    /// [`Error::TableAlreadyExists`] exactly when the name is already
    /// registered, and then leaves the registry unchanged; on success the
    /// registry afterwards maps `name` to an empty row sequence and every
    /// other name to what it held before. The row type is bound to the name
    /// by this call and never changes for it.
    pub fn create_table<T: Row + 'static>(&mut self, name: &str) -> (r: Result<(), Error>)
        ensures
            final(self)@ == create_table_result(old(self)@, name@).0,
            (r is Ok) == create_table_result(old(self)@, name@).1,
            r matches Err(e) ==> (e matches Error::TableAlreadyExists(n) && n@ == name@),
    {
        proof {
            use_type_invariant(&*self);
        }
        let name_s: String = name.to_owned();
        match self.find_index(&name_s) {
            Some(k) => {
                proof {
                    self.lemma_entry_view(k as int);
                }
                Err(Error::TableAlreadyExists(name_s))
            },
            None => {
                let ghost pre = *self;
                let table = Table::<T>::new(name_s.clone());
                let entry = Entry { name: name_s, table: erase(table) };
                let mut entries: Vec<Entry> = Vec::new();
                std::mem::swap(&mut entries, &mut self.entries);
                entries.push(entry);
                proof {
                    assert forall|i: int, j: int| 0 <= i < j < entries@.len() implies
                        entries@[i].name@ != entries@[j].name@ by {
                        if j == entries@.len() - 1 {
                            assert(pre.contains_name(entries@[j].name@) ==> false);
                            assert(pre.entries@[i] == entries@[i]);
                        }
                    }
                }
                self.entries = entries;
                proof {
                    self.lemma_view_after_push(pre);
                    assert(erased_cell_rows(self.entries@[pre.entries@.len() as int].table)
                        =~= Seq::<Seq<Seq<char>>>::empty());
                    assert(!old(self)@.contains_key(name@));
                }
                Ok(())
            },
        }
    }

    /// After pushing one fresh slot, the registry's map gains exactly that
    /// slot's name, bound to its erased table's cell matrix.
    proof fn lemma_view_after_push(&self, pre: Database)
        requires
            pre.wf(),
            self.wf(),
            self.entries@.len() == pre.entries@.len() + 1,
            forall|i: int| 0 <= i < pre.entries@.len() ==> pre.entries@[i] == self.entries@[i],
            !pre.contains_name(self.entries@[pre.entries@.len() as int].name@),
        ensures
            self@ == pre@.insert(
                self.entries@[pre.entries@.len() as int].name@,
                erased_cell_rows(self.entries@[pre.entries@.len() as int].table),
            ),
    {
        let last = pre.entries@.len() as int;
        let new_name = self.entries@[last].name@;
        assert forall|n: Seq<char>| #[trigger] self@.contains_key(n) implies pre@.insert(
            new_name,
            erased_cell_rows(self.entries@[last].table),
        ).contains_key(n) && self@[n] == pre@.insert(
            new_name,
            erased_cell_rows(self.entries@[last].table),
        )[n] by {
            let i = self.idx_of(n);
            self.lemma_entry_view(i);
            if i == last {
                assert(n == new_name);
            } else {
                assert(pre.entries@[i].name@ == n);
                assert(pre.contains_name(n));
                pre.lemma_entry_view(i);
                assert(n != new_name);
            }
        }
        assert forall|n: Seq<char>| pre@.insert(
            new_name,
            erased_cell_rows(self.entries@[last].table),
        ).contains_key(n) implies self@.contains_key(n) by {
            if n == new_name {
                assert(self.contains_name(n));
            } else {
                let i = pre.idx_of(n);
                assert(pre.contains_name(n));
                assert(self.entries@[i].name@ == n);
                assert(self.contains_name(n));
            }
        }
        assert(self@ =~= pre@.insert(
            new_name,
            erased_cell_rows(self.entries@[last].table),
        ));
    }

    /// Looks the table registered under `table_name` up, assuming its rows to
    /// be of type `T`, and returns an independent copy of it. Fails with
    /// [`Error::TableNotFound`] exactly when no table is registered under the
    /// name, and with [`Error::InvalidRowType`] when the table registered
    /// there was created with a row type other than `T`: a type mismatch is
    /// always a failure, never partial or coerced data. The registry itself
    /// is never changed.
    pub fn from<T: Row + 'static>(&self, table_name: &str) -> (r: Result<Table<T>, Error>)
        ensures
            !self@.contains_key(table_name@) ==> (r matches Err(e)
                && e matches Error::TableNotFound(n) && n@ == table_name@),
            self@.contains_key(table_name@) ==> match r {
                Ok(t) => t.name@ == table_name@ && t.spec_cell_rows() == self@[table_name@],
                Err(e) => (e matches Error::InvalidRowType(n) && n@ == table_name@),
            },
    {
        proof {
            use_type_invariant(&*self);
        }
        let name_s: String = table_name.to_owned();
        match self.find_index(&name_s) {
            None => {
                proof {
                    assert(!self@.contains_key(table_name@));
                }
                Err(Error::TableNotFound(name_s))
            },
            Some(k) => {
                proof {
                    self.lemma_entry_view(k as int);
                }
                resolve_lookup(name_s, recover::<T>(&self.entries[k].table))
            },
        }
    }

    /// Appends `row` to the table registered under `name`, exactly as
    /// [`Table::insert`] would. Fails with [`Error::TableNotFound`] exactly
    /// when no table is registered under the name, and with
    /// [`Error::InvalidRowType`] when the table registered there was created
    /// with a row type other than `T`. On failure the registry is unchanged;
    /// on success the addressed table gains exactly the one row, at the end,
    /// and every other table is untouched.
    pub fn insert_into<T: Row + 'static>(&mut self, name: &str, row: T) -> (r: Result<(), Error>)
        ensures
            !old(self)@.contains_key(name@) ==> final(self)@ == old(self)@ && (r matches Err(e)
                && e matches Error::TableNotFound(n) && n@ == name@),
            old(self)@.contains_key(name@) ==> match r {
                Ok(u) => final(self)@ == old(self)@.insert(
                    name@,
                    old(self)@[name@].push(row.spec_cells()),
                ),
                Err(e) => final(self)@ == old(self)@ && (e matches Error::InvalidRowType(n)
                    && n@ == name@),
            },
    {
        proof {
            use_type_invariant(&*self);
        }
        let name_s: String = name.to_owned();
        match self.find_index(&name_s) {
            None => {
                proof {
                    assert(!self@.contains_key(name@));
                }
                Err(Error::TableNotFound(name_s))
            },
            Some(k) => {
                proof {
                    self.lemma_entry_view(k as int);
                }
                match recover::<T>(&self.entries[k].table) {
                    None => Err(Error::InvalidRowType(name_s)),
                    Some(mut t) => {
                        let ghost pre = *self;
                        t.insert(row);
                        proof {
                            assert(t.spec_cell_rows() =~= pre@[name@].push(row.spec_cells()));
                        }
                        let entry = Entry { name: name_s, table: erase(t) };
                        let mut entries: Vec<Entry> = Vec::new();
                        std::mem::swap(&mut entries, &mut self.entries);
                        entries.set(k, entry);
                        proof {
                            assert forall|i: int, j: int| 0 <= i < j < entries@.len() implies
                                entries@[i].name@ != entries@[j].name@ by {
                                assert(pre.entries@[i].name@ != pre.entries@[j].name@);
                            }
                        }
                        self.entries = entries;
                        proof {
                            self.lemma_view_after_set(pre, k as int);
                        }
                        Ok(())
                    },
                }
            },
        }
    }

    /// After replacing one slot's erased table with another stored under the
    /// same name, the registry's map changes at that name alone, to the new
    /// table's cell matrix.
    proof fn lemma_view_after_set(&self, pre: Database, k: int)
        requires
            pre.wf(),
            self.wf(),
            self.entries@.len() == pre.entries@.len(),
            0 <= k < pre.entries@.len(),
            forall|i: int|
                0 <= i < pre.entries@.len() && i != k ==> pre.entries@[i] == self.entries@[i],
            self.entries@[k].name@ == pre.entries@[k].name@,
        ensures
            self@ == pre@.insert(
                pre.entries@[k].name@,
                erased_cell_rows(self.entries@[k].table),
            ),
    {
        let nm = pre.entries@[k].name@;
        let rhs = pre@.insert(nm, erased_cell_rows(self.entries@[k].table));
        assert forall|n: Seq<char>| #[trigger] self@.contains_key(n) implies rhs.contains_key(n)
            && self@[n] == rhs[n] by {
            let i = self.idx_of(n);
            self.lemma_entry_view(i);
            if i == k {
                assert(n == nm);
                pre.lemma_entry_view(k);
            } else {
                assert(self.entries@[i].name@ != self.entries@[k].name@);
                assert(pre.entries@[i].name@ == n);
                pre.lemma_entry_view(i);
            }
        }
        assert forall|n: Seq<char>| #[trigger] rhs.contains_key(n) implies self@.contains_key(
            n,
        ) by {
            if n == nm {
                assert(self.entries@[k].name@ == n);
                assert(self.contains_name(n));
            } else {
                let i = pre.idx_of(n);
                pre.lemma_entry_view(i);
                assert(i != k);
                assert(self.entries@[i].name@ == n);
                assert(self.contains_name(n));
            }
        }
        assert(self@ =~= rhs);
    }

    /// The Cartesian product of two tables: every row of `table_a` paired
    /// with every row of `table_b`, ordered with the left table as the major
    /// key. The result holds exactly `m * n` rows for sources of `m` and `n`
    /// rows — so it is empty whenever either source is — and the row at
    /// linear index `i * n + j` pairs `table_a`'s row `i` with `table_b`'s
    /// row `j`. The result's name is the two source names joined with
    /// `_cross_`; the result is not registered anywhere.
    pub fn cross_join<T: Row + 'static, U: Row + 'static>(
        &self,
        table_a: &Table<T>,
        table_b: &Table<U>,
    ) -> (r: Table<JoinedRow<T, U>>)
        ensures
            r.name@ == table_a.name@ + "_cross_"@ + table_b.name@,
            r.rows@.len() == table_a.rows@.len() * table_b.rows@.len(),
            forall|i: int, j: int|
                0 <= i < table_a.rows@.len() && 0 <= j < table_b.rows@.len()
                    ==> r.rows@[i * table_b.rows@.len() + j] == (JoinedRow {
                    left: #[trigger] table_a.rows@[i],
                    right: #[trigger] table_b.rows@[j],
                }),
            table_a.rows@.len() == 0 || table_b.rows@.len() == 0 ==> r.rows@.len() == 0,
    {
        let name = table_a.name.clone().concat("_cross_").concat(table_b.name.as_str());
        proof {
            assert(name@ =~= table_a.name@ + "_cross_"@ + table_b.name@);
        }
        let mut joined: Table<JoinedRow<T, U>> = Table::new(name);
        let m = table_a.rows.len();
        let n = table_b.rows.len();
        let mut i: usize = 0;
        while i < m
            invariant
                i <= m,
                m == table_a.rows@.len(),
                n == table_b.rows@.len(),
                joined.name@ == table_a.name@ + "_cross_"@ + table_b.name@,
                joined.rows@.len() == i * n,
                forall|p: int, q: int|
                    0 <= p < i && 0 <= q < n ==> joined.rows@[p * n + q] == (JoinedRow {
                        left: #[trigger] table_a.rows@[p],
                        right: #[trigger] table_b.rows@[q],
                    }),
            decreases m - i,
        {
            let mut j: usize = 0;
            while j < n
                invariant
                    i < m,
                    j <= n,
                    m == table_a.rows@.len(),
                    n == table_b.rows@.len(),
                    joined.name@ == table_a.name@ + "_cross_"@ + table_b.name@,
                    joined.rows@.len() == i * n + j,
                    forall|p: int, q: int|
                        0 <= p < i && 0 <= q < n ==> joined.rows@[p * n + q] == (JoinedRow {
                            left: #[trigger] table_a.rows@[p],
                            right: #[trigger] table_b.rows@[q],
                        }),
                    forall|q: int|
                        0 <= q < j ==> joined.rows@[i * n + q] == (JoinedRow {
                            left: table_a.rows@[i as int],
                            right: #[trigger] table_b.rows@[q],
                        }),
                decreases n - j,
            {
                let pair = JoinedRow { left: table_a.rows[i].dup(), right: table_b.rows[j].dup() };
                let ghost prev = joined;
                joined.insert(pair);
                proof {
                    assert forall|p: int, q: int| 0 <= p < i && 0 <= q < n implies joined.rows@[p
                        * n + q] == (JoinedRow {
                        left: table_a.rows@[p],
                        right: table_b.rows@[q],
                    }) by {
                        lemma_pair_index_in_range(p, q, i as int, n as int);
                        assert(prev.rows@[p * n + q] == (JoinedRow {
                            left: table_a.rows@[p],
                            right: table_b.rows@[q],
                        }));
                    }
                }
                j = j + 1;
            }
            proof {
                assert((i + 1) * n == i * n + n) by (nonlinear_arith);
            }
            i = i + 1;
        }
        proof {
            assert(table_a.rows@.len() == 0 || table_b.rows@.len() == 0
                ==> table_a.rows@.len() * table_b.rows@.len() == 0) by (nonlinear_arith);
        }
        joined
    }

    /// The first slot whose name matches, if any.
    fn find_index(&self, name: &String) -> (r: Option<usize>)
        requires
            self.wf(),
        ensures
            match r {
                Some(k) => k < self.entries@.len() && self.entries@[k as int].name@ == name@,
                None => !self.contains_name(name@),
            },
    {
        let n = self.entries.len();
        let mut i: usize = 0;
        while i < n
            invariant
                i <= n,
                n == self.entries@.len(),
                forall|j: int| 0 <= j < i ==> #[trigger] self.entries@[j].name@ != name@,
            decreases n - i,
        {
            if self.entries[i].name == *name {
                return Some(i);
            }
            i = i + 1;
        }
        None
    }
}

/// Turns the outcome of narrowing an erased table to row type `T` into the
/// lookup's result: a recovered table is returned as it is, and a failed
/// narrowing is exactly an [`Error::InvalidRowType`] carrying the looked-up
/// name — never partial or substituted data.
fn resolve_lookup<T: Row>(name: String, found: Option<Table<T>>) -> (r: Result<Table<T>, Error>)
    ensures
        match found {
            Some(t) => r matches Ok(t2) && t2 == t,
            None => (r matches Err(e) && e matches Error::InvalidRowType(n) && n@ == name@),
        },
{
    match found {
        Some(t) => Ok(t),
        None => Err(Error::InvalidRowType(name)),
    }
}

impl Default for Database {
    /// An empty registry, as [`Database::new`] builds it.
    fn default() -> (r: Self)
        ensures
            r@ == Map::<Seq<char>, Seq<Seq<Seq<char>>>>::empty(),
    {
        Database::new()
    }
}

/// A pair index lies inside the block of full left-rows before it.
proof fn lemma_pair_index_in_range(p: int, q: int, i: int, n: int)
    by (nonlinear_arith)
    requires
        0 <= p < i,
        0 <= q < n,
    ensures
        0 <= p * n + q,
        p * n + q < i * n,
{
}

/// Creating a table twice under one name: where the first creation succeeds,
/// the second always fails, and leaves the registry — the first table's
/// contents included — exactly as the first creation left it.
pub proof fn lemma_create_table_twice(pre: Map<Seq<char>, Seq<Seq<Seq<char>>>>, name: Seq<char>)
    ensures
        ({
            let (m1, ok1) = create_table_result(pre, name);
            let (m2, ok2) = create_table_result(m1, name);
            ok1 ==> (!ok2 && m2 == m1 && m1[name] == Seq::<Seq<Seq<char>>>::empty())
        }),
{
}

/// What registering a name does to the registry's map: an already registered
/// name leaves it unchanged and fails; a fresh name binds to an empty row
/// sequence. The second component says whether the call succeeds.
pub open spec fn create_table_result(
    pre: Map<Seq<char>, Seq<Seq<Seq<char>>>>,
    name: Seq<char>,
) -> (Map<Seq<char>, Seq<Seq<Seq<char>>>>, bool) {
    if pre.contains_key(name) {
        (pre, false)
    } else {
        (pre.insert(name, Seq::<Seq<Seq<char>>>::empty()), true)
    }
}

} // verus!

