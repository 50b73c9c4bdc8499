//! An accessor over owned tables kept in memory, for tests and examples:
//! each table is stored under a reference with the offset of its span.
use vstd::prelude::*;
use crate::accessor::{find_table_index, insert_table, insert_table_into, table_position};
use crate::column::{Column, new_bump};
use crate::column_type::ColumnType;
use crate::nullable_schema::name_text;
use crate::owned_column::OwnedColumn;
use crate::owned_table::{OwnedTable, find_position, position_of};
use crate::owned_table_utility::ident_text;
use crate::table_ref::TableRef;
use sqlparser::ast::Ident;

verus! {

broadcast use vstd::std_specs::vec::group_vec_axioms;

/// The type of the first column of a name in a table, if there is one.
pub open spec fn owned_column_type(table: Seq<(Ident, OwnedColumn)>, c: Ident) -> Option<ColumnType> {
    match position_of(table, c) {
        Some(k) => Some(table[k].1.spec_column_type()),
        None => None,
    }
}

/// The number of rows of a table: the length of its columns, or `0`
/// without columns.
pub open spec fn owned_rows(table: Seq<(Ident, OwnedColumn)>) -> nat {
    if table.len() == 0 { 0 } else { table[0].1.spec_len() }
}

/// An accessor over owned tables, each stored under a reference with the
/// offset of its span, and the public setup of the prover that commits to
/// them.
pub struct OwnedTableTestAccessor<P> {
    tables: Vec<(TableRef, (OwnedTable, usize))>,
    alloc: bumpalo::Bump,
    setup: Option<P>,
}

impl<P> View for OwnedTableTestAccessor<P> {
    type V = Seq<(TableRef, (OwnedTable, usize))>;

    closed spec fn view(&self) -> Seq<(TableRef, (OwnedTable, usize))> {
        self.tables@
    }
}

impl<P> OwnedTableTestAccessor<P> {
    /// The prover's public setup, if one was given.
    pub closed spec fn spec_setup(&self) -> Option<P> {
        self.setup
    }

    /// An accessor without tables or setup.
    pub fn new_empty() -> (a: Self)
        ensures
            a@ == Seq::<(TableRef, (OwnedTable, usize))>::empty(),
            a.spec_setup() is None,
    {
        OwnedTableTestAccessor { tables: Vec::new(), alloc: new_bump(), setup: None }
    }

    /// An accessor without tables, with the given setup.
    pub fn new_empty_with_setup(setup: P) -> (a: Self)
        ensures
            a@ == Seq::<(TableRef, (OwnedTable, usize))>::empty(),
            a.spec_setup() == Some(setup),
    {
        let mut res = Self::new_empty();
        res.setup = Some(setup);
        res
    }

    /// An accessor holding one table, with the given setup.
    pub fn new_from_table(table_ref: TableRef, owned_table: OwnedTable, offset: usize, setup: P) -> (a: Self)
        ensures
            a@ == seq![(table_ref, (owned_table, offset))],
            a.spec_setup() == Some(setup),
    {
        let mut res = Self::new_empty_with_setup(setup);
        res.add_table(table_ref, owned_table, offset);
        res
    }

    /// The prover's public setup, if one was given.
    pub fn setup(&self) -> (s: Option<&P>)
        ensures
            s matches Some(x) ==> self.spec_setup() == Some(*x),
            s is None ==> self.spec_setup() is None,
    {
        match &self.setup {
            Some(x) => Some(x),
            None => None,
        }
    }

    /// Stores a table under a reference with the offset of its span,
    /// replacing a table stored there before.
    pub fn add_table(&mut self, table_ref: TableRef, data: OwnedTable, table_offset: usize)
        ensures
            final(self)@ == insert_table(old(self)@, (table_ref, (data, table_offset))),
            final(self).spec_setup() == old(self).spec_setup(),
    {
        insert_table_into(&mut self.tables, (table_ref, (data, table_offset)));
    }

    /// The index of a stored table.
    fn table_index(&self, table_ref: &TableRef) -> (i: usize)
        requires
            table_position(self@, *table_ref) is Some,
        ensures
            i == table_position(self@, *table_ref)->0,
            i < self@.len(),
    {
        match find_table_index(&self.tables, table_ref) {
            Some(i) => i,
            None => vstd::pervasive::unreached(),
        }
    }

    /// The names of the columns of a stored table, in order, as text.
    pub fn get_column_names(&self, table_ref: &TableRef) -> (names: Vec<String>)
        requires
            table_position(self@, *table_ref) is Some,
        ensures
            names@.len() == self@[table_position(self@, *table_ref)->0].1.0@.len(),
            forall|k: int| 0 <= k < names@.len() ==> {
                let name = #[trigger] self@[table_position(self@, *table_ref)->0].1.0@[k].0;
                names@[k]@ == name_text(name)
            },
    {
        let i = self.table_index(table_ref);
        let entries = self.tables[i].1.0.inner_table();
        let mut names: Vec<String> = Vec::new();
        let mut k: usize = 0;
        while k < entries.len()
            invariant
                i == table_position(self@, *table_ref)->0,
                entries@ == self@[i as int].1.0@,
                k <= entries@.len(),
                names@.len() == k,
                forall|t: int| 0 <= t < k ==> names@[t]@ == name_text(entries@[t].0),
            decreases entries@.len() - k,
        {
            let text = ident_text(&entries[k].0);
            names.push(text);
            k = k + 1;
        }
        names
    }

    /// Moves the span of a stored table to a new offset.
    pub fn update_offset(&mut self, table_ref: &TableRef, new_offset: usize)
        requires
            table_position(old(self)@, *table_ref) is Some,
        ensures
            final(self)@ == old(self)@.update(table_position(old(self)@, *table_ref)->0,
                (old(self)@[table_position(old(self)@, *table_ref)->0].0,
                    (old(self)@[table_position(old(self)@, *table_ref)->0].1.0, new_offset))),
            final(self).spec_setup() == old(self).spec_setup(),
    {
        let i = self.table_index(table_ref);
        let (r, (table, _)) = self.tables.remove(i);
        self.tables.insert(i, (r, (table, new_offset)));
        proof {
            assert(self.tables@ =~= old(self)@.update(i as int, (old(self)@[i as int].0, (old(self)@[i as int].1.0, new_offset))));
        }
    }

    /// A column of a stored table, borrowed into the accessor's arena.
    pub fn get_column(&self, table_ref: &TableRef, column_id: &Ident) -> (c: Column<'_>)
        requires
            table_position(self@, *table_ref) is Some,
            position_of(self@[table_position(self@, *table_ref)->0].1.0@, *column_id) is Some,
        ensures
            ({
                let table = self@[table_position(self@, *table_ref)->0].1.0@;
                c.borrows(table[position_of(table, *column_id)->0].1)
            }),
    {
        let i = self.table_index(table_ref);
        let entries = self.tables[i].1.0.inner_table();
        match find_position(entries, column_id) {
            Some(k) => Column::from_owned_column(&entries[k].1, &self.alloc),
            None => vstd::pervasive::unreached(),
        }
    }

    /// The number of rows of a stored table.
    pub fn get_length(&self, table_ref: &TableRef) -> (n: usize)
        requires
            table_position(self@, *table_ref) is Some,
        ensures
            n == owned_rows(self@[table_position(self@, *table_ref)->0].1.0@),
    {
        let i = self.table_index(table_ref);
        self.tables[i].1.0.num_rows()
    }

    /// The offset of the span of a stored table.
    pub fn get_offset(&self, table_ref: &TableRef) -> (n: usize)
        requires
            table_position(self@, *table_ref) is Some,
        ensures
            n == self@[table_position(self@, *table_ref)->0].1.1,
    {
        let i = self.table_index(table_ref);
        self.tables[i].1.1
    }

    /// The type of a column of a table, or `None` when there is no such
    /// table or column.
    pub fn lookup_column(&self, table_ref: &TableRef, column_id: &Ident) -> (t: Option<ColumnType>)
        ensures
            t == match table_position(self@, *table_ref) {
                Some(i) => owned_column_type(self@[i].1.0@, *column_id),
                None => None,
            },
    {
        match find_table_index(&self.tables, table_ref) {
            Some(i) => {
                let entries = self.tables[i].1.0.inner_table();
                match find_position(entries, column_id) {
                    Some(k) => Some(entries[k].1.column_type()),
                    None => None,
                }
            },
            None => None,
        }
    }

    /// The names and types of the columns of a stored table, in order.
    pub fn lookup_schema(&self, table_ref: &TableRef) -> (s: Vec<(Ident, ColumnType)>)
        requires
            table_position(self@, *table_ref) is Some,
        ensures
            s@.len() == self@[table_position(self@, *table_ref)->0].1.0@.len(),
            forall|k: int| 0 <= k < s@.len() ==> {
                let e = #[trigger] self@[table_position(self@, *table_ref)->0].1.0@[k];
                s@[k] == (e.0, e.1.spec_column_type())
            },
    {
        let i = self.table_index(table_ref);
        let entries = self.tables[i].1.0.inner_table();
        let mut out: Vec<(Ident, ColumnType)> = Vec::new();
        let mut k: usize = 0;
        while k < entries.len()
            invariant
                i == table_position(self@, *table_ref)->0,
                entries@ == self@[i as int].1.0@,
                k <= entries@.len(),
                out@.len() == k,
                forall|t: int| 0 <= t < k ==> #[trigger] out@[t] == (entries@[t].0, entries@[t].1.spec_column_type()),
            decreases entries@.len() - k,
        {
            out.push((entries[k].0.clone(), entries[k].1.column_type()));
            k = k + 1;
        }
        out
    }
}

} // verus!
