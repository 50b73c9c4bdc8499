//! An accessor over tables whose columns may carry presence masks, kept in
//! memory for tests and examples. Besides its columns, a table offers the
//! boolean presence column of each of its columns, named by
//! `NullableOwnedTable::presence_column_name`; a column without a mask has
//! every row present.
use vstd::prelude::*;
use crate::accessor::{find_table_index, insert_table, insert_table_into, table_position};
use crate::column::{Column, alloc_slice_copy, alloc_slice_fill_copy, new_bump};
use crate::column_field::ColumnField;
use crate::column_type::ColumnType;
use crate::nullable_column::NullableColumn;
use crate::nullable_owned_column::{NullableOwnedColumn, present_rows};
use crate::nullable_owned_table::{NullableOwnedTable, field_of, nullable_lengths_agree, posql_presence_name};
use crate::nullable_schema::name_text;
use crate::owned_table::{find_position, lemma_map_of_distinct, lemma_position_from, names_distinct, position_of};
use crate::nullable_table::{NullableTable, all_rows};
use crate::table::TableOptions;
use crate::owned_table_utility::{ident_text, idents_equal};
use crate::table_ref::TableRef;
use sqlparser::ast::Ident;

verus! {

broadcast use vstd::std_specs::vec::group_vec_axioms;

/// The first position from index `start` on of a column whose presence
/// column has the name `id`, if there is one.
pub open spec fn presence_position_from(table: Seq<(Ident, NullableOwnedColumn)>, id: Ident, start: int) -> Option<int>
    decreases table.len() - start,
{
    if start < 0 || start >= table.len() {
        None
    } else if posql_presence_name(table[start].0) == id {
        Some(start)
    } else {
        presence_position_from(table, id, start + 1)
    }
}

/// The first position of a column whose presence column has the name
/// `id`, if there is one.
pub open spec fn presence_position(table: Seq<(Ident, NullableOwnedColumn)>, id: Ident) -> Option<int> {
    presence_position_from(table, id, 0)
}

/// A position found lies among the columns.
proof fn lemma_presence_position_in_range(table: Seq<(Ident, NullableOwnedColumn)>, id: Ident, start: int)
    requires
        0 <= start,
    ensures
        presence_position_from(table, id, start) matches Some(p) ==> start <= p < table.len()
            && posql_presence_name(table[p].0) == id,
    decreases table.len() - start,
{
    if start < table.len() && posql_presence_name(table[start].0) != id {
        lemma_presence_position_in_range(table, id, start + 1);
    }
}

/// The type of a column of a table, its presence columns included, if
/// there is one.
pub open spec fn nullable_column_type(table: Seq<(Ident, NullableOwnedColumn)>, c: Ident) -> Option<ColumnType> {
    match position_of(table, c) {
        Some(k) => Some(table[k].1.spec_values().spec_column_type()),
        None => if presence_position(table, c) is Some { Some(ColumnType::Boolean) } else { None },
    }
}

/// The field of a column of a table, if there is one: a presence column
/// is a boolean field; another column's field is nullable when it has a
/// mask.
pub open spec fn nullable_column_field(table: Seq<(Ident, NullableOwnedColumn)>, c: Ident) -> Option<ColumnField> {
    if presence_position(table, c) is Some {
        Some(ColumnField::spec_new(c, ColumnType::Boolean))
    } else {
        match position_of(table, c) {
            Some(k) => Some(field_of(c, table[k].1)),
            None => None,
        }
    }
}

/// The mask and the length of the column whose presence column has the
/// name `presence_column_id`, if there is one.
fn presence_column<'t>(table: &'t NullableOwnedTable, presence_column_id: &Ident)
    -> (r: Option<(Option<&'t [bool]>, usize)>)
    ensures
        (r is Some <==> presence_position(table@, *presence_column_id) is Some),
        r matches Some((p, n)) ==> exists|k: int| 0 <= k < table@.len()
            && (k == presence_position(table@, *presence_column_id)->0)
            && n == (#[trigger] table@[k]).1.spec_values().spec_len()
            && (p matches Some(s) ==> table@[k].1.spec_presence() == Some(s@) && s@.len() == n)
            && (p is None ==> table@[k].1.spec_presence() is None),
{
    let entries = table.inner_table();
    let mut i: usize = 0;
    while i < entries.len()
        invariant
            entries@ == table@,
            i <= entries@.len(),
            presence_position(table@, *presence_column_id)
                == presence_position_from(table@, *presence_column_id, i as int),
        decreases entries@.len() - i,
    {
        let name = NullableOwnedTable::presence_column_name(&entries[i].0);
        proof {
        }
        if idents_equal(&name, presence_column_id) {
            let column = &entries[i].1;
            return Some((column.presence(), column.len()));
        }
        i = i + 1;
    }
    None
}

/// An accessor over tables whose columns may carry presence masks, each
/// stored under a reference with the offset of its span, and the public
/// setup of the prover that commits to them.
pub struct NullableOwnedTableTestAccessor<P> {
    tables: Vec<(TableRef, (NullableOwnedTable, usize))>,
    alloc: bumpalo::Bump,
    setup: Option<P>,
}

impl<P> View for NullableOwnedTableTestAccessor<P> {
    type V = Seq<(TableRef, (NullableOwnedTable, usize))>;

    closed spec fn view(&self) -> Seq<(TableRef, (NullableOwnedTable, usize))> {
        self.tables@
    }
}

impl<P> NullableOwnedTableTestAccessor<P> {
    /// The prover's public setup, if one was given.
    pub closed spec fn spec_setup(&self) -> Option<P> {
        self.setup
    }

    /// The columns of the table stored under a reference.
    pub open spec fn spec_table(&self, table_ref: TableRef) -> Seq<(Ident, NullableOwnedColumn)> {
        self@[table_position(self@, table_ref)->0].1.0@
    }

    /// An accessor without tables or setup.
    pub fn new_empty() -> (a: Self)
        ensures
            a@ == Seq::<(TableRef, (NullableOwnedTable, usize))>::empty(),
            a.spec_setup() is None,
    {
        NullableOwnedTableTestAccessor { tables: Vec::new(), alloc: new_bump(), setup: None }
    }

    /// An accessor without tables, with the given setup.
    pub fn new_empty_with_setup(setup: P) -> (a: Self)
        ensures
            a@ == Seq::<(TableRef, (NullableOwnedTable, usize))>::empty(),
            a.spec_setup() == Some(setup),
    {
        let mut res = Self::new_empty();
        res.setup = Some(setup);
        res
    }

    /// An accessor holding one table, with the given setup.
    pub fn new_from_table(table_ref: TableRef, nullable_owned_table: NullableOwnedTable, offset: usize, setup: P)
        -> (a: Self)
        ensures
            a@ == seq![(table_ref, (nullable_owned_table, offset))],
            a.spec_setup() == Some(setup),
    {
        let mut res = Self::new_empty_with_setup(setup);
        res.add_table(table_ref, nullable_owned_table, offset);
        res
    }

    /// The prover's public setup, if one was given.
    pub fn setup(&self) -> (s: Option<&P>)
        ensures
            s matches Some(x) ==> self.spec_setup() == Some(*x),
            s is None ==> self.spec_setup() is None,
    {
        match &self.setup {
            Some(x) => Some(x),
            None => None,
        }
    }

    /// Stores a table under a reference with the offset of its span,
    /// replacing a table stored there before.
    pub fn add_table(&mut self, table_ref: TableRef, data: NullableOwnedTable, table_offset: usize)
        ensures
            final(self)@ == insert_table(old(self)@, (table_ref, (data, table_offset))),
            final(self).spec_setup() == old(self).spec_setup(),
    {
        insert_table_into(&mut self.tables, (table_ref, (data, table_offset)));
    }

    /// The index of a stored table.
    fn table_index(&self, table_ref: &TableRef) -> (i: usize)
        requires
            table_position(self@, *table_ref) is Some,
        ensures
            i == table_position(self@, *table_ref)->0,
            i < self@.len(),
    {
        match find_table_index(&self.tables, table_ref) {
            Some(i) => i,
            None => vstd::pervasive::unreached(),
        }
    }

    /// The names of the columns of a stored table, in order, as text.
    pub fn get_column_names(&self, table_ref: &TableRef) -> (names: Vec<String>)
        requires
            table_position(self@, *table_ref) is Some,
        ensures
            names@.len() == self.spec_table(*table_ref).len(),
            forall|k: int| 0 <= k < names@.len() ==> {
                let name = #[trigger] self.spec_table(*table_ref)[k].0;
                names@[k]@ == name_text(name)
            },
    {
        let i = self.table_index(table_ref);
        let entries = self.tables[i].1.0.inner_table();
        let mut names: Vec<String> = Vec::new();
        let mut k: usize = 0;
        while k < entries.len()
            invariant
                i == table_position(self@, *table_ref)->0,
                entries@ == self@[i as int].1.0@,
                k <= entries@.len(),
                names@.len() == k,
                forall|t: int| 0 <= t < k ==> names@[t]@ == name_text(entries@[t].0),
            decreases entries@.len() - k,
        {
            let text = ident_text(&entries[k].0);
            names.push(text);
            k = k + 1;
        }
        names
    }

    /// Moves the span of a stored table to a new offset.
    pub fn update_offset(&mut self, table_ref: &TableRef, new_offset: usize)
        requires
            table_position(old(self)@, *table_ref) is Some,
        ensures
            final(self)@ == old(self)@.update(table_position(old(self)@, *table_ref)->0,
                (old(self)@[table_position(old(self)@, *table_ref)->0].0,
                    (old(self)@[table_position(old(self)@, *table_ref)->0].1.0, new_offset))),
            final(self).spec_setup() == old(self).spec_setup(),
    {
        let i = self.table_index(table_ref);
        let (r, (table, _)) = self.tables.remove(i);
        self.tables.insert(i, (r, (table, new_offset)));
        proof {
            assert(self.tables@ =~= old(self)@.update(i as int, (old(self)@[i as int].0, (old(self)@[i as int].1.0, new_offset))));
        }
    }

    /// A column of a stored table with its mask, borrowed into the
    /// accessor's arena.
    pub fn get_nullable_column(&self, table_ref: &TableRef, column_id: &Ident) -> (c: NullableColumn<'_>)
        requires
            table_position(self@, *table_ref) is Some,
            position_of(self.spec_table(*table_ref), *column_id) is Some,
        ensures
            ({
                let column = self.spec_table(*table_ref)[position_of(self.spec_table(*table_ref), *column_id)->0].1;
                c.spec_values().borrows(column.spec_values()) && c.spec_presence() == column.spec_presence()
            }),
    {
        let i = self.table_index(table_ref);
        let entries = self.tables[i].1.0.inner_table();
        match find_position(entries, column_id) {
            Some(k) => entries[k].1.as_column(&self.alloc),
            None => vstd::pervasive::unreached(),
        }
    }

    /// A table of the named columns of a stored table, each borrowed with
    /// its mask into the accessor's arena; without names, a table of the
    /// stored table's row count.
    pub fn get_nullable_table(&self, table_ref: &TableRef, column_ids: &[Ident]) -> (t: NullableTable<'_>)
        requires
            table_position(self@, *table_ref) is Some,
            forall|a: int, b: int| 0 <= a < b < column_ids@.len() ==> column_ids@[a] != column_ids@[b],
            forall|j: int| 0 <= j < column_ids@.len() ==>
                (position_of(self.spec_table(*table_ref), #[trigger] column_ids@[j]) is Some),
        ensures
            t@.len() == column_ids@.len(),
            t.spec_num_rows() == (if self.spec_table(*table_ref).len() == 0 { 0 }
                else { self.spec_table(*table_ref)[0].1.spec_values().spec_len() }),
            forall|j: int| 0 <= j < column_ids@.len() ==> {
                let table = self.spec_table(*table_ref);
                let column = table[position_of(table, column_ids@[j])->0].1;
                &&& (#[trigger] t@[j]).0 == column_ids@[j]
                &&& t@[j].1.spec_values().borrows(column.spec_values())
                &&& t@[j].1.spec_presence() == column.spec_presence()
            },
    {
        let rows = self.get_length(table_ref);
        let i = self.table_index(table_ref);
        let stored = self.tables[i].1.0.inner_table();
        let ghost table = self.spec_table(*table_ref);
        let mut entries: Vec<(Ident, NullableColumn<'_>)> = Vec::new();
        let mut j: usize = 0;
        while j < column_ids.len()
            invariant
                i == table_position(self@, *table_ref)->0,
                table == self.spec_table(*table_ref),
                table == stored@,
                nullable_lengths_agree(table),
                rows == (if table.len() == 0 { 0 } else { table[0].1.spec_values().spec_len() }),
                table_position(self@, *table_ref) is Some,
                forall|k: int| 0 <= k < column_ids@.len() ==> (position_of(table, #[trigger] column_ids@[k]) is Some),
                j <= column_ids@.len(),
                entries@.len() == j,
                forall|k: int| 0 <= k < j ==> {
                    let column = table[position_of(table, column_ids@[k])->0].1;
                    &&& (#[trigger] entries@[k]).0 == column_ids@[k]
                    &&& entries@[k].1.spec_values().borrows(column.spec_values())
                    &&& entries@[k].1.spec_presence() == column.spec_presence()
                    &&& entries@[k].1.spec_values().spec_len() == rows
                },
            decreases column_ids@.len() - j,
        {
            let column = self.get_nullable_column(table_ref, &column_ids[j]);
            proof {
                lemma_position_from(table, column_ids@[j as int], 0);
            }
            entries.push((column_ids[j].clone(), column));
            j = j + 1;
        }
        proof {
            assert(names_distinct(entries@));
            lemma_map_of_distinct(entries@);
            if entries@.len() > 0 {
                assert(all_rows(entries@, entries@[0].1.spec_values().spec_len()));
            }
        }
        let options = if column_ids.len() == 0 { TableOptions::new(Some(rows)) } else { TableOptions::default() };
        match NullableTable::try_new_with_options(entries, options) {
            Ok(t) => t,
            Err(_) => vstd::pervasive::unreached(),
        }
    }

    /// A column of a stored table, borrowed into the accessor's arena: the
    /// values of a column of that name, or else the rows of the presence
    /// column of that name.
    pub fn get_column(&self, table_ref: &TableRef, column_id: &Ident) -> (c: Column<'_>)
        requires
            table_position(self@, *table_ref) is Some,
            position_of(self.spec_table(*table_ref), *column_id) is Some
                || (presence_position(self.spec_table(*table_ref), *column_id) is Some),
        ensures
            ({
                let table = self.spec_table(*table_ref);
                match position_of(table, *column_id) {
                    Some(k) => c.borrows(table[k].1.spec_values()),
                    None => c matches Column::Boolean(s)
                        && s@ == present_rows(table[presence_position(table, *column_id)->0].1),
                }
            }),
    {
        let i = self.table_index(table_ref);
        let table = &self.tables[i].1.0;
        let entries = table.inner_table();
        if let Some(k) = find_position(entries, column_id) {
            return Column::from_owned_column(entries[k].1.values(), &self.alloc);
        }
        proof { lemma_presence_position_in_range(table@, *column_id, 0); }
        match presence_column(table, column_id) {
            Some((presence, len)) => {
                let rows = match presence {
                    Some(p) => alloc_slice_copy(&self.alloc, p),
                    None => alloc_slice_fill_copy(&self.alloc, len, true),
                };
                proof {
                    let table_s = self.spec_table(*table_ref);
                    let col = table_s[presence_position(table_s, *column_id)->0].1;
                    assert(rows@ =~= present_rows(col));
                }
                Column::Boolean(rows)
            },
            None => vstd::pervasive::unreached(),
        }
    }

    /// The number of rows of a stored table.
    pub fn get_length(&self, table_ref: &TableRef) -> (n: usize)
        requires
            table_position(self@, *table_ref) is Some,
        ensures
            n == (if self.spec_table(*table_ref).len() == 0 { 0 }
                else { self.spec_table(*table_ref)[0].1.spec_values().spec_len() }),
    {
        let i = self.table_index(table_ref);
        self.tables[i].1.0.num_rows()
    }

    /// The offset of the span of a stored table.
    pub fn get_offset(&self, table_ref: &TableRef) -> (n: usize)
        requires
            table_position(self@, *table_ref) is Some,
        ensures
            n == self@[table_position(self@, *table_ref)->0].1.1,
    {
        let i = self.table_index(table_ref);
        self.tables[i].1.1
    }

    /// The type of a column of a table, presence columns included, or
    /// `None` when there is no such table or column.
    pub fn lookup_column(&self, table_ref: &TableRef, column_id: &Ident) -> (t: Option<ColumnType>)
        ensures
            table_position(self@, *table_ref) is None ==> t is None,
            table_position(self@, *table_ref) is Some ==> t == nullable_column_type(self.spec_table(*table_ref), *column_id),
            table_position(self@, *table_ref) is Some ==> (position_of(self.spec_table(*table_ref), *column_id) matches Some(k)
                ==> t == Some(self.spec_table(*table_ref)[k].1.spec_values().spec_column_type())),
    {
        match find_table_index(&self.tables, table_ref) {
            Some(i) => {
                let table = &self.tables[i].1.0;
                let entries = table.inner_table();
                match find_position(entries, column_id) {
                    Some(k) => Some(entries[k].1.column_type()),
                    None => match presence_column(table, column_id) {
                        Some(_) => Some(ColumnType::Boolean),
                        None => None,
                    },
                }
            },
            None => None,
        }
    }

    /// The names and types of the columns of a stored table, in order.
    pub fn lookup_schema(&self, table_ref: &TableRef) -> (s: Vec<(Ident, ColumnType)>)
        requires
            table_position(self@, *table_ref) is Some,
        ensures
            s@.len() == self.spec_table(*table_ref).len(),
            forall|k: int| 0 <= k < s@.len() ==> {
                let e = #[trigger] self.spec_table(*table_ref)[k];
                s@[k] == (e.0, e.1.spec_values().spec_column_type())
            },
    {
        let i = self.table_index(table_ref);
        let entries = self.tables[i].1.0.inner_table();
        let mut out: Vec<(Ident, ColumnType)> = Vec::new();
        let mut k: usize = 0;
        while k < entries.len()
            invariant
                i == table_position(self@, *table_ref)->0,
                entries@ == self@[i as int].1.0@,
                k <= entries@.len(),
                out@.len() == k,
                forall|t: int| 0 <= t < k ==>
                    #[trigger] out@[t] == (entries@[t].0, entries@[t].1.spec_values().spec_column_type()),
            decreases entries@.len() - k,
        {
            out.push((entries[k].0.clone(), entries[k].1.column_type()));
            k = k + 1;
        }
        out
    }

    /// The field of a column of a table, presence columns included, or
    /// `None` when there is no such table or column.
    pub fn lookup_column_field(&self, table_ref: &TableRef, column_id: &Ident) -> (f: Option<ColumnField>)
        ensures
            table_position(self@, *table_ref) is None ==> f is None,
            table_position(self@, *table_ref) is Some ==> f == nullable_column_field(self.spec_table(*table_ref), *column_id),
    {
        match find_table_index(&self.tables, table_ref) {
            Some(i) => {
                let table = &self.tables[i].1.0;
                if presence_column(table, column_id).is_some() {
                    return Some(ColumnField::new(column_id.clone(), ColumnType::Boolean));
                }
                let entries = table.inner_table();
                match find_position(entries, column_id) {
                    Some(k) => {
                        let column = &entries[k].1;
                        Some(if column.is_nullable() {
                            ColumnField::new_nullable(column_id.clone(), column.column_type())
                        } else {
                            ColumnField::new(column_id.clone(), column.column_type())
                        })
                    },
                    None => None,
                }
            },
            None => None,
        }
    }

    /// The fields of the columns of a stored table, in order.
    pub fn lookup_column_fields(&self, table_ref: &TableRef) -> (fields: Vec<ColumnField>)
        requires
            table_position(self@, *table_ref) is Some,
        ensures
            fields@.len() == self.spec_table(*table_ref).len(),
            forall|k: int| 0 <= k < fields@.len() ==> #[trigger] fields@[k]
                == field_of(self.spec_table(*table_ref)[k].0, self.spec_table(*table_ref)[k].1),
    {
        let i = self.table_index(table_ref);
        self.tables[i].1.0.schema()
    }
}

} // verus!
