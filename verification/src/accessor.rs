//! How proofs read tables: their spans and their schemas.
use vstd::prelude::*;
use crate::column_type::ColumnType;
use crate::owned_table_utility::idents_equal;
use crate::table_ref::TableRef;
use sqlparser::ast::Ident;

verus! {

broadcast use vstd::std_specs::vec::group_vec_axioms;

/// The span of a table that a query reads: its length and where it starts.
pub trait MetadataAccessor {
    /// The number of rows of the span.
    fn get_length(&self, table_ref: &TableRef) -> usize;

    /// The index of the first row of the span in the table.
    fn get_offset(&self, table_ref: &TableRef) -> usize;
}

/// The schemas of tables: the names and types of their columns.
pub trait SchemaAccessor {
    /// The type of a column of a table, or `None` when the table has no
    /// column of that name.
    fn lookup_column(&self, table_ref: &TableRef, column_id: &Ident) -> Option<ColumnType>;

    /// The names and types of the columns of a table, in order.
    fn lookup_schema(&self, table_ref: &TableRef) -> Vec<(Ident, ColumnType)>;
}

/// The position of the first entry of a table from index `k` on, if there
/// is one.
pub open spec fn table_position_from<V>(lookup: Seq<(TableRef, V)>, t: TableRef, k: int) -> Option<int>
    decreases lookup.len() - k,
{
    if k < 0 || k >= lookup.len() {
        None
    } else if lookup[k].0 == t {
        Some(k)
    } else {
        table_position_from(lookup, t, k + 1)
    }
}

/// The position of the first entry of a table, if there is one.
pub open spec fn table_position<V>(lookup: Seq<(TableRef, V)>, t: TableRef) -> Option<int> {
    table_position_from(lookup, t, 0)
}

/// A position found lies among the entries.
pub proof fn lemma_table_position_in_range<V>(lookup: Seq<(TableRef, V)>, t: TableRef, k: int)
    requires
        table_position_from(lookup, t, k) is Some,
    ensures
        k <= table_position_from(lookup, t, k)->0 < lookup.len(),
        lookup[table_position_from(lookup, t, k)->0].0 == t,
    decreases lookup.len() - k,
{
    if 0 <= k < lookup.len() && lookup[k].0 != t {
        lemma_table_position_in_range(lookup, t, k + 1);
    }
}

/// Before the position found from index `k`, no entry holds the table;
/// when none is found, no entry from `k` on holds it.
pub proof fn lemma_table_position_first<V>(lookup: Seq<(TableRef, V)>, t: TableRef, k: int)
    requires
        0 <= k,
    ensures
        table_position_from(lookup, t, k) matches Some(p) ==> forall|j: int| k <= j < p ==> (#[trigger] lookup[j]).0 != t,
        table_position_from(lookup, t, k) is None ==> forall|j: int| k <= j < lookup.len() ==> (#[trigger] lookup[j]).0 != t,
    decreases lookup.len() - k,
{
    if k < lookup.len() && lookup[k].0 != t {
        lemma_table_position_first(lookup, t, k + 1);
    }
}

/// Storing a table under a reference: a reference already there keeps its
/// place and takes the new table; a new reference goes last.
pub open spec fn insert_table<V>(lookup: Seq<(TableRef, V)>, e: (TableRef, V)) -> Seq<(TableRef, V)> {
    match table_position(lookup, e.0) {
        Some(i) => lookup.update(i, e),
        None => lookup.push(e),
    }
}

/// The first position from `k` holding a table is the one before which,
/// from `k` on, no entry holds it.
proof fn lemma_table_position_is<V>(lookup: Seq<(TableRef, V)>, t: TableRef, k: int, p: Option<int>)
    requires
        0 <= k <= lookup.len(),
        p matches Some(q) ==> k <= q < lookup.len() && lookup[q].0 == t
            && forall|j: int| k <= j < q ==> (#[trigger] lookup[j]).0 != t,
        p is None ==> forall|j: int| k <= j < lookup.len() ==> (#[trigger] lookup[j]).0 != t,
    ensures
        table_position_from(lookup, t, k) == p,
    decreases lookup.len() - k,
{
    if k < lookup.len() && lookup[k].0 != t {
        lemma_table_position_is(lookup, t, k + 1, p);
    }
}

/// Storing a table under a reference and reading that reference gives the
/// stored entry; every other reference reads what it read before.
pub proof fn law_stored_table_is_read_back<V>(lookup: Seq<(TableRef, V)>, e: (TableRef, V), other: TableRef)
    ensures
        table_position(insert_table(lookup, e), e.0) matches Some(i) && insert_table(lookup, e)[i] == e,
        other != e.0 ==> match table_position(lookup, other) {
            Some(i) => table_position(insert_table(lookup, e), other) == Some(i) && insert_table(lookup, e)[i] == lookup[i],
            None => table_position(insert_table(lookup, e), other) is None,
        },
{
    let after = insert_table(lookup, e);
    lemma_table_position_first(lookup, e.0, 0);
    lemma_table_position_first(lookup, other, 0);
    match table_position(lookup, e.0) {
        Some(p) => {
            lemma_table_position_in_range(lookup, e.0, 0);
            assert forall|j: int| 0 <= j < after.len() implies (#[trigger] after[j]).0 == lookup[j].0 by {
                if j == p {
                    assert(after[j] == e);
                }
            }
            lemma_table_position_is(after, e.0, 0, Some(p));
            if other != e.0 {
                if let Some(q) = table_position(lookup, other) {
                    lemma_table_position_in_range(lookup, other, 0);
                }
                lemma_table_position_is(after, other, 0, table_position(lookup, other));
            }
        },
        None => {
            assert forall|j: int| 0 <= j < lookup.len() implies (#[trigger] after[j]).0 == lookup[j].0 by {
                assert(after[j] == lookup[j]);
            }
            lemma_table_position_is(after, e.0, 0, Some(lookup.len() as int));
            if other != e.0 {
                if let Some(q) = table_position(lookup, other) {
                    lemma_table_position_in_range(lookup, other, 0);
                }
                lemma_table_position_is(after, other, 0, table_position(lookup, other));
            }
        },
    }
}

/// The index of the first entry of a table, if there is one.
pub(crate) fn find_table_index<V>(lookup: &Vec<(TableRef, V)>, table_ref: &TableRef) -> (r: Option<usize>)
    ensures
        r is Some <==> table_position(lookup@, *table_ref) is Some,
        r matches Some(i) ==> i == table_position(lookup@, *table_ref)->0 && i < lookup@.len()
            && lookup@[i as int].0 == *table_ref,
{
    let mut i: usize = 0;
    while i < lookup.len()
        invariant
            i <= lookup@.len(),
            table_position(lookup@, *table_ref) == table_position_from(lookup@, *table_ref, i as int),
        decreases lookup@.len() - i,
    {
        if lookup[i].0.equals(table_ref) {
            return Some(i);
        }
        i = i + 1;
    }
    None
}

/// Stores a table under a reference; see `insert_table`.
pub(crate) fn insert_table_into<V>(lookup: &mut Vec<(TableRef, V)>, e: (TableRef, V))
    ensures
        final(lookup)@ == insert_table(old(lookup)@, e),
{
    match find_table_index(lookup, &e.0) {
        Some(i) => { lookup.set(i, e); },
        None => { lookup.push(e); },
    }
}

/// The type of the first column of a schema with the given name.
pub open spec fn column_type_in(schema: Seq<(Ident, ColumnType)>, c: Ident) -> Option<ColumnType>
    decreases schema.len(),
{
    if schema.len() == 0 {
        None
    } else if schema[0].0 == c {
        Some(schema[0].1)
    } else {
        column_type_in(schema.drop_first(), c)
    }
}

/// Schemas kept in memory: a schema for each table.
pub struct SchemaAccessorImpl {
    table_schema_lookup: Vec<(TableRef, Vec<(Ident, ColumnType)>)>,
}

impl View for SchemaAccessorImpl {
    type V = Seq<(TableRef, Vec<(Ident, ColumnType)>)>;

    closed spec fn view(&self) -> Seq<(TableRef, Vec<(Ident, ColumnType)>)> {
        self.table_schema_lookup@
    }
}

impl SchemaAccessorImpl {
    /// The schemas of the given tables; for a table given twice, the first
    /// entry is read.
    pub fn new(table_schema_lookup: Vec<(TableRef, Vec<(Ident, ColumnType)>)>) -> (a: Self)
        ensures
            a@ == table_schema_lookup@,
    {
        SchemaAccessorImpl { table_schema_lookup }
    }

    /// The index of the first entry of a table.
    fn find_table(&self, table_ref: &TableRef) -> (i: usize)
        requires
            table_position(self@, *table_ref) is Some,
        ensures
            i == table_position(self@, *table_ref)->0,
            i < self@.len(),
    {
        proof { lemma_table_position_in_range(self@, *table_ref, 0); }
        let mut i: usize = 0;
        while i < self.table_schema_lookup.len()
            invariant
                i <= self@.len(),
                table_position(self@, *table_ref) == table_position_from(self@, *table_ref, i as int),
                table_position(self@, *table_ref) is Some,
            decreases self@.len() - i,
        {
            if self.table_schema_lookup[i].0.equals(table_ref) {
                return i;
            }
            i = i + 1;
        }
        vstd::pervasive::unreached()
    }

    /// The type of the first column of the table with the given name, or
    /// `None`; the table must be known.
    pub fn lookup_column(&self, table_ref: &TableRef, column_id: &Ident) -> (t: Option<ColumnType>)
        requires
            table_position(self@, *table_ref) is Some,
        ensures
            t == column_type_in(self@[table_position(self@, *table_ref)->0].1@, *column_id),
    {
        let i = self.find_table(table_ref);
        let schema = &self.table_schema_lookup[i].1;
        let mut k: usize = 0;
        proof { assert(schema@.skip(0) =~= schema@); }
        while k < schema.len()
            invariant
                k <= schema@.len(),
                i == table_position(self@, *table_ref)->0,
                i < self@.len(),
                *schema == self@[i as int].1,
                column_type_in(schema@, *column_id) == column_type_in(schema@.skip(k as int), *column_id),
            decreases schema@.len() - k,
        {
            proof {
                assert(schema@.skip(k as int)[0] == schema@[k as int]);
                assert(schema@.skip(k as int).drop_first() =~= schema@.skip(k + 1));
            }
            if idents_equal(&schema[k].0, column_id) {
                return Some(schema[k].1);
            }
            k = k + 1;
        }
        None
    }

    /// The names and types of the columns of a table, in order; the table
    /// must be known.
    pub fn lookup_schema(&self, table_ref: &TableRef) -> (s: Vec<(Ident, ColumnType)>)
        requires
            table_position(self@, *table_ref) is Some,
        ensures
            s@ == self@[table_position(self@, *table_ref)->0].1@,
    {
        let i = self.find_table(table_ref);
        let schema = &self.table_schema_lookup[i].1;
        let mut out: Vec<(Ident, ColumnType)> = Vec::new();
        let mut k: usize = 0;
        while k < schema.len()
            invariant
                k <= schema@.len(),
                i == table_position(self@, *table_ref)->0,
                i < self@.len(),
                *schema == self@[i as int].1,
                out@ == schema@.take(k as int),
            decreases schema@.len() - k,
        {
            let entry = (schema[k].0.clone(), schema[k].1);
            out.push(entry);
            proof { assert(schema@.take(k + 1) =~= schema@.take(k as int).push(schema@[k as int])); }
            k = k + 1;
        }
        proof { assert(schema@.take(schema@.len() as int) =~= schema@); }
        out
    }
}

} // verus!
