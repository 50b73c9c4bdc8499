//! Tables whose columns may carry presence masks, and the plain tables
//! proofs work on, where each mask becomes a boolean column of its own.
use vstd::prelude::*;
use crate::column_field::ColumnField;
use crate::column_type::ColumnType;
use crate::nullable_owned_column::NullableOwnedColumn;
use crate::nullable_schema::name_text;
use crate::owned_table_utility::{ident_named, ident_of, ident_text};
use crate::text::{push, string_of};
use crate::owned_column::OwnedColumn;
use crate::owned_table::{
    OwnedTable, OwnedTableError, build_map, map_of_entries, names_distinct, position_of, position_from, lemma_position_from,
};
use crate::nullable_column::copy_bools;
use crate::nullable_table::NullableTable;
use crate::owned_column::coerced_to;
use crate::owned_table::{lemma_map_of_distinct, lengths_agree};
use crate::table_coercion::{TableCoercionError, coercion_outcome, fits_field, lemma_first_misfit_from};
use sqlparser::ast::Ident;

verus! {

broadcast use vstd::std_specs::vec::group_vec_axioms;

/// The prefix of the names of the boolean columns masks become.
pub open spec fn posql_presence_prefix() -> Seq<char> {
    "__posql_presence_"@
}

/// The name of the boolean column the mask of a column with the name
/// becomes.
pub open spec fn posql_presence_name(id: Ident) -> Ident {
    ident_named(posql_presence_prefix() + name_text(id))
}

/// Whether every column has the number of rows of the first.
pub open spec fn nullable_lengths_agree(entries: Seq<(Ident, NullableOwnedColumn)>) -> bool {
    forall|i: int| 0 <= i < entries.len() ==>
        (#[trigger] entries[i]).1.spec_values().spec_len() == entries[0].1.spec_values().spec_len()
}

/// A table of named columns that may carry presence masks: no name twice,
/// all columns of one length.
#[derive(Debug, PartialEq, Eq)]
pub struct NullableOwnedTable {
    table: Vec<(Ident, NullableOwnedColumn)>,
}

impl View for NullableOwnedTable {
    type V = Seq<(Ident, NullableOwnedColumn)>;

    closed spec fn view(&self) -> Seq<(Ident, NullableOwnedColumn)> {
        self.table@
    }
}

/// The field a named column has in a schema: nullable when it has a mask.
pub open spec fn field_of(name: Ident, column: NullableOwnedColumn) -> ColumnField {
    ColumnField::spec_field(name, column.spec_values().spec_column_type(), column.spec_presence() is Some)
}

/// The physical fields of the first `n` columns: each column's field,
/// followed, for a column with a mask, by a boolean presence field.
pub open spec fn physical_schema(entries: Seq<(Ident, NullableOwnedColumn)>, n: nat) -> Seq<ColumnField>
    decreases n,
{
    if n == 0 {
        Seq::empty()
    } else {
        let e = entries[n - 1];
        let prev = physical_schema(entries, (n - 1) as nat);
        if e.1.spec_presence() is Some {
            prev + seq![field_of(e.0, e.1), ColumnField::spec_new(posql_presence_name(e.0), ColumnType::Boolean)]
        } else {
            prev.push(field_of(e.0, e.1))
        }
    }
}

/// The physical columns of the first `n` columns: each column's values,
/// followed, for a column with a mask, by the mask as a boolean column.
pub open spec fn physical_entries(entries: Seq<(Ident, NullableOwnedColumn)>, n: nat) -> Seq<(Ident, OwnedColumn)>
    decreases n,
{
    if n == 0 {
        Seq::empty()
    } else {
        let e = entries[n - 1];
        let prev = physical_entries(entries, (n - 1) as nat);
        match e.1.spec_presence() {
            Some(m) => prev + seq![(e.0, e.1.spec_values()),
                (posql_presence_name(e.0), OwnedColumn::Boolean(choose|v: Vec<bool>| v@ == m))],
            None => prev.push((e.0, e.1.spec_values())),
        }
    }
}

/// The physical fields of the first `n` logical fields: each field,
/// followed, for a nullable field, by a boolean presence field.
pub open spec fn value_and_presence(fields: Seq<ColumnField>, n: nat) -> Seq<ColumnField>
    decreases n,
{
    if n == 0 {
        Seq::empty()
    } else {
        let f = fields[n - 1];
        let prev = value_and_presence(fields, (n - 1) as nat);
        if f.spec_is_nullable() {
            prev + seq![f, ColumnField::spec_new(posql_presence_name(f.spec_name()), ColumnType::Boolean)]
        } else {
            prev.push(f)
        }
    }
}

/// The position among the physical fields of the value field of logical
/// field `j`.
pub open spec fn value_index(fields: Seq<ColumnField>, j: nat) -> nat {
    value_and_presence(fields, j).len()
}

/// The number of physical fields a logical field becomes.
pub open spec fn physical_width(f: ColumnField) -> nat {
    if f.spec_is_nullable() { 2 } else { 1 }
}

/// Each logical field moves the next value field on by its width.
proof fn lemma_value_index_step(fields: Seq<ColumnField>, j: nat)
    ensures
        value_index(fields, j + 1) == value_index(fields, j) + physical_width(fields[j as int]),
{
    assert(value_and_presence(fields, j + 1) == {
        let f = fields[j as int];
        let prev = value_and_presence(fields, j);
        if f.spec_is_nullable() {
            prev + seq![f, ColumnField::spec_new(posql_presence_name(f.spec_name()), ColumnType::Boolean)]
        } else {
            prev.push(f)
        }
    });
}

/// The physical fields of an earlier logical field come before those of a
/// later one.
proof fn lemma_value_index_bound(fields: Seq<ColumnField>, i: nat, j: nat)
    requires
        i < j,
    ensures
        value_index(fields, i) + physical_width(fields[i as int]) <= value_index(fields, j),
    decreases j,
{
    lemma_value_index_step(fields, (j - 1) as nat);
    if i < j - 1 {
        lemma_value_index_bound(fields, i, (j - 1) as nat);
    }
}

/// The physical fields of a prefix of the logical fields begin the
/// physical fields of a longer prefix.
proof fn lemma_value_and_presence_prefix(fields: Seq<ColumnField>, j: nat, n: nat)
    requires
        j <= n,
    ensures
        value_index(fields, j) <= value_index(fields, n),
        value_and_presence(fields, n).subrange(0, value_index(fields, j) as int) == value_and_presence(fields, j),
    decreases n,
{
    if j < n {
        lemma_value_and_presence_prefix(fields, j, (n - 1) as nat);
        lemma_value_index_step(fields, (n - 1) as nat);
        let prev = value_and_presence(fields, (n - 1) as nat);
        assert(value_and_presence(fields, n).subrange(0, prev.len() as int) =~= prev);
        assert(value_and_presence(fields, n).subrange(0, value_index(fields, j) as int)
            =~= prev.subrange(0, value_index(fields, j) as int));
    }
}

/// Extending physical fields keeps the value and presence fields of the
/// logical fields before `j` where they are.
proof fn lemma_extend_keeps_positions(fields: Seq<ColumnField>, before: Seq<ColumnField>, after: Seq<ColumnField>, j: nat)
    requires
        before.len() == value_index(fields, j),
        before.len() <= after.len(),
        after.subrange(0, before.len() as int) == before,
        forall|i: int| 0 <= i < j ==> before[value_index(fields, i as nat) as int] == #[trigger] fields[i],
        forall|i: int| 0 <= i < j && (#[trigger] fields[i]).spec_is_nullable() ==>
            before[value_index(fields, i as nat) + 1int].spec_data_type() == ColumnType::Boolean,
    ensures
        forall|i: int| 0 <= i < j ==> after[value_index(fields, i as nat) as int] == #[trigger] fields[i],
        forall|i: int| 0 <= i < j && (#[trigger] fields[i]).spec_is_nullable() ==>
            after[value_index(fields, i as nat) + 1int].spec_data_type() == ColumnType::Boolean,
{
    assert forall|i: int| 0 <= i < j implies after[value_index(fields, i as nat) as int] == #[trigger] fields[i] by {
        lemma_value_index_bound(fields, i as nat, j);
        assert(after.subrange(0, before.len() as int)[value_index(fields, i as nat) as int]
            == after[value_index(fields, i as nat) as int]);
    }
    assert forall|i: int| 0 <= i < j && (#[trigger] fields[i]).spec_is_nullable() implies
        after[value_index(fields, i as nat) + 1int].spec_data_type() == ColumnType::Boolean by {
        lemma_value_index_bound(fields, i as nat, j);
        assert(after.subrange(0, before.len() as int)[value_index(fields, i as nat) + 1int]
            == after[value_index(fields, i as nat) + 1int]);
    }
}

/// Whether physical fields have the shape the first `n` logical fields
/// give: their number, each logical field at its value position, and a
/// boolean field after each nullable one.
pub open spec fn value_and_presence_shape(fields: Seq<ColumnField>, n: nat, r: Seq<ColumnField>) -> bool {
    &&& r.len() == value_index(fields, n)
    &&& forall|i: int| 0 <= i < n ==> r[value_index(fields, i as nat) as int] == #[trigger] fields[i]
    &&& forall|i: int| 0 <= i < n && (#[trigger] fields[i]).spec_is_nullable() ==>
            r[value_index(fields, i as nat) + 1int].spec_data_type() == ColumnType::Boolean
}

/// Appending the physical fields of logical field `j` keeps the shape.
proof fn lemma_value_and_presence_push(fields: Seq<ColumnField>, j: nat, before: Seq<ColumnField>,
    presence_field: Option<ColumnField>, after: Seq<ColumnField>)
    requires
        j < fields.len(),
        value_and_presence_shape(fields, j, before),
        fields[j as int].spec_is_nullable() <==> presence_field is Some,
        presence_field matches Some(p) ==> p.spec_data_type() == ColumnType::Boolean,
        presence_field matches Some(p) ==> after == before + seq![fields[j as int], p],
        presence_field is None ==> after == before.push(fields[j as int]),
        before == value_and_presence(fields, j),
        (presence_field matches Some(p) ==>
            p == ColumnField::spec_new(posql_presence_name(fields[j as int].spec_name()), ColumnType::Boolean)),
    ensures
        value_and_presence_shape(fields, j + 1, after),
        after == value_and_presence(fields, j + 1),
{
    lemma_value_index_step(fields, j);
    assert(after.subrange(0, before.len() as int) =~= before);
    lemma_extend_keeps_positions(fields, before, after, j);
    assert(after[value_index(fields, j) as int] == fields[j as int]);
    assert forall|i: int| 0 <= i < j + 1 implies after[value_index(fields, i as nat) as int] == #[trigger] fields[i] by {
        if i == j {
        }
    }
    assert forall|i: int| 0 <= i < j + 1 && (#[trigger] fields[i]).spec_is_nullable() implies
        after[value_index(fields, i as nat) + 1int].spec_data_type() == ColumnType::Boolean by {
        if i == j {
        }
    }
    if presence_field is Some {
        assert(after =~= value_and_presence(fields, j + 1));
    } else {
        assert(after =~= value_and_presence(fields, j + 1));
    }
}

/// The value field of logical field `j` is the field itself; after a
/// nullable one comes its boolean presence field.
proof fn lemma_value_and_presence_at(fields: Seq<ColumnField>, j: nat, n: nat)
    requires
        j < n,
    ensures
        value_index(fields, j) < value_index(fields, n),
        value_and_presence(fields, n)[value_index(fields, j) as int] == fields[j as int],
        fields[j as int].spec_is_nullable() ==> value_index(fields, j) + 1 < value_index(fields, n)
            && value_and_presence(fields, n)[value_index(fields, j) + 1int] == ColumnField::spec_new(
                posql_presence_name(fields[j as int].spec_name()), ColumnType::Boolean),
{
    lemma_value_index_step(fields, j);
    lemma_value_and_presence_prefix(fields, j + 1, n);
    let k = value_index(fields, j) as int;
    let whole = value_and_presence(fields, n);
    let part = value_and_presence(fields, j + 1);
    assert(whole.subrange(0, part.len() as int)[k] == whole[k]);
    if fields[j as int].spec_is_nullable() {
        assert(whole.subrange(0, part.len() as int)[k + 1] == whole[k + 1]);
    }
}

/// Whether a named nullable column is what the physical columns give for
/// a logical field whose value column is at `k`: the field's name, the
/// value column coerced to the field's type, and for a nullable field the
/// booleans of the column after it as its mask.
pub open spec fn reassembled_column(physical: Seq<(Ident, OwnedColumn)>, k: int, field: ColumnField,
    c: (Ident, NullableOwnedColumn)) -> bool
{
    &&& c.0 == field.spec_name()
    &&& coerced_to(physical[k].1, field.spec_data_type(), Ok(c.1.spec_values()))
    &&& if field.spec_is_nullable() {
            physical[k + 1].1 is Boolean && c.1.spec_presence() == Some(physical[k + 1].1->Boolean_0@)
        } else {
            c.1.spec_presence() is None
        }
}

/// Whether `res` is the table the physical columns give for the logical
/// fields: the error of coercing them to the physical fields, or a column
/// for each field.
pub open spec fn reassembled(physical: Seq<(Ident, OwnedColumn)>, fields: Seq<ColumnField>,
    res: Result<NullableOwnedTable, TableCoercionError>) -> bool
{
    match coercion_outcome(physical, value_and_presence(fields, fields.len())) {
        Some(e) => res == Err::<NullableOwnedTable, TableCoercionError>(e),
        None => res matches Ok(t) && t@.len() == fields.len() && forall|j: int| 0 <= j < fields.len() ==>
            reassembled_column(physical, value_index(fields, j as nat) as int, fields[j], #[trigger] t@[j]),
    }
}

/// Whether two lists of named columns have the same names and columns
/// holding the same values, position by position.
pub open spec fn same_entries(a: Seq<(Ident, OwnedColumn)>, b: Seq<(Ident, OwnedColumn)>) -> bool {
    &&& a.len() == b.len()
    &&& forall|i: int| 0 <= i < a.len() ==> (#[trigger] a[i]).0 == b[i].0 && a[i].1.same_as(&b[i].1)
}

/// Whether every entry's column has `n` rows.
pub open spec fn all_of_length(entries: Seq<(Ident, OwnedColumn)>, n: nat) -> bool {
    forall|i: int| 0 <= i < entries.len() ==> (#[trigger] entries[i]).1.spec_len() == n
}

impl NullableOwnedTable {
    #[verifier::type_invariant]
    closed spec fn well_formed(&self) -> bool {
        names_distinct(self.table@) && nullable_lengths_agree(self.table@)
    }

    /// A table of the named columns: entries of a name given before are
    /// replaced in place; refused when the columns do not all have one
    /// length.
    pub fn try_new(entries: Vec<(Ident, NullableOwnedColumn)>) -> (res: Result<NullableOwnedTable, OwnedTableError>)
        ensures
            res is Ok <==> nullable_lengths_agree(map_of_entries(entries@)),
            res matches Ok(t) ==> t@ == map_of_entries(entries@),
            res matches Err(e) ==> e == OwnedTableError::ColumnLengthMismatch,
    {
        let map = build_map(entries);
        let n = map.len();
        if n > 0 {
            let first = map[0].1.len();
            let mut i: usize = 0;
            while i < n
                invariant
                    n == map@.len(),
                    map@ == map_of_entries(entries@),
                    names_distinct(map@),
                    first == map@[0].1.spec_values().spec_len(),
                    i <= n,
                    forall|t: int| 0 <= t < i ==> (#[trigger] map@[t]).1.spec_values().spec_len() == first,
                decreases n - i,
            {
                if map[i].1.len() != first {
                    proof { assert(map@[i as int].1.spec_values().spec_len() != map@[0].1.spec_values().spec_len()); }
                    return Err(OwnedTableError::ColumnLengthMismatch);
                }
                i = i + 1;
            }
        }
        Ok(NullableOwnedTable { table: map })
    }

    /// A table of the named columns; see `try_new`.
    pub fn try_from_iter(entries: Vec<(Ident, NullableOwnedColumn)>) -> (res: Result<NullableOwnedTable, OwnedTableError>)
        ensures
            res is Ok <==> nullable_lengths_agree(map_of_entries(entries@)),
            res matches Ok(t) ==> t@ == map_of_entries(entries@),
            res matches Err(e) ==> e == OwnedTableError::ColumnLengthMismatch,
    {
        Self::try_new(entries)
    }

    /// The number of columns.
    pub fn num_columns(&self) -> (n: usize)
        ensures
            n == self@.len(),
    {
        self.table.len()
    }

    /// The number of rows: the length of the columns, or `0` for a table
    /// without columns.
    pub fn num_rows(&self) -> (n: usize)
        ensures
            n == (if self@.len() == 0 { 0 } else { self@[0].1.spec_values().spec_len() }),
    {
        if self.table.len() == 0 {
            0
        } else {
            self.table[0].1.len()
        }
    }

    /// Whether the table has no columns.
    pub fn is_empty(&self) -> (b: bool)
        ensures
            b == (self@.len() == 0),
    {
        self.table.len() == 0
    }

    /// An owned copy of a borrowed table: each column's values and mask
    /// copied, under the same names, in the same order.
    pub fn from_nullable_table(value: &NullableTable) -> (t: NullableOwnedTable)
        ensures
            t@.len() == value@.len(),
            forall|i: int| 0 <= i < value@.len() ==> (#[trigger] t@[i]).0 == value@[i].0
                && value@[i].1.spec_values().same_values(t@[i].1.spec_values())
                && t@[i].1.spec_presence() == value@[i].1.spec_presence(),
    {
        let rows = value.num_rows();
        let inner = value.inner_table();
        let mut table: Vec<(Ident, NullableOwnedColumn)> = Vec::new();
        let mut i: usize = 0;
        while i < inner.len()
            invariant
                inner@ == value@,
                names_distinct(value@),
                forall|k: int| 0 <= k < value@.len() ==> (#[trigger] value@[k]).1.spec_values().spec_len() == rows,
                i <= inner@.len(),
                table@.len() == i,
                forall|k: int| 0 <= k < i ==> (#[trigger] table@[k]).0 == value@[k].0
                    && value@[k].1.spec_values().same_values(table@[k].1.spec_values())
                    && table@[k].1.spec_presence() == value@[k].1.spec_presence(),
            decreases inner@.len() - i,
        {
            let name = inner[i].0.clone();
            let column = match NullableOwnedColumn::try_from_column(inner[i].1) {
                Ok(c) => c,
                Err(_) => {
                    proof { assert(false); }
                    NullableOwnedColumn::new_nonnullable(OwnedColumn::Boolean(Vec::new()))
                },
            };
            table.push((name, column));
            i = i + 1;
        }
        proof {
            assert forall|a: int, b: int| 0 <= a < b < table@.len() implies
                (#[trigger] table@[a]).0 != (#[trigger] table@[b]).0 by {
                assert(value@[a].0 != value@[b].0);
            }
            assert forall|k: int| 0 <= k < table@.len() implies
                (#[trigger] table@[k]).1.spec_values().spec_len() == table@[0].1.spec_values().spec_len() by {
                assert(value@[k].1.spec_values().same_values(table@[k].1.spec_values()));
                assert(value@[0].1.spec_values().same_values(table@[0].1.spec_values()));
            }
        }
        NullableOwnedTable { table }
    }

    /// The named columns, in order.
    pub fn into_inner(self) -> (v: Vec<(Ident, NullableOwnedColumn)>)
        ensures
            v@ == self@,
    {
        self.table
    }

    /// The named columns, in order.
    pub fn inner_table(&self) -> (v: &[(Ident, NullableOwnedColumn)])
        ensures
            v@ == self@,
            names_distinct(self@),
            nullable_lengths_agree(self@),
    {
        proof { use_type_invariant(self); }
        self.table.as_slice()
    }

    /// The schema: each column's name and type, nullable when it has a mask.
    pub fn schema(&self) -> (fields: Vec<ColumnField>)
        ensures
            fields@.len() == self@.len(),
            forall|i: int| 0 <= i < self@.len() ==> #[trigger] fields@[i] == field_of(self@[i].0, self@[i].1),
    {
        let mut fields: Vec<ColumnField> = Vec::new();
        let mut i: usize = 0;
        while i < self.table.len()
            invariant
                i <= self@.len(),
                fields@.len() == i,
                forall|t: int| 0 <= t < i ==> #[trigger] fields@[t] == field_of(self@[t].0, self@[t].1),
            decreases self@.len() - i,
        {
            let f = self.column_field(i);
            fields.push(f);
            i = i + 1;
        }
        fields
    }

    /// The field of the column at a position.
    fn column_field(&self, i: usize) -> (f: ColumnField)
        requires
            i < self@.len(),
        ensures
            f == field_of(self@[i as int].0, self@[i as int].1),
    {
        let name = self.table[i].0.clone();
        let column = &self.table[i].1;
        if column.is_nullable() {
            ColumnField::new_nullable(name, column.column_type())
        } else {
            ColumnField::new(name, column.column_type())
        }
    }

    /// The names of the columns, in order.
    pub fn column_names(&self) -> (names: Vec<Ident>)
        ensures
            names@.len() == self@.len(),
            forall|i: int| 0 <= i < self@.len() ==> #[trigger] names@[i] == self@[i].0,
    {
        let mut names: Vec<Ident> = Vec::new();
        let mut i: usize = 0;
        while i < self.table.len()
            invariant
                i <= self@.len(),
                names@.len() == i,
                forall|t: int| 0 <= t < i ==> #[trigger] names@[t] == self@[t].0,
            decreases self@.len() - i,
        {
            names.push(self.table[i].0.clone());
            i = i + 1;
        }
        names
    }

    /// The column at a position, if there is one.
    pub fn column_by_index(&self, index: usize) -> (c: Option<&NullableOwnedColumn>)
        ensures
            c is Some <==> index < self@.len(),
            c matches Some(col) ==> *col == self@[index as int].1,
    {
        if index < self.table.len() {
            Some(&self.table[index].1)
        } else {
            None
        }
    }

    /// The name of the boolean column a nullable column's mask becomes:
    /// `__posql_presence_` followed by the column's name.
    pub fn presence_column_name(column_name: &Ident) -> (r: Ident)
        ensures
            r == posql_presence_name(*column_name),
    {
        proof { reveal_strlit("__posql_presence_"); }
        let mut s = string_of("__posql_presence_");
        let t = ident_text(column_name);
        push(&mut s, t.as_str());
        proof {
            assert(s@ == posql_presence_prefix() + name_text(*column_name));
        }
        ident_of(s.as_str())
    }

    /// The schema of `values_and_presence_table`: each column's field,
    /// followed, for a column with a mask, by a boolean presence field.
    pub fn values_and_presence_schema(&self) -> (fields: Vec<ColumnField>)
        ensures
            fields@ == physical_schema(self@, self@.len()),
    {
        let mut fields: Vec<ColumnField> = Vec::new();
        let mut i: usize = 0;
        while i < self.table.len()
            invariant
                i <= self@.len(),
                fields@ == physical_schema(self@, i as nat),
            decreases self@.len() - i,
        {
            let f = self.column_field(i);
            let ghost before = fields@;
            fields.push(f);
            if self.table[i].1.is_nullable() {
                let p = Self::presence_column_name(&self.table[i].0);
                fields.push(ColumnField::new(p, ColumnType::Boolean));
                proof {
                    assert(fields@ =~= before + seq![field_of(self@[i as int].0, self@[i as int].1),
                        ColumnField::spec_new(posql_presence_name(self@[i as int].0), ColumnType::Boolean)]);
                }
            }
            i = i + 1;
        }
        fields
    }

    /// The plain table of the columns' values and, after each column with a
    /// mask, the mask as a boolean column named by `presence_column_name`.
    pub fn values_and_presence_table(&self) -> (t: OwnedTable)
        ensures
            same_entries(t@, map_of_entries(physical_entries(self@, self@.len()))),
    {
        proof { use_type_invariant(self); }
        let rows = self.num_rows();
        let mut entries: Vec<(Ident, OwnedColumn)> = Vec::new();
        let mut i: usize = 0;
        while i < self.table.len()
            invariant
                i <= self@.len(),
                nullable_lengths_agree(self@),
                rows == (if self@.len() == 0 { 0 } else { self@[0].1.spec_values().spec_len() }),
                all_of_length(entries@, rows as nat),
                same_entries(entries@, physical_entries(self@, i as nat)),
            decreases self@.len() - i,
        {
            let name = self.table[i].0.clone();
            let column = &self.table[i].1;
            let values = column.values().duplicate();
            let ghost before = entries@;
            entries.push((name, values));
            match column.presence() {
                Some(p) => {
                    let pname = Self::presence_column_name(&self.table[i].0);
                    let mask = OwnedColumn::Boolean(copy_bools(p));
                    entries.push((pname, mask));
                    proof {
                        let m = self@[i as int].1.spec_presence()->0;
                        let v = choose|v: Vec<bool>| v@ == m;
                        assert(exists|v: Vec<bool>| v@ == m) by {
                            assert(mask->Boolean_0@ == m);
                        }
                        let expected = physical_entries(self@, (i + 1) as nat);
                        assert(expected == physical_entries(self@, i as nat) + seq![
                            (self@[i as int].0, self@[i as int].1.spec_values()),
                            (posql_presence_name(self@[i as int].0), OwnedColumn::Boolean(v))]);
                        assert forall|k: int| 0 <= k < entries@.len() implies
                            (#[trigger] entries@[k]).0 == expected[k].0 && entries@[k].1.same_as(&expected[k].1) by {
                            if k < before.len() {
                                assert(entries@[k] == before[k]);
                            }
                        }
                        assert forall|k: int| 0 <= k < entries@.len() implies (#[trigger] entries@[k]).1.spec_len() == rows by {
                            if k < before.len() {
                                assert(entries@[k] == before[k]);
                            }
                        }
                    }
                },
                None => {
                    proof {
                        let expected = physical_entries(self@, (i + 1) as nat);
                        assert(expected == physical_entries(self@, i as nat).push(
                            (self@[i as int].0, self@[i as int].1.spec_values())));
                        assert forall|k: int| 0 <= k < entries@.len() implies
                            (#[trigger] entries@[k]).0 == expected[k].0 && entries@[k].1.same_as(&expected[k].1) by {
                            if k < before.len() {
                                assert(entries@[k] == before[k]);
                            }
                        }
                        assert forall|k: int| 0 <= k < entries@.len() implies (#[trigger] entries@[k]).1.spec_len() == rows by {
                            if k < before.len() {
                                assert(entries@[k] == before[k]);
                            }
                        }
                    }
                },
            }
            i = i + 1;
        }
        let ghost given = entries@;
        proof {
            lemma_map_keeps_lengths(given, rows as nat);
            lemma_map_of_same_entries(given, physical_entries(self@, self@.len()));
        }
        match OwnedTable::try_new(entries) {
            Ok(t) => t,
            Err(_) => vstd::pervasive::unreached(),
        }
    }
}

/// Takes the next logical column from the back of reversed physical
/// columns: a value column, and for a nullable field the boolean column
/// that follows it as its mask.
fn take_reassembled(rest: &mut Vec<(Ident, OwnedColumn)>, nullable: bool) -> (r: (Ident, NullableOwnedColumn))
    requires
        old(rest)@.len() >= physical_width_of(nullable),
        nullable ==> old(rest)@[old(rest)@.len() - 2].1 is Boolean
            && old(rest)@[old(rest)@.len() - 2].1.spec_len() == old(rest)@[old(rest)@.len() - 1].1.spec_len(),
    ensures
        final(rest)@ == old(rest)@.take(old(rest)@.len() - physical_width_of(nullable)),
        r.0 == old(rest)@[old(rest)@.len() - 1].0,
        r.1.spec_values() == old(rest)@[old(rest)@.len() - 1].1,
        nullable ==> r.1.spec_presence() == Some(old(rest)@[old(rest)@.len() - 2].1->Boolean_0@),
        !nullable ==> r.1.spec_presence() is None,
{
    let (name, values) = rest.pop().unwrap();
    if nullable {
        let (_presence_name, presence_column) = rest.pop().unwrap();
        match presence_column {
            OwnedColumn::Boolean(bits) => {
                match NullableOwnedColumn::try_new(values, Some(bits)) {
                    Ok(c) => (name, c),
                    Err(_) => vstd::pervasive::unreached(),
                }
            },
            _ => vstd::pervasive::unreached(),
        }
    } else {
        (name, NullableOwnedColumn::new_nonnullable(values))
    }
}

/// The number of physical columns a logical column takes.
pub open spec fn physical_width_of(nullable: bool) -> int {
    if nullable { 2 } else { 1 }
}

/// A column taken from the coerced physical columns at the value position
/// of field `j` is the reassembled column of that field.
proof fn lemma_reassembled_column(physical: Seq<(Ident, OwnedColumn)>, pf: Seq<ColumnField>, cs: Seq<(Ident, OwnedColumn)>,
    fields: Seq<ColumnField>, j: nat, c: (Ident, NullableOwnedColumn))
    requires
        j < fields.len(),
        value_and_presence_shape(fields, fields.len(), pf),
        cs.len() == pf.len(),
        physical.len() == pf.len(),
        forall|k: int| 0 <= k < cs.len() ==> (#[trigger] cs[k]).0 == physical[k].0
            && coerced_to(physical[k].1, pf[k].spec_data_type(), Ok(cs[k].1)),
        forall|k: int| 0 <= k < pf.len() ==> fits_field(#[trigger] physical[k], pf[k]),
        c.0 == cs[value_index(fields, j) as int].0,
        c.1.spec_values() == cs[value_index(fields, j) as int].1,
        fields[j as int].spec_is_nullable() ==> c.1.spec_presence() == Some(cs[value_index(fields, j) + 1int].1->Boolean_0@)
            && cs[value_index(fields, j) + 1int].1 is Boolean,
        !fields[j as int].spec_is_nullable() ==> c.1.spec_presence() is None,
    ensures
        reassembled_column(physical, value_index(fields, j) as int, fields[j as int], c),
{
    let k = value_index(fields, j) as int;
    lemma_value_index_step(fields, j);
    if j + 1 < fields.len() {
        lemma_value_index_bound(fields, j + 1, fields.len());
    }
    assert(pf[k] == fields[j as int]);
    assert(cs[k].0 == physical[k].0);
    assert(fits_field(physical[k], pf[k]));
    if fields[j as int].spec_is_nullable() {
        assert(pf[k + 1].spec_data_type() == ColumnType::Boolean);
        assert(cs[k + 1].0 == physical[k + 1].0);
    }
}

impl NullableOwnedTable {
    /// The table of the logical fields, read back from the plain table of
    /// values and presence columns: the table is coerced to the physical
    /// fields of `fields`, then each nullable field takes the boolean
    /// column after its value column as its mask.
    pub fn try_from_values_and_presence_table_with_fields(values_and_presence_table: OwnedTable, fields: Vec<ColumnField>)
        -> (res: Result<NullableOwnedTable, TableCoercionError>)
        ensures
            reassembled(values_and_presence_table@, fields@, res),
    {
        let ghost physical = values_and_presence_table@;
        let physical_fields = ColumnField::value_and_presence_fields(fields.as_slice());
        let ghost pf = physical_fields@;
        let coerced = match values_and_presence_table.try_coerce_with_fields(physical_fields) {
            Ok(t) => t,
            Err(e) => return Err(e),
        };
        let mut columns = coerced.into_inner();
        let ghost cs = columns@;
        proof {
            assert(coercion_outcome(physical, pf) is None);
            lemma_first_misfit_from(physical, pf, 0);
        }
        // Reverse the columns so that they can be taken from the back in order.
        let mut rest: Vec<(Ident, OwnedColumn)> = Vec::new();
        while columns.len() > 0
            invariant
                cs == columns@ + rest@.reverse(),
            decreases columns@.len(),
        {
            let e = columns.pop().unwrap();
            proof { assert(cs =~= columns@ + rest@.push(e).reverse()); }
            rest.push(e);
        }
        proof { assert(rest@.reverse() =~= cs); }
        let n = fields.len();
        let mut out: Vec<(Ident, NullableOwnedColumn)> = Vec::new();
        let mut j: usize = 0;
        while j < n
            invariant
                n == fields@.len(),
                j <= n,
                value_and_presence_shape(fields@, n as nat, pf),
                cs.len() == pf.len(),
                physical.len() == pf.len(),
                forall|k: int| 0 <= k < cs.len() ==> (#[trigger] cs[k]).0 == physical[k].0
                    && coerced_to(physical[k].1, pf[k].spec_data_type(), Ok(cs[k].1)),
                forall|k: int| 0 <= k < pf.len() ==> fits_field(#[trigger] physical[k], pf[k]),
                lengths_agree(cs),
                rest@.len() == cs.len() - value_index(fields@, j as nat),
                forall|t: int| 0 <= t < rest@.len() ==> #[trigger] rest@[t] == cs[cs.len() - 1 - t],
                out@.len() == j,
                forall|i: int| 0 <= i < j ==> reassembled_column(physical, value_index(fields@, i as nat) as int,
                    fields@[i], #[trigger] out@[i]),
                forall|i: int| 0 <= i < j ==> (#[trigger] out@[i]).0 == cs[value_index(fields@, i as nat) as int].0
                    && out@[i].1.spec_values().spec_len() == cs[value_index(fields@, i as nat) as int].1.spec_len(),
            decreases n - j,
        {
            let ghost k = value_index(fields@, j as nat) as int;
            let nullable = fields[j].is_nullable();
            proof {
                lemma_value_index_step(fields@, j as nat);
                if j + 1 < n {
                    lemma_value_index_bound(fields@, (j + 1) as nat, n as nat);
                }
                let last = rest@.len() - 1;
                assert(rest@[last] == cs[k]);
                if nullable {
                    assert(rest@[last - 1] == cs[k + 1]);
                    assert(pf[k + 1].spec_data_type() == ColumnType::Boolean);
                    assert(coerced_to(physical[k + 1].1, pf[k + 1].spec_data_type(), Ok(cs[k + 1].1)));
                    assert(cs[k].1.spec_len() == cs[0].1.spec_len());
                    assert(cs[k + 1].1.spec_len() == cs[0].1.spec_len());
                }
            }
            let ghost before = rest@;
            let column = take_reassembled(&mut rest, nullable);
            proof {
                lemma_reassembled_column(physical, pf, cs, fields@, j as nat, column);
                assert forall|t: int| 0 <= t < rest@.len() implies #[trigger] rest@[t] == cs[cs.len() - 1 - t] by {
                    assert(rest@[t] == before[t]);
                }
            }
            out.push(column);
            j = j + 1;
        }
        proof {
            assert forall|a: int, b: int| 0 <= a < b < out@.len() implies (#[trigger] out@[a]).0 != (#[trigger] out@[b]).0 by {
                lemma_value_index_bound(fields@, a as nat, b as nat);
                lemma_value_index_bound(fields@, b as nat, n as nat);
                lemma_value_index_step(fields@, b as nat);
            }
            if n > 0 {
                assert forall|i: int| 0 <= i < out@.len() implies
                    (#[trigger] out@[i]).1.spec_values().spec_len() == out@[0].1.spec_values().spec_len() by {
                    lemma_value_index_step(fields@, i as nat);
                    if i + 1 < n {
                        lemma_value_index_bound(fields@, (i + 1) as nat, n as nat);
                    }
                    lemma_value_index_step(fields@, 0);
                    if 1 < n {
                        lemma_value_index_bound(fields@, 1, n as nat);
                    }
                }
            }
            assert(pf == value_and_presence(fields@, fields@.len()));
        }
        Ok(NullableOwnedTable { table: out })
    }
}

impl ColumnField {
    /// The physical fields of logical fields: each field, followed, for a
    /// nullable field, by a boolean field named by `presence_column_name`.
    pub fn value_and_presence_fields(fields: &[ColumnField]) -> (r: Vec<ColumnField>)
        ensures
            value_and_presence_shape(fields@, fields@.len(), r@),
            r@ == value_and_presence(fields@, fields@.len()),
    {
        let mut r: Vec<ColumnField> = Vec::new();
        let mut j: usize = 0;
        while j < fields.len()
            invariant
                j <= fields@.len(),
                value_and_presence_shape(fields@, j as nat, r@),
                r@ == value_and_presence(fields@, j as nat),
            decreases fields@.len() - j,
        {
            let ghost before = r@;
            let field = &fields[j];
            r.push(field.duplicate());
            proof { assert(r@ == before.push(fields@[j as int])); }
            let ghost presence_field: Option<ColumnField> = None;
            if field.is_nullable() {
                let name = field.name();
                let p = NullableOwnedTable::presence_column_name(&name);
                let pf = ColumnField::new(p, ColumnType::Boolean);
                proof { presence_field = Some(pf); }
                r.push(pf);
                proof { assert(r@ =~= before + seq![fields@[j as int], pf]); }
            }
            proof {
                lemma_value_and_presence_push(fields@, j as nat, before, presence_field, r@);
            }
            j = j + 1;
        }
        r
    }
}

/// Whether fields are the schema of named columns: each column's field.
pub open spec fn is_schema_of(fields: Seq<ColumnField>, entries: Seq<(Ident, NullableOwnedColumn)>) -> bool {
    fields.len() == entries.len()
        && forall|j: int| 0 <= j < entries.len() ==> #[trigger] fields[j] == field_of(entries[j].0, entries[j].1)
}

/// The physical columns of the first `n` columns line up with the physical
/// fields of their schema: as many, each of the field's name and type.
proof fn lemma_physical_aligned(entries: Seq<(Ident, NullableOwnedColumn)>, fields: Seq<ColumnField>, n: nat)
    requires
        is_schema_of(fields, entries),
        n <= entries.len(),
    ensures
        physical_entries(entries, n).len() == value_index(fields, n),
        forall|k: int| 0 <= k < value_index(fields, n) ==>
            (#[trigger] physical_entries(entries, n)[k]).0 == value_and_presence(fields, n)[k].spec_name()
            && physical_entries(entries, n)[k].1.spec_column_type() == value_and_presence(fields, n)[k].spec_data_type(),
    decreases n,
{
    if n > 0 {
        lemma_physical_aligned(entries, fields, (n - 1) as nat);
        let e = entries[n - 1];
        let f = fields[n - 1];
        ColumnField::lemma_field_of_parts(e.0, e.1.spec_values().spec_column_type(), e.1.spec_presence() is Some);
        assert(f == field_of(e.0, e.1));
        let pe = physical_entries(entries, n);
        let vp = value_and_presence(fields, n);
        let prev_pe = physical_entries(entries, (n - 1) as nat);
        let prev_vp = value_and_presence(fields, (n - 1) as nat);
        assert forall|k: int| 0 <= k < value_index(fields, n) implies
            (#[trigger] pe[k]).0 == vp[k].spec_name() && pe[k].1.spec_column_type() == vp[k].spec_data_type() by {
            if k < prev_pe.len() {
                assert(pe[k] == prev_pe[k]);
                assert(vp[k] == prev_vp[k]);
            } else if e.1.spec_presence() is Some {
                ColumnField::lemma_field_of_parts(posql_presence_name(e.0), ColumnType::Boolean, false);
            }
        }
    }
}

/// The physical columns at the value position of column `j`: its values,
/// and after them, for a column with a mask, the mask as booleans.
proof fn lemma_physical_entries_at(entries: Seq<(Ident, NullableOwnedColumn)>, fields: Seq<ColumnField>, j: nat, n: nat)
    requires
        is_schema_of(fields, entries),
        j < n <= entries.len(),
    ensures
        physical_entries(entries, n)[value_index(fields, j) as int] == (entries[j as int].0, entries[j as int].1.spec_values()),
        entries[j as int].1.spec_presence() matches Some(m) ==> physical_entries(entries, n)[value_index(fields, j) + 1int]
            == (posql_presence_name(entries[j as int].0), OwnedColumn::Boolean(choose|v: Vec<bool>| v@ == m)),
    decreases n,
{
    lemma_physical_aligned(entries, fields, (n - 1) as nat);
    ColumnField::lemma_field_of_parts(entries[j as int].0, entries[j as int].1.spec_values().spec_column_type(),
        entries[j as int].1.spec_presence() is Some);
    assert(fields[j as int] == field_of(entries[j as int].0, entries[j as int].1));
    if j < n - 1 {
        lemma_physical_entries_at(entries, fields, j, (n - 1) as nat);
        lemma_value_index_bound(fields, j, (n - 1) as nat);
        let prev = physical_entries(entries, (n - 1) as nat);
        let k = value_index(fields, j) as int;
        assert(physical_entries(entries, n)[k] == prev[k]);
        if entries[j as int].1.spec_presence() is Some {
            assert(physical_entries(entries, n)[k + 1] == prev[k + 1]);
        }
    }
}

/// Reading back, in a table's schema, the plain table of its values and
/// presence columns gives back the table: each column's name, values and
/// mask. This holds when no presence column is named like another
/// physical column.
pub proof fn law_values_and_presence_round_trip(table: NullableOwnedTable, plain: OwnedTable, fields: Seq<ColumnField>,
    res: Result<NullableOwnedTable, TableCoercionError>)
    requires
        names_distinct(physical_entries(table@, table@.len())),
        same_entries(plain@, map_of_entries(physical_entries(table@, table@.len()))),
        is_schema_of(fields, table@),
        reassembled(plain@, fields, res),
    ensures
        res matches Ok(t) && t@.len() == table@.len() && forall|j: int| 0 <= j < table@.len() ==> {
            &&& (#[trigger] t@[j]).0 == table@[j].0
            &&& t@[j].1.spec_values().same_as(&table@[j].1.spec_values())
            &&& t@[j].1.spec_presence() == table@[j].1.spec_presence()
        },
{
    let entries = table@;
    let n = entries.len();
    let pe = physical_entries(entries, n);
    let vp = value_and_presence(fields, n);
    lemma_map_of_distinct(pe);
    lemma_physical_aligned(entries, fields, n);
    assert forall|k: int| 0 <= k < vp.len() implies fits_field(#[trigger] plain@[k], vp[k]) by {
        assert(plain@[k].1.same_as(&pe[k].1));
        assert(pe[k].0 == vp[k].spec_name());
    }
    lemma_first_misfit_from(plain@, vp, 0);
    assert(coercion_outcome(plain@, vp) is None);
    let t = res->Ok_0;
    assert forall|j: int| 0 <= j < n implies {
        &&& (#[trigger] t@[j]).0 == entries[j].0
        &&& t@[j].1.spec_values().same_as(&entries[j].1.spec_values())
        &&& t@[j].1.spec_presence() == entries[j].1.spec_presence()
    } by {
        let k = value_index(fields, j as nat) as int;
        assert(reassembled_column(plain@, k, fields[j], t@[j]));
        lemma_physical_entries_at(entries, fields, j as nat, n);
        lemma_value_and_presence_at(fields, j as nat, n);
        ColumnField::lemma_field_of_parts(entries[j].0, entries[j].1.spec_values().spec_column_type(),
            entries[j].1.spec_presence() is Some);
        assert(fields[j] == field_of(entries[j].0, entries[j].1));
        assert(plain@[k].1.same_as(&pe[k].1));
        if let Some(m) = entries[j].1.spec_presence() {
            entries[j].1.lemma_mask_in_vec();
            assert(plain@[k + 1].1.same_as(&pe[k + 1].1));
        }
    }
}

/// The columns of the map the entries make are columns of the entries, so
/// they keep a length all of them have.
proof fn lemma_map_keeps_lengths(entries: Seq<(Ident, OwnedColumn)>, n: nat)
    requires
        all_of_length(entries, n),
    ensures
        all_of_length(map_of_entries(entries), n),
    decreases entries.len(),
{
    if entries.len() > 0 {
        let prev = entries.drop_last();
        assert(all_of_length(prev, n)) by {
            assert forall|i: int| 0 <= i < prev.len() implies (#[trigger] prev[i]).1.spec_len() == n by {
                assert(prev[i] == entries[i]);
            }
        }
        lemma_map_keeps_lengths(prev, n);
        let m = map_of_entries(prev);
        let e = entries.last();
        assert(e.1.spec_len() == n);
        lemma_position_from(m, e.0, 0);
        match position_of(m, e.0) {
            Some(i) => {
                assert forall|k: int| 0 <= k < m.update(i, e).len() implies (#[trigger] m.update(i, e)[k]).1.spec_len() == n by {
                    if k != i { assert(m.update(i, e)[k] == m[k]); }
                }
            },
            None => {
                assert forall|k: int| 0 <= k < m.push(e).len() implies (#[trigger] m.push(e)[k]).1.spec_len() == n by {
                    if k < m.len() { assert(m.push(e)[k] == m[k]); }
                }
            },
        }
    }
}

/// Entries of the same names and values make maps of the same names and
/// values.
proof fn lemma_map_of_same_entries(a: Seq<(Ident, OwnedColumn)>, b: Seq<(Ident, OwnedColumn)>)
    requires
        same_entries(a, b),
    ensures
        same_entries(map_of_entries(a), map_of_entries(b)),
    decreases a.len(),
{
    if a.len() > 0 {
        let pa = a.drop_last();
        let pb = b.drop_last();
        assert(same_entries(pa, pb)) by {
            assert forall|i: int| 0 <= i < pa.len() implies (#[trigger] pa[i]).0 == pb[i].0 && pa[i].1.same_as(&pb[i].1) by {
                assert(pa[i] == a[i] && pb[i] == b[i]);
            }
        }
        lemma_map_of_same_entries(pa, pb);
        let ma = map_of_entries(pa);
        let mb = map_of_entries(pb);
        let ea = a.last();
        let eb = b.last();
        assert(ea.0 == eb.0 && ea.1.same_as(&eb.1));
        lemma_same_positions(ma, mb, ea.0);
        lemma_position_from(ma, ea.0, 0);
        match position_of(ma, ea.0) {
            Some(i) => {
                let ra = ma.update(i, ea);
                let rb = mb.update(i, eb);
                assert forall|k: int| 0 <= k < ra.len() implies (#[trigger] ra[k]).0 == rb[k].0 && ra[k].1.same_as(&rb[k].1) by {
                    if k != i { assert(ra[k] == ma[k] && rb[k] == mb[k]); }
                }
            },
            None => {
                let ra = ma.push(ea);
                let rb = mb.push(eb);
                assert forall|k: int| 0 <= k < ra.len() implies (#[trigger] ra[k]).0 == rb[k].0 && ra[k].1.same_as(&rb[k].1) by {
                    if k < ma.len() { assert(ra[k] == ma[k] && rb[k] == mb[k]); }
                }
            },
        }
    }
}

/// Lists of the same names find a name at the same position.
proof fn lemma_same_positions(a: Seq<(Ident, OwnedColumn)>, b: Seq<(Ident, OwnedColumn)>, k: Ident)
    requires
        same_entries(a, b),
    ensures
        position_of(a, k) == position_of(b, k),
{
    lemma_same_positions_from(a, b, k, 0);
}

/// Lists of the same names find a name at the same position from any
/// index on.
proof fn lemma_same_positions_from(a: Seq<(Ident, OwnedColumn)>, b: Seq<(Ident, OwnedColumn)>, k: Ident, start: int)
    requires
        same_entries(a, b),
    ensures
        position_from(a, k, start) == position_from(b, k, start),
    decreases a.len() - start,
{
    if 0 <= start < a.len() {
        assert(a[start].0 == b[start].0);
        lemma_same_positions_from(a, b, k, start + 1);
    }
}

} // verus!
