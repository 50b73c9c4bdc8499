//! Tables of borrowed columns that may carry presence masks.
use vstd::prelude::*;
use crate::column_field::ColumnField;
use crate::nullable_column::NullableColumn;
use crate::owned_table::{build_map, map_of_entries, names_distinct};
use crate::table::{TableError, TableOptions};
use sqlparser::ast::Ident;

verus! {

broadcast use vstd::std_specs::vec::group_vec_axioms;

/// Whether every column has `n` rows.
pub open spec fn all_rows<'a>(entries: Seq<(Ident, NullableColumn<'a>)>, n: nat) -> bool {
    forall|i: int| 0 <= i < entries.len() ==> (#[trigger] entries[i]).1.spec_values().spec_len() == n
}

/// The number of rows a table of the columns has under the options, or
/// the error that refuses it.
pub open spec fn table_rows<'a>(entries: Seq<(Ident, NullableColumn<'a>)>, row_count: Option<usize>) -> Result<nat, TableError> {
    if entries.len() == 0 {
        match row_count {
            None => Err(TableError::EmptyTableWithoutSpecifiedRowCount),
            Some(n) => Ok(n as nat),
        }
    } else {
        match row_count {
            None => {
                let n = entries[0].1.spec_values().spec_len();
                if all_rows(entries, n) {
                    Ok(n)
                } else {
                    Err(TableError::ColumnLengthMismatch)
                }
            },
            Some(n) => {
                if all_rows(entries, n as nat) {
                    Ok(n as nat)
                } else {
                    Err(TableError::ColumnLengthMismatchWithSpecifiedRowCount)
                }
            },
        }
    }
}

/// The field a named column has in a schema: nullable when it has a mask.
pub open spec fn column_field_of<'a>(name: Ident, column: NullableColumn<'a>) -> ColumnField {
    ColumnField::spec_field(name, column.spec_values().spec_column_type(), column.spec_presence() is Some)
}

/// A table of named borrowed columns that may carry presence masks: no
/// name twice, every column of the table's row count.
#[derive(Debug, PartialEq, Eq)]
pub struct NullableTable<'a> {
    table: Vec<(Ident, NullableColumn<'a>)>,
    row_count: usize,
}

impl<'a> View for NullableTable<'a> {
    type V = Seq<(Ident, NullableColumn<'a>)>;

    closed spec fn view(&self) -> Seq<(Ident, NullableColumn<'a>)> {
        self.table@
    }
}

impl<'a> Clone for NullableTable<'a> {
    /// A copy of the table: the same columns under the same names.
    fn clone(&self) -> (t: Self)
        ensures
            t@ == self@,
            t.spec_num_rows() == self.spec_num_rows(),
    {
        proof { use_type_invariant(self); }
        let mut table: Vec<(Ident, NullableColumn<'a>)> = Vec::new();
        let mut i: usize = 0;
        while i < self.table.len()
            invariant
                i <= self.table@.len(),
                table@ == self.table@.take(i as int),
            decreases self.table@.len() - i,
        {
            table.push((self.table[i].0.clone(), self.table[i].1));
            proof { assert(self.table@.take(i + 1) =~= self.table@.take(i as int).push(self.table@[i as int])); }
            i = i + 1;
        }
        proof { assert(self.table@.take(i as int) =~= self.table@); }
        NullableTable { table, row_count: self.row_count }
    }
}

impl<'a> NullableTable<'a> {
    #[verifier::type_invariant]
    closed spec fn well_formed(&self) -> bool {
        names_distinct(self.table@) && all_rows(self.table@, self.row_count as nat)
    }

    /// The number of rows.
    pub closed spec fn spec_num_rows(&self) -> nat {
        self.row_count as nat
    }

    /// A table of the named columns, whose row count is that of its columns.
    pub fn try_new(entries: Vec<(Ident, NullableColumn<'a>)>) -> (res: Result<NullableTable<'a>, TableError>)
        ensures
            match table_rows(map_of_entries(entries@), None) {
                Ok(n) => res matches Ok(t) && t@ == map_of_entries(entries@) && t.spec_num_rows() == n,
                Err(e) => res matches Err(e2) && e2 == e,
            },
    {
        Self::try_new_with_options(entries, TableOptions::default())
    }

    /// A table of the named columns: entries of a name given before are
    /// replaced in place. Without columns, the row count must be given;
    /// with columns, they must all have one length, the row count when it
    /// is given.
    pub fn try_new_with_options(entries: Vec<(Ident, NullableColumn<'a>)>, options: TableOptions)
        -> (res: Result<NullableTable<'a>, TableError>)
        ensures
            match table_rows(map_of_entries(entries@), options.row_count) {
                Ok(n) => res matches Ok(t) && t@ == map_of_entries(entries@) && t.spec_num_rows() == n,
                Err(e) => res matches Err(e2) && e2 == e,
            },
    {
        let map = build_map(entries);
        let n = map.len();
        if n == 0 {
            return match options.row_count {
                None => Err(TableError::EmptyTableWithoutSpecifiedRowCount),
                Some(row_count) => Ok(NullableTable { table: map, row_count }),
            };
        }
        let (row_count, error) = match options.row_count {
            None => (map[0].1.len(), TableError::ColumnLengthMismatch),
            Some(r) => (r, TableError::ColumnLengthMismatchWithSpecifiedRowCount),
        };
        let mut i: usize = 0;
        while i < n
            invariant
                n == map@.len(),
                0 < n,
                i <= n,
                map@ == map_of_entries(entries@),
                names_distinct(map@),
                options.row_count is None ==> row_count == map@[0].1.spec_values().spec_len()
                    && error == TableError::ColumnLengthMismatch,
                options.row_count matches Some(r) ==> row_count == r
                    && error == TableError::ColumnLengthMismatchWithSpecifiedRowCount,
                forall|t: int| 0 <= t < i ==> (#[trigger] map@[t]).1.spec_values().spec_len() == row_count,
            decreases n - i,
        {
            if map[i].1.len() != row_count {
                proof { assert(!all_rows(map@, row_count as nat)); }
                return Err(error);
            }
            i = i + 1;
        }
        Ok(NullableTable { table: map, row_count })
    }

    /// A table of the named columns; see `try_new`.
    pub fn try_from_iter(entries: Vec<(Ident, NullableColumn<'a>)>) -> (res: Result<NullableTable<'a>, TableError>)
        ensures
            match table_rows(map_of_entries(entries@), None) {
                Ok(n) => res matches Ok(t) && t@ == map_of_entries(entries@) && t.spec_num_rows() == n,
                Err(e) => res matches Err(e2) && e2 == e,
            },
    {
        Self::try_new(entries)
    }

    /// A table of the named columns; see `try_new_with_options`.
    pub fn try_from_iter_with_options(entries: Vec<(Ident, NullableColumn<'a>)>, options: TableOptions)
        -> (res: Result<NullableTable<'a>, TableError>)
        ensures
            match table_rows(map_of_entries(entries@), options.row_count) {
                Ok(n) => res matches Ok(t) && t@ == map_of_entries(entries@) && t.spec_num_rows() == n,
                Err(e) => res matches Err(e2) && e2 == e,
            },
    {
        Self::try_new_with_options(entries, options)
    }

    /// The number of columns.
    pub fn num_columns(&self) -> (n: usize)
        ensures
            n == self@.len(),
    {
        self.table.len()
    }

    /// The number of rows.
    pub fn num_rows(&self) -> (n: usize)
        ensures
            n == self.spec_num_rows(),
            forall|i: int| 0 <= i < self@.len() ==> (#[trigger] self@[i]).1.spec_values().spec_len() == n,
            names_distinct(self@),
    {
        proof { use_type_invariant(self); }
        self.row_count
    }

    /// Whether the table has no columns.
    pub fn is_empty(&self) -> (b: bool)
        ensures
            b == (self@.len() == 0),
    {
        self.table.len() == 0
    }

    /// The named columns, in order.
    pub fn into_inner(self) -> (v: Vec<(Ident, NullableColumn<'a>)>)
        ensures
            v@ == self@,
    {
        self.table
    }

    /// The named columns, in order.
    pub fn inner_table(&self) -> (v: &[(Ident, NullableColumn<'a>)])
        ensures
            v@ == self@,
    {
        self.table.as_slice()
    }

    /// The schema: each column's name and type, nullable when it has a mask.
    pub fn schema(&self) -> (fields: Vec<ColumnField>)
        ensures
            fields@.len() == self@.len(),
            forall|i: int| 0 <= i < self@.len() ==> #[trigger] fields@[i] == column_field_of(self@[i].0, self@[i].1),
    {
        let mut fields: Vec<ColumnField> = Vec::new();
        let mut i: usize = 0;
        while i < self.table.len()
            invariant
                i <= self@.len(),
                fields@.len() == i,
                forall|t: int| 0 <= t < i ==> #[trigger] fields@[t] == column_field_of(self@[t].0, self@[t].1),
            decreases self@.len() - i,
        {
            let name = self.table[i].0.clone();
            let column = &self.table[i].1;
            let f = if column.is_nullable() {
                ColumnField::new_nullable(name, column.column_type())
            } else {
                ColumnField::new(name, column.column_type())
            };
            fields.push(f);
            i = i + 1;
        }
        fields
    }

    /// The names of the columns, in order.
    pub fn column_names(&self) -> (names: Vec<Ident>)
        ensures
            names@.len() == self@.len(),
            forall|i: int| 0 <= i < self@.len() ==> #[trigger] names@[i] == self@[i].0,
    {
        let mut names: Vec<Ident> = Vec::new();
        let mut i: usize = 0;
        while i < self.table.len()
            invariant
                i <= self@.len(),
                names@.len() == i,
                forall|t: int| 0 <= t < i ==> #[trigger] names@[t] == self@[t].0,
            decreases self@.len() - i,
        {
            names.push(self.table[i].0.clone());
            i = i + 1;
        }
        names
    }

    /// The columns, in order.
    pub fn columns(&self) -> (columns: Vec<NullableColumn<'a>>)
        ensures
            columns@.len() == self@.len(),
            forall|i: int| 0 <= i < self@.len() ==> #[trigger] columns@[i] == self@[i].1,
    {
        let mut columns: Vec<NullableColumn<'a>> = Vec::new();
        let mut i: usize = 0;
        while i < self.table.len()
            invariant
                i <= self@.len(),
                columns@.len() == i,
                forall|t: int| 0 <= t < i ==> #[trigger] columns@[t] == self@[t].1,
            decreases self@.len() - i,
        {
            columns.push(self.table[i].1);
            i = i + 1;
        }
        columns
    }

    /// The column at a position, if there is one.
    pub fn column(&self, index: usize) -> (c: Option<&NullableColumn<'a>>)
        ensures
            c is Some <==> index < self@.len(),
            c matches Some(col) ==> *col == self@[index as int].1,
    {
        if index < self.table.len() {
            Some(&self.table[index].1)
        } else {
            None
        }
    }
}

} // verus!
