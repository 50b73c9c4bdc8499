//! Coercing the columns of a table to the names and types of a list of
//! fields, as a query's result is read back in its schema.
use vstd::prelude::*;
use crate::column_field::ColumnField;
use crate::owned_column::{OwnedColumn, coercible, coercion_error, coerced_to, lemma_coerced_len};
use crate::owned_column_error::ColumnCoercionError;
use crate::owned_table::{OwnedTable, lemma_map_of_distinct, lengths_agree, names_distinct};
use crate::owned_table_utility::idents_equal;
use sqlparser::ast::Ident;

verus! {

broadcast use vstd::std_specs::vec::group_vec_axioms;

/// Errors of coercing a table to a list of fields.
#[derive(Debug, Clone, Copy, PartialEq, Eq, Structural)]
pub enum TableCoercionError {
    /// A column cannot be coerced to its field's type.
    ColumnCoercionError {
        /// Why the column cannot be coerced.
        source: ColumnCoercionError,
    },
    /// A column's name differs from its field's.
    NameMismatch,
    /// The table has another number of columns than there are fields.
    ColumnCountMismatch,
}

impl TableCoercionError {
    /// The error's message.
    pub open spec fn spec_message(&self) -> Seq<char> {
        match self {
            TableCoercionError::ColumnCoercionError { source } => source.spec_message(),
            TableCoercionError::NameMismatch => "Name mismatch between column and field"@,
            TableCoercionError::ColumnCountMismatch => "Column count mismatch"@,
        }
    }

    /// The error's message.
    pub fn to_string(&self) -> (s: String)
        ensures
            s@ == self.spec_message(),
    {
        match self {
            TableCoercionError::ColumnCoercionError { source } => source.to_string(),
            TableCoercionError::NameMismatch => String::from_str("Name mismatch between column and field"),
            TableCoercionError::ColumnCountMismatch => String::from_str("Column count mismatch"),
        }
    }
}

/// Whether a named column fits a field: the same name, and a column that
/// can be coerced to the field's type.
pub open spec fn fits_field(e: (Ident, OwnedColumn), f: ColumnField) -> bool {
    e.0 == f.spec_name() && coercible(e.1, f.spec_data_type())
}

/// Why a named column does not fit a field.
pub open spec fn field_error(e: (Ident, OwnedColumn), f: ColumnField) -> TableCoercionError {
    if e.0 != f.spec_name() {
        TableCoercionError::NameMismatch
    } else {
        TableCoercionError::ColumnCoercionError { source: coercion_error(e.1, f.spec_data_type()) }
    }
}

/// The first position from `k` on of a column that does not fit its
/// field, if there is one.
pub open spec fn first_misfit_from(entries: Seq<(Ident, OwnedColumn)>, fields: Seq<ColumnField>, k: int) -> Option<int>
    decreases entries.len() - k,
{
    if k < 0 || k >= entries.len() {
        None
    } else if !fits_field(entries[k], fields[k]) {
        Some(k)
    } else {
        first_misfit_from(entries, fields, k + 1)
    }
}

/// Why the columns cannot be coerced to the fields, or `None` when they
/// can: the numbers differ, or the first column that does not fit its
/// field.
pub open spec fn coercion_outcome(entries: Seq<(Ident, OwnedColumn)>, fields: Seq<ColumnField>) -> Option<TableCoercionError> {
    if entries.len() != fields.len() {
        Some(TableCoercionError::ColumnCountMismatch)
    } else {
        match first_misfit_from(entries, fields, 0) {
            Some(k) => Some(field_error(entries[k], fields[k])),
            None => None,
        }
    }
}

/// Whether `res` is what coercing the columns to the fields gives: the
/// error of `coercion_outcome`, or the columns, each coerced to its
/// field's type, under their names.
pub open spec fn coerced_table(entries: Seq<(Ident, OwnedColumn)>, fields: Seq<ColumnField>,
    res: Result<OwnedTable, TableCoercionError>) -> bool
{
    match coercion_outcome(entries, fields) {
        Some(e) => res == Err::<OwnedTable, TableCoercionError>(e),
        None => res matches Ok(t) && t@.len() == entries.len() && forall|k: int| 0 <= k < entries.len() ==>
            (#[trigger] t@[k]).0 == entries[k].0 && coerced_to(entries[k].1, fields[k].spec_data_type(), Ok(t@[k].1)),
    }
}

/// Every column before the first that does not fit fits its field.
pub proof fn lemma_first_misfit_from(entries: Seq<(Ident, OwnedColumn)>, fields: Seq<ColumnField>, k: int)
    requires
        0 <= k,
    ensures
        first_misfit_from(entries, fields, k) matches Some(p) ==> k <= p < entries.len() && !fits_field(entries[p], fields[p])
            && forall|j: int| k <= j < p ==> fits_field(#[trigger] entries[j], fields[j]),
        first_misfit_from(entries, fields, k) is None ==> forall|j: int| k <= j < entries.len() ==> fits_field(#[trigger] entries[j], fields[j]),
    decreases entries.len() - k,
{
    if k < entries.len() && fits_field(entries[k], fields[k]) {
        lemma_first_misfit_from(entries, fields, k + 1);
    }
}

impl OwnedTable {
    /// Coerces the table to a list of fields: column by column, the names
    /// must agree and each column is coerced to its field's type.
    pub fn try_coerce_with_fields(self, fields: Vec<ColumnField>) -> (res: Result<OwnedTable, TableCoercionError>)
        ensures
            coerced_table(self@, fields@, res),
    {
        let n = self.num_columns();
        if n != fields.len() {
            return Err(TableCoercionError::ColumnCountMismatch);
        }
        let mut entries = self.into_inner();
        let ghost orig = entries@;
        assert(orig == self@);
        // Reverse the columns so that they can be taken from the back in order.
        let mut rest: Vec<(Ident, OwnedColumn)> = Vec::new();
        while entries.len() > 0
            invariant
                orig == entries@ + rest@.reverse(),
            decreases entries@.len(),
        {
            let e = entries.pop().unwrap();
            proof { assert(orig =~= entries@ + rest@.push(e).reverse()); }
            rest.push(e);
        }
        proof { assert(rest@.reverse() =~= orig); }
        let mut out: Vec<(Ident, OwnedColumn)> = Vec::new();
        let mut i: usize = 0;
        while i < n
            invariant
                n == orig.len(),
                orig == self@,
                n == fields@.len(),
                names_distinct(orig),
                lengths_agree(orig),
                i <= n,
                rest@.len() == n - i,
                forall|t: int| 0 <= t < rest@.len() ==> #[trigger] rest@[t] == orig[n - 1 - t],
                out@.len() == i,
                first_misfit_from(orig, fields@, 0) == first_misfit_from(orig, fields@, i as int),
                forall|k: int| 0 <= k < i ==> (#[trigger] out@[k]).0 == orig[k].0
                    && coerced_to(orig[k].1, fields@[k].spec_data_type(), Ok(out@[k].1))
                    && out@[k].1.spec_len() == orig[k].1.spec_len(),
            decreases n - i,
        {
            let (name, column) = rest.pop().unwrap();
            proof { assert((name, column) == orig[i as int]); }
            let field_name = fields[i].name();
            if !idents_equal(&name, &field_name) {
                proof { assert(first_misfit_from(orig, fields@, i as int) == Some(i as int)); }
                return Err(TableCoercionError::NameMismatch);
            }
            match column.try_coerce_scalar_to_numeric(fields[i].data_type()) {
                Ok(d) => {
                    proof { lemma_coerced_len(orig[i as int].1, fields@[i as int].spec_data_type(), d); }
                    out.push((name, d));
                },
                Err(e) => {
                    proof { assert(first_misfit_from(orig, fields@, i as int) == Some(i as int)); }
                    return Err(TableCoercionError::ColumnCoercionError { source: e });
                },
            }
            i = i + 1;
        }
        proof {
            lemma_first_misfit_from(orig, fields@, n as int);
            assert forall|a: int, b: int| 0 <= a < b < out@.len() implies (#[trigger] out@[a]).0 != (#[trigger] out@[b]).0 by {
                assert(orig[a].0 != orig[b].0);
            }
            lemma_map_of_distinct(out@);
            if n > 0 {
                assert forall|k: int| 0 <= k < out@.len() implies (#[trigger] out@[k]).1.spec_len() == out@[0].1.spec_len() by {
                    assert(orig[k].1.spec_len() == orig[0].1.spec_len());
                }
            }
            assert(lengths_agree(out@));
        }
        match OwnedTable::try_new(out) {
            Ok(t) => Ok(t),
            Err(_) => vstd::pervasive::unreached(),
        }
    }
}

} // verus!
