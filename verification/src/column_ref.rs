//! References to columns of tables, and identifiers of columns.
use vstd::prelude::*;
use crate::column_type::ColumnType;
use crate::owned_table_utility::{ident_named, ident_of};
use crate::table_ref::TableRef;
use sqlparser::ast::Ident;

verus! {

/// A reference to a column: its table, its name and its type.
#[derive(Debug, PartialEq, Eq, Clone, Hash)]
pub struct ColumnRef {
    column_id: Ident,
    table_ref: TableRef,
    column_type: ColumnType,
}

impl ColumnRef {
    /// The column's name.
    pub closed spec fn spec_column_id(&self) -> Ident {
        self.column_id
    }

    /// The column's table.
    pub closed spec fn spec_table_ref(&self) -> TableRef {
        self.table_ref
    }

    /// The column's type.
    pub closed spec fn spec_column_type(&self) -> ColumnType {
        self.column_type
    }

    /// The reference to column `column_id` of type `column_type` of a table.
    pub fn new(table_ref: TableRef, column_id: Ident, column_type: ColumnType) -> (r: ColumnRef)
        ensures
            r.spec_table_ref() == table_ref,
            r.spec_column_id() == column_id,
            r.spec_column_type() == column_type,
    {
        ColumnRef { column_id, table_ref, column_type }
    }

    /// The column's table.
    pub fn table_ref(&self) -> (t: TableRef)
        ensures
            t == self.spec_table_ref(),
    {
        self.table_ref.duplicate()
    }

    /// The column's name.
    pub fn column_id(&self) -> (c: Ident)
        ensures
            c == self.spec_column_id(),
    {
        self.column_id.clone()
    }

    /// The column's type.
    pub fn column_type(&self) -> (t: &ColumnType)
        ensures
            *t == self.spec_column_type(),
    {
        &self.column_type
    }
}

/// A column's name, with the table it belongs to when that is known.
#[derive(Debug, PartialEq, Eq, Clone, Hash)]
pub struct ColumnId {
    name: Ident,
    qualifier: Option<TableRef>,
}

impl ColumnId {
    /// The column's name.
    pub closed spec fn spec_name(&self) -> Ident {
        self.name
    }

    /// The column's table, if known.
    pub closed spec fn spec_qualifier(&self) -> Option<TableRef> {
        self.qualifier
    }

    /// The identifier of column `name`, of table `qualifier` when given.
    pub fn new(name: Ident, qualifier: Option<TableRef>) -> (c: ColumnId)
        ensures
            c.spec_name() == name,
            c.spec_qualifier() == qualifier,
    {
        ColumnId { name, qualifier }
    }

    /// The column's name.
    pub fn name(&self) -> (n: &Ident)
        ensures
            *n == self.spec_name(),
    {
        &self.name
    }

    /// The identifier of a column named by text, of no known table.
    pub fn from_name(name: &str) -> (c: ColumnId)
        ensures
            c.spec_name() == ident_named(name@),
            c.spec_qualifier() is None,
    {
        ColumnId { name: ident_of(name), qualifier: None }
    }
}

impl From<Ident> for ColumnId {
    /// The identifier of a column of that name, of no known table.
    fn from(value: Ident) -> (c: ColumnId)
        ensures
            c.spec_name() == value,
            c.spec_qualifier() is None,
    {
        ColumnId { name: value, qualifier: None }
    }
}

impl vstd::std_specs::convert::FromSpecImpl<Ident> for ColumnId {
    open spec fn obeys_from_spec() -> bool {
        true
    }

    closed spec fn from_spec(v: Ident) -> ColumnId {
        ColumnId { name: v, qualifier: None }
    }
}

} // verus!
