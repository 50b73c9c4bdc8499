//! References to tables: an optional schema name and a table name.
use vstd::prelude::*;
use crate::owned_table_utility::{ident_named, ident_of, ident_text, idents_equal};
use crate::nullable_schema::name_text;
use crate::text::push;
use sqlparser::ast::Ident;

verus! {

/// A reference to a table: the schema's name, when there is one, and the
/// table's name.
#[derive(Debug, PartialEq, Eq, Clone, Hash)]
pub struct TableRef {
    schema_id: Option<Ident>,
    table_id: Ident,
}

impl TableRef {
    /// The schema's name.
    pub closed spec fn spec_schema_id(&self) -> Option<Ident> {
        self.schema_id
    }

    /// The table's name.
    pub closed spec fn spec_table_id(&self) -> Ident {
        self.table_id
    }

    /// The reference to table `table_name` of schema `schema_name`; an empty
    /// schema name stands for no schema.
    pub fn new(schema_name: &str, table_name: &str) -> (r: TableRef)
        ensures
            r.spec_schema_id() == (if schema_name@.len() == 0 { None } else { Some(ident_named(schema_name@)) }),
            r.spec_table_id() == ident_named(table_name@),
    {
        let schema_id = if schema_name.is_empty() { None } else { Some(ident_of(schema_name)) };
        TableRef { schema_id, table_id: ident_of(table_name) }
    }

    /// The reference to a table of the given names.
    pub fn from_idents(schema_id: Option<Ident>, table_id: Ident) -> (r: TableRef)
        ensures
            r.spec_schema_id() == schema_id,
            r.spec_table_id() == table_id,
    {
        TableRef { schema_id, table_id }
    }

    /// The schema's name.
    pub fn schema_id(&self) -> (s: Option<&Ident>)
        ensures
            s matches Some(x) ==> self.spec_schema_id() == Some(*x),
            s is None ==> self.spec_schema_id() is None,
    {
        match &self.schema_id {
            Some(x) => Some(x),
            None => None,
        }
    }

    /// The table's name.
    pub fn table_id(&self) -> (t: &Ident)
        ensures
            *t == self.spec_table_id(),
    {
        &self.table_id
    }

    /// Whether two references are equal: the same schema name, or none on
    /// both, and the same table name.
    pub fn equals(&self, other: &TableRef) -> (b: bool)
        ensures
            b == (*self == *other),
    {
        let schemas = match (&self.schema_id, &other.schema_id) {
            (Some(a), Some(b)) => idents_equal(a, b),
            (None, None) => true,
            _ => false,
        };
        schemas && idents_equal(&self.table_id, &other.table_id)
    }

    /// A copy of the reference.
    pub fn duplicate(&self) -> (r: TableRef)
        ensures
            r == *self,
    {
        let schema_id = match &self.schema_id {
            Some(x) => Some(x.clone()),
            None => None,
        };
        TableRef { schema_id, table_id: self.table_id.clone() }
    }

    /// The reference as text: `schema.table`, or the table's name alone.
    pub fn to_string(&self) -> (s: String)
        ensures
            s@ == match self.spec_schema_id() {
                Some(x) => name_text(x) + seq!['.'] + name_text(self.spec_table_id()),
                None => name_text(self.spec_table_id()),
            },
    {
        match &self.schema_id {
            Some(x) => {
                let mut s = ident_text(x);
                proof { reveal_strlit("."); }
                push(&mut s, ".");
                let t = ident_text(&self.table_id);
                push(&mut s, t.as_str());
                s
            },
            None => ident_text(&self.table_id),
        }
    }
}

} // verus!
