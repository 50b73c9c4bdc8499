//! Named, typed fields of a table schema.
use vstd::prelude::*;
use crate::column_type::ColumnType;
use sqlparser::ast::Ident;

verus! {

/// A name of SQL, as the parser gives it.
#[verifier::external_type_specification]
#[verifier::external_body]
pub struct ExIdent(sqlparser::ast::Ident);

/// The derived `Clone` of `sqlparser::ast::Ident` copies its text and quote
/// style, so the copy is equal to the name.
pub assume_specification[ <Ident as Clone>::clone ](id: &Ident) -> (r: Ident)
    ensures
        r == *id,
;

/// A field of a schema: a column's name and type, and whether its rows
/// may be null.
#[derive(Debug, PartialEq, Eq, Clone, Hash)]
pub struct ColumnField {
    name: Ident,
    data_type: ColumnType,
    nullable: bool,
}

impl ColumnField {
    /// A field made of a name, a type and a nullability has them.
    pub proof fn lemma_field_of_parts(name: Ident, data_type: ColumnType, nullable: bool)
        ensures
            Self::spec_field(name, data_type, nullable).spec_name() == name,
            Self::spec_field(name, data_type, nullable).spec_data_type() == data_type,
            Self::spec_field(name, data_type, nullable).spec_is_nullable() == nullable,
    {
    }

    /// The name of the field.
    pub closed spec fn spec_name(&self) -> Ident {
        self.name
    }

    /// The type of the field.
    pub closed spec fn spec_data_type(&self) -> ColumnType {
        self.data_type
    }

    /// Whether the rows of the field may be null.
    pub closed spec fn spec_is_nullable(&self) -> bool {
        self.nullable
    }

    /// The field of a name and type whose rows are never null.
    pub open spec fn spec_new(name: Ident, data_type: ColumnType) -> ColumnField {
        Self::spec_field(name, data_type, false)
    }

    /// The field of a name, a type and a nullability.
    pub closed spec fn spec_field(name: Ident, data_type: ColumnType, nullable: bool) -> ColumnField {
        ColumnField { name, data_type, nullable }
    }

    /// A field of the given name and type, whose rows are never null.
    pub fn new(name: Ident, data_type: ColumnType) -> (f: ColumnField)
        ensures
            f == Self::spec_new(name, data_type),
            f.spec_name() == name,
            f.spec_data_type() == data_type,
            !f.spec_is_nullable(),
    {
        ColumnField { name, data_type, nullable: false }
    }

    /// A field of the given name and type whose rows may be null.
    pub fn new_nullable(name: Ident, data_type: ColumnType) -> (f: ColumnField)
        ensures
            f == Self::spec_field(name, data_type, true),
            f.spec_name() == name,
            f.spec_data_type() == data_type,
            f.spec_is_nullable(),
    {
        ColumnField { name, data_type, nullable: true }
    }

    /// The field with the same name and type, whose rows may be null or not
    /// as `nullable` says.
    pub fn with_nullable(self, nullable: bool) -> (f: ColumnField)
        ensures
            f == Self::spec_field(self.spec_name(), self.spec_data_type(), nullable),
    {
        ColumnField { name: self.name, data_type: self.data_type, nullable }
    }

    /// Whether the rows of the field may be null.
    pub fn is_nullable(&self) -> (b: bool)
        ensures
            b == self.spec_is_nullable(),
    {
        self.nullable
    }

    /// A copy of the field.
    pub fn duplicate(&self) -> (f: ColumnField)
        ensures
            f == *self,
    {
        ColumnField { name: self.name.clone(), data_type: self.data_type, nullable: self.nullable }
    }

    /// The name of the field.
    pub fn name(&self) -> (n: Ident)
        ensures
            n == self.spec_name(),
    {
        self.name.clone()
    }

    /// The type of the field.
    pub fn data_type(&self) -> (t: ColumnType)
        ensures
            t == self.spec_data_type(),
    {
        self.data_type
    }
}

} // verus!
