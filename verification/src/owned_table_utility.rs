//! Builders of named owned columns, as tables are written down in tests
//! and examples.
use vstd::prelude::*;
use crate::math::Precision;
use crate::owned_column::OwnedColumn;
use crate::posql_time::{PoSQLTimeUnit, PoSQLTimeZone};
use crate::scalar::Scalar;
use crate::owned_table::{OwnedTable, lengths_agree, map_of_entries};
use sqlparser::ast::Ident;

verus! {

/// The name `sqlparser::ast::Ident::new` makes of a text: the text as its
/// value, without quotes. It depends on the text alone.
pub uninterp spec fn ident_named(text: Seq<char>) -> Ident;

/// The text `sqlparser::ast::Ident::value` holds: the name without its
/// quote style. It depends on the name alone.
pub uninterp spec fn ident_value(id: Ident) -> Seq<char>;

/// Makes a name. Calls `sqlparser::ast::Ident::new`, which keeps the text
/// as the name's value, without quotes; the result is named `ident_named`
/// of the text, and its value is the text.
#[verifier::external_body]
pub(crate) fn ident_of(name: &str) -> (id: Ident)
    ensures
        id == ident_named(name@),
        ident_value(id) == name@,
{
    Ident::new(name)
}

/// The text of a name, as `sqlparser::ast::Ident::value` holds it. Reads
/// the field, whose text is named `ident_value` of the name; for a name
/// that `Ident::new` made of a text, that text.
#[verifier::external_body]
pub(crate) fn ident_text(id: &Ident) -> (s: String)
    ensures
        s@ == ident_value(*id),
        forall|t: Seq<char>| *id == ident_named(t) ==> s@ == t,
{
    id.value.clone()
}

/// Compares two names with `<Ident as PartialEq>::eq`, which sqlparser
/// derives over the name's text and quote style; the contract states that
/// the result is the names' equality.
#[verifier::external_body]
pub(crate) fn idents_equal(a: &Ident, b: &Ident) -> (r: bool)
    ensures
        r == (*a == *b),
{
    a == b
}

/// A named `Uint8` column.
pub fn uint8(name: &str, data: Vec<u8>) -> (r: (Ident, OwnedColumn))
    ensures
        r.0 == ident_named(name@),
        r.1 == OwnedColumn::Uint8(data),
{
    (ident_of(name), OwnedColumn::Uint8(data))
}

/// A named `TinyInt` column.
pub fn tinyint(name: &str, data: Vec<i8>) -> (r: (Ident, OwnedColumn))
    ensures
        r.0 == ident_named(name@),
        r.1 == OwnedColumn::TinyInt(data),
{
    (ident_of(name), OwnedColumn::TinyInt(data))
}

/// A named `SmallInt` column.
pub fn smallint(name: &str, data: Vec<i16>) -> (r: (Ident, OwnedColumn))
    ensures
        r.0 == ident_named(name@),
        r.1 == OwnedColumn::SmallInt(data),
{
    (ident_of(name), OwnedColumn::SmallInt(data))
}

/// A named `Int` column.
pub fn int32(name: &str, data: Vec<i32>) -> (r: (Ident, OwnedColumn))
    ensures
        r.0 == ident_named(name@),
        r.1 == OwnedColumn::Int(data),
{
    (ident_of(name), OwnedColumn::Int(data))
}

/// A named `BigInt` column.
pub fn bigint(name: &str, data: Vec<i64>) -> (r: (Ident, OwnedColumn))
    ensures
        r.0 == ident_named(name@),
        r.1 == OwnedColumn::BigInt(data),
{
    (ident_of(name), OwnedColumn::BigInt(data))
}

/// A named boolean column.
pub fn boolean(name: &str, data: Vec<bool>) -> (r: (Ident, OwnedColumn))
    ensures
        r.0 == ident_named(name@),
        r.1 == OwnedColumn::Boolean(data),
{
    (ident_of(name), OwnedColumn::Boolean(data))
}

/// A named `Int128` column.
pub fn int128(name: &str, data: Vec<i128>) -> (r: (Ident, OwnedColumn))
    ensures
        r.0 == ident_named(name@),
        r.1 == OwnedColumn::Int128(data),
{
    (ident_of(name), OwnedColumn::Int128(data))
}

/// A named scalar column.
pub fn scalar(name: &str, data: Vec<Scalar>) -> (r: (Ident, OwnedColumn))
    ensures
        r.0 == ident_named(name@),
        r.1 == OwnedColumn::Scalar(data),
{
    (ident_of(name), OwnedColumn::Scalar(data))
}

/// A named string column.
pub fn varchar(name: &str, data: Vec<String>) -> (r: (Ident, OwnedColumn))
    ensures
        r.0 == ident_named(name@),
        r.1 == OwnedColumn::VarChar(data),
{
    (ident_of(name), OwnedColumn::VarChar(data))
}

/// A named byte string column.
pub fn varbinary(name: &str, data: Vec<Vec<u8>>) -> (r: (Ident, OwnedColumn))
    ensures
        r.0 == ident_named(name@),
        r.1 == OwnedColumn::VarBinary(data),
{
    (ident_of(name), OwnedColumn::VarBinary(data))
}

/// A named decimal column of the given precision and scale.
pub fn decimal75(name: &str, precision: u8, scale: i8, data: Vec<Scalar>) -> (r: (Ident, OwnedColumn))
    requires
        1 <= precision <= 75,
    ensures
        r.0 == ident_named(name@),
        r.1 matches OwnedColumn::Decimal75(p, s, v) && p.spec_value() == precision && s == scale && v == data,
{
    let p = Precision::new_valid(precision);
    (ident_of(name), OwnedColumn::Decimal75(p, scale, data))
}

/// A named column of timestamps in seconds, in UTC.
pub fn timestamp(name: &str, data: Vec<i64>) -> (r: (Ident, OwnedColumn))
    ensures
        r.0 == ident_named(name@),
        r.1 matches OwnedColumn::TimestampTZ(u, z, v) && u == PoSQLTimeUnit::Second && z.spec_offset() == 0 && v == data,
{
    timestamptz(name, PoSQLTimeUnit::Second, PoSQLTimeZone::utc(), data)
}

/// A named timestamp column.
pub fn timestamptz(name: &str, unit: PoSQLTimeUnit, zone: PoSQLTimeZone, data: Vec<i64>) -> (r: (Ident, OwnedColumn))
    ensures
        r.0 == ident_named(name@),
        r.1 == OwnedColumn::TimestampTZ(unit, zone, data),
{
    (ident_of(name), OwnedColumn::TimestampTZ(unit, zone, data))
}

/// A table of the named columns, each name's last column in the place of
/// its first; the columns must all have one length.
pub fn owned_table(entries: Vec<(Ident, OwnedColumn)>) -> (t: OwnedTable)
    requires
        lengths_agree(map_of_entries(entries@)),
    ensures
        t@ == map_of_entries(entries@),
{
    match OwnedTable::try_from_iter(entries) {
        Ok(t) => t,
        Err(_) => vstd::pervasive::unreached(),
    }
}

} // verus!
