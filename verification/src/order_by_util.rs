//! Lexicographic comparison of rows of columns.
use vstd::prelude::*;
use vstd::utf8::encode_utf8;
use core::cmp::Ordering;
use crate::column::Column;
use crate::owned_column::OwnedColumn;
use crate::column_comparison_operation::OrderKey;
use crate::slice_operation::ints;
use crate::scalar::{Scalar, signed_value};
use crate::table_operation_error::{TableOperationError, TableOperationResult};

verus! {

/// `-1`, `0` or `1` as `a` is below, equal to or above `b`.
pub open spec fn sign(a: int, b: int) -> int {
    if a < b { -1 } else if a == b { 0 } else { 1 }
}

/// `-1`, `0` or `1` for less, equal and greater.
pub open spec fn ordering_sign(o: Ordering) -> int {
    match o {
        Ordering::Less => -1,
        Ordering::Equal => 0,
        Ordering::Greater => 1,
    }
}

/// The lexicographic order of two byte strings, as `-1`, `0` or `1`: the
/// first differing byte decides, and a proper prefix comes first.
pub open spec fn bytes_order(a: Seq<u8>, b: Seq<u8>) -> int
    decreases a.len(),
{
    if a.len() == 0 {
        if b.len() == 0 { 0 } else { -1 }
    } else if b.len() == 0 {
        1
    } else if a[0] != b[0] {
        sign(a[0] as int, b[0] as int)
    } else {
        bytes_order(a.drop_first(), b.drop_first())
    }
}

/// The order of the values at index `i` of column `l` and index `j` of
/// column `r`, of the same variant: numbers and booleans (`false < true`)
/// by value, decimals by the signed integers they stand for, scalars by
/// their canonical residues, strings and byte strings by their bytes.
pub open spec fn pair_order(l: Column, r: Column, i: int, j: int) -> int {
    match (l, r) {
        (Column::Boolean(a), Column::Boolean(b)) => sign(a@[i].spec_key(), b@[j].spec_key()),
        (Column::Uint8(a), Column::Uint8(b)) => sign(a@[i].spec_key(), b@[j].spec_key()),
        (Column::TinyInt(a), Column::TinyInt(b)) => sign(a@[i].spec_key(), b@[j].spec_key()),
        (Column::SmallInt(a), Column::SmallInt(b)) => sign(a@[i].spec_key(), b@[j].spec_key()),
        (Column::Int(a), Column::Int(b)) => sign(a@[i].spec_key(), b@[j].spec_key()),
        (Column::BigInt(a), Column::BigInt(b)) => sign(a@[i].spec_key(), b@[j].spec_key()),
        (Column::TimestampTZ(_, _, a), Column::TimestampTZ(_, _, b)) => sign(a@[i].spec_key(), b@[j].spec_key()),
        (Column::Int128(a), Column::Int128(b)) => sign(a@[i].spec_key(), b@[j].spec_key()),
        (Column::Decimal75(_, _, a), Column::Decimal75(_, _, b)) => sign(signed_value(a@[i]@), signed_value(b@[j]@)),
        (Column::Scalar(a), Column::Scalar(b)) => residue_order(a@[i], b@[j]),
        (Column::VarChar((a, _)), Column::VarChar((b, _))) => bytes_order(encode_utf8(a@[i]@), encode_utf8(b@[j]@)),
        (Column::VarBinary((a, _)), Column::VarBinary((b, _))) => bytes_order(a@[i]@, b@[j]@),
        _ => 0,
    }
}

/// The order of rows `i` and `j` of a list of columns, compared
/// lexicographically: the first column where they differ decides.
pub open spec fn rows_order(cols: Seq<Column>, i: int, j: int) -> int
    decreases cols.len(),
{
    if cols.len() == 0 {
        0
    } else if pair_order(cols[0], cols[0], i, j) != 0 {
        pair_order(cols[0], cols[0], i, j)
    } else {
        rows_order(cols.drop_first(), i, j)
    }
}

/// Whether comparing rows `i` and `j` reads only values that exist: every
/// column reached before the order is decided holds both rows.
pub open spec fn rows_in_bounds(cols: Seq<Column>, i: int, j: int) -> bool
    decreases cols.len(),
{
    cols.len() > 0 ==> {
        &&& 0 <= i < cols[0].spec_len()
        &&& 0 <= j < cols[0].spec_len()
        &&& (pair_order(cols[0], cols[0], i, j) == 0 ==> rows_in_bounds(cols.drop_first(), i, j))
    }
}

/// `pair_order` at indices given as `usize`.
pub open spec fn pair_order_at(l: Column, r: Column, i: usize, j: usize) -> int {
    pair_order(l, r, i as int, j as int)
}

/// `rows_order` at indices given as `usize`.
pub open spec fn rows_order_at(cols: Seq<Column>, i: usize, j: usize) -> int {
    rows_order(cols, i as int, j as int)
}

/// `rows_in_bounds` at indices given as `usize`.
pub open spec fn rows_in_bounds_at(cols: Seq<Column>, i: usize, j: usize) -> bool {
    rows_in_bounds(cols, i as int, j as int)
}

/// The columns from index `k` on.
pub open spec fn columns_from(cols: Seq<Column>, k: usize) -> Seq<Column> {
    cols.skip(k as int)
}

/// The order of two values by their keys.
fn order_keys<T: OrderKey>(a: &T, b: &T) -> (o: Ordering)
    ensures
        ordering_sign(o) == sign(a.spec_key(), b.spec_key()),
{
    let x = a.key();
    let y = b.key();
    if x < y {
        Ordering::Less
    } else if x == y {
        Ordering::Equal
    } else {
        Ordering::Greater
    }
}

/// The order of two byte strings is `-1`, `0` or `1`.
proof fn lemma_bytes_order_range(a: Seq<u8>, b: Seq<u8>)
    ensures
        -1 <= bytes_order(a, b) <= 1,
    decreases a.len(),
{
    if a.len() > 0 && b.len() > 0 && a[0] == b[0] {
        lemma_bytes_order_range(a.drop_first(), b.drop_first());
    }
}

/// `-1`, `0` or `1` as the lexicographic order of two byte strings.
fn bytes_sign(a: &[u8], b: &[u8]) -> (r: i8)
    ensures
        r as int == bytes_order(a@, b@),
{
    let n = if a.len() <= b.len() { a.len() } else { b.len() };
    let mut k: usize = 0;
    proof {
        assert(a@.skip(0) =~= a@);
        assert(b@.skip(0) =~= b@);
    }
    while k < n
        invariant
            n <= a@.len(),
            n <= b@.len(),
            n == a@.len() || n == b@.len(),
            k <= n,
            bytes_order(a@, b@) == bytes_order(a@.skip(k as int), b@.skip(k as int)),
        decreases n - k,
    {
        let x = a[k];
        let y = b[k];
        proof {
            assert(a@.skip(k as int)[0] == x);
            assert(b@.skip(k as int)[0] == y);
            assert(a@.skip(k as int).drop_first() =~= a@.skip(k + 1));
            assert(b@.skip(k as int).drop_first() =~= b@.skip(k + 1));
        }
        if x < y {
            return -1;
        } else if x > y {
            return 1;
        }
        k = k + 1;
    }
    if a.len() < b.len() {
        -1
    } else if a.len() == b.len() {
        proof { assert(a@.skip(k as int).len() == 0 && b@.skip(k as int).len() == 0); }
        0
    } else {
        1
    }
}

/// The ordering a sign stands for.
fn ordering_from_sign(s: i8) -> (o: Ordering)
    requires
        -1 <= s <= 1,
    ensures
        ordering_sign(o) == s,
{
    if s < 0 {
        Ordering::Less
    } else if s == 0 {
        Ordering::Equal
    } else {
        Ordering::Greater
    }
}

/// The lexicographic order of two byte strings.
fn order_bytes(a: &[u8], b: &[u8]) -> (o: Ordering)
    ensures
        ordering_sign(o) == bytes_order(a@, b@),
{
    let r = bytes_sign(a, b);
    proof { lemma_bytes_order_range(a@, b@); }
    ordering_from_sign(r)
}

/// The order of two strings: that of their UTF-8 bytes.
fn order_strs(a: &str, b: &str) -> (o: Ordering)
    ensures
        ordering_sign(o) == bytes_order(encode_utf8(a@), encode_utf8(b@)),
{
    order_bytes(a.as_bytes(), b.as_bytes())
}

/// The order of two scalars by their canonical residues, as a sign.
pub open spec fn residue_order(a: Scalar, b: Scalar) -> int {
    sign(a@ as int, b@ as int)
}

/// The order of two scalars by their canonical residues.
fn order_scalars(a: &Scalar, b: &Scalar) -> (o: Ordering)
    ensures
        ordering_sign(o) == residue_order(*a, *b),
{
    a.cmp(b)
}

/// The order of two scalars by the signed integers they stand for.
fn order_signed_scalars(a: &Scalar, b: &Scalar) -> (o: Ordering)
    ensures
        ordering_sign(o) == sign(signed_value(a@), signed_value(b@)),
{
    a.signed_cmp(b)
}

/// Compares the value at index `i` of `l` with that at index `j` of `r`,
/// two columns of the same variant.
fn pair_compare(l: &Column, r: &Column, i: usize, j: usize) -> (o: Ordering)
    requires
        i < l.spec_len(),
        j < r.spec_len(),
        l.spec_column_type() == r.spec_column_type(),
    ensures
        ordering_sign(o) == pair_order_at(*l, *r, i, j),
{
    match (l, r) {
        (Column::Boolean(a), Column::Boolean(b)) => order_keys(&a[i], &b[j]),
        (Column::Uint8(a), Column::Uint8(b)) => order_keys(&a[i], &b[j]),
        (Column::TinyInt(a), Column::TinyInt(b)) => order_keys(&a[i], &b[j]),
        (Column::SmallInt(a), Column::SmallInt(b)) => order_keys(&a[i], &b[j]),
        (Column::Int(a), Column::Int(b)) => order_keys(&a[i], &b[j]),
        (Column::BigInt(a), Column::BigInt(b)) => order_keys(&a[i], &b[j]),
        (Column::TimestampTZ(_, _, a), Column::TimestampTZ(_, _, b)) => order_keys(&a[i], &b[j]),
        (Column::Int128(a), Column::Int128(b)) => order_keys(&a[i], &b[j]),
        (Column::Decimal75(_, _, a), Column::Decimal75(_, _, b)) => order_signed_scalars(&a[i], &b[j]),
        (Column::Scalar(a), Column::Scalar(b)) => order_scalars(&a[i], &b[j]),
        (Column::VarChar((a, _)), Column::VarChar((b, _))) => order_strs(a[i], b[j]),
        (Column::VarBinary((a, _)), Column::VarBinary((b, _))) => order_bytes(a[i], b[j]),
        _ => {
            proof { assert(false); }
            Ordering::Equal
        },
    }
}

/// Compares rows `i` and `j` of the columns `order_by` lexicographically:
/// the first column where the rows differ decides; rows equal in every
/// column (or no columns at all) compare equal.
pub fn compare_indexes_by_columns(order_by: &[Column], i: usize, j: usize) -> (o: Ordering)
    requires
        rows_in_bounds_at(order_by@, i, j),
    ensures
        ordering_sign(o) == rows_order_at(order_by@, i, j),
{
    let mut k: usize = 0;
    proof { assert(columns_from(order_by@, 0) =~= order_by@); }
    while k < order_by.len()
        invariant
            k <= order_by@.len(),
            rows_order_at(order_by@, i, j) == rows_order_at(columns_from(order_by@, k), i, j),
            rows_in_bounds_at(columns_from(order_by@, k), i, j),
        decreases order_by@.len() - k,
    {
        let col = &order_by[k];
        proof {
            assert(columns_from(order_by@, k)[0] == *col);
            assert(columns_from(order_by@, k).drop_first() =~= order_by@.skip(k + 1));
        }
        let o = pair_compare(col, col, i, j);
        match o {
            Ordering::Equal => {},
            _ => return o,
        }
        k = k + 1;
    }
    Ordering::Equal
}

/// The direction a column is sorted in.
#[derive(Debug, Clone, Copy, PartialEq, Eq, Structural)]
pub enum OrderByDirection {
    /// Smallest first.
    Asc,
    /// Largest first.
    Desc,
}

/// An order as seen in a direction: descending flips it.
pub open spec fn directed_order(o: int, d: OrderByDirection) -> int {
    match d {
        OrderByDirection::Asc => o,
        OrderByDirection::Desc => -o,
    }
}

/// The order of rows `i` and `j` of an owned column: numbers and booleans
/// by value, decimals and scalars by their canonical residues, strings and
/// byte strings by their bytes.
pub open spec fn owned_pair_order(c: OwnedColumn, i: int, j: int) -> int {
    match c {
        OwnedColumn::Boolean(a) => sign(a@[i].spec_key(), a@[j].spec_key()),
        OwnedColumn::Uint8(a) => sign(a@[i].spec_key(), a@[j].spec_key()),
        OwnedColumn::TinyInt(a) => sign(a@[i].spec_key(), a@[j].spec_key()),
        OwnedColumn::SmallInt(a) => sign(a@[i].spec_key(), a@[j].spec_key()),
        OwnedColumn::Int(a) => sign(a@[i].spec_key(), a@[j].spec_key()),
        OwnedColumn::BigInt(a) => sign(a@[i].spec_key(), a@[j].spec_key()),
        OwnedColumn::TimestampTZ(_, _, a) => sign(a@[i].spec_key(), a@[j].spec_key()),
        OwnedColumn::Int128(a) => sign(a@[i].spec_key(), a@[j].spec_key()),
        OwnedColumn::Decimal75(_, _, a) => residue_order(a@[i], a@[j]),
        OwnedColumn::Scalar(a) => residue_order(a@[i], a@[j]),
        OwnedColumn::VarChar(a) => bytes_order(encode_utf8(a@[i]@), encode_utf8(a@[j]@)),
        OwnedColumn::VarBinary(a) => bytes_order(a@[i]@, a@[j]@),
    }
}

/// The order of rows `i` and `j` of a list of owned columns with
/// directions, compared lexicographically: the first column where they
/// differ decides, in its direction.
pub open spec fn owned_rows_order(pairs: Seq<(OwnedColumn, OrderByDirection)>, i: int, j: int) -> int
    decreases pairs.len(),
{
    if pairs.len() == 0 {
        0
    } else if owned_pair_order(pairs[0].0, i, j) != 0 {
        directed_order(owned_pair_order(pairs[0].0, i, j), pairs[0].1)
    } else {
        owned_rows_order(pairs.drop_first(), i, j)
    }
}

/// Whether comparing rows `i` and `j` reads only values that exist.
pub open spec fn owned_rows_in_bounds(pairs: Seq<(OwnedColumn, OrderByDirection)>, i: int, j: int) -> bool
    decreases pairs.len(),
{
    pairs.len() > 0 ==> {
        &&& 0 <= i < pairs[0].0.spec_len()
        &&& 0 <= j < pairs[0].0.spec_len()
        &&& (owned_pair_order(pairs[0].0, i, j) == 0 ==> owned_rows_in_bounds(pairs.drop_first(), i, j))
    }
}

/// `owned_pair_order` at indices given as `usize`.
pub open spec fn owned_pair_order_at(c: OwnedColumn, i: usize, j: usize) -> int {
    owned_pair_order(c, i as int, j as int)
}

/// `owned_rows_order` at indices given as `usize`.
pub open spec fn owned_rows_order_at(pairs: Seq<(OwnedColumn, OrderByDirection)>, i: usize, j: usize) -> int {
    owned_rows_order(pairs, i as int, j as int)
}

/// `owned_rows_in_bounds` at indices given as `usize`.
pub open spec fn owned_rows_in_bounds_at(pairs: Seq<(OwnedColumn, OrderByDirection)>, i: usize, j: usize) -> bool {
    owned_rows_in_bounds(pairs, i as int, j as int)
}

/// The pairs from index `k` on.
pub open spec fn pairs_from(pairs: Seq<(OwnedColumn, OrderByDirection)>, k: usize) -> Seq<(OwnedColumn, OrderByDirection)> {
    pairs.skip(k as int)
}

/// Compares rows `i` and `j` of an owned column.
fn owned_pair_compare(c: &OwnedColumn, i: usize, j: usize) -> (o: Ordering)
    requires
        i < c.spec_len(),
        j < c.spec_len(),
    ensures
        ordering_sign(o) == owned_pair_order_at(*c, i, j),
{
    match c {
        OwnedColumn::Boolean(a) => order_keys(&a[i], &a[j]),
        OwnedColumn::Uint8(a) => order_keys(&a[i], &a[j]),
        OwnedColumn::TinyInt(a) => order_keys(&a[i], &a[j]),
        OwnedColumn::SmallInt(a) => order_keys(&a[i], &a[j]),
        OwnedColumn::Int(a) => order_keys(&a[i], &a[j]),
        OwnedColumn::BigInt(a) => order_keys(&a[i], &a[j]),
        OwnedColumn::TimestampTZ(_, _, a) => order_keys(&a[i], &a[j]),
        OwnedColumn::Int128(a) => order_keys(&a[i], &a[j]),
        OwnedColumn::Decimal75(_, _, a) => order_scalars(&a[i], &a[j]),
        OwnedColumn::Scalar(a) => order_scalars(&a[i], &a[j]),
        OwnedColumn::VarChar(a) => order_strs(a[i].as_str(), a[j].as_str()),
        OwnedColumn::VarBinary(a) => order_bytes(a[i].as_slice(), a[j].as_slice()),
    }
}

/// Compares rows `i` and `j` of owned columns lexicographically, each column
/// in its direction: the first column where the rows differ decides, and a
/// descending column flips its order; rows equal in every column compare
/// equal.
pub fn compare_indexes_by_owned_columns_with_direction(
    order_by_pairs: &[(OwnedColumn, OrderByDirection)],
    i: usize,
    j: usize,
) -> (o: Ordering)
    requires
        owned_rows_in_bounds_at(order_by_pairs@, i, j),
    ensures
        ordering_sign(o) == owned_rows_order_at(order_by_pairs@, i, j),
{
    let mut k: usize = 0;
    proof { assert(pairs_from(order_by_pairs@, 0) =~= order_by_pairs@); }
    while k < order_by_pairs.len()
        invariant
            k <= order_by_pairs@.len(),
            owned_rows_order_at(order_by_pairs@, i, j) == owned_rows_order_at(pairs_from(order_by_pairs@, k), i, j),
            owned_rows_in_bounds_at(pairs_from(order_by_pairs@, k), i, j),
        decreases order_by_pairs@.len() - k,
    {
        let pair = &order_by_pairs[k];
        proof {
            assert(pairs_from(order_by_pairs@, k)[0] == *pair);
            assert(pairs_from(order_by_pairs@, k).drop_first() =~= order_by_pairs@.skip(k + 1));
        }
        let o = owned_pair_compare(&pair.0, i, j);
        match o {
            Ordering::Equal => {},
            Ordering::Less => {
                return match pair.1 {
                    OrderByDirection::Asc => Ordering::Less,
                    OrderByDirection::Desc => Ordering::Greater,
                };
            },
            Ordering::Greater => {
                return match pair.1 {
                    OrderByDirection::Asc => Ordering::Greater,
                    OrderByDirection::Desc => Ordering::Less,
                };
            },
        }
        k = k + 1;
    }
    Ordering::Equal
}

/// The outcome of comparing two rows of two tables: an order, or the
/// first pair of columns of different types met before it is decided.
pub enum RowComparison {
    /// The rows compare as `-1`, `0` or `1`.
    Order(int),
    /// A pair of columns of these types was met.
    Incompatible(crate::column_type::ColumnType, crate::column_type::ColumnType),
}

/// Compares row `i` of the columns `left` with row `j` of the columns
/// `right`, pair by pair: a pair of columns of different types is refused;
/// else the first pair where the rows differ decides.
pub open spec fn table_rows_order(left: Seq<Column>, right: Seq<Column>, i: int, j: int) -> RowComparison
    decreases left.len(),
{
    if left.len() == 0 || right.len() == 0 {
        RowComparison::Order(0)
    } else if left[0].spec_column_type() != right[0].spec_column_type() {
        RowComparison::Incompatible(left[0].spec_column_type(), right[0].spec_column_type())
    } else if pair_order(left[0], right[0], i, j) != 0 {
        RowComparison::Order(pair_order(left[0], right[0], i, j))
    } else {
        table_rows_order(left.drop_first(), right.drop_first(), i, j)
    }
}

/// `table_rows_order` at indices given as `usize`.
pub open spec fn table_rows_order_at(left: Seq<Column>, right: Seq<Column>, i: usize, j: usize) -> RowComparison {
    table_rows_order(left, right, i as int, j as int)
}

/// `table_rows_comparable` at indices given as `usize`.
pub open spec fn table_rows_comparable_at(left: Seq<Column>, right: Seq<Column>, i: usize, j: usize) -> bool {
    table_rows_comparable(left, right, i as int, j as int)
}

/// Whether comparing the rows reads only values that exist.
pub open spec fn table_rows_comparable(left: Seq<Column>, right: Seq<Column>, i: int, j: int) -> bool
    decreases left.len(),
{
    (left.len() > 0 && right.len() > 0 && left[0].spec_column_type() == right[0].spec_column_type()) ==> {
        &&& 0 <= i < left[0].spec_len()
        &&& 0 <= j < right[0].spec_len()
        &&& (pair_order(left[0], right[0], i, j) == 0
            ==> table_rows_comparable(left.drop_first(), right.drop_first(), i, j))
    }
}

/// Compares row `left_row_index` of the columns `left` with row
/// `right_row_index` of the columns `right`, which come in the same number.
pub fn compare_single_row_of_tables(
    left: &[Column],
    right: &[Column],
    left_row_index: usize,
    right_row_index: usize,
) -> (res: TableOperationResult<Ordering>)
    requires
        left@.len() == right@.len(),
        table_rows_comparable_at(left@, right@, left_row_index, right_row_index),
    ensures
        match table_rows_order_at(left@, right@, left_row_index, right_row_index) {
            RowComparison::Order(s) => res matches Ok(o) && ordering_sign(o) == s,
            RowComparison::Incompatible(lt, rt) => res == Err::<Ordering, TableOperationError>(
                TableOperationError::JoinIncompatibleTypes { left_type: lt, right_type: rt }),
        },
{
    let i = left_row_index;
    let j = right_row_index;
    let mut k: usize = 0;
    proof {
        assert(columns_from(left@, 0) =~= left@);
        assert(columns_from(right@, 0) =~= right@);
    }
    while k < left.len()
        invariant
            left@.len() == right@.len(),
            k <= left@.len(),
            table_rows_order_at(left@, right@, i, j)
                == table_rows_order_at(columns_from(left@, k), columns_from(right@, k), i, j),
            table_rows_comparable_at(columns_from(left@, k), columns_from(right@, k), i, j),
            i == left_row_index,
            j == right_row_index,
        decreases left@.len() - k,
    {
        let l = &left[k];
        let r = &right[k];
        proof {
            assert(columns_from(left@, k)[0] == *l);
            assert(columns_from(right@, k)[0] == *r);
            assert(columns_from(left@, k).drop_first() =~= left@.skip(k + 1));
            assert(columns_from(right@, k).drop_first() =~= right@.skip(k + 1));
        }
        let lt = l.column_type();
        let rt = r.column_type();
        if lt != rt {
            proof {
                assert(table_rows_order_at(columns_from(left@, k), columns_from(right@, k), i, j)
                    == RowComparison::Incompatible(lt, rt));
            }
            return Err(TableOperationError::JoinIncompatibleTypes { left_type: lt, right_type: rt });
        }
        let o = pair_compare(l, r, i, j);
        match o {
            Ordering::Equal => {},
            _ => {
                proof {
                    assert(table_rows_order_at(columns_from(left@, k), columns_from(right@, k), i, j)
                        == RowComparison::Order(ordering_sign(o)));
                }
                return Ok(o);
            },
        }
        k = k + 1;
    }
    Ok(Ordering::Equal)
}

/// Swapping two byte strings negates their order.
pub proof fn lemma_bytes_order_antisymmetric(a: Seq<u8>, b: Seq<u8>)
    ensures
        bytes_order(a, b) == -bytes_order(b, a),
    decreases a.len(),
{
    if a.len() > 0 && b.len() > 0 && a[0] == b[0] {
        lemma_bytes_order_antisymmetric(a.drop_first(), b.drop_first());
    }
}

/// Swapping the rows of a pair of columns negates their order.
pub proof fn lemma_pair_order_antisymmetric(l: Column, r: Column, i: int, j: int)
    ensures
        pair_order(l, r, i, j) == -pair_order(r, l, j, i),
{
    match (l, r) {
        (Column::VarChar((a, _)), Column::VarChar((b, _))) =>
            lemma_bytes_order_antisymmetric(encode_utf8(a@[i]@), encode_utf8(b@[j]@)),
        (Column::VarBinary((a, _)), Column::VarBinary((b, _))) =>
            lemma_bytes_order_antisymmetric(a@[i]@, b@[j]@),
        _ => {},
    }
}

/// Comparing row `i` of a list of columns with row `j` gives the opposite
/// of comparing row `j` with row `i`.
pub proof fn law_rows_order_antisymmetric(cols: Seq<Column>, i: int, j: int)
    ensures
        rows_order(cols, i, j) == -rows_order(cols, j, i),
    decreases cols.len(),
{
    if cols.len() > 0 {
        lemma_pair_order_antisymmetric(cols[0], cols[0], i, j);
        law_rows_order_antisymmetric(cols.drop_first(), i, j);
    }
}

/// Every row compares equal to itself.
pub proof fn law_rows_order_reflexive(cols: Seq<Column>, i: int)
    ensures
        rows_order(cols, i, i) == 0,
    decreases cols.len(),
{
    if cols.len() > 0 {
        lemma_pair_order_antisymmetric(cols[0], cols[0], i, i);
        law_rows_order_reflexive(cols.drop_first(), i);
    }
}

/// Comparing a row of one table with a row of another gives the opposite
/// of comparing them the other way round, and a pair of columns of
/// different types is met at the same place either way.
pub proof fn law_table_rows_order_swaps(left: Seq<Column>, right: Seq<Column>, i: int, j: int)
    requires
        left.len() == right.len(),
    ensures
        match (table_rows_order(left, right, i, j), table_rows_order(right, left, j, i)) {
            (RowComparison::Order(a), RowComparison::Order(b)) => a == -b,
            (RowComparison::Incompatible(lt, rt), RowComparison::Incompatible(rt2, lt2)) => lt == lt2 && rt == rt2,
            _ => false,
        },
    decreases left.len(),
{
    if left.len() > 0 {
        lemma_pair_order_antisymmetric(left[0], right[0], i, j);
        law_table_rows_order_swaps(left.drop_first(), right.drop_first(), i, j);
    }
}

/// Byte strings of order zero are equal.
proof fn lemma_bytes_order_zero(a: Seq<u8>, b: Seq<u8>)
    requires
        bytes_order(a, b) == 0,
    ensures
        a == b,
    decreases a.len(),
{
    if a.len() > 0 {
        lemma_bytes_order_zero(a.drop_first(), b.drop_first());
        assert(a =~= seq![a[0]] + a.drop_first());
        assert(b =~= seq![b[0]] + b.drop_first());
    } else {
        assert(a =~= b);
    }
}

/// The order of byte strings is transitive, and strictly so when either
/// step is strict.
proof fn lemma_bytes_order_transitive(a: Seq<u8>, b: Seq<u8>, c: Seq<u8>)
    requires
        bytes_order(a, b) <= 0,
        bytes_order(b, c) <= 0,
    ensures
        bytes_order(a, c) <= 0,
        bytes_order(a, b) < 0 || bytes_order(b, c) < 0 ==> bytes_order(a, c) < 0,
    decreases a.len(),
{
    if a.len() > 0 && b.len() > 0 && c.len() > 0 && a[0] == b[0] && b[0] == c[0] {
        lemma_bytes_order_transitive(a.drop_first(), b.drop_first(), c.drop_first());
    }
}

/// What one column's order says of three rows: it is transitive (strictly
/// so when either step is strict), and rows of order zero compare alike
/// with any third row.
proof fn lemma_column_order_transitive(col: Column, i: int, j: int, k: int)
    ensures
        pair_order(col, col, i, j) <= 0 && pair_order(col, col, j, k) <= 0 ==> pair_order(col, col, i, k) <= 0,
        pair_order(col, col, i, j) < 0 && pair_order(col, col, j, k) < 0 ==> pair_order(col, col, i, k) < 0,
        pair_order(col, col, i, j) == 0 ==> pair_order(col, col, i, k) == pair_order(col, col, j, k),
{
    match col {
        Column::VarChar((a, _)) => {
            let (x, y, z) = (encode_utf8(a@[i]@), encode_utf8(a@[j]@), encode_utf8(a@[k]@));
            if bytes_order(x, y) <= 0 && bytes_order(y, z) <= 0 {
                lemma_bytes_order_transitive(x, y, z);
            }
            if bytes_order(x, y) == 0 {
                lemma_bytes_order_zero(x, y);
            }
        },
        Column::VarBinary((a, _)) => {
            let (x, y, z) = (a@[i]@, a@[j]@, a@[k]@);
            if bytes_order(x, y) <= 0 && bytes_order(y, z) <= 0 {
                lemma_bytes_order_transitive(x, y, z);
            }
            if bytes_order(x, y) == 0 {
                lemma_bytes_order_zero(x, y);
            }
        },
        _ => {},
    }
}

/// The order of rows is transitive: if row `i` comes no later than row
/// `j`, and row `j` no later than row `k`, then row `i` comes no later
/// than row `k`.
pub proof fn law_rows_order_transitive(cols: Seq<Column>, i: int, j: int, k: int)
    requires
        rows_order(cols, i, j) <= 0,
        rows_order(cols, j, k) <= 0,
    ensures
        rows_order(cols, i, k) <= 0,
    decreases cols.len(),
{
    if cols.len() > 0 {
        lemma_column_order_transitive(cols[0], i, j, k);
        lemma_column_order_transitive(cols[0], i, k, j);
        lemma_pair_order_antisymmetric(cols[0], cols[0], j, k);
        if pair_order(cols[0], cols[0], i, j) == 0 && pair_order(cols[0], cols[0], j, k) == 0 {
            law_rows_order_transitive(cols.drop_first(), i, j, k);
        }
    }
}

/// Swapping two rows of an owned column negates their order.
pub proof fn lemma_owned_pair_order_antisymmetric(c: OwnedColumn, i: int, j: int)
    ensures
        owned_pair_order(c, i, j) == -owned_pair_order(c, j, i),
{
    match c {
        OwnedColumn::VarChar(a) => lemma_bytes_order_antisymmetric(encode_utf8(a@[i]@), encode_utf8(a@[j]@)),
        OwnedColumn::VarBinary(a) => lemma_bytes_order_antisymmetric(a@[i]@, a@[j]@),
        _ => {},
    }
}

/// Comparing rows `i` and `j` of owned columns with directions gives the
/// opposite of comparing rows `j` and `i`.
pub proof fn law_owned_rows_order_antisymmetric(pairs: Seq<(OwnedColumn, OrderByDirection)>, i: int, j: int)
    ensures
        owned_rows_order(pairs, i, j) == -owned_rows_order(pairs, j, i),
    decreases pairs.len(),
{
    if pairs.len() > 0 {
        lemma_owned_pair_order_antisymmetric(pairs[0].0, i, j);
        law_owned_rows_order_antisymmetric(pairs.drop_first(), i, j);
    }
}

/// Ordering rows by one integer, timestamp or boolean column puts them in
/// the order of their values: ascending, a row with a smaller value comes
/// first; descending, a row with a larger value does; rows with equal
/// values are equal.
pub proof fn law_single_owned_column_orders_by_value(c: OwnedColumn, d: OrderByDirection, i: int, j: int, vi: int, vj: int)
    requires
        0 <= i < c.spec_len(),
        0 <= j < c.spec_len(),
        c.spec_int_values() matches Some(v) ==> vi == v[i] && vj == v[j],
        c matches OwnedColumn::TimestampTZ(_, _, a) ==> vi == a@[i] as int && vj == a@[j] as int,
        c matches OwnedColumn::Boolean(a) ==> vi == (if a@[i] { 1int } else { 0int }) && vj == (if a@[j] { 1int } else { 0int }),
        c.spec_int_values() is Some || c is TimestampTZ || c is Boolean,
    ensures
        ({
            let o = owned_rows_order(seq![(c, d)], i, j);
            &&& d == OrderByDirection::Asc ==> ((o < 0 <==> vi < vj) && (o == 0 <==> vi == vj) && (o > 0 <==> vi > vj))
            &&& d == OrderByDirection::Desc ==> ((o < 0 <==> vi > vj) && (o == 0 <==> vi == vj) && (o > 0 <==> vi < vj))
        }),
{
    let pairs = seq![(c, d)];
    assert(pairs.drop_first().len() == 0);
    assert(pairs[0] == (c, d));
    assert(owned_rows_order(pairs.drop_first(), i, j) == 0);
    assert(owned_rows_order(pairs, i, j) == directed_order(owned_pair_order(c, i, j), d));
    match c {
        OwnedColumn::Uint8(a) => {
            assert(ints(a@)[i] == a@[i] as int && ints(a@)[j] == a@[j] as int);
            assert(owned_pair_order(c, i, j) == sign(a@[i] as int, a@[j] as int));
        },
        OwnedColumn::TinyInt(a) => {
            assert(ints(a@)[i] == a@[i] as int && ints(a@)[j] == a@[j] as int);
            assert(owned_pair_order(c, i, j) == sign(a@[i] as int, a@[j] as int));
        },
        OwnedColumn::SmallInt(a) => {
            assert(ints(a@)[i] == a@[i] as int && ints(a@)[j] == a@[j] as int);
            assert(owned_pair_order(c, i, j) == sign(a@[i] as int, a@[j] as int));
        },
        OwnedColumn::Int(a) => {
            assert(ints(a@)[i] == a@[i] as int && ints(a@)[j] == a@[j] as int);
            assert(owned_pair_order(c, i, j) == sign(a@[i] as int, a@[j] as int));
        },
        OwnedColumn::BigInt(a) => {
            assert(ints(a@)[i] == a@[i] as int && ints(a@)[j] == a@[j] as int);
            assert(owned_pair_order(c, i, j) == sign(a@[i] as int, a@[j] as int));
        },
        OwnedColumn::Int128(a) => {
            assert(ints(a@)[i] == a@[i] as int && ints(a@)[j] == a@[j] as int);
            assert(owned_pair_order(c, i, j) == sign(a@[i] as int, a@[j] as int));
        },
        _ => {},
    }
}

} // verus!
