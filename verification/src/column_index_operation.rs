//! Picking the values of a column at given indexes.
use vstd::prelude::*;
use crate::column::{Column, alloc_slice_copy};
use crate::column_operation_error::{ColumnOperationError, ColumnOperationResult};

verus! {

broadcast use vstd::std_specs::vec::group_vec_axioms;

/// Whether `v` holds the values of `s` at the indexes, in order.
pub open spec fn gathers<T>(s: Seq<T>, indexes: Seq<usize>, v: Seq<T>) -> bool {
    &&& v.len() == indexes.len()
    &&& forall|r: int| 0 <= r < indexes.len() ==> #[trigger] v[r] == s[indexes[r] as int]
}

/// Whether every index lies below `len`.
pub open spec fn indexes_below(indexes: Seq<usize>, len: nat) -> bool {
    forall|r: int| 0 <= r < indexes.len() ==> #[trigger] indexes[r] < len
}

/// Whether `k` is the position of the first index at or past `len`.
pub open spec fn first_index_past(indexes: Seq<usize>, len: nat, k: int) -> bool {
    &&& 0 <= k < indexes.len()
    &&& indexes[k] >= len
    &&& forall|r: int| 0 <= r < k ==> #[trigger] indexes[r] < len
}

/// Whether `e` is the error for the first index at or past `len`.
pub open spec fn index_error_is(e: ColumnOperationError, indexes: Seq<usize>, len: nat) -> bool {
    exists|k: int| first_index_past(indexes, len, k)
        && e == (ColumnOperationError::IndexOutOfBounds { index: indexes[k], len: len as usize })
}

/// The values of a slice at indexes that all lie inside it.
pub fn gather<T: Copy>(s: &[T], indexes: &[usize]) -> (v: Vec<T>)
    requires
        indexes_below(indexes@, s@.len()),
    ensures
        gathers(s@, indexes@, v@),
{
    let mut out: Vec<T> = Vec::new();
    let mut r: usize = 0;
    while r < indexes.len()
        invariant
            r <= indexes@.len(),
            indexes_below(indexes@, s@.len()),
            out@.len() == r,
            forall|q: int| 0 <= q < r ==> #[trigger] out@[q] == s@[indexes@[q] as int],
        decreases indexes@.len() - r,
    {
        let i = indexes[r];
        assert(indexes@[r as int] < s@.len());
        out.push(s[i]);
        r = r + 1;
    }
    out
}

/// The values of a slice at the indexes, or the error for the first index
/// that lies past its end.
pub fn apply_slice_to_indexes<T: Copy>(s: &[T], indexes: &[usize]) -> (res: ColumnOperationResult<Vec<T>>)
    ensures
        res is Ok <==> indexes_below(indexes@, s@.len()),
        res matches Ok(v) ==> gathers(s@, indexes@, v@),
        res matches Err(e) ==> index_error_is(e, indexes@, s@.len()),
{
    let mut out: Vec<T> = Vec::new();
    let mut r: usize = 0;
    while r < indexes.len()
        invariant
            r <= indexes@.len(),
            out@.len() == r,
            forall|q: int| 0 <= q < r ==> #[trigger] indexes@[q] < s@.len(),
            forall|q: int| 0 <= q < r ==> #[trigger] out@[q] == s@[indexes@[q] as int],
        decreases indexes@.len() - r,
    {
        let i = indexes[r];
        if i >= s.len() {
            assert(first_index_past(indexes@, s@.len(), r as int));
            return Err(ColumnOperationError::IndexOutOfBounds { index: i, len: s.len() });
        }
        out.push(s[i]);
        r = r + 1;
    }
    Ok(out)
}

/// Whether `out` holds the values of `input` at the indexes, with the same
/// type; strings and byte strings keep their scalars beside them.
pub open spec fn column_gathers<'a>(input: Column<'a>, indexes: Seq<usize>, out: Column<'a>) -> bool {
    &&& out.spec_column_type() == input.spec_column_type()
    &&& match (input, out) {
        (Column::Boolean(a), Column::Boolean(b)) => gathers(a@, indexes, b@),
        (Column::Uint8(a), Column::Uint8(b)) => gathers(a@, indexes, b@),
        (Column::TinyInt(a), Column::TinyInt(b)) => gathers(a@, indexes, b@),
        (Column::SmallInt(a), Column::SmallInt(b)) => gathers(a@, indexes, b@),
        (Column::Int(a), Column::Int(b)) => gathers(a@, indexes, b@),
        (Column::BigInt(a), Column::BigInt(b)) => gathers(a@, indexes, b@),
        (Column::Int128(a), Column::Int128(b)) => gathers(a@, indexes, b@),
        (Column::Scalar(a), Column::Scalar(b)) => gathers(a@, indexes, b@),
        (Column::Decimal75(_, _, a), Column::Decimal75(_, _, b)) => gathers(a@, indexes, b@),
        (Column::TimestampTZ(_, _, a), Column::TimestampTZ(_, _, b)) => gathers(a@, indexes, b@),
        (Column::VarChar((a, ha)), Column::VarChar((b, hb))) => gathers(a@, indexes, b@) && gathers(ha@, indexes, hb@),
        (Column::VarBinary((a, ha)), Column::VarBinary((b, hb))) => gathers(a@, indexes, b@) && gathers(ha@, indexes, hb@),
        _ => false,
    }
}

/// The values of a column at the indexes, in the arena, or the error for
/// the first index past its end.
pub fn apply_column_to_indexes<'a>(column: &Column<'a>, alloc: &'a bumpalo::Bump, indexes: &[usize])
    -> (res: ColumnOperationResult<Column<'a>>)
    requires
        column.hashes_aligned(),
    ensures
        res is Ok <==> indexes_below(indexes@, column.spec_len()),
        res matches Ok(c) ==> column_gathers(*column, indexes@, c),
        res matches Err(e) ==> index_error_is(e, indexes@, column.spec_len()),
{
    match column {
        Column::Boolean(a) => match apply_slice_to_indexes(a, indexes) {
            Ok(v) => Ok(Column::Boolean(alloc_slice_copy(alloc, v.as_slice()))),
            Err(e) => Err(e),
        },
        Column::Uint8(a) => match apply_slice_to_indexes(a, indexes) {
            Ok(v) => Ok(Column::Uint8(alloc_slice_copy(alloc, v.as_slice()))),
            Err(e) => Err(e),
        },
        Column::TinyInt(a) => match apply_slice_to_indexes(a, indexes) {
            Ok(v) => Ok(Column::TinyInt(alloc_slice_copy(alloc, v.as_slice()))),
            Err(e) => Err(e),
        },
        Column::SmallInt(a) => match apply_slice_to_indexes(a, indexes) {
            Ok(v) => Ok(Column::SmallInt(alloc_slice_copy(alloc, v.as_slice()))),
            Err(e) => Err(e),
        },
        Column::Int(a) => match apply_slice_to_indexes(a, indexes) {
            Ok(v) => Ok(Column::Int(alloc_slice_copy(alloc, v.as_slice()))),
            Err(e) => Err(e),
        },
        Column::BigInt(a) => match apply_slice_to_indexes(a, indexes) {
            Ok(v) => Ok(Column::BigInt(alloc_slice_copy(alloc, v.as_slice()))),
            Err(e) => Err(e),
        },
        Column::Int128(a) => match apply_slice_to_indexes(a, indexes) {
            Ok(v) => Ok(Column::Int128(alloc_slice_copy(alloc, v.as_slice()))),
            Err(e) => Err(e),
        },
        Column::Scalar(a) => match apply_slice_to_indexes(a, indexes) {
            Ok(v) => Ok(Column::Scalar(alloc_slice_copy(alloc, v.as_slice()))),
            Err(e) => Err(e),
        },
        Column::Decimal75(p, s, a) => match apply_slice_to_indexes(a, indexes) {
            Ok(v) => Ok(Column::Decimal75(*p, *s, alloc_slice_copy(alloc, v.as_slice()))),
            Err(e) => Err(e),
        },
        Column::TimestampTZ(u, z, a) => match apply_slice_to_indexes(a, indexes) {
            Ok(v) => Ok(Column::TimestampTZ(*u, *z, alloc_slice_copy(alloc, v.as_slice()))),
            Err(e) => Err(e),
        },
        Column::VarChar((a, h)) => match apply_slice_to_indexes(a, indexes) {
            Ok(v) => {
                let w = gather(h, indexes);
                Ok(Column::VarChar((alloc_slice_copy(alloc, v.as_slice()), alloc_slice_copy(alloc, w.as_slice()))))
            },
            Err(e) => Err(e),
        },
        Column::VarBinary((a, h)) => match apply_slice_to_indexes(a, indexes) {
            Ok(v) => {
                let w = gather(h, indexes);
                Ok(Column::VarBinary((alloc_slice_copy(alloc, v.as_slice()), alloc_slice_copy(alloc, w.as_slice()))))
            },
            Err(e) => Err(e),
        },
    }
}

} // verus!
