//! Building a column row by row from several columns of one type.
use vstd::prelude::*;
use crate::column::{Column, alloc_slice_copy};
use crate::scalar::Scalar;

verus! {

broadcast use vstd::std_specs::vec::group_vec_axioms;

/// Whether two columns are of the same variant (decimals and timestamps of
/// any precision, scale, unit or zone alike).
pub open spec fn same_variant(a: Column, b: Column) -> bool {
    match (a, b) {
        (Column::Boolean(_), Column::Boolean(_)) => true,
        (Column::Uint8(_), Column::Uint8(_)) => true,
        (Column::TinyInt(_), Column::TinyInt(_)) => true,
        (Column::SmallInt(_), Column::SmallInt(_)) => true,
        (Column::Int(_), Column::Int(_)) => true,
        (Column::BigInt(_), Column::BigInt(_)) => true,
        (Column::Int128(_), Column::Int128(_)) => true,
        (Column::Scalar(_), Column::Scalar(_)) => true,
        (Column::Decimal75(_, _, _), Column::Decimal75(_, _, _)) => true,
        (Column::TimestampTZ(_, _, _), Column::TimestampTZ(_, _, _)) => true,
        (Column::VarChar(_), Column::VarChar(_)) => true,
        (Column::VarBinary(_), Column::VarBinary(_)) => true,
        _ => false,
    }
}

/// Columns of one type are of one variant.
proof fn lemma_same_type_same_variant(a: Column, b: Column)
    requires
        a.spec_column_type() == b.spec_column_type(),
    ensures
        same_variant(a, b),
{
}

/// Whether each row `r` can be taken from source `row_source[r]`: there is
/// a source, every source is of the type of the first, the source index
/// is in range and that source has a row `r` (with its scalar, for strings
/// and byte strings).
pub open spec fn selectable(sources: Seq<Column>, row_source: Seq<usize>) -> bool {
    &&& sources.len() > 0
    &&& forall|k: int| 0 <= k < sources.len() ==> (#[trigger] sources[k]).spec_column_type() == sources[0].spec_column_type()
    &&& forall|k: int| 0 <= k < sources.len() ==> (#[trigger] sources[k]).hashes_aligned()
    &&& forall|r: int| 0 <= r < row_source.len() ==> #[trigger] row_source[r] < sources.len()
        && r < sources[row_source[r] as int].spec_len()
}

/// Whether row `r` of `out` holds row `k` of `src`, of the same variant;
/// strings and byte strings with their scalars.
pub open spec fn same_entry(out: Column, r: int, src: Column, k: int) -> bool {
    match (out, src) {
        (Column::Boolean(a), Column::Boolean(b)) => a@[r] == b@[k],
        (Column::Uint8(a), Column::Uint8(b)) => a@[r] == b@[k],
        (Column::TinyInt(a), Column::TinyInt(b)) => a@[r] == b@[k],
        (Column::SmallInt(a), Column::SmallInt(b)) => a@[r] == b@[k],
        (Column::Int(a), Column::Int(b)) => a@[r] == b@[k],
        (Column::BigInt(a), Column::BigInt(b)) => a@[r] == b@[k],
        (Column::Int128(a), Column::Int128(b)) => a@[r] == b@[k],
        (Column::Scalar(a), Column::Scalar(b)) => a@[r] == b@[k],
        (Column::Decimal75(_, _, a), Column::Decimal75(_, _, b)) => a@[r] == b@[k],
        (Column::TimestampTZ(_, _, a), Column::TimestampTZ(_, _, b)) => a@[r] == b@[k],
        (Column::VarChar((a, ha)), Column::VarChar((b, hb))) => a@[r] == b@[k] && ha@[r] == hb@[k],
        (Column::VarBinary((a, ha)), Column::VarBinary((b, hb))) => a@[r] == b@[k] && ha@[r] == hb@[k],
        _ => false,
    }
}

fn select_boolean<'a>(alloc: &'a bumpalo::Bump, sources: &[Column<'a>], row_source: &[usize]) -> (c: Column<'a>)
    requires
        selectable(sources@, row_source@),
        sources@[0] is Boolean,
    ensures
        c.spec_column_type() == sources@[0].spec_column_type(),
        c.spec_len() == row_source@.len(),
        forall|r: int| 0 <= r < row_source@.len() ==>
            #[trigger] same_entry(c, r, sources@[row_source@[r] as int], r),
{
    let mut v: Vec<bool> = Vec::new();
    let mut r: usize = 0;
    while r < row_source.len()
        invariant
            selectable(sources@, row_source@),
            sources@[0] is Boolean,
            r <= row_source@.len(),
            v@.len() == r,
            forall|q: int| 0 <= q < r ==>
                (sources@[row_source@[q] as int] matches Column::Boolean(a) && (#[trigger] v@[q]) == a@[q]),
        decreases row_source@.len() - r,
    {
        let k = row_source[r];
        proof { lemma_same_type_same_variant(sources@[0], sources@[k as int]); }
        let x = match &sources[k] {
            Column::Boolean(a) => a[r],
            _ => {
                proof { assert(false); }
                false
            },
        };
        v.push(x);
        r = r + 1;
    }
    let out = alloc_slice_copy(alloc, v.as_slice());
    Column::Boolean(out)
}

fn select_uint8<'a>(alloc: &'a bumpalo::Bump, sources: &[Column<'a>], row_source: &[usize]) -> (c: Column<'a>)
    requires
        selectable(sources@, row_source@),
        sources@[0] is Uint8,
    ensures
        c.spec_column_type() == sources@[0].spec_column_type(),
        c.spec_len() == row_source@.len(),
        forall|r: int| 0 <= r < row_source@.len() ==>
            #[trigger] same_entry(c, r, sources@[row_source@[r] as int], r),
{
    let mut v: Vec<u8> = Vec::new();
    let mut r: usize = 0;
    while r < row_source.len()
        invariant
            selectable(sources@, row_source@),
            sources@[0] is Uint8,
            r <= row_source@.len(),
            v@.len() == r,
            forall|q: int| 0 <= q < r ==>
                (sources@[row_source@[q] as int] matches Column::Uint8(a) && (#[trigger] v@[q]) == a@[q]),
        decreases row_source@.len() - r,
    {
        let k = row_source[r];
        proof { lemma_same_type_same_variant(sources@[0], sources@[k as int]); }
        let x = match &sources[k] {
            Column::Uint8(a) => a[r],
            _ => {
                proof { assert(false); }
                0
            },
        };
        v.push(x);
        r = r + 1;
    }
    let out = alloc_slice_copy(alloc, v.as_slice());
    Column::Uint8(out)
}

fn select_tinyint<'a>(alloc: &'a bumpalo::Bump, sources: &[Column<'a>], row_source: &[usize]) -> (c: Column<'a>)
    requires
        selectable(sources@, row_source@),
        sources@[0] is TinyInt,
    ensures
        c.spec_column_type() == sources@[0].spec_column_type(),
        c.spec_len() == row_source@.len(),
        forall|r: int| 0 <= r < row_source@.len() ==>
            #[trigger] same_entry(c, r, sources@[row_source@[r] as int], r),
{
    let mut v: Vec<i8> = Vec::new();
    let mut r: usize = 0;
    while r < row_source.len()
        invariant
            selectable(sources@, row_source@),
            sources@[0] is TinyInt,
            r <= row_source@.len(),
            v@.len() == r,
            forall|q: int| 0 <= q < r ==>
                (sources@[row_source@[q] as int] matches Column::TinyInt(a) && (#[trigger] v@[q]) == a@[q]),
        decreases row_source@.len() - r,
    {
        let k = row_source[r];
        proof { lemma_same_type_same_variant(sources@[0], sources@[k as int]); }
        let x = match &sources[k] {
            Column::TinyInt(a) => a[r],
            _ => {
                proof { assert(false); }
                0
            },
        };
        v.push(x);
        r = r + 1;
    }
    let out = alloc_slice_copy(alloc, v.as_slice());
    Column::TinyInt(out)
}

fn select_smallint<'a>(alloc: &'a bumpalo::Bump, sources: &[Column<'a>], row_source: &[usize]) -> (c: Column<'a>)
    requires
        selectable(sources@, row_source@),
        sources@[0] is SmallInt,
    ensures
        c.spec_column_type() == sources@[0].spec_column_type(),
        c.spec_len() == row_source@.len(),
        forall|r: int| 0 <= r < row_source@.len() ==>
            #[trigger] same_entry(c, r, sources@[row_source@[r] as int], r),
{
    let mut v: Vec<i16> = Vec::new();
    let mut r: usize = 0;
    while r < row_source.len()
        invariant
            selectable(sources@, row_source@),
            sources@[0] is SmallInt,
            r <= row_source@.len(),
            v@.len() == r,
            forall|q: int| 0 <= q < r ==>
                (sources@[row_source@[q] as int] matches Column::SmallInt(a) && (#[trigger] v@[q]) == a@[q]),
        decreases row_source@.len() - r,
    {
        let k = row_source[r];
        proof { lemma_same_type_same_variant(sources@[0], sources@[k as int]); }
        let x = match &sources[k] {
            Column::SmallInt(a) => a[r],
            _ => {
                proof { assert(false); }
                0
            },
        };
        v.push(x);
        r = r + 1;
    }
    let out = alloc_slice_copy(alloc, v.as_slice());
    Column::SmallInt(out)
}

fn select_int<'a>(alloc: &'a bumpalo::Bump, sources: &[Column<'a>], row_source: &[usize]) -> (c: Column<'a>)
    requires
        selectable(sources@, row_source@),
        sources@[0] is Int,
    ensures
        c.spec_column_type() == sources@[0].spec_column_type(),
        c.spec_len() == row_source@.len(),
        forall|r: int| 0 <= r < row_source@.len() ==>
            #[trigger] same_entry(c, r, sources@[row_source@[r] as int], r),
{
    let mut v: Vec<i32> = Vec::new();
    let mut r: usize = 0;
    while r < row_source.len()
        invariant
            selectable(sources@, row_source@),
            sources@[0] is Int,
            r <= row_source@.len(),
            v@.len() == r,
            forall|q: int| 0 <= q < r ==>
                (sources@[row_source@[q] as int] matches Column::Int(a) && (#[trigger] v@[q]) == a@[q]),
        decreases row_source@.len() - r,
    {
        let k = row_source[r];
        proof { lemma_same_type_same_variant(sources@[0], sources@[k as int]); }
        let x = match &sources[k] {
            Column::Int(a) => a[r],
            _ => {
                proof { assert(false); }
                0
            },
        };
        v.push(x);
        r = r + 1;
    }
    let out = alloc_slice_copy(alloc, v.as_slice());
    Column::Int(out)
}

fn select_bigint<'a>(alloc: &'a bumpalo::Bump, sources: &[Column<'a>], row_source: &[usize]) -> (c: Column<'a>)
    requires
        selectable(sources@, row_source@),
        sources@[0] is BigInt,
    ensures
        c.spec_column_type() == sources@[0].spec_column_type(),
        c.spec_len() == row_source@.len(),
        forall|r: int| 0 <= r < row_source@.len() ==>
            #[trigger] same_entry(c, r, sources@[row_source@[r] as int], r),
{
    let mut v: Vec<i64> = Vec::new();
    let mut r: usize = 0;
    while r < row_source.len()
        invariant
            selectable(sources@, row_source@),
            sources@[0] is BigInt,
            r <= row_source@.len(),
            v@.len() == r,
            forall|q: int| 0 <= q < r ==>
                (sources@[row_source@[q] as int] matches Column::BigInt(a) && (#[trigger] v@[q]) == a@[q]),
        decreases row_source@.len() - r,
    {
        let k = row_source[r];
        proof { lemma_same_type_same_variant(sources@[0], sources@[k as int]); }
        let x = match &sources[k] {
            Column::BigInt(a) => a[r],
            _ => {
                proof { assert(false); }
                0
            },
        };
        v.push(x);
        r = r + 1;
    }
    let out = alloc_slice_copy(alloc, v.as_slice());
    Column::BigInt(out)
}

fn select_int128<'a>(alloc: &'a bumpalo::Bump, sources: &[Column<'a>], row_source: &[usize]) -> (c: Column<'a>)
    requires
        selectable(sources@, row_source@),
        sources@[0] is Int128,
    ensures
        c.spec_column_type() == sources@[0].spec_column_type(),
        c.spec_len() == row_source@.len(),
        forall|r: int| 0 <= r < row_source@.len() ==>
            #[trigger] same_entry(c, r, sources@[row_source@[r] as int], r),
{
    let mut v: Vec<i128> = Vec::new();
    let mut r: usize = 0;
    while r < row_source.len()
        invariant
            selectable(sources@, row_source@),
            sources@[0] is Int128,
            r <= row_source@.len(),
            v@.len() == r,
            forall|q: int| 0 <= q < r ==>
                (sources@[row_source@[q] as int] matches Column::Int128(a) && (#[trigger] v@[q]) == a@[q]),
        decreases row_source@.len() - r,
    {
        let k = row_source[r];
        proof { lemma_same_type_same_variant(sources@[0], sources@[k as int]); }
        let x = match &sources[k] {
            Column::Int128(a) => a[r],
            _ => {
                proof { assert(false); }
                0
            },
        };
        v.push(x);
        r = r + 1;
    }
    let out = alloc_slice_copy(alloc, v.as_slice());
    Column::Int128(out)
}

fn select_scalar<'a>(alloc: &'a bumpalo::Bump, sources: &[Column<'a>], row_source: &[usize]) -> (c: Column<'a>)
    requires
        selectable(sources@, row_source@),
        sources@[0] is Scalar,
    ensures
        c.spec_column_type() == sources@[0].spec_column_type(),
        c.spec_len() == row_source@.len(),
        forall|r: int| 0 <= r < row_source@.len() ==>
            #[trigger] same_entry(c, r, sources@[row_source@[r] as int], r),
{
    let mut v: Vec<Scalar> = Vec::new();
    let mut r: usize = 0;
    while r < row_source.len()
        invariant
            selectable(sources@, row_source@),
            sources@[0] is Scalar,
            r <= row_source@.len(),
            v@.len() == r,
            forall|q: int| 0 <= q < r ==>
                (sources@[row_source@[q] as int] matches Column::Scalar(a) && (#[trigger] v@[q]) == a@[q]),
        decreases row_source@.len() - r,
    {
        let k = row_source[r];
        proof { lemma_same_type_same_variant(sources@[0], sources@[k as int]); }
        let x = match &sources[k] {
            Column::Scalar(a) => a[r],
            _ => {
                proof { assert(false); }
                Scalar::zero()
            },
        };
        v.push(x);
        r = r + 1;
    }
    let out = alloc_slice_copy(alloc, v.as_slice());
    Column::Scalar(out)
}

fn select_decimal75<'a>(alloc: &'a bumpalo::Bump, sources: &[Column<'a>], row_source: &[usize]) -> (c: Column<'a>)
    requires
        selectable(sources@, row_source@),
        sources@[0] is Decimal75,
    ensures
        c.spec_column_type() == sources@[0].spec_column_type(),
        c.spec_len() == row_source@.len(),
        forall|r: int| 0 <= r < row_source@.len() ==>
            #[trigger] same_entry(c, r, sources@[row_source@[r] as int], r),
{
    let mut v: Vec<Scalar> = Vec::new();
    let mut r: usize = 0;
    while r < row_source.len()
        invariant
            selectable(sources@, row_source@),
            sources@[0] is Decimal75,
            r <= row_source@.len(),
            v@.len() == r,
            forall|q: int| 0 <= q < r ==>
                (sources@[row_source@[q] as int] matches Column::Decimal75(_, _, a) && (#[trigger] v@[q]) == a@[q]),
        decreases row_source@.len() - r,
    {
        let k = row_source[r];
        proof { lemma_same_type_same_variant(sources@[0], sources@[k as int]); }
        let x = match &sources[k] {
            Column::Decimal75(_, _, a) => a[r],
            _ => {
                proof { assert(false); }
                Scalar::zero()
            },
        };
        v.push(x);
        r = r + 1;
    }
    let out = alloc_slice_copy(alloc, v.as_slice());
    match &sources[0] { Column::Decimal75(p, s, _) => Column::Decimal75(*p, *s, out), _ => Column::Scalar(out) }
}

fn select_timestamptz<'a>(alloc: &'a bumpalo::Bump, sources: &[Column<'a>], row_source: &[usize]) -> (c: Column<'a>)
    requires
        selectable(sources@, row_source@),
        sources@[0] is TimestampTZ,
    ensures
        c.spec_column_type() == sources@[0].spec_column_type(),
        c.spec_len() == row_source@.len(),
        forall|r: int| 0 <= r < row_source@.len() ==>
            #[trigger] same_entry(c, r, sources@[row_source@[r] as int], r),
{
    let mut v: Vec<i64> = Vec::new();
    let mut r: usize = 0;
    while r < row_source.len()
        invariant
            selectable(sources@, row_source@),
            sources@[0] is TimestampTZ,
            r <= row_source@.len(),
            v@.len() == r,
            forall|q: int| 0 <= q < r ==>
                (sources@[row_source@[q] as int] matches Column::TimestampTZ(_, _, a) && (#[trigger] v@[q]) == a@[q]),
        decreases row_source@.len() - r,
    {
        let k = row_source[r];
        proof { lemma_same_type_same_variant(sources@[0], sources@[k as int]); }
        let x = match &sources[k] {
            Column::TimestampTZ(_, _, a) => a[r],
            _ => {
                proof { assert(false); }
                0
            },
        };
        v.push(x);
        r = r + 1;
    }
    let out = alloc_slice_copy(alloc, v.as_slice());
    match &sources[0] { Column::TimestampTZ(u, z, _) => Column::TimestampTZ(*u, *z, out), _ => Column::BigInt(out) }
}

fn select_varchar<'a>(alloc: &'a bumpalo::Bump, sources: &[Column<'a>], row_source: &[usize])
    -> (c: Column<'a>)
    requires
        selectable(sources@, row_source@),
        sources@[0] is VarChar,
    ensures
        c.spec_column_type() == sources@[0].spec_column_type(),
        c.spec_len() == row_source@.len(),
        forall|r: int| 0 <= r < row_source@.len() ==>
            #[trigger] same_entry(c, r, sources@[row_source@[r] as int], r),
{
    let mut v: Vec<&'a str> = Vec::new();
    let mut w: Vec<Scalar> = Vec::new();
    let mut r: usize = 0;
    while r < row_source.len()
        invariant
            selectable(sources@, row_source@),
            sources@[0] is VarChar,
            r <= row_source@.len(),
            v@.len() == r,
            w@.len() == r,
            forall|q: int| 0 <= q < r ==>
                (sources@[row_source@[q] as int] matches Column::VarChar((a, h))
                    && (#[trigger] v@[q]) == a@[q] && w@[q] == h@[q]),
        decreases row_source@.len() - r,
    {
        let k = row_source[r];
        proof { lemma_same_type_same_variant(sources@[0], sources@[k as int]); }
        assert(sources@[k as int].hashes_aligned());
        let (x, y) = match &sources[k] {
            Column::VarChar((a, h)) => (a[r], h[r]),
            _ => {
                proof { assert(false); }
                ("", Scalar::zero())
            },
        };
        v.push(x);
        w.push(y);
        proof {
            assert(sources@[row_source@[r as int] as int] matches Column::VarChar((a, h)) && v@[r as int] == a@[r as int]);
            assert(sources@[row_source@[r as int] as int] matches Column::VarChar((a, h)) && w@[r as int] == h@[r as int]);
        }
        r = r + 1;
    }
    let out0 = alloc_slice_copy(alloc, v.as_slice());
    let out1 = alloc_slice_copy(alloc, w.as_slice());
    Column::VarChar((out0, out1))
}

fn select_varbinary<'a>(alloc: &'a bumpalo::Bump, sources: &[Column<'a>], row_source: &[usize])
    -> (c: Column<'a>)
    requires
        selectable(sources@, row_source@),
        sources@[0] is VarBinary,
    ensures
        c.spec_column_type() == sources@[0].spec_column_type(),
        c.spec_len() == row_source@.len(),
        forall|r: int| 0 <= r < row_source@.len() ==>
            #[trigger] same_entry(c, r, sources@[row_source@[r] as int], r),
{
    let mut v: Vec<&'a [u8]> = Vec::new();
    let mut w: Vec<Scalar> = Vec::new();
    let mut r: usize = 0;
    while r < row_source.len()
        invariant
            selectable(sources@, row_source@),
            sources@[0] is VarBinary,
            r <= row_source@.len(),
            v@.len() == r,
            w@.len() == r,
            forall|q: int| 0 <= q < r ==>
                (sources@[row_source@[q] as int] matches Column::VarBinary((a, h))
                    && (#[trigger] v@[q]) == a@[q] && w@[q] == h@[q]),
        decreases row_source@.len() - r,
    {
        let k = row_source[r];
        proof { lemma_same_type_same_variant(sources@[0], sources@[k as int]); }
        assert(sources@[k as int].hashes_aligned());
        let (x, y) = match &sources[k] {
            Column::VarBinary((a, h)) => (a[r], h[r]),
            _ => {
                proof { assert(false); }
                let none: &'a [u8] = &[];
                (none, Scalar::zero())
            },
        };
        v.push(x);
        w.push(y);
        proof {
            assert(sources@[row_source@[r as int] as int] matches Column::VarBinary((a, h)) && v@[r as int] == a@[r as int]);
            assert(sources@[row_source@[r as int] as int] matches Column::VarBinary((a, h)) && w@[r as int] == h@[r as int]);
        }
        r = r + 1;
    }
    let out0 = alloc_slice_copy(alloc, v.as_slice());
    let out1 = alloc_slice_copy(alloc, w.as_slice());
    Column::VarBinary((out0, out1))
}

/// A column whose row `r` is row `r` of source `row_source[r]`, of the
/// type of the first source, in the arena.
pub fn select_column<'a>(alloc: &'a bumpalo::Bump, sources: &[Column<'a>], row_source: &[usize]) -> (c: Column<'a>)
    requires
        selectable(sources@, row_source@),
    ensures
        c.spec_column_type() == sources@[0].spec_column_type(),
        c.spec_len() == row_source@.len(),
        forall|r: int| 0 <= r < row_source@.len() ==>
            #[trigger] same_entry(c, r, sources@[row_source@[r] as int], r),
{
    match &sources[0] {
        Column::Boolean(_) => select_boolean(alloc, sources, row_source),
        Column::Uint8(_) => select_uint8(alloc, sources, row_source),
        Column::TinyInt(_) => select_tinyint(alloc, sources, row_source),
        Column::SmallInt(_) => select_smallint(alloc, sources, row_source),
        Column::Int(_) => select_int(alloc, sources, row_source),
        Column::BigInt(_) => select_bigint(alloc, sources, row_source),
        Column::Int128(_) => select_int128(alloc, sources, row_source),
        Column::Scalar(_) => select_scalar(alloc, sources, row_source),
        Column::Decimal75(_, _, _) => select_decimal75(alloc, sources, row_source),
        Column::TimestampTZ(_, _, _) => select_timestamptz(alloc, sources, row_source),
        Column::VarChar(_) => select_varchar(alloc, sources, row_source),
        Column::VarBinary(_) => select_varbinary(alloc, sources, row_source),
    }
}

} // verus!
