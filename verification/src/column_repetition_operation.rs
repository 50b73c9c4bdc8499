//! Repeating the values of a column: the whole column over and over, or
//! each value several times in place.
use vstd::prelude::*;
use vstd::arithmetic::div_mod::lemma_fundamental_div_mod_converse;
use vstd::arithmetic::mul::lemma_mul_inequality;
use crate::column::{Column, alloc_slice_copy};

verus! {

broadcast use vstd::std_specs::vec::group_vec_axioms;

/// The two ways of repeating values.
#[derive(Debug, Clone, Copy, PartialEq, Eq, Structural)]
pub enum RepeatKind {
    /// The whole sequence, `n` times over: `1 2 3 1 2 3`.
    Whole,
    /// Each value `n` times in place: `1 1 2 2 3 3`.
    Elementwise,
}

/// The index of the value that a repetition of a sequence of `len` values,
/// `n` times, holds at index `k`.
pub open spec fn repeat_source(kind: RepeatKind, k: int, len: int, n: int) -> int {
    match kind {
        RepeatKind::Whole => k % len,
        RepeatKind::Elementwise => k / n,
    }
}

/// Whether `v` is `s` repeated `n` times in the given way.
pub open spec fn repeats<T>(kind: RepeatKind, s: Seq<T>, n: nat, v: Seq<T>) -> bool {
    &&& v.len() == s.len() * n
    &&& forall|k: int| 0 <= k < v.len() ==> #[trigger] v[k] == s[repeat_source(kind, k, s.len() as int, n as int)]
}

/// The values of a slice, the whole slice `n` times over.
pub fn repeat_slice<T: Copy>(s: &[T], n: usize) -> (v: Vec<T>)
    requires
        s@.len() * n <= usize::MAX,
    ensures
        repeats(RepeatKind::Whole, s@, n as nat, v@),
{
    let len = s.len();
    let mut out: Vec<T> = Vec::new();
    let mut r: usize = 0;
    while r < n
        invariant
            len == s@.len(),
            len * n <= usize::MAX,
            r <= n,
            out@.len() == r * len,
            forall|k: int| 0 <= k < out@.len() ==> #[trigger] out@[k] == s@[k % (len as int)],
        decreases n - r,
    {
        let mut i: usize = 0;
        proof { lemma_mul_inequality((r + 1) as int, n as int, len as int); }
        assert((r + 1) * len == r * len + len) by (nonlinear_arith);
        while i < len
            invariant
                len == s@.len(),
                (r + 1) * len <= usize::MAX,
                (r + 1) * len == r * len + len,
                i <= len,
                out@.len() == r * len + i,
                forall|k: int| 0 <= k < out@.len() ==> #[trigger] out@[k] == s@[k % (len as int)],
            decreases len - i,
        {
            proof { lemma_fundamental_div_mod_converse(r * len + i, len as int, r as int, i as int); }
            out.push(s[i]);
            i = i + 1;
        }
        r = r + 1;
    }
    assert(len * n == n * len) by (nonlinear_arith);
    out
}

/// The values of a slice, each `n` times in place.
pub fn repeat_elementwise<T: Copy>(s: &[T], n: usize) -> (v: Vec<T>)
    requires
        s@.len() * n <= usize::MAX,
    ensures
        repeats(RepeatKind::Elementwise, s@, n as nat, v@),
{
    let len = s.len();
    let mut out: Vec<T> = Vec::new();
    let mut i: usize = 0;
    while i < len
        invariant
            len == s@.len(),
            len * n <= usize::MAX,
            i <= len,
            out@.len() == i * n,
            forall|k: int| 0 <= k < out@.len() ==> #[trigger] out@[k] == s@[k / (n as int)],
        decreases len - i,
    {
        let mut r: usize = 0;
        proof { lemma_mul_inequality((i + 1) as int, len as int, n as int); }
        assert((i + 1) * n == i * n + n) by (nonlinear_arith);
        while r < n
            invariant
                len == s@.len(),
                i < len,
                (i + 1) * n <= usize::MAX,
                (i + 1) * n == i * n + n,
                r <= n,
                out@.len() == i * n + r,
                forall|k: int| 0 <= k < out@.len() ==> #[trigger] out@[k] == s@[k / (n as int)],
            decreases n - r,
        {
            proof { lemma_fundamental_div_mod_converse(i * n + r, n as int, i as int, r as int); }
            out.push(s[i]);
            r = r + 1;
        }
        i = i + 1;
    }
    out
}

/// A slice repeated in the given way.
pub fn repeat_values<T: Copy>(kind: RepeatKind, s: &[T], n: usize) -> (v: Vec<T>)
    requires
        s@.len() * n <= usize::MAX,
    ensures
        repeats(kind, s@, n as nat, v@),
{
    match kind {
        RepeatKind::Whole => repeat_slice(s, n),
        RepeatKind::Elementwise => repeat_elementwise(s, n),
    }
}

/// Whether `out` is `input` with its values repeated `n` times in the
/// given way, with the same type; strings and byte strings keep their
/// scalars beside them.
pub open spec fn column_repeats<'a>(kind: RepeatKind, input: Column<'a>, n: nat, out: Column<'a>) -> bool {
    &&& out.spec_column_type() == input.spec_column_type()
    &&& match (input, out) {
        (Column::Boolean(a), Column::Boolean(b)) => repeats(kind, a@, n, b@),
        (Column::Uint8(a), Column::Uint8(b)) => repeats(kind, a@, n, b@),
        (Column::TinyInt(a), Column::TinyInt(b)) => repeats(kind, a@, n, b@),
        (Column::SmallInt(a), Column::SmallInt(b)) => repeats(kind, a@, n, b@),
        (Column::Int(a), Column::Int(b)) => repeats(kind, a@, n, b@),
        (Column::BigInt(a), Column::BigInt(b)) => repeats(kind, a@, n, b@),
        (Column::Int128(a), Column::Int128(b)) => repeats(kind, a@, n, b@),
        (Column::Scalar(a), Column::Scalar(b)) => repeats(kind, a@, n, b@),
        (Column::Decimal75(_, _, a), Column::Decimal75(_, _, b)) => repeats(kind, a@, n, b@),
        (Column::TimestampTZ(_, _, a), Column::TimestampTZ(_, _, b)) => repeats(kind, a@, n, b@),
        (Column::VarChar((a, ha)), Column::VarChar((b, hb))) => repeats(kind, a@, n, b@) && repeats(kind, ha@, n, hb@),
        (Column::VarBinary((a, ha)), Column::VarBinary((b, hb))) => repeats(kind, a@, n, b@) && repeats(kind, ha@, n, hb@),
        _ => false,
    }
}

/// Repeats the values of a column in the given way, in the arena.
pub fn repeat_column<'a>(kind: RepeatKind, column: &Column<'a>, alloc: &'a bumpalo::Bump, n: usize) -> (c: Column<'a>)
    requires
        column.hashes_aligned(),
        column.spec_len() * n <= usize::MAX,
    ensures
        column_repeats(kind, *column, n as nat, c),
        c.spec_len() == column.spec_len() * n,
{
    match column {
        Column::Boolean(a) => Column::Boolean(alloc_slice_copy(alloc, repeat_values(kind, a, n).as_slice())),
        Column::Uint8(a) => Column::Uint8(alloc_slice_copy(alloc, repeat_values(kind, a, n).as_slice())),
        Column::TinyInt(a) => Column::TinyInt(alloc_slice_copy(alloc, repeat_values(kind, a, n).as_slice())),
        Column::SmallInt(a) => Column::SmallInt(alloc_slice_copy(alloc, repeat_values(kind, a, n).as_slice())),
        Column::Int(a) => Column::Int(alloc_slice_copy(alloc, repeat_values(kind, a, n).as_slice())),
        Column::BigInt(a) => Column::BigInt(alloc_slice_copy(alloc, repeat_values(kind, a, n).as_slice())),
        Column::Int128(a) => Column::Int128(alloc_slice_copy(alloc, repeat_values(kind, a, n).as_slice())),
        Column::Scalar(a) => Column::Scalar(alloc_slice_copy(alloc, repeat_values(kind, a, n).as_slice())),
        Column::Decimal75(p, s, a) => Column::Decimal75(*p, *s, alloc_slice_copy(alloc, repeat_values(kind, a, n).as_slice())),
        Column::TimestampTZ(u, z, a) => Column::TimestampTZ(*u, *z, alloc_slice_copy(alloc, repeat_values(kind, a, n).as_slice())),
        Column::VarChar((a, h)) => {
            let strs = alloc_slice_copy(alloc, repeat_values(kind, a, n).as_slice());
            let hashes = alloc_slice_copy(alloc, repeat_values(kind, h, n).as_slice());
            Column::VarChar((strs, hashes))
        },
        Column::VarBinary((a, h)) => {
            let bytes = alloc_slice_copy(alloc, repeat_values(kind, a, n).as_slice());
            let hashes = alloc_slice_copy(alloc, repeat_values(kind, h, n).as_slice());
            Column::VarBinary((bytes, hashes))
        },
    }
}

/// A way of repeating the values of columns.
pub trait RepetitionOp {
    /// Which way this is.
    spec fn spec_kind() -> RepeatKind;

    /// Which way this is.
    fn kind() -> (k: RepeatKind)
        ensures
            k == Self::spec_kind(),
    ;

    /// The values of a slice, repeated `n` times this way.
    fn op<T: Copy>(column: &[T], n: usize) -> (v: Vec<T>)
        requires
            column@.len() * n <= usize::MAX,
        ensures
            repeats(Self::spec_kind(), column@, n as nat, v@),
    {
        repeat_values(Self::kind(), column, n)
    }

    /// The values of a column, repeated `n` times this way, in the arena.
    fn column_op<'a>(column: &Column<'a>, alloc: &'a bumpalo::Bump, n: usize) -> (c: Column<'a>)
        requires
            column.hashes_aligned(),
            column.spec_len() * n <= usize::MAX,
        ensures
            column_repeats(Self::spec_kind(), *column, n as nat, c),
            c.spec_len() == column.spec_len() * n,
    {
        repeat_column(Self::kind(), column, alloc, n)
    }
}

/// Repeats a whole column: `1 2 3` twice is `1 2 3 1 2 3`.
pub struct ColumnRepeatOp {}

impl RepetitionOp for ColumnRepeatOp {
    open spec fn spec_kind() -> RepeatKind { RepeatKind::Whole }
    fn kind() -> (k: RepeatKind) { RepeatKind::Whole }
}

/// Repeats each value in place: `1 2 3` twice is `1 1 2 2 3 3`.
pub struct ElementwiseRepeatOp {}

impl RepetitionOp for ElementwiseRepeatOp {
    open spec fn spec_kind() -> RepeatKind { RepeatKind::Elementwise }
    fn kind() -> (k: RepeatKind) { RepeatKind::Elementwise }
}

} // verus!
