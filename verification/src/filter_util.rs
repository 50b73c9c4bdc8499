//! Keeping the rows of columns that a selection or a list of indexes picks.
use vstd::prelude::*;
use crate::column::{Column, alloc_slice_copy};
use crate::column_index_operation::{column_gathers, gather, indexes_below};

verus! {

broadcast use vstd::std_specs::vec::group_vec_axioms;

/// The values of a column at indexes that all lie inside it, in the arena.
pub fn filter_column_by_index<'a>(alloc: &'a bumpalo::Bump, column: &Column<'a>, indexes: &[usize]) -> (c: Column<'a>)
    requires
        column.hashes_aligned(),
        indexes_below(indexes@, column.spec_len()),
    ensures
        column_gathers(*column, indexes@, c),
        c.spec_len() == indexes@.len(),
{
    match column {
        Column::Boolean(a) => Column::Boolean(alloc_slice_copy(alloc, gather(a, indexes).as_slice())),
        Column::Uint8(a) => Column::Uint8(alloc_slice_copy(alloc, gather(a, indexes).as_slice())),
        Column::TinyInt(a) => Column::TinyInt(alloc_slice_copy(alloc, gather(a, indexes).as_slice())),
        Column::SmallInt(a) => Column::SmallInt(alloc_slice_copy(alloc, gather(a, indexes).as_slice())),
        Column::Int(a) => Column::Int(alloc_slice_copy(alloc, gather(a, indexes).as_slice())),
        Column::BigInt(a) => Column::BigInt(alloc_slice_copy(alloc, gather(a, indexes).as_slice())),
        Column::Int128(a) => Column::Int128(alloc_slice_copy(alloc, gather(a, indexes).as_slice())),
        Column::Scalar(a) => Column::Scalar(alloc_slice_copy(alloc, gather(a, indexes).as_slice())),
        Column::Decimal75(p, s, a) => Column::Decimal75(*p, *s, alloc_slice_copy(alloc, gather(a, indexes).as_slice())),
        Column::TimestampTZ(u, z, a) => Column::TimestampTZ(*u, *z, alloc_slice_copy(alloc, gather(a, indexes).as_slice())),
        Column::VarChar((a, h)) => Column::VarChar((
            alloc_slice_copy(alloc, gather(a, indexes).as_slice()),
            alloc_slice_copy(alloc, gather(h, indexes).as_slice()),
        )),
        Column::VarBinary((a, h)) => Column::VarBinary((
            alloc_slice_copy(alloc, gather(a, indexes).as_slice()),
            alloc_slice_copy(alloc, gather(h, indexes).as_slice()),
        )),
    }
}

/// The positions of the `true` entries of a selection, in order.
pub open spec fn selected_positions(selection: Seq<bool>) -> Seq<usize>
    decreases selection.len(),
{
    if selection.len() == 0 {
        Seq::empty()
    } else {
        let rest = selected_positions(selection.drop_last());
        if selection.last() { rest.push((selection.len() - 1) as usize) } else { rest }
    }
}

/// Every selected position lies before the end of the selection.
proof fn lemma_selected_below(selection: Seq<bool>)
    requires
        selection.len() <= usize::MAX,
    ensures
        indexes_below(selected_positions(selection), selection.len()),
        selected_positions(selection).len() <= selection.len(),
    decreases selection.len(),
{
    if selection.len() > 0 {
        lemma_selected_below(selection.drop_last());
    }
}

/// The positions of the `true` entries of a selection.
pub fn selected_indexes(selection: &[bool]) -> (v: Vec<usize>)
    ensures
        v@ == selected_positions(selection@),
{
    let mut out: Vec<usize> = Vec::new();
    let mut i: usize = 0;
    while i < selection.len()
        invariant
            i <= selection@.len(),
            out@ == selected_positions(selection@.take(i as int)),
        decreases selection@.len() - i,
    {
        proof {
            assert(selection@.take(i + 1).drop_last() =~= selection@.take(i as int));
        }
        if selection[i] {
            out.push(i);
        }
        i = i + 1;
    }
    proof { assert(selection@.take(selection@.len() as int) =~= selection@); }
    out
}

/// Keeps the rows of the columns whose selection entry is `true`: the
/// filtered columns, in the arena, and how many rows they keep.
pub fn filter_columns<'a>(alloc: &'a bumpalo::Bump, columns: &[Column<'a>], selection: &[bool])
    -> (res: (Vec<Column<'a>>, usize))
    requires
        forall|k: int| 0 <= k < columns@.len() ==> (#[trigger] columns@[k]).spec_len() == selection@.len()
            && columns@[k].hashes_aligned(),
    ensures
        res.1 == selected_positions(selection@).len(),
        res.0@.len() == columns@.len(),
        forall|k: int| 0 <= k < columns@.len() ==>
            column_gathers(columns@[k], selected_positions(selection@), #[trigger] res.0@[k]),
{
    let indexes = selected_indexes(selection);
    let m = selection.len();
    proof { lemma_selected_below(selection@); }
    let n = indexes.len();
    let mut out: Vec<Column<'a>> = Vec::new();
    let mut k: usize = 0;
    while k < columns.len()
        invariant
            k <= columns@.len(),
            indexes@ == selected_positions(selection@),
            indexes_below(indexes@, selection@.len()),
            forall|q: int| 0 <= q < columns@.len() ==> (#[trigger] columns@[q]).spec_len() == selection@.len()
                && columns@[q].hashes_aligned(),
            out@.len() == k,
            forall|q: int| 0 <= q < k ==> column_gathers(columns@[q], indexes@, #[trigger] out@[q]),
        decreases columns@.len() - k,
    {
        let c = filter_column_by_index(alloc, &columns[k], indexes.as_slice());
        out.push(c);
        k = k + 1;
    }
    (out, n)
}

} // verus!
