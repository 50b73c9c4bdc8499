//! Tables of owned columns: named columns in order, all of one length.
use vstd::prelude::*;
use crate::owned_column::OwnedColumn;
use crate::owned_table_utility::idents_equal;
use sqlparser::ast::Ident;

verus! {

broadcast use vstd::std_specs::vec::group_vec_axioms;

/// Errors from building a table.
#[derive(Debug, PartialEq, Eq, Clone, Copy, Structural)]
pub enum OwnedTableError {
    /// The columns have different lengths.
    ColumnLengthMismatch,
}

impl OwnedTableError {
    /// The error's message.
    pub fn to_string(&self) -> (s: String)
        ensures
            s@ == "Columns have different lengths"@,
    {
        String::from_str("Columns have different lengths")
    }
}

/// The first position of name `k` among the entries from index `start`
/// on, if it is there.
pub open spec fn position_from<V>(entries: Seq<(Ident, V)>, k: Ident, start: int) -> Option<int>
    decreases entries.len() - start,
{
    if start < 0 || start >= entries.len() {
        None
    } else if entries[start].0 == k {
        Some(start)
    } else {
        position_from(entries, k, start + 1)
    }
}

/// The first position of name `k` among the entries, if it is there.
pub open spec fn position_of<V>(entries: Seq<(Ident, V)>, k: Ident) -> Option<int> {
    position_from(entries, k, 0)
}

/// A position found lies among the entries and holds the name; before it
/// the name does not occur.
pub proof fn lemma_position_from<V>(entries: Seq<(Ident, V)>, k: Ident, start: int)
    requires
        0 <= start,
    ensures
        position_from(entries, k, start) matches Some(p) ==> start <= p < entries.len() && entries[p].0 == k
            && forall|j: int| start <= j < p ==> (#[trigger] entries[j]).0 != k,
        position_from(entries, k, start) is None ==> forall|j: int| start <= j < entries.len() ==> (#[trigger] entries[j]).0 != k,
    decreases entries.len() - start,
{
    if start < entries.len() && entries[start].0 != k {
        lemma_position_from(entries, k, start + 1);
    }
}

/// The first position from `k` of a name is the one before which, from
/// `k` on, no entry has it.
proof fn lemma_position_is<V>(entries: Seq<(Ident, V)>, name: Ident, k: int, p: Option<int>)
    requires
        0 <= k <= entries.len(),
        p matches Some(q) ==> k <= q < entries.len() && entries[q].0 == name
            && forall|j: int| k <= j < q ==> (#[trigger] entries[j]).0 != name,
        p is None ==> forall|j: int| k <= j < entries.len() ==> (#[trigger] entries[j]).0 != name,
    ensures
        position_from(entries, name, k) == p,
    decreases entries.len() - k,
{
    if k < entries.len() && entries[k].0 != name {
        lemma_position_is(entries, name, k + 1, p);
    }
}

/// Inserting a named column and looking its name up gives the inserted
/// column; every other name finds what it found before.
pub proof fn law_inserted_entry_is_read_back<V>(map: Seq<(Ident, V)>, e: (Ident, V), other: Ident)
    ensures
        position_of(insert_entry(map, e), e.0) matches Some(i) && insert_entry(map, e)[i] == e,
        other != e.0 ==> match position_of(map, other) {
            Some(i) => position_of(insert_entry(map, e), other) == Some(i) && insert_entry(map, e)[i] == map[i],
            None => position_of(insert_entry(map, e), other) is None,
        },
{
    let after = insert_entry(map, e);
    lemma_position_from(map, e.0, 0);
    lemma_position_from(map, other, 0);
    match position_of(map, e.0) {
        Some(p) => {
            assert forall|j: int| 0 <= j < after.len() implies (#[trigger] after[j]).0 == map[j].0 by {
                if j == p {
                    assert(after[j] == e);
                }
            }
            lemma_position_is(after, e.0, 0, Some(p));
            if other != e.0 {
                lemma_position_is(after, other, 0, position_of(map, other));
            }
        },
        None => {
            assert forall|j: int| 0 <= j < map.len() implies (#[trigger] after[j]).0 == map[j].0 by {
                assert(after[j] == map[j]);
            }
            lemma_position_is(after, e.0, 0, Some(map.len() as int));
            if other != e.0 {
                lemma_position_is(after, other, 0, position_of(map, other));
            }
        },
    }
}

/// Entries that name no column twice make the ordered map of themselves.
pub proof fn lemma_map_of_distinct<V>(entries: Seq<(Ident, V)>)
    requires
        names_distinct(entries),
    ensures
        map_of_entries(entries) == entries,
    decreases entries.len(),
{
    if entries.len() > 0 {
        let prev = entries.drop_last();
        assert(names_distinct(prev));
        lemma_map_of_distinct(prev);
        lemma_position_from(prev, entries.last().0, 0);
        assert forall|j: int| 0 <= j < prev.len() implies (#[trigger] prev[j]).0 != entries.last().0 by {
            assert(prev[j] == entries[j]);
        }
        assert(prev.push(entries.last()) =~= entries);
    }
}

/// The index of the first entry of a name, if there is one.
pub(crate) fn find_position<V>(entries: &[(Ident, V)], name: &Ident) -> (r: Option<usize>)
    ensures
        r is Some <==> position_of(entries@, *name) is Some,
        r matches Some(i) ==> i == position_of(entries@, *name)->0 && i < entries@.len()
            && entries@[i as int].0 == *name,
{
    proof { lemma_position_from(entries@, *name, 0); }
    let mut i: usize = 0;
    while i < entries.len()
        invariant
            i <= entries@.len(),
            position_of(entries@, *name) == position_from(entries@, *name, i as int),
        decreases entries@.len() - i,
    {
        if idents_equal(&entries[i].0, name) {
            return Some(i);
        }
        i = i + 1;
    }
    None
}

/// Inserting an entry into an ordered map of names: a name already there
/// keeps its place and takes the new column; a new name goes last.
pub open spec fn insert_entry<V>(map: Seq<(Ident, V)>, e: (Ident, V)) -> Seq<(Ident, V)> {
    match position_of(map, e.0) {
        Some(i) => map.update(i, e),
        None => map.push(e),
    }
}

/// The ordered map the entries make, inserted one after another.
pub open spec fn map_of_entries<V>(entries: Seq<(Ident, V)>) -> Seq<(Ident, V)>
    decreases entries.len(),
{
    if entries.len() == 0 {
        Seq::empty()
    } else {
        insert_entry(map_of_entries(entries.drop_last()), entries.last())
    }
}

/// Whether no name occurs twice.
pub open spec fn names_distinct<V>(entries: Seq<(Ident, V)>) -> bool {
    forall|i: int, j: int| 0 <= i < j < entries.len() ==> (#[trigger] entries[i]).0 != (#[trigger] entries[j]).0
}

/// Whether every column has the length of the first.
pub open spec fn lengths_agree(entries: Seq<(Ident, OwnedColumn)>) -> bool {
    forall|i: int| 0 <= i < entries.len() ==> (#[trigger] entries[i]).1.spec_len() == entries[0].1.spec_len()
}

/// A table: named columns in order, no name twice, all columns of one
/// length.
#[derive(Debug, PartialEq, Eq)]
pub struct OwnedTable {
    table: Vec<(Ident, OwnedColumn)>,
}

impl View for OwnedTable {
    type V = Seq<(Ident, OwnedColumn)>;

    closed spec fn view(&self) -> Seq<(Ident, OwnedColumn)> {
        self.table@
    }
}

/// Inserts an entry into an ordered map of names held in a vector.
fn insert_into<V>(map: &mut Vec<(Ident, V)>, e: (Ident, V))
    requires
        names_distinct(old(map)@),
    ensures
        final(map)@ == insert_entry(old(map)@, e),
        names_distinct(final(map)@),
{
    let mut i: usize = 0;
    while i < map.len()
        invariant
            map@ == old(map)@,
            names_distinct(map@),
            i <= map@.len(),
            position_of(map@, e.0) == position_from(map@, e.0, i as int),
            forall|t: int| 0 <= t < i ==> (#[trigger] map@[t]).0 != e.0,
        decreases map@.len() - i,
    {
        if idents_equal(&map[i].0, &e.0) {
            map.set(i, e);
            return;
        }
        i = i + 1;
    }
    let ghost before = map@;
    map.push(e);
    proof {
        assert forall|a: int, b: int| 0 <= a < b < map@.len() implies (#[trigger] map@[a]).0 != (#[trigger] map@[b]).0 by {
            if b == before.len() {
                assert(map@[a] == before[a]);
            } else {
                assert(map@[a] == before[a] && map@[b] == before[b]);
            }
        }
    }
}

/// The ordered map of names the entries make, inserted one after another.
pub(crate) fn build_map<V>(entries: Vec<(Ident, V)>) -> (map: Vec<(Ident, V)>)
    ensures
        map@ == map_of_entries(entries@),
        names_distinct(map@),
{
        let mut map: Vec<(Ident, V)> = Vec::new();
        let mut pending = entries;
        let ghost all = pending@;
        let mut rest: Vec<(Ident, V)> = Vec::new();
        // Reverse the entries so that they can be taken from the back in order.
        while pending.len() > 0
            invariant
                all == pending@ + rest@.reverse(),
            decreases pending@.len(),
        {
            let e = pending.pop().unwrap();
            proof {
                assert(all =~= pending@ + rest@.push(e).reverse());
            }
            rest.push(e);
        }
        proof { assert(rest@.reverse() =~= all); }
        let mut taken: Ghost<int> = Ghost(0);
        while rest.len() > 0
            invariant
                0 <= taken@ <= all.len(),
                rest@.len() == all.len() - taken@,
                forall|t: int| 0 <= t < rest@.len() ==> #[trigger] rest@[t] == all[all.len() - 1 - t],
                map@ == map_of_entries(all.take(taken@)),
                names_distinct(map@),
            decreases rest@.len(),
        {
            let e = rest.pop().unwrap();
            proof {
                assert(e == all[taken@]);
                assert(all.take(taken@ + 1).drop_last() =~= all.take(taken@));
                assert(all.take(taken@ + 1).last() == e);
            }
            insert_into(&mut map, e);
            proof { taken@ = taken@ + 1; }
        }
        proof { assert(all.take(taken@) =~= all); }
        map
}

impl OwnedTable {
    #[verifier::type_invariant]
    closed spec fn well_formed(&self) -> bool {
        names_distinct(self.table@) && lengths_agree(self.table@)
    }

    /// A table of the named columns: entries of a name given before are
    /// replaced in place, as an insertion-ordered map keeps them; refused
    /// when the columns do not all have one length.
    pub fn try_new(entries: Vec<(Ident, OwnedColumn)>) -> (res: Result<OwnedTable, OwnedTableError>)
        ensures
            res is Ok <==> lengths_agree(map_of_entries(entries@)),
            res matches Ok(t) ==> t@ == map_of_entries(entries@),
            res matches Err(e) ==> e == OwnedTableError::ColumnLengthMismatch,
    {
        let map = build_map(entries);
        let ghost result = map@;
        assert(result == map_of_entries(entries@));
        let n = map.len();
        if n > 0 {
            let first = map[0].1.len();
            let mut i: usize = 0;
            while i < n
                invariant
                    n == map@.len(),
                    map@ == result,
                    result == map_of_entries(entries@),
                    names_distinct(map@),
                    first == map@[0].1.spec_len(),
                    i <= n,
                    forall|t: int| 0 <= t < i ==> (#[trigger] map@[t]).1.spec_len() == first,
                decreases n - i,
            {
                if map[i].1.len() != first {
                    proof { assert(map@[i as int].1.spec_len() != map@[0].1.spec_len()); }
                    return Err(OwnedTableError::ColumnLengthMismatch);
                }
                i = i + 1;
            }
        }
        assert(lengths_agree(map@));
        assert(names_distinct(map@));
        Ok(OwnedTable { table: map })
    }

    /// A table of the named columns; see `try_new`.
    pub fn try_from_iter(entries: Vec<(Ident, OwnedColumn)>) -> (res: Result<OwnedTable, OwnedTableError>)
        ensures
            res is Ok <==> lengths_agree(map_of_entries(entries@)),
            res matches Ok(t) ==> t@ == map_of_entries(entries@),
            res matches Err(e) ==> e == OwnedTableError::ColumnLengthMismatch,
    {
        Self::try_new(entries)
    }

    /// The number of columns.
    pub fn num_columns(&self) -> (n: usize)
        ensures
            n == self@.len(),
    {
        self.table.len()
    }

    /// The number of rows: the length of the columns, or `0` for a table
    /// without columns.
    pub fn num_rows(&self) -> (n: usize)
        ensures
            n == (if self@.len() == 0 { 0 } else { self@[0].1.spec_len() }),
    {
        if self.table.len() == 0 {
            0
        } else {
            self.table[0].1.len()
        }
    }

    /// Whether the table has no columns.
    pub fn is_empty(&self) -> (b: bool)
        ensures
            b == (self@.len() == 0),
    {
        self.table.len() == 0
    }

    /// The named columns, in order.
    pub fn into_inner(self) -> (v: Vec<(Ident, OwnedColumn)>)
        ensures
            v@ == self@,
            names_distinct(self@),
            lengths_agree(self@),
    {
        proof { use_type_invariant(&self); }
        self.table
    }

    /// The named columns, in order.
    pub fn inner_table(&self) -> (v: &[(Ident, OwnedColumn)])
        ensures
            v@ == self@,
            names_distinct(self@),
            lengths_agree(self@),
    {
        proof { use_type_invariant(self); }
        self.table.as_slice()
    }

    /// The names of the columns, in order.
    pub fn column_names(&self) -> (names: Vec<Ident>)
        ensures
            names@.len() == self@.len(),
            forall|i: int| 0 <= i < self@.len() ==> #[trigger] names@[i] == self@[i].0,
    {
        let mut names: Vec<Ident> = Vec::new();
        let mut i: usize = 0;
        while i < self.table.len()
            invariant
                i <= self@.len(),
                names@.len() == i,
                forall|t: int| 0 <= t < i ==> #[trigger] names@[t] == self@[t].0,
            decreases self@.len() - i,
        {
            names.push(self.table[i].0.clone());
            i = i + 1;
        }
        names
    }

    /// The column at a position, if there is one.
    pub fn column_by_index(&self, index: usize) -> (c: Option<&OwnedColumn>)
        ensures
            c is Some <==> index < self@.len(),
            c matches Some(col) ==> *col == self@[index as int].1,
    {
        if index < self.table.len() {
            Some(&self.table[index].1)
        } else {
            None
        }
    }

    /// The column of a name, if there is one.
    pub fn column_by_name(&self, name: &Ident) -> (c: Option<&OwnedColumn>)
        ensures
            c is Some <==> position_of(self@, *name) is Some,
            c matches Some(col) ==> *col == self@[position_of(self@, *name)->0].1,
    {
        proof { use_type_invariant(self); }
        let mut i: usize = 0;
        while i < self.table.len()
            invariant
                i <= self@.len(),
                position_of(self@, *name) == position_from(self@, *name, i as int),
            decreases self@.len() - i,
        {
            if idents_equal(&self.table[i].0, name) {
                return Some(&self.table[i].1);
            }
            i = i + 1;
        }
        None
    }
}

} // verus!
