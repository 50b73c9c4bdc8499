//! Columns with an optional presence mask: a row whose mask entry is
//! `false` is null. Binary operations are null where either operand is
//! null; `AND` and `OR` follow SQL's three-valued logic.
use vstd::prelude::*;
use crate::column::Column;
use crate::column_type::ColumnType;
use crate::text::{nat_digits, push, string_of, u64_to_string};
use crate::column_field::ColumnField;
use crate::nullable_schema::{presence_name, value_name};
use crate::owned_table_utility::idents_equal;
use sqlparser::ast::Ident;
pub use crate::nullable_schema::{presence_column_id, value_column_id_from_presence};

verus! {

broadcast use vstd::std_specs::vec::group_vec_axioms;

/// The errors of nullable columns.
#[derive(Debug, PartialEq, Eq)]
pub enum NullableColumnError {
    /// The value column and presence column have different lengths.
    PresenceLengthMismatch {
        /// The length of the values column.
        values_len: usize,
        /// The length of the presence column.
        presence_len: usize,
    },
}

impl NullableColumnError {
    /// The error's message.
    pub open spec fn spec_message(&self) -> Seq<char> {
        match self {
            NullableColumnError::PresenceLengthMismatch { values_len, presence_len } =>
                "Value and presence columns have different lengths: "@ + nat_digits(*values_len as nat)
                    + " != "@ + nat_digits(*presence_len as nat),
        }
    }

    /// The error's message.
    pub fn to_string(&self) -> (s: String)
        ensures
            s@ == self.spec_message(),
    {
        match self {
            NullableColumnError::PresenceLengthMismatch { values_len, presence_len } => {
                let mut s = string_of("Value and presence columns have different lengths: ");
                let a = u64_to_string(*values_len as u64);
                push(&mut s, a.as_str());
                push(&mut s, " != ");
                let b = u64_to_string(*presence_len as u64);
                push(&mut s, b.as_str());
                s
            },
        }
    }
}

/// The result of an operation on nullable columns.
pub type NullableColumnResult<T> = Result<T, NullableColumnError>;

/// Whether a presence mask fits a value column of `n` rows: there is none,
/// or it has one entry per row.
pub open spec fn presence_fits(n: nat, presence: Option<Seq<bool>>) -> bool {
    match presence {
        None => true,
        Some(p) => p.len() == n,
    }
}

/// The view of an optional mask.
pub open spec fn mask_view(presence: Option<&[bool]>) -> Option<Seq<bool>> {
    match presence {
        None => None,
        Some(p) => Some(p@),
    }
}

/// Checks that a presence mask, when there is one, has `values_len` entries.
pub fn check_presence_len(values_len: usize, presence: Option<&[bool]>) -> (res: NullableColumnResult<()>)
    ensures
        res is Ok <==> presence_fits(values_len as nat, mask_view(presence)),
        res matches Err(e) ==> e == (NullableColumnError::PresenceLengthMismatch {
            values_len,
            presence_len: presence->0@.len() as usize,
        }),
{
    if let Some(p) = presence {
        if p.len() != values_len {
            return Err(NullableColumnError::PresenceLengthMismatch { values_len, presence_len: p.len() });
        }
    }
    Ok(())
}

/// Copies a slice of booleans.
pub fn copy_bools(s: &[bool]) -> (v: Vec<bool>)
    ensures
        v@ == s@,
{
    let mut out: Vec<bool> = Vec::new();
    let mut i: usize = 0;
    while i < s.len()
        invariant
            i <= s@.len(),
            out@ == s@.subrange(0, i as int),
        decreases s@.len() - i,
    {
        out.push(s[i]);
        i = i + 1;
    }
    proof { assert(s@.subrange(0, s@.len() as int) =~= s@); }
    out
}

/// The presence of rows combined from two masks: absent masks mean every
/// row is present, so one mask passes through; two masks are conjoined row
/// by row, up to the shorter length.
pub open spec fn combined_presence(lhs: Option<Seq<bool>>, rhs: Option<Seq<bool>>) -> Option<Seq<bool>> {
    match (lhs, rhs) {
        (None, None) => None,
        (Some(l), None) => Some(l),
        (None, Some(r)) => Some(r),
        (Some(l), Some(r)) => Some(Seq::new(
            if l.len() <= r.len() { l.len() } else { r.len() },
            |i: int| l[i] && r[i],
        )),
    }
}

/// The view of an optional owned mask.
pub open spec fn owned_mask_view(presence: Option<Vec<bool>>) -> Option<Seq<bool>> {
    match presence {
        None => None,
        Some(p) => Some(p@),
    }
}

/// Combines two presence masks: a row is present when it is present in
/// both operands.
pub fn combine_presence(lhs: Option<&[bool]>, rhs: Option<&[bool]>) -> (res: Option<Vec<bool>>)
    ensures
        owned_mask_view(res) == combined_presence(mask_view(lhs), mask_view(rhs)),
{
    match (lhs, rhs) {
        (None, None) => None,
        (Some(l), None) => Some(copy_bools(l)),
        (None, Some(r)) => Some(copy_bools(r)),
        (Some(l), Some(r)) => {
            let n = if l.len() <= r.len() { l.len() } else { r.len() };
            let mut out: Vec<bool> = Vec::new();
            let mut i: usize = 0;
            while i < n
                invariant
                    n <= l@.len(),
                    n <= r@.len(),
                    n == (if l@.len() <= r@.len() { l@.len() } else { r@.len() }),
                    i <= n,
                    out@.len() == i,
                    forall|j: int| 0 <= j < i ==> #[trigger] out@[j] == (l@[j] && r@[j]),
                decreases n - i,
            {
                out.push(l[i] && r[i]);
                i = i + 1;
            }
            proof {
                assert(out@ =~= Seq::new(n as nat, |j: int| l@[j] && r@[j]));
            }
            Some(out)
        },
    }
}

/// The two boolean operations of SQL.
#[derive(Debug, Clone, Copy, PartialEq, Eq, Structural)]
pub enum SqlBooleanOp {
    /// Conjunction.
    And,
    /// Disjunction.
    Or,
}

impl SqlBooleanOp {
    /// The name of the operator.
    pub open spec fn spec_operator_name(self) -> Seq<char> {
        match self {
            SqlBooleanOp::And => "AND"@,
            SqlBooleanOp::Or => "OR"@,
        }
    }

    /// The name of the operator.
    pub fn operator_name(self) -> (s: &'static str)
        ensures
            s@ == self.spec_operator_name(),
    {
        match self {
            SqlBooleanOp::And => "AND",
            SqlBooleanOp::Or => "OR",
        }
    }
}

/// Whether a row of `AND` is known (not null), in SQL's three-valued
/// logic: both operands are known, or either is a known `false`.
pub open spec fn and_known(lv: bool, lp: bool, rv: bool, rp: bool) -> bool {
    (lp && rp) || (lp && !lv) || (rp && !rv)
}

/// Whether a row of `OR` is known (not null), in SQL's three-valued
/// logic: both operands are known, or either is a known `true`.
pub open spec fn or_known(lv: bool, lp: bool, rv: bool, rp: bool) -> bool {
    (lp && rp) || (lp && lv) || (rp && rv)
}

/// Whether a row is known for a boolean operation.
pub open spec fn boolean_known(op: SqlBooleanOp, lv: bool, lp: bool, rv: bool, rp: bool) -> bool {
    match op {
        SqlBooleanOp::And => and_known(lv, lp, rv, rp),
        SqlBooleanOp::Or => or_known(lv, lp, rv, rp),
    }
}

/// The presence mask of a boolean operation on rows `0..n`, where an
/// operand without a mask is known on every row; `None` when neither
/// operand has a mask.
pub open spec fn boolean_presence(
    op: SqlBooleanOp,
    lv: Seq<bool>,
    lp: Option<Seq<bool>>,
    rv: Seq<bool>,
    rp: Option<Seq<bool>>,
    n: nat,
) -> Option<Seq<bool>> {
    if lp is None && rp is None {
        None
    } else {
        Some(Seq::new(n, |i: int| boolean_known(op, lv[i],
            match lp { Some(p) => p[i], None => true }, rv[i],
            match rp { Some(p) => p[i], None => true })))
    }
}

/// The number of rows a boolean operation combines: the shortest of the
/// slices it walks together.
pub open spec fn boolean_rows(lv: Seq<bool>, lp: Option<Seq<bool>>, rv: Seq<bool>, rp: Option<Seq<bool>>) -> nat {
    match (lp, rp) {
        (None, None) => 0,
        (Some(p), None) => if p.len() <= rv.len() { p.len() } else { rv.len() },
        (None, Some(q)) => if lv.len() <= q.len() { lv.len() } else { q.len() },
        (Some(p), Some(q)) => {
            let a = if lv.len() <= p.len() { lv.len() } else { p.len() };
            let b = if rv.len() <= q.len() { rv.len() } else { q.len() };
            if a <= b { a } else { b }
        },
    }
}

fn min_len(a: usize, b: usize) -> (m: usize)
    ensures
        m == (if a <= b { a } else { b }),
{
    if a <= b { a } else { b }
}

fn boolean_presence_of(
    op: SqlBooleanOp,
    lhs_values: &[bool],
    lhs_presence: Option<&[bool]>,
    rhs_values: &[bool],
    rhs_presence: Option<&[bool]>,
) -> (res: Option<Vec<bool>>)
    ensures
        owned_mask_view(res) == boolean_presence(op, lhs_values@, mask_view(lhs_presence),
            rhs_values@, mask_view(rhs_presence),
            boolean_rows(lhs_values@, mask_view(lhs_presence), rhs_values@, mask_view(rhs_presence))),
{
    let m: usize = match (lhs_presence, rhs_presence) {
        (None, None) => return None,
        (Some(p), None) => min_len(p.len(), rhs_values.len()),
        (None, Some(q)) => min_len(lhs_values.len(), q.len()),
        (Some(p), Some(q)) => min_len(min_len(lhs_values.len(), p.len()), min_len(rhs_values.len(), q.len())),
    };
    let ghost n = boolean_rows(lhs_values@, mask_view(lhs_presence), rhs_values@, mask_view(rhs_presence));
    let ghost lpv = mask_view(lhs_presence);
    let ghost rpv = mask_view(rhs_presence);
    let mut out: Vec<bool> = Vec::new();
    let mut i: usize = 0;
    while i < m
        invariant
            m == n,
            n == boolean_rows(lhs_values@, lpv, rhs_values@, rpv),
            lpv == mask_view(lhs_presence),
            rpv == mask_view(rhs_presence),
            lhs_presence matches Some(p) ==> m <= p@.len(),
            rhs_presence matches Some(q) ==> m <= q@.len(),
            i <= m,
            out@.len() == i,
            forall|j: int| 0 <= j < i ==> #[trigger] out@[j] == boolean_known(op, lhs_values@[j],
                match lpv { Some(p) => p[j], None => true }, rhs_values@[j],
                match rpv { Some(p) => p[j], None => true }),
        decreases m - i,
    {
        let lp = match lhs_presence { Some(p) => p[i], None => true };
        let rp = match rhs_presence { Some(q) => q[i], None => true };
        let lv = if i < lhs_values.len() { lhs_values[i] } else { false };
        let rv = if i < rhs_values.len() { rhs_values[i] } else { false };
        let known = match op {
            SqlBooleanOp::And => (lp && rp) || (lp && !lv) || (rp && !rv),
            SqlBooleanOp::Or => (lp && rp) || (lp && lv) || (rp && rv),
        };
        out.push(known);
        i = i + 1;
    }
    proof {
        assert(out@ =~= Seq::new(n, |j: int| boolean_known(op, lhs_values@[j],
            match lpv { Some(p) => p[j], None => true }, rhs_values@[j],
            match rpv { Some(p) => p[j], None => true })));
    }
    Some(out)
}

/// The presence mask of `lhs AND rhs` in SQL's three-valued logic: a row
/// is known when both operands are, or when either is a known `false`.
/// `None` when neither operand has a mask.
pub fn sql_and_presence(
    lhs_values: &[bool],
    lhs_presence: Option<&[bool]>,
    rhs_values: &[bool],
    rhs_presence: Option<&[bool]>,
) -> (res: Option<Vec<bool>>)
    ensures
        owned_mask_view(res) == boolean_presence(SqlBooleanOp::And, lhs_values@, mask_view(lhs_presence),
            rhs_values@, mask_view(rhs_presence),
            boolean_rows(lhs_values@, mask_view(lhs_presence), rhs_values@, mask_view(rhs_presence))),
{
    boolean_presence_of(SqlBooleanOp::And, lhs_values, lhs_presence, rhs_values, rhs_presence)
}

/// The presence mask of `lhs OR rhs` in SQL's three-valued logic: a row
/// is known when both operands are, or when either is a known `true`.
/// `None` when neither operand has a mask.
pub fn sql_or_presence(
    lhs_values: &[bool],
    lhs_presence: Option<&[bool]>,
    rhs_values: &[bool],
    rhs_presence: Option<&[bool]>,
) -> (res: Option<Vec<bool>>)
    ensures
        owned_mask_view(res) == boolean_presence(SqlBooleanOp::Or, lhs_values@, mask_view(lhs_presence),
            rhs_values@, mask_view(rhs_presence),
            boolean_rows(lhs_values@, mask_view(lhs_presence), rhs_values@, mask_view(rhs_presence))),
{
    boolean_presence_of(SqlBooleanOp::Or, lhs_values, lhs_presence, rhs_values, rhs_presence)
}

/// Replaces the values of the absent rows with clones of `replacement`;
/// rows beyond the mask are left as they are.
pub fn replace_absent_values<T: Clone>(values: &mut [T], presence: &[bool], replacement: T)
    ensures
        final(values)@.len() == old(values)@.len(),
        forall|i: int| 0 <= i < old(values)@.len() ==>
            if i < presence@.len() && !presence@[i] {
                cloned(replacement, #[trigger] final(values)@[i])
            } else {
                final(values)@[i] == old(values)@[i]
            },
{
    let n = if values.len() <= presence.len() { values.len() } else { presence.len() };
    let mut i: usize = 0;
    while i < n
        invariant
            n <= values@.len(),
            n <= presence@.len(),
            n == (if old(values)@.len() <= presence@.len() { old(values)@.len() } else { presence@.len() }),
            values@.len() == old(values)@.len(),
            i <= n,
            forall|j: int| 0 <= j < i ==>
                if !presence@[j] { cloned(replacement, #[trigger] values@[j]) } else { values@[j] == old(values)@[j] },
            forall|j: int| i <= j < values@.len() ==> #[trigger] values@[j] == old(values)@[j],
        decreases n - i,
    {
        if !presence[i] {
            values[i] = replacement.clone();
        }
        i = i + 1;
    }
}

/// A borrowed column with an optional presence mask. Without a mask every
/// row is present; with one, a row is present when its entry is `true`.
#[derive(Debug, PartialEq, Clone, Copy, Eq)]
pub struct NullableColumn<'a> {
    values: Column<'a>,
    presence: Option<&'a [bool]>,
}

impl<'a> NullableColumn<'a> {
    /// The mask, when there is one, has one entry per row.
    #[verifier::type_invariant]
    closed spec fn mask_fits(self) -> bool {
        presence_fits(self.values.spec_len(), mask_view(self.presence))
    }

    /// The value column.
    pub closed spec fn spec_values(self) -> Column<'a> {
        self.values
    }

    /// The presence mask.
    pub closed spec fn spec_presence(self) -> Option<Seq<bool>> {
        mask_view(self.presence)
    }

    /// Pairs a value column with a presence mask, which must have one
    /// entry per row.
    pub fn try_new(values: Column<'a>, presence: Option<&'a [bool]>) -> (res: NullableColumnResult<Self>)
        ensures
            res is Ok <==> presence_fits(values.spec_len(), mask_view(presence)),
            res matches Ok(c) ==> c.spec_values() == values && c.spec_presence() == mask_view(presence),
            res matches Err(e) ==> e == (NullableColumnError::PresenceLengthMismatch {
                values_len: values.spec_len() as usize,
                presence_len: presence->0@.len() as usize,
            }),
    {
        match check_presence_len(values.len(), presence) {
            Ok(()) => Ok(NullableColumn { values, presence }),
            Err(e) => Err(e),
        }
    }

    /// A column whose every row is present.
    pub fn non_nullable(values: Column<'a>) -> (c: Self)
        ensures
            c.spec_values() == values,
            c.spec_presence() is None,
    {
        NullableColumn { values, presence: None }
    }

    /// The value column.
    pub fn values(&self) -> (v: Column<'a>)
        ensures
            v == self.spec_values(),
    {
        self.values
    }

    /// The presence mask.
    pub fn presence(&self) -> (p: Option<&'a [bool]>)
        ensures
            mask_view(p) == self.spec_presence(),
            presence_fits(self.spec_values().spec_len(), self.spec_presence()),
    {
        proof { use_type_invariant(self); }
        self.presence
    }

    /// Whether the column has a presence mask.
    pub fn is_nullable(&self) -> (b: bool)
        ensures
            b == self.spec_presence() is Some,
    {
        self.presence.is_some()
    }

    /// The type of the values.
    pub fn column_type(&self) -> (t: ColumnType)
        ensures
            t == self.spec_values().spec_column_type(),
    {
        self.values.column_type()
    }

    /// The number of rows.
    pub fn len(&self) -> (n: usize)
        ensures
            n == self.spec_values().spec_len(),
    {
        self.values.len()
    }

    /// Whether there are no rows.
    pub fn is_empty(&self) -> (b: bool)
        ensures
            b == (self.spec_values().spec_len() == 0),
    {
        self.values.is_empty()
    }
}


/// Whether a physical column is the presence column of another column of
/// the schema: boolean, and named after a column that is there.
pub open spec fn is_presence_pair(name: Ident, ty: ColumnType, schema: Seq<(Ident, ColumnType)>) -> bool {
    &&& ty == ColumnType::Boolean
    &&& value_name(name) matches Some(v)
    &&& exists|j: int| 0 <= j < schema.len() && (#[trigger] schema[j]).0 == v
}

/// Whether the schema has a boolean presence column for a column.
pub open spec fn has_presence_pair(name: Ident, schema: Seq<(Ident, ColumnType)>) -> bool {
    exists|j: int| 0 <= j < schema.len() && (#[trigger] schema[j]).0 == presence_name(name)
        && schema[j].1 == ColumnType::Boolean
}

/// The logical fields of the first `n` physical columns: presence columns
/// are dropped, and a column with a presence column becomes nullable.
pub open spec fn logical_pair_fields(schema: Seq<(Ident, ColumnType)>, n: nat) -> Seq<ColumnField>
    decreases n,
{
    if n == 0 {
        Seq::empty()
    } else {
        let prev = logical_pair_fields(schema, (n - 1) as nat);
        let (name, ty) = schema[n - 1];
        if is_presence_pair(name, ty, schema) {
            prev
        } else {
            prev.push(ColumnField::spec_field(name, ty, has_presence_pair(name, schema)))
        }
    }
}

/// Whether some column of the schema has the name.
fn schema_has(schema: &Vec<(Ident, ColumnType)>, name: &Ident, boolean_only: bool) -> (b: bool)
    ensures
        b == exists|j: int| 0 <= j < schema@.len() && (#[trigger] schema@[j]).0 == *name
            && (boolean_only ==> schema@[j].1 == ColumnType::Boolean),
{
    let mut j: usize = 0;
    while j < schema.len()
        invariant
            j <= schema@.len(),
            forall|t: int| 0 <= t < j ==> !((#[trigger] schema@[t]).0 == *name
                && (boolean_only ==> schema@[t].1 == ColumnType::Boolean)),
        decreases schema@.len() - j,
    {
        if idents_equal(&schema[j].0, name) && (!boolean_only || schema[j].1 == ColumnType::Boolean) {
            return true;
        }
        j = j + 1;
    }
    false
}

/// The logical schema of a physical one, given as names and types: a
/// boolean column `c__presence` beside a column `c` is dropped, and a
/// column with such a presence column becomes nullable.
pub fn logical_column_fields_from_physical_schema(schema: Vec<(Ident, ColumnType)>) -> (r: Vec<ColumnField>)
    ensures
        r@ == logical_pair_fields(schema@, schema@.len()),
{
    let n = schema.len();
    let mut out: Vec<ColumnField> = Vec::new();
    let mut i: usize = 0;
    while i < n
        invariant
            n == schema@.len(),
            i <= n,
            out@ == logical_pair_fields(schema@, i as nat),
        decreases n - i,
    {
        let name = schema[i].0.clone();
        let ty = schema[i].1;
        proof {
        }
        let dropped = if ty == ColumnType::Boolean {
            match value_column_id_from_presence(&name) {
                Some(v) => schema_has(&schema, &v, false),
                None => false,
            }
        } else {
            false
        };
        if !dropped {
            let presence_id = presence_column_id(&name);
            let nullable = schema_has(&schema, &presence_id, true);
            if nullable {
                out.push(ColumnField::new_nullable(name, ty));
            } else {
                out.push(ColumnField::new(name, ty));
            }
        }
        i = i + 1;
    }
    out
}

/// The physical fields of the first `n` logical fields: a nullable field
/// is kept and followed by its boolean presence field.
pub open spec fn physical_pair_fields(fields: Seq<ColumnField>, n: nat) -> Seq<ColumnField>
    decreases n,
{
    if n == 0 {
        Seq::empty()
    } else {
        let prev = physical_pair_fields(fields, (n - 1) as nat);
        let f = fields[n - 1];
        if f.spec_is_nullable() {
            prev + seq![f, ColumnField::spec_new(presence_name(f.spec_name()), ColumnType::Boolean)]
        } else {
            prev.push(f)
        }
    }
}

/// The physical schema of a logical one: each nullable field is followed
/// by a boolean field named after it with the `__presence` suffix.
pub fn physical_column_fields_from_logical_schema(schema: Vec<ColumnField>) -> (r: Vec<ColumnField>)
    ensures
        r@ == physical_pair_fields(schema@, schema@.len()),
{
    let n = schema.len();
    let mut out: Vec<ColumnField> = Vec::new();
    let mut i: usize = 0;
    while i < n
        invariant
            n == schema@.len(),
            i <= n,
            out@ == physical_pair_fields(schema@, i as nat),
        decreases n - i,
    {
        let field = &schema[i];
        proof {
        }
        let ghost before = out@;
        out.push(field.duplicate());
        if field.is_nullable() {
            let presence_id = presence_column_id(&field.name());
            out.push(ColumnField::new(presence_id, ColumnType::Boolean));
            proof {
                assert(out@ =~= before + seq![*field,
                    ColumnField::spec_new(presence_name(field.spec_name()), ColumnType::Boolean)]);
            }
        }
        i = i + 1;
    }
    out
}

} // verus!
