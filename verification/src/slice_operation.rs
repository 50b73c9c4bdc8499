//! Element-wise operations on slices of integers, exact or checked.
use vstd::prelude::*;
use crate::column_operation_error::{ColumnOperationError, ColumnOperationResult};
use crate::text::{push, string_of, i128_to_string};

verus! {

/// An integer type a column can hold, with its range.
pub trait IntegerElement: Copy + Sized {
    /// The value as an integer.
    spec fn spec_int(&self) -> int;

    /// The smallest value of the type.
    spec fn spec_min() -> int;

    /// The largest value of the type.
    spec fn spec_max() -> int;

    /// Every value lies in the type's range.
    proof fn lemma_range(x: &Self)
        ensures
            Self::spec_min() <= x.spec_int() <= Self::spec_max(),
    ;

    /// The type's range lies inside that of `i128` and holds `0`.
    proof fn lemma_bounds()
        ensures
            i128::MIN <= Self::spec_min() <= 0,
            0 < Self::spec_max() <= i128::MAX,
    ;

    /// The value as an `i128`.
    fn to_i128(&self) -> (r: i128)
        ensures
            r as int == self.spec_int(),
    ;

    /// The value of the type equal to `v`, when there is one.
    fn try_from_i128(v: i128) -> (r: Option<Self>)
        ensures
            match r {
                Some(x) => x.spec_int() == v as int,
                None => !(Self::spec_min() <= v as int <= Self::spec_max()),
            },
    ;
}

impl IntegerElement for u8 {
    open spec fn spec_int(&self) -> int { *self as int }
    open spec fn spec_min() -> int { 0 }
    open spec fn spec_max() -> int { 255 }
    proof fn lemma_range(x: &Self) {}
    proof fn lemma_bounds() {}
    fn to_i128(&self) -> (r: i128) { *self as i128 }
    fn try_from_i128(v: i128) -> (r: Option<Self>) {
        if 0 <= v && v <= 255 { Some(v as u8) } else { None }
    }
}

impl IntegerElement for i8 {
    open spec fn spec_int(&self) -> int { *self as int }
    open spec fn spec_min() -> int { -128 }
    open spec fn spec_max() -> int { 127 }
    proof fn lemma_range(x: &Self) {}
    proof fn lemma_bounds() {}
    fn to_i128(&self) -> (r: i128) { *self as i128 }
    fn try_from_i128(v: i128) -> (r: Option<Self>) {
        if -128 <= v && v <= 127 { Some(v as i8) } else { None }
    }
}

impl IntegerElement for i16 {
    open spec fn spec_int(&self) -> int { *self as int }
    open spec fn spec_min() -> int { -32768 }
    open spec fn spec_max() -> int { 32767 }
    proof fn lemma_range(x: &Self) {}
    proof fn lemma_bounds() {}
    fn to_i128(&self) -> (r: i128) { *self as i128 }
    fn try_from_i128(v: i128) -> (r: Option<Self>) {
        if -32768 <= v && v <= 32767 { Some(v as i16) } else { None }
    }
}

impl IntegerElement for i32 {
    open spec fn spec_int(&self) -> int { *self as int }
    open spec fn spec_min() -> int { i32::MIN as int }
    open spec fn spec_max() -> int { i32::MAX as int }
    proof fn lemma_range(x: &Self) {}
    proof fn lemma_bounds() {}
    fn to_i128(&self) -> (r: i128) { *self as i128 }
    fn try_from_i128(v: i128) -> (r: Option<Self>) {
        if i32::MIN as i128 <= v && v <= i32::MAX as i128 { Some(v as i32) } else { None }
    }
}

impl IntegerElement for i64 {
    open spec fn spec_int(&self) -> int { *self as int }
    open spec fn spec_min() -> int { i64::MIN as int }
    open spec fn spec_max() -> int { i64::MAX as int }
    proof fn lemma_range(x: &Self) {}
    proof fn lemma_bounds() {}
    fn to_i128(&self) -> (r: i128) { *self as i128 }
    fn try_from_i128(v: i128) -> (r: Option<Self>) {
        if i64::MIN as i128 <= v && v <= i64::MAX as i128 { Some(v as i64) } else { None }
    }
}

impl IntegerElement for i128 {
    open spec fn spec_int(&self) -> int { *self as int }
    open spec fn spec_min() -> int { i128::MIN as int }
    open spec fn spec_max() -> int { i128::MAX as int }
    proof fn lemma_range(x: &Self) {}
    proof fn lemma_bounds() {}
    fn to_i128(&self) -> (r: i128) { *self }
    fn try_from_i128(v: i128) -> (r: Option<Self>) { Some(v) }
}

/// The integers a slice of integer elements holds.
pub open spec fn ints<T: IntegerElement>(s: Seq<T>) -> Seq<int> {
    s.map_values(|x: T| x.spec_int())
}

/// The four arithmetic operations.
#[derive(Debug, Clone, Copy, PartialEq, Eq, Structural)]
pub enum ArithKind {
    /// Addition.
    Add,
    /// Subtraction.
    Sub,
    /// Multiplication.
    Mul,
    /// Division, rounding toward zero.
    Div,
}

/// Division rounding toward zero, as Rust's integer `/` does.
pub open spec fn trunc_div(a: int, b: int) -> int {
    if a == 0 {
        0
    } else if a > 0 && b > 0 {
        a / b
    } else if a < 0 && b < 0 {
        (a * -1) / (b * -1)
    } else if a < 0 {
        ((a * -1) / b) * -1
    } else {
        (a / (b * -1)) * -1
    }
}

/// The exact result of an operation on two integers; `None` for a division
/// by zero.
pub open spec fn arith_value(kind: ArithKind, a: int, b: int) -> Option<int> {
    match kind {
        ArithKind::Add => Some(a + b),
        ArithKind::Sub => Some(a - b),
        ArithKind::Mul => Some(a * b),
        ArithKind::Div => if b == 0 { None } else { Some(trunc_div(a, b)) },
    }
}

/// Whether the operation is defined on `a` and `b` and its result lies in
/// `lo..=hi`.
pub open spec fn op_fits(kind: ArithKind, a: int, b: int, lo: int, hi: int) -> bool {
    match arith_value(kind, a, b) {
        Some(v) => lo <= v <= hi,
        None => false,
    }
}

/// The error an operation reports when its result does not fit: a division
/// reports a division by zero, the others an integer overflow.
pub open spec fn op_error(kind: ArithKind, e: ColumnOperationError) -> bool {
    match kind {
        ArithKind::Div => e == ColumnOperationError::DivisionByZero,
        _ => e is IntegerOverflow,
    }
}

fn overflow_error(kind: ArithKind, l: i128, r: i128) -> (e: ColumnOperationError)
    ensures
        op_error(kind, e),
{
    match kind {
        ArithKind::Div => ColumnOperationError::DivisionByZero,
        _ => {
            let mut s = match kind {
                ArithKind::Add => string_of("Overflow in integer addition "),
                ArithKind::Sub => string_of("Overflow in integer subtraction "),
                _ => string_of("Overflow in integer multiplication "),
            };
            let ls = i128_to_string(l);
            push(&mut s, ls.as_str());
            match kind {
                ArithKind::Add => push(&mut s, " + "),
                ArithKind::Sub => push(&mut s, " - "),
                _ => push(&mut s, " * "),
            }
            let rs = i128_to_string(r);
            push(&mut s, rs.as_str());
            ColumnOperationError::IntegerOverflow { error: s }
        },
    }
}

/// Applies an operation to two integers and returns the result in `T`, or
/// the error of the operation when the result is undefined or does not fit.
pub fn try_int_op<T: IntegerElement>(kind: ArithKind, l: i128, r: i128) -> (res: ColumnOperationResult<T>)
    ensures
        res is Ok <==> op_fits(kind, l as int, r as int, T::spec_min(), T::spec_max()),
        res matches Ok(x) ==> arith_value(kind, l as int, r as int) == Some(x.spec_int()),
        res matches Err(e) ==> op_error(kind, e),
{
    proof { T::lemma_bounds(); }
    let exact: Option<i128> = match kind {
        ArithKind::Add => l.checked_add(r),
        ArithKind::Sub => l.checked_sub(r),
        ArithKind::Mul => l.checked_mul(r),
        ArithKind::Div => if r == 0 { None } else { l.checked_div(r) },
    };
    assert(exact matches Some(v) ==> arith_value(kind, l as int, r as int) == Some(v as int));
    assert(exact is None ==> !op_fits(kind, l as int, r as int, i128::MIN as int, i128::MAX as int));
    match exact {
        Some(v) => match T::try_from_i128(v) {
            Some(x) => {
                proof { T::lemma_range(&x); }
                Ok(x)
            },
            None => Err(overflow_error(kind, l, r)),
        },
        None => Err(overflow_error(kind, l, r)),
    }
}

/// The number of pairs two sequences are zipped into: the shorter length.
pub open spec fn zip_len<A, B>(a: Seq<A>, b: Seq<B>) -> int {
    if a.len() <= b.len() { a.len() as int } else { b.len() as int }
}

/// What an element-wise operation on two integer sequences gives: `Ok` with
/// the exact results, position by position up to the shorter length, when
/// every one is defined and fits in `T`; otherwise the error of the
/// operation.
pub open spec fn slice_op_result_is<T: IntegerElement>(
    kind: ArithKind,
    l: Seq<int>,
    r: Seq<int>,
    res: ColumnOperationResult<Vec<T>>,
) -> bool {
    &&& (res is Ok <==> forall|i: int| 0 <= i < zip_len(l, r) ==>
            op_fits(kind, #[trigger] l[i], r[i], T::spec_min(), T::spec_max()))
    &&& (res matches Ok(v) ==> v@.len() == zip_len(l, r) && forall|i: int| 0 <= i < zip_len(l, r) ==>
            arith_value(kind, l[i], r[i]) == Some(#[trigger] ints(v@)[i]))
    &&& (res matches Err(e) ==> op_error(kind, e))
}

/// Applies an operation to the pairs of two slices of integers, taken
/// position by position up to the end of the shorter one, giving the
/// results in `T`, or the error of the operation at the first pair whose
/// result is undefined or does not fit in `T`.
pub fn try_slice_binary_op<L: IntegerElement, R: IntegerElement, T: IntegerElement>(
    kind: ArithKind,
    lhs: &[L],
    rhs: &[R],
) -> (res: ColumnOperationResult<Vec<T>>)
    ensures
        res is Ok <==> forall|i: int| 0 <= i < zip_len(lhs@, rhs@) ==>
            op_fits(kind, #[trigger] ints(lhs@)[i], ints(rhs@)[i], T::spec_min(), T::spec_max()),
        res matches Ok(v) ==> v@.len() == zip_len(lhs@, rhs@) && forall|i: int| 0 <= i < zip_len(lhs@, rhs@) ==>
            arith_value(kind, ints(lhs@)[i], ints(rhs@)[i]) == Some(#[trigger] ints(v@)[i]),
        res matches Err(e) ==> op_error(kind, e),
{
    let n = if lhs.len() <= rhs.len() { lhs.len() } else { rhs.len() };
    let mut out: Vec<T> = Vec::new();
    let mut i: usize = 0;
    while i < n
        invariant
            n == zip_len(lhs@, rhs@),
            n <= lhs@.len(),
            n <= rhs@.len(),
            i <= n,
            out@.len() == i,
            forall|j: int| 0 <= j < i ==>
                op_fits(kind, #[trigger] ints(lhs@)[j], ints(rhs@)[j], T::spec_min(), T::spec_max()),
            forall|j: int| 0 <= j < i ==>
                arith_value(kind, ints(lhs@)[j], ints(rhs@)[j]) == Some(#[trigger] ints(out@)[j]),
        decreases n - i,
    {
        let a = lhs[i].to_i128();
        let b = rhs[i].to_i128();
        assert(ints(lhs@)[i as int] == lhs@[i as int].spec_int());
        assert(ints(rhs@)[i as int] == rhs@[i as int].spec_int());
        match try_int_op::<T>(kind, a, b) {
            Ok(x) => {
                let ghost before = out@;
                out.push(x);
                assert(ints(out@)[i as int] == x.spec_int());
                assert forall|j: int| 0 <= j < i + 1 implies
                    arith_value(kind, ints(lhs@)[j], ints(rhs@)[j]) == Some(#[trigger] ints(out@)[j]) by {
                    if j < i {
                        assert(out@[j] == before[j]);
                        assert(ints(before)[j] == before[j].spec_int());
                    }
                }
            },
            Err(e) => {
                assert(!op_fits(kind, ints(lhs@)[i as int], ints(rhs@)[i as int], T::spec_min(), T::spec_max()));
                return Err(e);
            },
        }
        i = i + 1;
    }
    Ok(out)
}

/// The three comparisons.
#[derive(Debug, Clone, Copy, PartialEq, Eq, Structural)]
pub enum Relation {
    /// Equality.
    Eq,
    /// Less than.
    Lt,
    /// Greater than.
    Gt,
}

/// Whether a comparison holds of two integers.
pub open spec fn relation_holds(kind: Relation, a: int, b: int) -> bool {
    match kind {
        Relation::Eq => a == b,
        Relation::Lt => a < b,
        Relation::Gt => a > b,
    }
}

/// Compares the pairs of two slices of integers of the same length.
pub fn slice_binary_relation<L: IntegerElement, R: IntegerElement>(
    kind: Relation,
    lhs: &[L],
    rhs: &[R],
) -> (res: Vec<bool>)
    requires
        lhs@.len() == rhs@.len(),
    ensures
        res@.len() == lhs@.len(),
        forall|i: int| 0 <= i < lhs@.len() ==>
            #[trigger] res@[i] == relation_holds(kind, lhs@[i].spec_int(), rhs@[i].spec_int()),
{
    let n = lhs.len();
    let mut out: Vec<bool> = Vec::new();
    let mut i: usize = 0;
    while i < n
        invariant
            n == lhs@.len() == rhs@.len(),
            i <= n,
            out@.len() == i,
            forall|j: int| 0 <= j < i ==>
                #[trigger] out@[j] == relation_holds(kind, lhs@[j].spec_int(), rhs@[j].spec_int()),
        decreases n - i,
    {
        let a = lhs[i].to_i128();
        let b = rhs[i].to_i128();
        let r = match kind {
            Relation::Eq => a == b,
            Relation::Lt => a < b,
            Relation::Gt => a > b,
        };
        out.push(r);
        i = i + 1;
    }
    out
}

/// The integer a boolean stands for in comparisons: `false < true`.
pub open spec fn bool_int(b: bool) -> int {
    if b { 1 } else { 0 }
}

/// Compares the pairs of two slices of booleans of the same length, with
/// `false < true`.
pub fn slice_bool_relation(kind: Relation, lhs: &[bool], rhs: &[bool]) -> (res: Vec<bool>)
    requires
        lhs@.len() == rhs@.len(),
    ensures
        res@.len() == lhs@.len(),
        forall|i: int| 0 <= i < lhs@.len() ==>
            #[trigger] res@[i] == relation_holds(kind, bool_int(lhs@[i]), bool_int(rhs@[i])),
{
    let n = lhs.len();
    let mut out: Vec<bool> = Vec::new();
    let mut i: usize = 0;
    while i < n
        invariant
            n == lhs@.len() == rhs@.len(),
            i <= n,
            out@.len() == i,
            forall|j: int| 0 <= j < i ==>
                #[trigger] out@[j] == relation_holds(kind, bool_int(lhs@[j]), bool_int(rhs@[j])),
        decreases n - i,
    {
        let a = lhs[i];
        let b = rhs[i];
        let r = match kind {
            Relation::Eq => a == b,
            Relation::Lt => !a && b,
            Relation::Gt => a && !b,
        };
        out.push(r);
        i = i + 1;
    }
    out
}

/// The negation of each boolean.
pub fn slice_not(input: &[bool]) -> (res: Vec<bool>)
    ensures
        res@.len() == input@.len(),
        forall|i: int| 0 <= i < input@.len() ==> #[trigger] res@[i] == !input@[i],
{
    let n = input.len();
    let mut out: Vec<bool> = Vec::new();
    let mut i: usize = 0;
    while i < n
        invariant
            n == input@.len(),
            i <= n,
            out@.len() == i,
            forall|j: int| 0 <= j < i ==> #[trigger] out@[j] == !input@[j],
        decreases n - i,
    {
        out.push(!input[i]);
        i = i + 1;
    }
    out
}

/// The conjunction (`and == true`) or disjunction (`and == false`) of the
/// pairs of two slices of booleans of the same length.
pub fn slice_and_or(lhs: &[bool], rhs: &[bool], and: bool) -> (res: Vec<bool>)
    requires
        lhs@.len() == rhs@.len(),
    ensures
        res@.len() == lhs@.len(),
        forall|i: int| 0 <= i < lhs@.len() ==>
            #[trigger] res@[i] == (if and { lhs@[i] && rhs@[i] } else { lhs@[i] || rhs@[i] }),
{
    let n = lhs.len();
    let mut out: Vec<bool> = Vec::new();
    let mut i: usize = 0;
    while i < n
        invariant
            n == lhs@.len() == rhs@.len(),
            i <= n,
            out@.len() == i,
            forall|j: int| 0 <= j < i ==>
                #[trigger] out@[j] == (if and { lhs@[j] && rhs@[j] } else { lhs@[j] || rhs@[j] }),
        decreases n - i,
    {
        let r = if and { lhs[i] && rhs[i] } else { lhs[i] || rhs[i] };
        out.push(r);
        i = i + 1;
    }
    out
}

} // verus!
