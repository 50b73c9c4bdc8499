//! The result types of arithmetic on column types, and arithmetic on slices
//! of decimals.
use vstd::prelude::*;
use crate::column_type::ColumnType;
use crate::column_operation_error::{ColumnOperationError, ColumnOperationResult};
use crate::math::{DecimalError, Precision};
use crate::scalar::{Scalar, ToScalar, field_of, pow10, pow10_int, modulus, lemma_pow10_nonneg};
use crate::text::{push, string_of, i128_to_string, int_digits};
use crate::slice_operation::{ArithKind, IntegerElement, ints, slice_op_result_is, try_slice_binary_op};

verus! {

/// The binary arithmetic operators of SQL.
#[derive(Debug, Clone, Copy, PartialEq, Eq, Structural)]
pub enum BinaryOperator {
    /// `+`
    Add,
    /// `-`
    Subtract,
    /// `*`
    Multiply,
    /// `/`
    Division,
}

impl BinaryOperator {
    /// The operator's name as errors report it.
    pub open spec fn spec_name(self) -> Seq<char> {
        match self {
            BinaryOperator::Add => "Add"@,
            BinaryOperator::Subtract => "Subtract"@,
            BinaryOperator::Multiply => "Multiply"@,
            BinaryOperator::Division => "Division"@,
        }
    }

    /// The operator's name as errors report it.
    pub fn name(&self) -> (s: String)
        ensures
            s@ == self.spec_name(),
    {
        match self {
            BinaryOperator::Add => string_of("Add"),
            BinaryOperator::Subtract => string_of("Subtract"),
            BinaryOperator::Multiply => string_of("Multiply"),
            BinaryOperator::Division => string_of("Division"),
        }
    }
}

/// What a type computation comes to.
pub enum TypeOutcome {
    /// A type that is not a decimal of a computed precision.
    Type(ColumnType),
    /// A decimal of a computed precision and scale.
    Decimal(int, int),
    /// The operand types are not both numeric.
    InvalidTypes,
    /// The computed precision lies outside `1..=75`.
    InvalidPrecision(int),
    /// The computed scale lies outside `i8`.
    InvalidScale(int),
}

/// The precision of a numeric type as an integer.
pub open spec fn prec(t: ColumnType) -> int {
    t.spec_precision_value()->0 as int
}

/// The scale of a numeric type as an integer.
pub open spec fn sc(t: ColumnType) -> int {
    t.spec_scale()->0 as int
}

/// The type of a sum or difference of values of types `l` and `r`: the
/// wider integer type of two integer types, `Scalar` when either is a
/// scalar, else a decimal with the larger scale and enough digits for both
/// integer parts plus a carry.
pub open spec fn add_subtract_outcome(l: ColumnType, r: ColumnType) -> TypeOutcome {
    if !l.spec_is_numeric() || !r.spec_is_numeric() {
        TypeOutcome::InvalidTypes
    } else if l.spec_is_integer() && r.spec_is_integer() {
        TypeOutcome::Type(l.spec_max_integer_type(r)->0)
    } else if l == ColumnType::Scalar || r == ColumnType::Scalar {
        TypeOutcome::Type(ColumnType::Scalar)
    } else {
        let s = if sc(l) >= sc(r) { sc(l) } else { sc(r) };
        let il = prec(l) - sc(l);
        let ir = prec(r) - sc(r);
        let pv = s + (if il >= ir { il } else { ir }) + 1;
        if 1 <= pv <= 75 { TypeOutcome::Decimal(pv, s) } else { TypeOutcome::InvalidPrecision(pv) }
    }
}

/// The type of a product of values of types `l` and `r`: the wider integer
/// type of two integer types, `Scalar` when either is a scalar, else a
/// decimal whose precision is the sum of the precisions plus one and whose
/// scale is the sum of the scales.
pub open spec fn multiply_outcome(l: ColumnType, r: ColumnType) -> TypeOutcome {
    if !l.spec_is_numeric() || !r.spec_is_numeric() {
        TypeOutcome::InvalidTypes
    } else if l.spec_is_integer() && r.spec_is_integer() {
        TypeOutcome::Type(l.spec_max_integer_type(r)->0)
    } else if l == ColumnType::Scalar || r == ColumnType::Scalar {
        TypeOutcome::Type(ColumnType::Scalar)
    } else {
        let pv = prec(l) + prec(r) + 1;
        let s = sc(l) + sc(r);
        if !(1 <= pv <= 75) {
            TypeOutcome::InvalidPrecision(pv)
        } else if !(-128 <= s <= 127) {
            TypeOutcome::InvalidScale(s)
        } else {
            TypeOutcome::Decimal(pv, s)
        }
    }
}

/// Whether a computed type is the outcome: the same type, a decimal of the
/// precision and scale, or the error of the outcome, for operands `l`, `r`
/// of the operator named `op`; `required` tells how an invalid precision
/// is worded.
pub open spec fn type_result_is(
    res: ColumnOperationResult<ColumnType>,
    out: TypeOutcome,
    op: Seq<char>,
    l: ColumnType,
    r: ColumnType,
    required: bool,
) -> bool {
    match out {
        TypeOutcome::Type(t) => res == Ok::<ColumnType, ColumnOperationError>(t),
        TypeOutcome::Decimal(pv, s) => res matches Ok(ColumnType::Decimal75(p, s2))
            && p.spec_value() == pv && s2 == s,
        TypeOutcome::InvalidTypes => res matches Err(ColumnOperationError::BinaryOperationInvalidColumnType {
            operator, left_type, right_type }) && operator@ == op && left_type == l && right_type == r,
        TypeOutcome::InvalidPrecision(pv) => res matches Err(ColumnOperationError::DecimalConversionError {
            source: DecimalError::InvalidPrecision { error } })
            && error@ == (if required { "Required precision "@ + int_digits(pv)
                + " is beyond what we can support"@ } else { int_digits(pv) }),
        TypeOutcome::InvalidScale(s) => res matches Err(ColumnOperationError::DecimalConversionError {
            source: DecimalError::InvalidScale { scale } }) && scale@ == int_digits(s),
    }
}

fn invalid_types(operator: BinaryOperator, lhs: ColumnType, rhs: ColumnType) -> (e: ColumnOperationError)
    ensures
        e matches ColumnOperationError::BinaryOperationInvalidColumnType { operator: o, left_type, right_type }
            && o@ == operator.spec_name() && left_type == lhs && right_type == rhs,
{
    ColumnOperationError::BinaryOperationInvalidColumnType { operator: operator.name(), left_type: lhs, right_type: rhs }
}

/// The type of the result of adding or subtracting values of types `lhs`
/// and `rhs`, or why there is none.
pub fn try_add_subtract_column_types(
    lhs: ColumnType,
    rhs: ColumnType,
    operator: BinaryOperator,
) -> (res: ColumnOperationResult<ColumnType>)
    ensures
        type_result_is(res, add_subtract_outcome(lhs, rhs), operator.spec_name(), lhs, rhs, false),
{
    if !lhs.is_numeric() || !rhs.is_numeric() {
        return Err(invalid_types(operator, lhs, rhs));
    }
    if lhs.is_integer() && rhs.is_integer() {
        let t = lhs.max_integer_type(&rhs);
        return Ok(t.unwrap());
    }
    if lhs == ColumnType::Scalar || rhs == ColumnType::Scalar {
        Ok(ColumnType::Scalar)
    } else {
        let left_precision_value = lhs.precision_value().unwrap() as i16;
        let right_precision_value = rhs.precision_value().unwrap() as i16;
        let left_scale = lhs.scale().unwrap();
        let right_scale = rhs.scale().unwrap();
        let scale = if left_scale >= right_scale { left_scale } else { right_scale };
        let il = left_precision_value - left_scale as i16;
        let ir = right_precision_value - right_scale as i16;
        let precision_value: i16 = scale as i16 + (if il >= ir { il } else { ir }) + 1;
        if precision_value < 0 || precision_value > 255 {
            return Err(ColumnOperationError::DecimalConversionError {
                source: DecimalError::InvalidPrecision { error: i128_to_string(precision_value as i128) },
            });
        }
        let p = precision_value as u8;
        match Precision::new(p) {
            Ok(precision) => Ok(ColumnType::Decimal75(precision, scale)),
            Err(_) => Err(ColumnOperationError::DecimalConversionError {
                source: DecimalError::InvalidPrecision { error: i128_to_string(p as i128) },
            }),
        }
    }
}

/// The type of the result of multiplying values of types `lhs` and `rhs`,
/// or why there is none.
pub fn try_multiply_column_types(lhs: ColumnType, rhs: ColumnType) -> (res: ColumnOperationResult<ColumnType>)
    ensures
        type_result_is(res, multiply_outcome(lhs, rhs), "Multiply"@, lhs, rhs, true),
{
    if !lhs.is_numeric() || !rhs.is_numeric() {
        return Err(invalid_types(BinaryOperator::Multiply, lhs, rhs));
    }
    if lhs.is_integer() && rhs.is_integer() {
        let t = lhs.max_integer_type(&rhs);
        return Ok(t.unwrap());
    }
    if lhs == ColumnType::Scalar || rhs == ColumnType::Scalar {
        Ok(ColumnType::Scalar)
    } else {
        let left_precision_value = lhs.precision_value().unwrap();
        let right_precision_value = rhs.precision_value().unwrap();
        let precision_value = left_precision_value + right_precision_value + 1;
        let precision = match Precision::new(precision_value) {
            Ok(p) => p,
            Err(_) => {
                let mut msg = string_of("Required precision ");
                let d = i128_to_string(precision_value as i128);
                push(&mut msg, d.as_str());
                push(&mut msg, " is beyond what we can support");
                return Err(ColumnOperationError::DecimalConversionError {
                    source: DecimalError::InvalidPrecision { error: msg },
                });
            },
        };
        let left_scale = lhs.scale().unwrap();
        let right_scale = rhs.scale().unwrap();
        match left_scale.checked_add(right_scale) {
            Some(scale) => Ok(ColumnType::Decimal75(precision, scale)),
            None => Err(ColumnOperationError::DecimalConversionError {
                source: DecimalError::InvalidScale { scale: i128_to_string(left_scale as i128 + right_scale as i128) },
            }),
        }
    }
}

/// How two decimal values combine.
#[derive(Debug, Clone, Copy, PartialEq, Eq, Structural)]
pub enum DecimalOp {
    /// Sum, after bringing both to the result's scale.
    Add,
    /// Difference, after bringing both to the result's scale.
    Sub,
    /// Product.
    Mul,
}

/// The element a pair of decimal values combines to, given the powers of
/// ten `lu` and `ru` that bring each to the result's scale.
pub open spec fn decimal_value(op: DecimalOp, l: nat, r: nat, lu: nat, ru: nat) -> nat {
    match op {
        DecimalOp::Add => field_of(l * pow10_int(lu) + r * pow10_int(ru)),
        DecimalOp::Sub => field_of(l * pow10_int(lu) - r * pow10_int(ru)),
        DecimalOp::Mul => field_of((l * r) as int),
    }
}

proof fn lemma_scaled(l: nat, f: nat, k: nat)
    requires
        f == field_of(pow10_int(k)),
    ensures
        (l * f) % modulus() == field_of(l * pow10_int(k)),
{
    lemma_pow10_nonneg(k);
    vstd::arithmetic::div_mod::lemma_mul_mod_noop_right(l as int, pow10_int(k), modulus() as int);
}

/// Combines the pairs of two slices of the same length as decimals, giving
/// each `decimal_value` with upscales `lu` and `ru`.
fn combine_decimal_slices<T0: ToScalar, T1: ToScalar>(
    op: DecimalOp,
    lhs: &[T0],
    rhs: &[T1],
    lu: u8,
    ru: u8,
) -> (res: Vec<Scalar>)
    requires
        lhs@.len() == rhs@.len(),
    ensures
        res@.len() == lhs@.len(),
        forall|i: int| 0 <= i < lhs@.len() ==> (#[trigger] res@[i])@
            == decimal_value(op, lhs@[i].spec_field(), rhs@[i].spec_field(), lu as nat, ru as nat),
{
    let fl = pow10(lu);
    let fr = pow10(ru);
    let n = lhs.len();
    let mut out: Vec<Scalar> = Vec::new();
    let mut i: usize = 0;
    while i < n
        invariant
            n == lhs@.len() == rhs@.len(),
            i <= n,
            out@.len() == i,
            fl@ == field_of(pow10_int(lu as nat)),
            fr@ == field_of(pow10_int(ru as nat)),
            forall|j: int| 0 <= j < i ==> (#[trigger] out@[j])@
                == decimal_value(op, lhs@[j].spec_field(), rhs@[j].spec_field(), lu as nat, ru as nat),
        decreases n - i,
    {
        let a = lhs[i].to_scalar();
        let b = rhs[i].to_scalar();
        let v = match op {
            DecimalOp::Mul => a.mul(&b),
            DecimalOp::Add => {
                let x = a.mul(&fl);
                let y = b.mul(&fr);
                proof {
                    lemma_scaled(a@, fl@, lu as nat);
                    lemma_scaled(b@, fr@, ru as nat);
                    vstd::arithmetic::div_mod::lemma_add_mod_noop(
                        (a@ * pow10_int(lu as nat)) as int, (b@ * pow10_int(ru as nat)) as int, modulus() as int);
                }
                x.add(&y)
            },
            DecimalOp::Sub => {
                let x = a.mul(&fl);
                let y = b.mul(&fr);
                proof {
                    lemma_scaled(a@, fl@, lu as nat);
                    lemma_scaled(b@, fr@, ru as nat);
                    vstd::arithmetic::div_mod::lemma_sub_mod_noop(
                        (a@ * pow10_int(lu as nat)) as int, (b@ * pow10_int(ru as nat)) as int, modulus() as int);
                }
                x.sub(&y)
            },
        };
        out.push(v);
        i = i + 1;
    }
    out
}

/// The type computation behind a decimal operation.
pub open spec fn decimal_outcome(op: DecimalOp, l: ColumnType, r: ColumnType) -> TypeOutcome {
    match op {
        DecimalOp::Mul => multiply_outcome(l, r),
        _ => add_subtract_outcome(l, r),
    }
}

/// The operator name a decimal operation reports.
pub open spec fn decimal_op_name(op: DecimalOp) -> Seq<char> {
    match op {
        DecimalOp::Add => "Add"@,
        DecimalOp::Sub => "Subtract"@,
        DecimalOp::Mul => "Multiply"@,
    }
}

/// The field elements a slice of values stands for.
pub open spec fn fields<T: ToScalar>(s: Seq<T>) -> Seq<nat> {
    s.map_values(|x: T| x.spec_field())
}

/// The signed integers a slice of values stands for.
pub open spec fn signeds<T: ToScalar>(s: Seq<T>) -> Seq<int> {
    s.map_values(|x: T| x.spec_signed())
}

/// Whether the values are the pairs of `lhs` and `rhs` combined as
/// decimals, brought from scales `ls`, `rs` to scale `s`.
pub open spec fn decimal_values_are(
    v: Seq<Scalar>,
    op: DecimalOp,
    lhs: Seq<nat>,
    rhs: Seq<nat>,
    s: int,
    ls: int,
    rs: int,
) -> bool {
    &&& v.len() == lhs.len()
    &&& forall|i: int| 0 <= i < lhs.len() ==> (#[trigger] v[i])@
        == decimal_value(op, lhs[i], rhs[i], (s - ls) as nat, (s - rs) as nat)
}

/// Whether `res` is what a decimal operation on slices of types `lt`, `rt`
/// gives: the precision, scale and values of the result type, or the error
/// of the type computation.
pub open spec fn decimal_result_is(
    res: ColumnOperationResult<(Precision, i8, Vec<Scalar>)>,
    op: DecimalOp,
    lhs: Seq<nat>,
    rhs: Seq<nat>,
    lt: ColumnType,
    rt: ColumnType,
) -> bool {
    match decimal_outcome(op, lt, rt) {
        TypeOutcome::Type(t) => res matches Ok((p, s, v)) && p.spec_value() == prec(t) && s == sc(t)
            && decimal_values_are(v@, op, lhs, rhs, sc(t), sc(lt), sc(rt)),
        TypeOutcome::Decimal(pv, s) => res matches Ok((p, s2, v)) && p.spec_value() == pv && s2 == s
            && decimal_values_are(v@, op, lhs, rhs, s, sc(lt), sc(rt)),
        _ => res matches Err(e) && type_result_is(Err(e), decimal_outcome(op, lt, rt),
            decimal_op_name(op), lt, rt, op == DecimalOp::Mul),
    }
}

/// Combines two numeric slices of the same length as decimals of types
/// `lt` and `rt`: computes the result type, brings both sides to its scale
/// when adding or subtracting, and combines the values in the field.
pub fn try_decimal_columns<T0: ToScalar, T1: ToScalar>(
    op: DecimalOp,
    lhs: &[T0],
    rhs: &[T1],
    lt: ColumnType,
    rt: ColumnType,
) -> (res: ColumnOperationResult<(Precision, i8, Vec<Scalar>)>)
    requires
        lhs@.len() == rhs@.len(),
        decimal_outcome(op, lt, rt) != TypeOutcome::Type(ColumnType::Scalar),
    ensures
        decimal_result_is(res, op, fields(lhs@), fields(rhs@), lt, rt),
{
    let new_type = match op {
        DecimalOp::Add => try_add_subtract_column_types(lt, rt, BinaryOperator::Add),
        DecimalOp::Sub => try_add_subtract_column_types(lt, rt, BinaryOperator::Subtract),
        DecimalOp::Mul => try_multiply_column_types(lt, rt),
    };
    let new_type = match new_type {
        Ok(t) => t,
        Err(e) => return Err(e),
    };
    let new_precision_value = new_type.precision_value().unwrap();
    let new_scale = new_type.scale().unwrap();
    let left_scale = lt.scale().unwrap();
    let right_scale = rt.scale().unwrap();
    let (lu, ru): (u8, u8) = match op {
        DecimalOp::Mul => (0, 0),
        _ => ((new_scale as i16 - left_scale as i16) as u8, (new_scale as i16 - right_scale as i16) as u8),
    };
    let values = combine_decimal_slices(op, lhs, rhs, lu, ru);
    let precision = Precision::new_valid(new_precision_value);
    Ok((precision, new_scale, values))
}

/// Adds two numeric slices of the same length as decimals.
pub fn try_add_decimal_columns<T0: ToScalar, T1: ToScalar>(
    lhs: &[T0],
    rhs: &[T1],
    left_column_type: ColumnType,
    right_column_type: ColumnType,
) -> (res: ColumnOperationResult<(Precision, i8, Vec<Scalar>)>)
    requires
        lhs@.len() == rhs@.len(),
        add_subtract_outcome(left_column_type, right_column_type) != TypeOutcome::Type(ColumnType::Scalar),
    ensures
        decimal_result_is(res, DecimalOp::Add, fields(lhs@), fields(rhs@), left_column_type, right_column_type),
{
    try_decimal_columns(DecimalOp::Add, lhs, rhs, left_column_type, right_column_type)
}

/// Subtracts one numeric slice from another of the same length as
/// decimals.
pub fn try_subtract_decimal_columns<T0: ToScalar, T1: ToScalar>(
    lhs: &[T0],
    rhs: &[T1],
    left_column_type: ColumnType,
    right_column_type: ColumnType,
) -> (res: ColumnOperationResult<(Precision, i8, Vec<Scalar>)>)
    requires
        lhs@.len() == rhs@.len(),
        add_subtract_outcome(left_column_type, right_column_type) != TypeOutcome::Type(ColumnType::Scalar),
    ensures
        decimal_result_is(res, DecimalOp::Sub, fields(lhs@), fields(rhs@), left_column_type, right_column_type),
{
    try_decimal_columns(DecimalOp::Sub, lhs, rhs, left_column_type, right_column_type)
}

/// Multiplies two numeric slices of the same length as decimals.
pub fn try_multiply_decimal_columns<T0: ToScalar, T1: ToScalar>(
    lhs: &[T0],
    rhs: &[T1],
    left_column_type: ColumnType,
    right_column_type: ColumnType,
) -> (res: ColumnOperationResult<(Precision, i8, Vec<Scalar>)>)
    requires
        lhs@.len() == rhs@.len(),
        multiply_outcome(left_column_type, right_column_type) != TypeOutcome::Type(ColumnType::Scalar),
    ensures
        decimal_result_is(res, DecimalOp::Mul, fields(lhs@), fields(rhs@), left_column_type, right_column_type),
{
    try_decimal_columns(DecimalOp::Mul, lhs, rhs, left_column_type, right_column_type)
}

/// The type of a quotient of values of types `l` and `r`: the wider integer
/// type of two integer types, else a decimal whose scale is the larger of
/// six and the left scale plus the right precision plus one, and whose
/// precision adds the left integer digits, the right scale and that scale.
/// Scalars cannot be divided.
pub open spec fn divide_outcome(l: ColumnType, r: ColumnType) -> TypeOutcome {
    if !l.spec_is_numeric() || !r.spec_is_numeric() || l == ColumnType::Scalar || r == ColumnType::Scalar {
        TypeOutcome::InvalidTypes
    } else if l.spec_is_integer() && r.spec_is_integer() {
        TypeOutcome::Type(l.spec_max_integer_type(r)->0)
    } else {
        let raw_scale = if sc(l) + prec(r) + 1 >= 6 { sc(l) + prec(r) + 1 } else { 6 };
        let pv = prec(l) - sc(l) + sc(r) + raw_scale;
        if raw_scale > 127 {
            TypeOutcome::InvalidScale(raw_scale)
        } else if !(1 <= pv <= 75) {
            TypeOutcome::InvalidPrecision(pv)
        } else {
            TypeOutcome::Decimal(pv, raw_scale)
        }
    }
}

/// The type of the result of dividing values of type `lhs` by values of
/// type `rhs`, or why there is none.
pub fn try_divide_column_types(lhs: ColumnType, rhs: ColumnType) -> (res: ColumnOperationResult<ColumnType>)
    ensures
        type_result_is(res, divide_outcome(lhs, rhs), "Division"@, lhs, rhs, false),
{
    if !lhs.is_numeric() || !rhs.is_numeric() || lhs == ColumnType::Scalar || rhs == ColumnType::Scalar {
        return Err(invalid_types(BinaryOperator::Division, lhs, rhs));
    }
    if lhs.is_integer() && rhs.is_integer() {
        let t = lhs.max_integer_type(&rhs);
        return Ok(t.unwrap());
    }
    let left_precision_value = lhs.precision_value().unwrap() as i16;
    let right_precision_value = rhs.precision_value().unwrap() as i16;
    let left_scale = lhs.scale().unwrap() as i16;
    let right_scale = rhs.scale().unwrap() as i16;
    let candidate = left_scale + right_precision_value + 1;
    let raw_scale: i16 = if candidate >= 6 { candidate } else { 6 };
    let precision_value: i16 = left_precision_value - left_scale + right_scale + raw_scale;
    if raw_scale > 127 {
        return Err(ColumnOperationError::DecimalConversionError {
            source: DecimalError::InvalidScale { scale: i128_to_string(raw_scale as i128) },
        });
    }
    let scale = raw_scale as i8;
    if precision_value < 0 || precision_value > 255 {
        return Err(ColumnOperationError::DecimalConversionError {
            source: DecimalError::InvalidPrecision { error: i128_to_string(precision_value as i128) },
        });
    }
    let p = precision_value as u8;
    match Precision::new(p) {
        Ok(precision) => Ok(ColumnType::Decimal75(precision, scale)),
        Err(_) => Err(ColumnOperationError::DecimalConversionError {
            source: DecimalError::InvalidPrecision { error: i128_to_string(p as i128) },
        }),
    }
}

/// What dividing one decimal value by another comes to, when every integer
/// met on the way fits in `i128`: the quotient rounded toward zero of
/// `l * 10^a` by `r` when the applied scale `a` is not negative, else of `l`
/// by `r * 10^-a`.
pub enum DivisionOutcome {
    /// The divisor is zero.
    Zero,
    /// An integer on the way does not fit in `i128`.
    Overflow,
    /// The quotient.
    Value(int),
}

/// Whether an integer fits in `i128`.
pub open spec fn fits_i128(x: int) -> bool {
    i128::MIN <= x <= i128::MAX
}

/// What dividing `l` by `r` with applied scale `a` comes to.
pub open spec fn division_outcome(l: int, r: int, a: int) -> DivisionOutcome {
    if r == 0 {
        DivisionOutcome::Zero
    } else if !fits_i128(l) || !fits_i128(r) || a > 38 || a < -38 {
        DivisionOutcome::Overflow
    } else {
        let num = if a >= 0 { l * pow10_int(a as nat) } else { l };
        let den = if a >= 0 { r } else { r * pow10_int((-a) as nat) };
        let q = crate::slice_operation::trunc_div(num, den);
        if fits_i128(num) && fits_i128(den) && fits_i128(q) {
            DivisionOutcome::Value(q)
        } else {
            DivisionOutcome::Overflow
        }
    }
}

/// Whether the error is the one a failed division outcome reports.
pub open spec fn division_error_is(out: DivisionOutcome, e: ColumnOperationError) -> bool {
    match out {
        DivisionOutcome::Zero => e == ColumnOperationError::DivisionByZero,
        DivisionOutcome::Overflow => e matches ColumnOperationError::IntegerOverflow { error }
            && error@ == "Overflow in decimal division"@,
        DivisionOutcome::Value(_) => false,
    }
}

/// `10^k` for `k <= 38`.
fn pow10_i128(k: u8) -> (r: i128)
    requires
        k <= 38,
    ensures
        r as int == pow10_int(k as nat),
{
    let mut acc: i128 = 1;
    let mut i: u8 = 0;
    while i < k
        invariant
            i <= k <= 38,
            acc as int == pow10_int(i as nat),
        decreases k - i,
    {
        proof { lemma_pow10_bound(i as nat); }
        acc = acc * 10;
        i = i + 1;
    }
    acc
}

proof fn lemma_pow10_bound(k: nat)
    requires
        k < 38,
    ensures
        10 * pow10_int(k) <= i128::MAX,
        pow10_int(k) >= 1,
{
    lemma_pow10_nonneg(k);
    lemma_pow10_monotone(k, 37);
    assert(pow10_int(37) == 10000000000000000000000000000000000000int) by {
        reveal_with_fuel(pow10_int, 38);
    }
}

proof fn lemma_pow10_monotone(j: nat, k: nat)
    requires
        j <= k,
    ensures
        pow10_int(j) <= pow10_int(k),
    decreases k,
{
    lemma_pow10_nonneg(k);
    if j < k {
        lemma_pow10_monotone(j, (k - 1) as nat);
    }
}

/// The error of a decimal division whose result overflows.
fn overflow_in_division() -> (e: ColumnOperationError)
    ensures
        e matches ColumnOperationError::IntegerOverflow { error } && error@ == "Overflow in decimal division"@,
{
    ColumnOperationError::IntegerOverflow { error: string_of("Overflow in decimal division") }
}

/// Divides one signed value by another with applied scale `a`, in `i128`.
fn divide_one(lv: Option<i128>, rv: Option<i128>, a: i16, Ghost(l): Ghost<int>, Ghost(r): Ghost<int>)
    -> (res: ColumnOperationResult<i128>)
    requires
        match lv { Some(v) => v as int == l, None => !fits_i128(l) },
        match rv { Some(v) => v as int == r, None => !fits_i128(r) },
    ensures
        match division_outcome(l, r, a as int) {
            DivisionOutcome::Value(q) => res matches Ok(x) && x as int == q,
            out => res matches Err(e) && division_error_is(out, e),
        },
{
    let rr = match rv {
        Some(v) => v,
        None => { assert(!(division_outcome(l, r, a as int) is Value)); return Err(overflow_in_division()) },
    };
    if rr == 0 {
        return Err(ColumnOperationError::DivisionByZero);
    }
    let ll = match lv {
        Some(v) => v,
        None => { assert(!(division_outcome(l, r, a as int) is Value)); return Err(overflow_in_division()) },
    };
    if a > 38 || a < -38 {
        { assert(!(division_outcome(l, r, a as int) is Value)); return Err(overflow_in_division()); }
    }
    if a >= 0 {
        let f = pow10_i128(a as u8);
        assert(f as int == pow10_int(a as nat));
        match ll.checked_mul(f) {
            Some(num) => {
                assert(num as int == l * pow10_int(a as nat));
                match num.checked_div(rr) {
                    Some(q) => {
                        assert(q as int == crate::slice_operation::trunc_div(num as int, rr as int));
                        Ok(q)
                    },
                    None => { assert(!(division_outcome(l, r, a as int) is Value)); Err(overflow_in_division()) },
                }
            },
            None => { assert(!(division_outcome(l, r, a as int) is Value)); Err(overflow_in_division()) },
        }
    } else {
        let f = pow10_i128((-a) as u8);
        assert(f as int == pow10_int((-a) as nat));
        match rr.checked_mul(f) {
            Some(den) => {
                assert(den as int == r * pow10_int((-(a as int)) as nat));
                proof { lemma_pow10_nonneg((-(a as int)) as nat); }
                assert(den != 0) by (nonlinear_arith)
                    requires rr != 0, f >= 1, den as int == rr as int * f as int;
                assert(!fits_i128(crate::slice_operation::trunc_div(ll as int, den as int)) ==> ll.checked_div(den) is None);
                match ll.checked_div(den) {
                    Some(q) => Ok(q),
                    None => { assert(!(division_outcome(l, r, a as int) is Value)); Err(overflow_in_division()) },
                }
            },
            None => { assert(!(division_outcome(l, r, a as int) is Value)); Err(overflow_in_division()) },
        }
    }
}

/// The scale a quotient's result type carries.
pub open spec fn divide_result_scale(l: ColumnType, r: ColumnType) -> int {
    match divide_outcome(l, r) {
        TypeOutcome::Decimal(_, s) => s,
        _ => 0,
    }
}

/// The applied scale of a division: the right scale minus the left scale
/// plus the result's scale.
pub open spec fn applied_scale(l: ColumnType, r: ColumnType) -> int {
    sc(r) - sc(l) + divide_result_scale(l, r)
}

/// Whether `res` is what dividing the slices as decimals of types `lt`,
/// `rt` gives: the error of the type computation; else the quotients when
/// every pair divides, or the error of the first pair that does not.
pub open spec fn division_result_is(
    res: ColumnOperationResult<(Precision, i8, Vec<Scalar>)>,
    lhs: Seq<int>,
    rhs: Seq<int>,
    lt: ColumnType,
    rt: ColumnType,
) -> bool {
    let out = divide_outcome(lt, rt);
    let a = applied_scale(lt, rt);
    if out is Type || out is Decimal {
        &&& (res is Ok <==> forall|i: int| 0 <= i < lhs.len() ==>
                (#[trigger] division_outcome(lhs[i], rhs[i], a)) is Value)
        &&& (res matches Ok((p, s, v)) ==> {
                &&& (out matches TypeOutcome::Type(t) ==> p.spec_value() == prec(t) && s == 0)
                &&& (out matches TypeOutcome::Decimal(pv, sd) ==> p.spec_value() == pv && s == sd)
                &&& v@.len() == lhs.len()
                &&& forall|i: int| 0 <= i < lhs.len() ==> (#[trigger] v@[i])@ == field_of(signed_quotient(
                    division_outcome(lhs[i], rhs[i], a)))
            })
        &&& (res matches Err(e) ==> exists|i: int| 0 <= i < lhs.len()
                && (forall|j: int| 0 <= j < i ==> (#[trigger] division_outcome(lhs[j],
                    rhs[j], a)) is Value)
                && division_error_is(division_outcome(lhs[i], rhs[i], a), e))
    } else {
        res matches Err(e) && type_result_is(Err(e), out, "Division"@, lt, rt, false)
    }
}

/// The quotient of a division outcome that has one.
pub open spec fn signed_quotient(out: DivisionOutcome) -> int {
    match out {
        DivisionOutcome::Value(q) => q,
        _ => 0,
    }
}

/// Divides one numeric slice by another of the same length as decimals:
/// computes the result type, then each quotient of the signed values, the
/// dividend scaled up (or the divisor, for a negative applied scale) by the
/// applied scale, rounded toward zero. Every integer on the way is computed
/// in `i128`; one that does not fit is reported as an integer overflow.
pub fn try_divide_decimal_columns<T0: ToScalar, T1: ToScalar>(
    lhs: &[T0],
    rhs: &[T1],
    left_column_type: ColumnType,
    right_column_type: ColumnType,
) -> (res: ColumnOperationResult<(Precision, i8, Vec<Scalar>)>)
    requires
        lhs@.len() == rhs@.len(),
    ensures
        division_result_is(res, signeds(lhs@), signeds(rhs@), left_column_type, right_column_type),
{
    let new_type = match try_divide_column_types(left_column_type, right_column_type) {
        Ok(t) => t,
        Err(e) => return Err(e),
    };
    let new_precision_value = new_type.precision_value().unwrap();
    let new_scale = new_type.scale().unwrap();
    let left_scale = left_column_type.scale().unwrap();
    let right_scale = right_column_type.scale().unwrap();
    let a: i16 = right_scale as i16 - left_scale as i16 + new_scale as i16;
    assert(a as int == applied_scale(left_column_type, right_column_type));
    let n = lhs.len();
    let mut out: Vec<Scalar> = Vec::new();
    let mut i: usize = 0;
    while i < n
        invariant
            n == lhs@.len() == rhs@.len(),
            i <= n,
            out@.len() == i,
            a as int == applied_scale(left_column_type, right_column_type),
            divide_outcome(left_column_type, right_column_type) is Type
                || divide_outcome(left_column_type, right_column_type) is Decimal,
            forall|j: int| 0 <= j < i ==> (#[trigger] division_outcome(signeds(lhs@)[j],
                signeds(rhs@)[j], applied_scale(left_column_type, right_column_type))) is Value,
            forall|j: int| 0 <= j < i ==> (#[trigger] out@[j])@ == field_of(signed_quotient(
                division_outcome(signeds(lhs@)[j], signeds(rhs@)[j], applied_scale(left_column_type, right_column_type)))),
        decreases n - i,
    {
        assert(signeds(lhs@)[i as int] == lhs@[i as int].spec_signed());
        assert(signeds(rhs@)[i as int] == rhs@[i as int].spec_signed());
        let lv = lhs[i].to_i128_checked();
        let rv = rhs[i].to_i128_checked();
        match divide_one(lv, rv, a, Ghost(lhs@[i as int].spec_signed()), Ghost(rhs@[i as int].spec_signed())) {
            Ok(q) => out.push(Scalar::from_i128(q)),
            Err(e) => {
                proof {
                    let k = i as int;
                    assert(!(division_outcome(signeds(lhs@)[k], signeds(rhs@)[k], applied_scale(left_column_type, right_column_type)) is Value));
                    assert(!(forall|j: int| 0 <= j < lhs@.len() ==> (#[trigger] division_outcome(signeds(lhs@)[j],
                        signeds(rhs@)[j], applied_scale(left_column_type, right_column_type))) is Value));
                    assert(0 <= k < lhs@.len() && (forall|j: int| 0 <= j < k ==> (#[trigger] division_outcome(
                        signeds(lhs@)[j], signeds(rhs@)[j], applied_scale(left_column_type, right_column_type))) is Value)
                        && division_error_is(division_outcome(signeds(lhs@)[k], signeds(rhs@)[k], applied_scale(left_column_type, right_column_type)), e));
                }
                return Err(e);
            },
        }
        i = i + 1;
    }
    Ok((Precision::new_valid(new_precision_value), new_scale, out))
}

/// Adds two slices of the same integer type pair by pair, checking each sum
/// for overflow; pairs are taken up to the end of the shorter slice.
pub fn try_add_slices<T: IntegerElement>(lhs: &[T], rhs: &[T]) -> (res: ColumnOperationResult<Vec<T>>)
    ensures
        slice_op_result_is(ArithKind::Add, ints(lhs@), ints(rhs@), res),
{
    try_slice_binary_op::<T, T, T>(ArithKind::Add, lhs, rhs)
}

/// Subtracts one slice from another of the same integer type pair by pair,
/// checking each difference for overflow.
pub fn try_subtract_slices<T: IntegerElement>(lhs: &[T], rhs: &[T]) -> (res: ColumnOperationResult<Vec<T>>)
    ensures
        slice_op_result_is(ArithKind::Sub, ints(lhs@), ints(rhs@), res),
{
    try_slice_binary_op::<T, T, T>(ArithKind::Sub, lhs, rhs)
}

/// Multiplies two slices of the same integer type pair by pair, checking
/// each product for overflow.
pub fn try_multiply_slices<T: IntegerElement>(lhs: &[T], rhs: &[T]) -> (res: ColumnOperationResult<Vec<T>>)
    ensures
        slice_op_result_is(ArithKind::Mul, ints(lhs@), ints(rhs@), res),
{
    try_slice_binary_op::<T, T, T>(ArithKind::Mul, lhs, rhs)
}

/// Adds a slice of a smaller integer type to one of a larger type pair by
/// pair, the smaller values taken in the larger type.
pub fn try_add_slices_with_casting<SmallerType: IntegerElement, LargerType: IntegerElement>(lhs: &[SmallerType], rhs: &[LargerType]) -> (res: ColumnOperationResult<Vec<LargerType>>)
    ensures
        slice_op_result_is(ArithKind::Add, ints(lhs@), ints(rhs@), res),
{
    try_slice_binary_op::<SmallerType, LargerType, LargerType>(ArithKind::Add, lhs, rhs)
}

/// Subtracts a slice of a larger integer type from one of a smaller type
/// pair by pair, the smaller values taken in the larger type.
pub fn try_subtract_slices_left_upcast<SmallerType: IntegerElement, LargerType: IntegerElement>(lhs: &[SmallerType], rhs: &[LargerType]) -> (res: ColumnOperationResult<Vec<LargerType>>)
    ensures
        slice_op_result_is(ArithKind::Sub, ints(lhs@), ints(rhs@), res),
{
    try_slice_binary_op::<SmallerType, LargerType, LargerType>(ArithKind::Sub, lhs, rhs)
}

/// Subtracts a slice of a smaller integer type from one of a larger type
/// pair by pair, the smaller values taken in the larger type.
pub fn try_subtract_slices_right_upcast<SmallerType: IntegerElement, LargerType: IntegerElement>(lhs: &[LargerType], rhs: &[SmallerType]) -> (res: ColumnOperationResult<Vec<LargerType>>)
    ensures
        slice_op_result_is(ArithKind::Sub, ints(lhs@), ints(rhs@), res),
{
    try_slice_binary_op::<LargerType, SmallerType, LargerType>(ArithKind::Sub, lhs, rhs)
}

/// Multiplies a slice of a smaller integer type by one of a larger type
/// pair by pair, the smaller values taken in the larger type.
pub fn try_multiply_slices_with_casting<SmallerType: IntegerElement, LargerType: IntegerElement>(lhs: &[SmallerType], rhs: &[LargerType]) -> (res: ColumnOperationResult<Vec<LargerType>>)
    ensures
        slice_op_result_is(ArithKind::Mul, ints(lhs@), ints(rhs@), res),
{
    try_slice_binary_op::<SmallerType, LargerType, LargerType>(ArithKind::Mul, lhs, rhs)
}

/// The type of a sum does not depend on the order of the operands.
pub proof fn law_add_subtract_type_is_symmetric(l: ColumnType, r: ColumnType)
    ensures
        add_subtract_outcome(l, r) == add_subtract_outcome(r, l),
{
}

/// The type of a product does not depend on the order of the operands.
pub proof fn law_multiply_type_is_symmetric(l: ColumnType, r: ColumnType)
    ensures
        multiply_outcome(l, r) == multiply_outcome(r, l),
{
}

/// A decimal quotient stands for the true quotient. With result scale
/// `s`, dividend scale `sl` and divisor scale `sr`, each value of the
/// result is the dividend times `10^(s + sr - sl)` divided by the divisor,
/// rounded toward zero (for a negative exponent, the divisor is scaled up
/// instead): the quotient `(l / 10^sl) / (r / 10^sr)` at scale `s`,
/// truncated. Every divisor is nonzero.
pub proof fn law_decimal_quotient_is_scaled_quotient(
    res: ColumnOperationResult<(Precision, i8, Vec<Scalar>)>,
    lhs: Seq<int>,
    rhs: Seq<int>,
    lt: ColumnType,
    rt: ColumnType,
    i: int,
)
    requires
        division_result_is(res, lhs, rhs, lt, rt),
        res is Ok,
        0 <= i < lhs.len(),
    ensures
        res matches Ok((p, s, v)) && {
            let e = s as int + sc(rt) - sc(lt);
            &&& rhs[i] != 0
            &&& v@[i]@ == field_of(if e >= 0 {
                    crate::slice_operation::trunc_div(lhs[i] * pow10_int(e as nat), rhs[i])
                } else {
                    crate::slice_operation::trunc_div(lhs[i], rhs[i] * pow10_int((-e) as nat))
                })
        },
{
    let out = divide_outcome(lt, rt);
    assert(out is Type || out is Decimal);
    let (p, s, v) = res->Ok_0;
    assert(s as int == divide_result_scale(lt, rt));
    assert(division_outcome(lhs[i], rhs[i], applied_scale(lt, rt)) is Value);
}

} // verus!
