//! Decimal precision and the errors of decimal type arithmetic.
use vstd::prelude::*;
use vstd::arithmetic::div_mod::{lemma_add_mod_noop, lemma_sub_mod_noop};
use crate::scalar::{Scalar, field_of, limbs_value, modulus};

verus! {

/// The largest precision (number of decimal digits) a `Decimal75` may carry.
pub const MAX_SUPPORTED_PRECISION: u8 = 75;

/// Errors from decimal type computations.
#[derive(Debug, Clone, PartialEq, Eq)]
pub enum DecimalError {
    /// A precision is outside `1..=75`.
    InvalidPrecision {
        /// The rejected precision, in decimal.
        error: String,
    },
    /// A scale does not fit into an `i8`.
    InvalidScale {
        /// The rejected scale, in decimal.
        scale: String,
    },
}

/// The precision of a decimal: a number of decimal digits in `1..=75`.
#[derive(Debug, Clone, Copy, PartialEq, Eq, Hash, Structural)]
pub struct Precision(u8);

impl Precision {
    /// Every precision lies in `1..=75`.
    #[verifier::type_invariant]
    closed spec fn inv(self) -> bool {
        1 <= self.0 <= MAX_SUPPORTED_PRECISION
    }

    /// Whether a precision lies in `1..=75`; every value of the type does.
    pub open spec fn wf(self) -> bool {
        1 <= self.spec_value() <= MAX_SUPPORTED_PRECISION
    }

    /// The number of digits.
    pub closed spec fn spec_value(self) -> u8 {
        self.0
    }

    /// Makes a precision, refusing `0` and anything above `75`.
    pub fn new(value: u8) -> (res: Result<Precision, DecimalError>)
        ensures
            match res {
                Ok(p) => p.spec_value() == value && p.wf(),
                Err(e) => !(1 <= value <= MAX_SUPPORTED_PRECISION)
                    && e is InvalidPrecision,
            },
            res is Ok <==> 1 <= value <= MAX_SUPPORTED_PRECISION,
    {
        if value == 0 || value > MAX_SUPPORTED_PRECISION {
            Err(DecimalError::InvalidPrecision { error: crate::text::u64_to_string(value as u64) })
        } else {
            Ok(Precision(value))
        }
    }

    /// Makes a precision of a value known to lie in `1..=75`.
    pub(crate) fn new_valid(value: u8) -> (p: Precision)
        requires
            1 <= value <= MAX_SUPPORTED_PRECISION,
        ensures
            p.spec_value() == value,
    {
        Precision(value)
    }

    /// The number of digits.
    pub fn value(&self) -> (v: u8)
        ensures
            v == self.spec_value(),
            1 <= v <= MAX_SUPPORTED_PRECISION,
    {
        proof { use_type_invariant(self); }
        self.0
    }
}

/// Two to the power 256.
pub open spec fn two256() -> int {
    115792089237316195423570985008687907853269984665640564039457584007913129639936int
}

/// A signed 256-bit integer in two's complement, as four little-endian
/// 64-bit limbs.
#[derive(Debug, Clone, Copy, PartialEq, Eq)]
pub struct I256 {
    limbs: [u64; 4],
}

impl I256 {
    /// The integer the limbs stand for: negative when the top bit is set.
    pub closed spec fn spec_value(self) -> int {
        if self.limbs[3] >= 9223372036854775808u64 {
            limbs_value(self.limbs) - two256()
        } else {
            limbs_value(self.limbs) as int
        }
    }

    /// The integer given by four little-endian limbs in two's complement.
    pub fn from_limbs(limbs: [u64; 4]) -> (x: I256)
        ensures
            x.spec_value() == (if limbs[3] >= 9223372036854775808u64 {
                limbs_value(limbs) - two256()
            } else {
                limbs_value(limbs) as int
            }),
    {
        I256 { limbs }
    }

    /// The four little-endian limbs.
    pub fn limbs(&self) -> (l: [u64; 4])
        ensures
            self.spec_value() == (if l[3] >= 9223372036854775808u64 {
                limbs_value(l) - two256()
            } else {
                limbs_value(l) as int
            }),
    {
        self.limbs
    }

    /// The same integer, widened from `i128`.
    pub fn from_i128(v: i128) -> (x: I256)
        ensures
            x.spec_value() == v as int,
    {
        let two64: u128 = 18446744073709551616u128;
        if v >= 0 {
            let w = v as u128;
            let l0 = (w % two64) as u64;
            let l1 = (w / two64) as u64;
            I256 { limbs: [l0, l1, 0, 0] }
        } else {
            let a: i128 = (v + 1) + i128::MAX;
            let w: u128 = (a as u128) + 170141183460469231731687303715884105728u128;
            let l0 = (w % two64) as u64;
            let l1 = (w / two64) as u64;
            let r = I256 { limbs: [l0, l1, u64::MAX, u64::MAX] };
            assert(limbs_value(r.limbs) == w + two256() - 340282366920938463463374607431768211456int);
            r
        }
    }

    /// The field element the integer stands for: its residue modulo `L`.
    pub fn into_scalar(&self) -> (s: Scalar)
        ensures
            s@ == field_of(self.spec_value()),
    {
        let s = Scalar::from_limbs(self.limbs);
        if self.limbs[3] >= 9223372036854775808u64 {
            let t = Scalar::from_limbs([0, 0, 0, 9223372036854775808u64]);
            let t2 = t.add(&t);
            let r = s.sub(&t2);
            proof {
                let m = modulus() as int;
                let h = 57896044618658097711785492504343953926634992332820282019728792003956564819968int;
                assert(limbs_value([0, 0, 0, 9223372036854775808u64]) == h);
                lemma_add_mod_noop(h, h, m);
                lemma_sub_mod_noop(limbs_value(self.limbs) as int, two256(), m);
            }
            r
        } else {
            s
        }
    }
}

} // verus!
