//! Elements of the scalar field of Curve25519: the integers modulo the
//! prime `L = 2^252 + 27742317777372353535851937790883648493`.
use vstd::prelude::*;
use vstd::arithmetic::div_mod::{
    lemma_add_mod_noop, lemma_mul_mod_noop_left, lemma_mul_mod_noop_right, lemma_small_mod,
    lemma_mod_add_multiples_vanish, lemma_sub_mod_noop, lemma_mod_pos_bound, lemma_fundamental_div_mod,
    lemma_fundamental_div_mod_converse,
};
use core::cmp::Ordering;
use vstd::string::StringSliceAdditionalSpecFns;

verus! {

/// The order of the field.
pub open spec fn modulus() -> nat {
    7237005577332262213973186563042994240857116359379907606001950938285454250989nat
}

/// The largest element read as non-negative: `(L - 1) / 2`. Elements above
/// it stand for the negative integers `v - L`.
pub open spec fn max_signed() -> nat {
    3618502788666131106986593281521497120428558179689953803000975469142727125494nat
}

/// The element that an integer stands for: its residue modulo `L`.
pub open spec fn field_of(i: int) -> nat {
    (i % (modulus() as int)) as nat
}

/// The integer an element stands for when read as signed: elements above
/// `max_signed()` are negative.
pub open spec fn signed_value(v: nat) -> int {
    if v > max_signed() { v - modulus() } else { v as int }
}

/// Two's-power constant `2^128`.
pub open spec fn two128() -> nat {
    340282366920938463463374607431768211456nat
}

/// The number a pair of 128-bit limbs stands for.
pub open spec fn raw(hi: u128, lo: u128) -> nat {
    (hi as nat) * two128() + (lo as nat)
}

/// The number a little-endian byte string stands for.
pub open spec fn le_value(s: Seq<u8>) -> nat
    decreases s.len(),
{
    if s.len() == 0 { 0 } else { (s[0] as nat) + 256 * le_value(s.drop_first()) }
}

/// The number four little-endian 64-bit limbs stand for.
pub open spec fn limbs_value(l: [u64; 4]) -> nat {
    (l[0] as nat) + (l[1] as nat) * 18446744073709551616nat + (l[2] as nat) * two128()
        + (l[3] as nat) * 6277101735386680763835789423207666416102355444464034512896nat
}

/// The BLAKE3 digest of a byte string; depends on the bytes alone.
pub uninterp spec fn blake3_digest(input: Seq<u8>) -> Seq<u8>;

/// Hashes bytes with BLAKE3. Calls `blake3::hash`, whose 32 output bytes are
/// named `blake3_digest` of the input.
#[verifier::external_body]
fn blake3_hash(input: &[u8]) -> (out: [u8; 32])
    ensures
        out@ == blake3_digest(input@),
{
    blake3::hash(input).into()
}

/// A digest with the top four bits of its last byte cleared.
pub open spec fn masked_digest(d: Seq<u8>) -> Seq<u8> {
    Seq::new(d.len(), |i: int| if i == 31 { d[i] & 15u8 } else { d[i] })
}

/// The element a byte string hashes to.
pub open spec fn hash_value(bytes: Seq<u8>) -> nat {
    if bytes.len() == 0 { 0 } else { field_of(le_value(masked_digest(blake3_digest(bytes))) as int) }
}

const L_HI: u128 = 21267647932558653966460912964485513216;
const L_LO: u128 = 27742317777372353535851937790883648493;
const TWO128_MINUS_L_LO: u128 = 312540049143566109927522669640884562963;

/// An element of the field, kept in its canonical form below `L`.
#[derive(Debug, Clone, Copy, PartialEq, Eq, Hash, Structural)]
pub struct Scalar {
    hi: u128,
    lo: u128,
}

impl View for Scalar {
    type V = nat;

    /// The element as a residue in `0..L`.
    closed spec fn view(&self) -> nat {
        raw(self.hi, self.lo) % modulus()
    }
}

/// Every element lies below the order of the field.
pub proof fn lemma_scalar_bound(s: Scalar)
    ensures
        s@ < modulus(),
{
    lemma_mod_pos_bound(raw(s.hi, s.lo) as int, modulus() as int);
}

proof fn lemma_reduce_once(x: nat)
    requires
        modulus() <= x < 2 * modulus(),
    ensures
        x % modulus() == x - modulus(),
{
    lemma_mod_add_multiples_vanish((x - modulus()) as int, modulus() as int);
    lemma_small_mod((x - modulus()) as nat, modulus());
}

proof fn lemma_canonical_raw(hi: u128, lo: u128)
    requires
        raw(hi, lo) < modulus(),
    ensures
        raw(hi, lo) % modulus() == raw(hi, lo),
        hi <= 21267647932558653966460912964485513216u128,
{
    lemma_small_mod(raw(hi, lo), modulus());
}

/// The invariant of multiplication by doubling and adding: what is
/// accumulated plus what remains to add is the product, modulo `L`.
#[verifier::opaque]
spec fn mul_inv(acc: nat, cur: nat, rem: nat, target: nat) -> bool {
    (acc + cur * rem) % modulus() == target % modulus()
}

proof fn lemma_mul_step(acc0: nat, cur0: nat, rem: nat, r2: nat, bit: nat, acc1: nat, cur1: nat, target: nat)
    requires
        mul_inv(acc0, cur0, rem, target),
        rem == 2 * r2 + bit,
        bit == 0 || bit == 1,
        acc1 == (acc0 + bit * cur0) % modulus(),
        cur1 == (2 * cur0) % modulus(),
    ensures
        mul_inv(acc1, cur1, r2, target),
{
    reveal(mul_inv);
    let m = modulus() as int;
    lemma_mul_mod_noop_left((2 * cur0) as int, r2 as int, m);
    lemma_add_mod_noop((acc0 + bit * cur0) as int, ((2 * cur0) * r2) as int, m);
    lemma_add_mod_noop(acc1 as int, (cur1 * r2) as int, m);
    assert((acc0 + bit * cur0) + (2 * cur0) * r2 == acc0 + cur0 * rem) by (nonlinear_arith)
        requires rem == 2 * r2 + bit;
}

proof fn lemma_mul_done(acc: nat, cur: nat, target: nat)
    requires
        mul_inv(acc, cur, 0, target),
        acc < modulus(),
    ensures
        acc == target % modulus(),
{
    reveal(mul_inv);
    assert(cur * 0 == 0);
    lemma_small_mod(acc, modulus());
}

/// Whether two limbs stand for a number of at least `L`.
fn ge_modulus(hi: u128, lo: u128) -> (b: bool)
    ensures
        b == (raw(hi, lo) >= modulus()),
{
    hi > L_HI || (hi == L_HI && lo >= L_LO)
}

/// Subtracts `L` from a number of at least `L`.
fn sub_modulus(hi: u128, lo: u128) -> (r: (u128, u128))
    requires
        raw(hi, lo) >= modulus(),
    ensures
        raw(r.0, r.1) == raw(hi, lo) - modulus(),
{
    if lo >= L_LO {
        (hi - L_HI, lo - L_LO)
    } else {
        (hi - L_HI - 1, lo + TWO128_MINUS_L_LO)
    }
}

impl Scalar {
    /// Every element is kept below `L`.
    #[verifier::type_invariant]
    closed spec fn canonical(self) -> bool {
        raw(self.hi, self.lo) < modulus()
    }

    /// Builds the element from limbs already below `L`.
    fn from_raw(hi: u128, lo: u128) -> (s: Scalar)
        requires
            raw(hi, lo) < modulus(),
        ensures
            s@ == raw(hi, lo),
    {
        proof { lemma_small_mod(raw(hi, lo), modulus()); }
        Scalar { hi, lo }
    }


    /// The element `0`.
    pub closed spec fn spec_zero() -> Scalar {
        Scalar { hi: 0, lo: 0 }
    }

    /// The element `0`.
    pub fn zero() -> (s: Scalar)
        ensures
            s@ == 0,
            s == Self::spec_zero(),
    {
        proof { lemma_small_mod(raw(0, 0), modulus()); }
        Scalar { hi: 0, lo: 0 }
    }

    /// The element `1`.
    pub fn one() -> (s: Scalar)
        ensures
            s@ == 1,
    {
        Self::from_raw(0, 1)
    }

    /// The element standing for an unsigned 128-bit integer.
    pub fn from_u128(v: u128) -> (s: Scalar)
        ensures
            s@ == v as nat,
            s@ == field_of(v as int),
    {
        Self::from_raw(0, v)
    }

    /// The element standing for a boolean: `1` for true, `0` for false.
    pub fn from_bool(b: bool) -> (s: Scalar)
        ensures
            s@ == (if b { 1nat } else { 0nat }),
    {
        if b { Self::one() } else { Self::zero() }
    }

    /// `self + other` in the field.
    pub fn add(&self, other: &Scalar) -> (s: Scalar)
        ensures
            s@ == (self@ + other@) % modulus(),
    {
        proof {
            use_type_invariant(self); lemma_canonical_raw(self.hi, self.lo);
            use_type_invariant(other); lemma_canonical_raw(other.hi, other.lo);
        }
        let (lo, carry) = if self.lo > u128::MAX - other.lo {
            (self.lo - (u128::MAX - other.lo) - 1, 1u128)
        } else {
            (self.lo + other.lo, 0u128)
        };
        let hi = self.hi + other.hi + carry;
        assert(raw(hi, lo) == self@ + other@);
        if ge_modulus(hi, lo) {
            let (h, l) = sub_modulus(hi, lo);
            proof { lemma_reduce_once(raw(hi, lo)); }
            Self::from_raw(h, l)
        } else {
            proof { lemma_small_mod(raw(hi, lo), modulus()); }
            Self::from_raw(hi, lo)
        }
    }

    /// `-self` in the field.
    pub fn neg(&self) -> (s: Scalar)
        ensures
            s@ == field_of(-(self@ as int)),
    {
        proof { use_type_invariant(self); lemma_canonical_raw(self.hi, self.lo); }
        if self.hi == 0 && self.lo == 0 {
            Self::zero()
        } else {
            let (hi, lo) = if L_LO >= self.lo {
                (L_HI - self.hi, L_LO - self.lo)
            } else {
                (L_HI - self.hi - 1, L_LO + (u128::MAX - self.lo) + 1)
            };
            assert(raw(hi, lo) == modulus() - self@);
            proof {
                lemma_mod_add_multiples_vanish(-(self@ as int), modulus() as int);
                lemma_small_mod((modulus() - self@) as nat, modulus());
            }
            Self::from_raw(hi, lo)
        }
    }

    /// `self - other` in the field.
    pub fn sub(&self, other: &Scalar) -> (s: Scalar)
        ensures
            s@ == field_of(self@ - other@),
    {
        let n = other.neg();
        let s = self.add(&n);
        proof {
            lemma_add_mod_noop(self@ as int, -(other@ as int), modulus() as int);
            lemma_small_mod(self@, modulus());
        }
        s
    }

    /// The element standing for a signed 128-bit integer.
    pub fn from_i128(v: i128) -> (s: Scalar)
        ensures
            s@ == field_of(v as int),
    {
        if v >= 0 {
            Self::from_u128(v as u128)
        } else {
            let m: u128 = ((-(v + 1)) as u128) + 1;
            let p = Self::from_u128(m);
            let s = p.neg();
            proof { lemma_small_mod(m as nat, modulus()); }
            s
        }
    }

    /// `self * other` in the field, by doubling and adding over the bits of
    /// `other`.
    pub fn mul(&self, other: &Scalar) -> (s: Scalar)
        ensures
            s@ == (self@ * other@) % modulus(),
    {
        proof { use_type_invariant(other); lemma_canonical_raw(other.hi, other.lo); }
        let mut acc = Self::zero();
        let mut cur = *self;
        let mut rem_hi = other.hi;
        let mut rem_lo = other.lo;
        assert(mul_inv(acc@, cur@, raw(rem_hi, rem_lo), self@ * other@)) by {
            reveal(mul_inv);
        }
        while rem_hi != 0 || rem_lo != 0
            invariant
                mul_inv(acc@, cur@, raw(rem_hi, rem_lo), self@ * other@),
            decreases raw(rem_hi, rem_lo),
        {
            let ghost rem = raw(rem_hi, rem_lo);
            let ghost acc0 = acc@;
            let ghost cur0 = cur@;
            let bit = rem_lo % 2;
            if bit == 1 {
                acc = acc.add(&cur);
            }
            cur = cur.add(&cur);
            let carry_in: u128 = if rem_hi % 2 == 1 { 170141183460469231731687303715884105728 } else { 0 };
            rem_lo = rem_lo / 2 + carry_in;
            rem_hi = rem_hi / 2;
            proof {
                assert(rem == 2 * raw(rem_hi, rem_lo) + bit);
                lemma_mul_step(acc0, cur0, rem, raw(rem_hi, rem_lo), bit as nat, acc@, cur@, self@ * other@);
            }
        }
        proof {
            lemma_scalar_bound(acc);
            lemma_mul_done(acc@, cur@, self@ * other@);
        }
        acc
    }

    /// The element standing for four little-endian 64-bit limbs, reduced
    /// modulo `L`.
    pub fn from_limbs(l: [u64; 4]) -> (s: Scalar)
        ensures
            s@ == field_of(limbs_value(l) as int),
    {
        let lo: u128 = (l[0] as u128) + (l[1] as u128) * 18446744073709551616u128;
        let hi: u128 = (l[2] as u128) + (l[3] as u128) * 18446744073709551616u128;
        assert(raw(hi, lo) == limbs_value(l));
        let mut h = hi;
        let mut w = lo;
        while ge_modulus(h, w)
            invariant
                raw(h, w) % modulus() == limbs_value(l) % modulus(),
            decreases raw(h, w),
        {
            let ghost before = raw(h, w);
            let (a, b) = sub_modulus(h, w);
            h = a;
            w = b;
            proof {
                lemma_mod_add_multiples_vanish(raw(h, w) as int, modulus() as int);
            }
        }
        proof { lemma_small_mod(raw(h, w), modulus()); }
        Self::from_raw(h, w)
    }

    /// The element standing for a little-endian byte string, reduced modulo
    /// `L`.
    pub fn from_le_bytes_mod_order(bytes: &[u8]) -> (s: Scalar)
        ensures
            s@ == field_of(le_value(bytes@) as int),
    {
        let n = bytes.len();
        let base = Self::from_u128(256);
        let mut acc = Self::zero();
        let mut i = n;
        assert(bytes@.subrange(n as int, n as int) =~= Seq::<u8>::empty());
        while i > 0
            invariant
                i <= n == bytes@.len(),
                acc@ == le_value(bytes@.subrange(i as int, n as int)) % modulus(),
                base@ == 256,
            decreases i,
        {
            let ghost x = le_value(bytes@.subrange(i as int, n as int));
            i = i - 1;
            let t = acc.mul(&base);
            let b = Self::from_u128(bytes[i] as u128);
            acc = t.add(&b);
            proof {
                let sub = bytes@.subrange(i as int, n as int);
                assert(sub.drop_first() =~= bytes@.subrange(i + 1, n as int));
                assert(le_value(sub) == (bytes@[i as int] as nat) + 256 * x);
                let m = modulus() as int;
                lemma_mul_mod_noop_left(x as int, 256, m);
                lemma_small_mod(bytes@[i as int] as nat, modulus());
                lemma_add_mod_noop((x * 256) as int, bytes@[i as int] as int, m);
            }
        }
        assert(bytes@.subrange(0, n as int) =~= bytes@);
        acc
    }

    /// The element a 32-byte digest stands for: the digest read as a
    /// little-endian number after clearing the top four bits of its last
    /// byte, so that it lies below `L`.
    pub fn from_digest(digest: [u8; 32]) -> (s: Scalar)
        ensures
            s@ == field_of(le_value(masked_digest(digest@)) as int),
    {
        let mut bytes: Vec<u8> = Vec::new();
        let mut i: usize = 0;
        while i < 32
            invariant
                i <= 32,
                bytes@ == masked_digest(digest@).take(i as int),
            decreases 32 - i,
        {
            let b = if i == 31 { digest[i] & 15u8 } else { digest[i] };
            bytes.push(b);
            i = i + 1;
            assert(bytes@ =~= masked_digest(digest@).take(i as int));
        }
        assert(bytes@ =~= masked_digest(digest@));
        Self::from_le_bytes_mod_order(bytes.as_slice())
    }

    /// The element a byte string hashes to: `0` for the empty string, else
    /// `from_digest` of its BLAKE3 digest.
    pub fn from_byte_slice_via_hash(x: &[u8]) -> (s: Scalar)
        ensures
            x@.len() == 0 ==> s@ == 0,
            x@.len() > 0 ==> s@ == field_of(le_value(masked_digest(blake3_digest(x@))) as int),
    {
        if x.len() == 0 {
            Self::zero()
        } else {
            let d = blake3_hash(x);
            Self::from_digest(d)
        }
    }

    /// The element a string hashes to: that of its UTF-8 bytes.
    pub fn from_str_via_hash(x: &str) -> (s: Scalar)
        ensures
            s@ == hash_value(x.spec_bytes()),
    {
        let b = x.as_bytes();
        Self::from_byte_slice_via_hash(b)
    }

    /// The signed integer the element stands for, when it fits in `i128`.
    pub fn signed_i128(&self) -> (r: Option<i128>)
        ensures
            match r {
                Some(v) => v as int == signed_value(self@),
                None => !(i128::MIN <= signed_value(self@) <= i128::MAX),
            },
    {
        proof { use_type_invariant(self); lemma_canonical_raw(self.hi, self.lo); }
        if self.is_negative() {
            let n = self.neg();
            proof {
                use_type_invariant(&n); lemma_canonical_raw(n.hi, n.lo);
                lemma_mod_add_multiples_vanish(-(self@ as int), modulus() as int);
                lemma_small_mod((modulus() - self@) as nat, modulus());
            }
            // n@ == L - self@, the magnitude of the negative value
            if n.hi == 0 && n.lo <= 170141183460469231731687303715884105728u128 {
                if n.lo == 170141183460469231731687303715884105728u128 {
                    Some(i128::MIN)
                } else {
                    Some(-(n.lo as i128))
                }
            } else {
                None
            }
        } else if self.hi == 0 && self.lo <= 170141183460469231731687303715884105727u128 {
            Some(self.lo as i128)
        } else {
            None
        }
    }

    /// Whether two elements are equal.
    pub fn equals(&self, other: &Scalar) -> (b: bool)
        ensures
            b == (self@ == other@),
    {
        proof {
            use_type_invariant(self); lemma_canonical_raw(self.hi, self.lo);
            use_type_invariant(other); lemma_canonical_raw(other.hi, other.lo);
        }
        self.hi == other.hi && self.lo == other.lo
    }

    /// Whether the element is `0`.
    pub fn is_zero(&self) -> (b: bool)
        ensures
            b == (self@ == 0),
    {
        proof { use_type_invariant(self); lemma_canonical_raw(self.hi, self.lo); }
        self.hi == 0 && self.lo == 0
    }

    /// Whether the element lies above `max_signed()`, i.e. stands for a
    /// negative integer.
    pub fn is_negative(&self) -> (b: bool)
        ensures
            b == (self@ > max_signed()),
    {
        proof { use_type_invariant(self); lemma_canonical_raw(self.hi, self.lo); }
        self.hi > 10633823966279326983230456482242756608
            || (self.hi == 10633823966279326983230456482242756608
                && self.lo > 13871158888686176767925968895441824246)
    }

    /// Whether `self@ < other@`, comparing the canonical residues.
    pub fn less_than(&self, other: &Scalar) -> (b: bool)
        ensures
            b == (self@ < other@),
    {
        proof {
            use_type_invariant(self); lemma_canonical_raw(self.hi, self.lo);
            use_type_invariant(other); lemma_canonical_raw(other.hi, other.lo);
        }
        self.hi < other.hi || (self.hi == other.hi && self.lo < other.lo)
    }

    /// Orders two elements by their canonical residues in `0..L`.
    pub fn cmp(&self, other: &Scalar) -> (o: Ordering)
        ensures
            o == (if self@ < other@ { Ordering::Less } else if self@ == other@ { Ordering::Equal }
                else { Ordering::Greater }),
    {
        if self.less_than(other) {
            Ordering::Less
        } else if self.equals(other) {
            Ordering::Equal
        } else {
            Ordering::Greater
        }
    }

    /// Orders two elements by the signed integers they stand for.
    pub fn signed_cmp(&self, other: &Scalar) -> (o: Ordering)
        ensures
            o == (if signed_value(self@) < signed_value(other@) { Ordering::Less }
                else if signed_value(self@) == signed_value(other@) { Ordering::Equal }
                else { Ordering::Greater }),
    {
        let a = self.is_negative();
        let b = other.is_negative();
        if a && !b {
            Ordering::Less
        } else if !a && b {
            Ordering::Greater
        } else {
            self.cmp(other)
        }
    }
}

/// Ten to the power `k`.
pub open spec fn pow10_int(k: nat) -> int
    decreases k,
{
    if k == 0 { 1 } else { 10 * pow10_int((k - 1) as nat) }
}

/// The element `10^k`.
pub fn pow10(k: u8) -> (s: Scalar)
    ensures
        s@ == field_of(pow10_int(k as nat)),
{
    let ten = Scalar::from_u128(10);
    let mut acc = Scalar::one();
    let mut i: u8 = 0;
    proof { lemma_small_mod(1, modulus()); }
    while i < k
        invariant
            i <= k,
            ten@ == 10,
            acc@ == field_of(pow10_int(i as nat)),
        decreases k - i,
    {
        let ghost p = pow10_int(i as nat);
        acc = acc.mul(&ten);
        i = i + 1;
        proof {
            assert(pow10_int(i as nat) == 10 * p);
            lemma_pow10_nonneg(i as nat);
            lemma_mul_mod_noop_left(p, 10, modulus() as int);
            assert(p * 10 == 10 * p);
        }
    }
    acc
}

/// Powers of ten are positive.
pub proof fn lemma_pow10_nonneg(k: nat)
    ensures
        pow10_int(k) >= 1,
    decreases k,
{
    if k > 0 {
        lemma_pow10_nonneg((k - 1) as nat);
    }
}

/// A value that converts into a field element.
pub trait ToScalar: Copy {
    /// The element the value stands for.
    spec fn spec_field(&self) -> nat;

    /// The integer the value stands for when read as signed.
    spec fn spec_signed(&self) -> int;

    /// The signed integer the value stands for, when it fits in `i128`.
    fn to_i128_checked(&self) -> (r: Option<i128>)
        ensures
            match r {
                Some(v) => v as int == self.spec_signed(),
                None => !(i128::MIN <= self.spec_signed() <= i128::MAX),
            },
    ;

    /// The element the value stands for.
    fn to_scalar(&self) -> (s: Scalar)
        ensures
            s@ == self.spec_field(),
    ;
}

impl ToScalar for u8 {
    open spec fn spec_field(&self) -> nat { field_of(*self as int) }
    open spec fn spec_signed(&self) -> int { *self as int }
    fn to_i128_checked(&self) -> (r: Option<i128>) { Some(*self as i128) }
    fn to_scalar(&self) -> (s: Scalar) { Scalar::from_i128(*self as i128) }
}

impl ToScalar for i8 {
    open spec fn spec_field(&self) -> nat { field_of(*self as int) }
    open spec fn spec_signed(&self) -> int { *self as int }
    fn to_i128_checked(&self) -> (r: Option<i128>) { Some(*self as i128) }
    fn to_scalar(&self) -> (s: Scalar) { Scalar::from_i128(*self as i128) }
}

impl ToScalar for i16 {
    open spec fn spec_field(&self) -> nat { field_of(*self as int) }
    open spec fn spec_signed(&self) -> int { *self as int }
    fn to_i128_checked(&self) -> (r: Option<i128>) { Some(*self as i128) }
    fn to_scalar(&self) -> (s: Scalar) { Scalar::from_i128(*self as i128) }
}

impl ToScalar for i32 {
    open spec fn spec_field(&self) -> nat { field_of(*self as int) }
    open spec fn spec_signed(&self) -> int { *self as int }
    fn to_i128_checked(&self) -> (r: Option<i128>) { Some(*self as i128) }
    fn to_scalar(&self) -> (s: Scalar) { Scalar::from_i128(*self as i128) }
}

impl ToScalar for i64 {
    open spec fn spec_field(&self) -> nat { field_of(*self as int) }
    open spec fn spec_signed(&self) -> int { *self as int }
    fn to_i128_checked(&self) -> (r: Option<i128>) { Some(*self as i128) }
    fn to_scalar(&self) -> (s: Scalar) { Scalar::from_i128(*self as i128) }
}

impl ToScalar for i128 {
    open spec fn spec_field(&self) -> nat { field_of(*self as int) }
    open spec fn spec_signed(&self) -> int { *self as int }
    fn to_i128_checked(&self) -> (r: Option<i128>) { Some(*self) }
    fn to_scalar(&self) -> (s: Scalar) { Scalar::from_i128(*self) }
}

impl ToScalar for Scalar {
    open spec fn spec_field(&self) -> nat { self@ }
    open spec fn spec_signed(&self) -> int { signed_value(self@) }
    fn to_i128_checked(&self) -> (r: Option<i128>) { self.signed_i128() }
    fn to_scalar(&self) -> (s: Scalar) { *self }
}

/// Negating an integer negates the signed integer its element stands for.
pub proof fn lemma_signed_negation(x: int)
    ensures
        signed_value(field_of(-x)) == -signed_value(field_of(x)),
{
    let m = modulus() as int;
    let a = x % m;
    let q = x / m;
    lemma_fundamental_div_mod(x, m);
    assert(x == q * m + a) by (nonlinear_arith)
        requires x == m * (x / m) + (x % m), q == x / m, a == x % m;
    if a == 0 {
        assert(-x == (-q) * m + 0) by (nonlinear_arith) requires x == q * m + a, a == 0;
        lemma_fundamental_div_mod_converse(-x, m, -q, 0);
    } else {
        assert(-x == (-q - 1) * m + (m - a)) by (nonlinear_arith) requires x == q * m + a;
        lemma_fundamental_div_mod_converse(-x, m, -q - 1, m - a);
    }
}

/// Small integers are read back from their elements: the signed reading
/// of the element an integer stands for is the integer itself, for every
/// integer within `max_signed()` of zero.
pub proof fn law_signed_value_of_field(v: int)
    requires
        -(max_signed() as int) <= v <= max_signed(),
    ensures
        signed_value(field_of(v)) == v,
{
    let m = modulus() as int;
    if v >= 0 {
        lemma_small_mod(v as nat, modulus());
    } else {
        lemma_fundamental_div_mod_converse(v, m, -1, v + m);
    }
}

} // verus!
