//! Arbitrary-precision decimal values.
//!
//! A value is held as a sign, a little-endian base-256 magnitude and a
//! decimal scale: it denotes `mantissa * 10^(-scale)`, negated when the sign
//! is set. Scaling a raw reserve and testing for zero are verified here;
//! division, multiplication, rendering and parsing are carried out by the
//! `substreams` scalar type (backed by the `bigdecimal` crate) behind
//! trusted wrappers, so prices come out exactly as that arithmetic produces
//! them.

use std::str::FromStr;

use bigdecimal::num_bigint::{BigInt as RawInt, Sign as RawSign};

use vstd::prelude::*;

verus! {

/// Mathematical model of a decimal value.
pub ghost struct DecimalModel {
    pub negative: bool,
    /// Little-endian base-256 digits of the magnitude.
    pub bytes: Seq<u8>,
    /// The value is the magnitude times ten to the minus `scale`.
    pub scale: int,
}

/// The natural number denoted by little-endian base-256 digits.
pub open spec fn nat_of_le_bytes(bytes: Seq<u8>) -> nat
    decreases bytes.len(),
{
    if bytes.len() == 0 {
        0
    } else {
        bytes[0] as nat + 256 * nat_of_le_bytes(bytes.drop_first())
    }
}

impl DecimalModel {
    pub open spec fn mantissa(&self) -> nat {
        nat_of_le_bytes(self.bytes)
    }

    /// Whether the denoted value is zero (at any scale).
    pub open spec fn is_zero(&self) -> bool {
        self.mantissa() == 0
    }
}

/// Bounds under which the trusted arithmetic below is known not to panic
/// or degenerate: a nonempty magnitude of at most 100000 bytes and a scale
/// within plus or minus 100000.
pub open spec fn dec_fits(d: DecimalModel) -> bool {
    &&& 1 <= d.bytes.len() <= 100000
    &&& -100000 <= d.scale <= 100000
}

/// Bound on a magnitude that multiplication and rendering handle in
/// reasonable time and space; the scale is unconstrained there (rendering
/// switches to exponential notation outside small threshold regions).
pub open spec fn mant_fits(d: DecimalModel) -> bool {
    1 <= d.bytes.len() <= 1000000
}

/// The canonical little-endian base-256 digits of a natural number: empty
/// for zero, otherwise lowest digit first with no trailing zero digit.
pub open spec fn le_bytes_of(n: nat) -> Seq<u8>
    decreases n,
{
    if n == 0 {
        Seq::empty()
    } else {
        seq![(n % 256) as u8] + le_bytes_of(n / 256)
    }
}

pub proof fn lemma_nat_of_le_bytes_of(n: nat)
    ensures
        nat_of_le_bytes(le_bytes_of(n)) == n,
    decreases n,
{
    if n == 0 {
    } else {
        let s = seq![(n % 256) as u8] + le_bytes_of(n / 256);
        assert(s[0] == (n % 256) as u8);
        assert(s.drop_first() =~= le_bytes_of(n / 256));
        lemma_nat_of_le_bytes_of(n / 256);
    }
}

/// A zero mantissa means every digit is zero.
pub proof fn lemma_nat_of_zero(bytes: Seq<u8>)
    ensures
        (nat_of_le_bytes(bytes) == 0) <==> (forall|i: int| 0 <= i < bytes.len() ==> bytes[i] == 0),
    decreases bytes.len(),
{
    if bytes.len() == 0 {
    } else {
        lemma_nat_of_zero(bytes.drop_first());
        if nat_of_le_bytes(bytes) == 0 {
            assert(bytes[0] == 0);
            assert forall|i: int| 0 <= i < bytes.len() implies bytes[i] == 0 by {
                if i > 0 {
                    assert(bytes.drop_first()[i - 1] == bytes[i]);
                }
            }
        } else {
            if bytes[0] == 0 {
                assert(nat_of_le_bytes(bytes.drop_first()) != 0);
                let j = choose|j: int|
                    0 <= j < bytes.drop_first().len() && bytes.drop_first()[j] != 0;
                assert(bytes[j + 1] != 0);
            }
        }
    }
}

/// Powers of 256, for digit-length bounds.
pub open spec fn pow256(k: nat) -> nat
    decreases k,
{
    if k == 0 {
        1
    } else {
        256 * pow256((k - 1) as nat)
    }
}

pub proof fn lemma_le_bytes_len(n: nat, k: nat)
    requires
        n < pow256(k),
    ensures
        le_bytes_of(n).len() <= k,
    decreases k,
{
    if n == 0 {
    } else {
        assert(k > 0);
        assert(n / 256 < pow256((k - 1) as nat)) by {
            assert(pow256(k) == 256 * pow256((k - 1) as nat));
        }
        lemma_le_bytes_len(n / 256, (k - 1) as nat);
    }
}

pub proof fn lemma_pow256_16()
    ensures
        pow256(16) > u128::MAX,
{
    reveal_with_fuel(pow256, 17);
    assert(pow256(16) == 0x100000000000000000000000000000000);
}

/// A decimal value: sign, little-endian base-256 magnitude, decimal scale.
pub struct Decimal {
    pub negative: bool,
    pub bytes: Vec<u8>,
    pub scale: i64,
}

impl View for Decimal {
    type V = DecimalModel;

    open spec fn view(&self) -> DecimalModel {
        DecimalModel { negative: self.negative, bytes: self.bytes@, scale: self.scale as int }
    }
}

/// The canonical zero value.
pub open spec fn spec_zero_decimal() -> DecimalModel {
    DecimalModel { negative: false, bytes: seq![0u8], scale: 0 }
}

impl Decimal {
    pub fn zero() -> (r: Decimal)
        ensures
            r@ == spec_zero_decimal(),
            r@.is_zero(),
    {
        let mut bytes: Vec<u8> = Vec::new();
        bytes.push(0u8);
        proof {
            assert(bytes@ =~= seq![0u8]);
            assert(seq![0u8].drop_first() =~= Seq::<u8>::empty());
            assert(nat_of_le_bytes(Seq::<u8>::empty()) == 0);
            assert(nat_of_le_bytes(seq![0u8]) == 0);
        }
        Decimal { negative: false, bytes, scale: 0 }
    }

    /// Whether the denoted value is zero.
    pub fn is_zero(&self) -> (r: bool)
        ensures
            r == self@.is_zero(),
    {
        proof {
            lemma_nat_of_zero(self.bytes@);
        }
        let n = self.bytes.len();
        let mut i: usize = 0;
        while i < n
            invariant
                n == self.bytes@.len(),
                0 <= i <= n,
                forall|j: int| 0 <= j < i ==> self.bytes@[j] == 0,
            decreases n - i,
        {
            if self.bytes[i] != 0 {
                proof {
                    assert(nat_of_le_bytes(self.bytes@) != 0) by {
                        lemma_nat_of_zero(self.bytes@);
                        if nat_of_le_bytes(self.bytes@) == 0 {
                            assert(self.bytes@[i as int] == 0);
                        }
                    }
                }
                return false;
            }
            i = i + 1;
        }
        true
    }
}

impl Clone for Decimal {
    fn clone(&self) -> (r: Self)
        ensures
            r@ == self@,
    {
        let r = Decimal {
            negative: self.negative,
            bytes: vstd::slice::slice_to_vec(self.bytes.as_slice()),
            scale: self.scale,
        };
        proof {
            assert(r.bytes@ =~= self.bytes@);
        }
        r
    }
}

/// The decimal a raw reserve denotes once scaled by its token's decimal
/// precision, in the exact representation the pipeline's arithmetic uses:
/// mantissa `raw` at scale `decimals` (canonical zero for a zero reserve).
pub open spec fn spec_scaled(raw: u128, decimals: u64) -> DecimalModel {
    if raw == 0 {
        spec_zero_decimal()
    } else {
        DecimalModel { negative: false, bytes: le_bytes_of(raw as nat), scale: decimals as int }
    }
}

/// Scales a raw integer reserve to a decimal using the owning token's
/// decimal precision: the value `raw * 10^(-decimals)`.
pub fn scale_reserve(raw: u128, decimals: u64) -> (r: Decimal)
    requires
        decimals < 255,
    ensures
        r@ == spec_scaled(raw, decimals),
        r@.mantissa() == raw,
        1 <= r@.bytes.len() <= 16,
        0 <= r@.scale <= decimals,
        dec_fits(r@),
{
    proof {
        lemma_nat_of_le_bytes_of(raw as nat);
        lemma_pow256_16();
        lemma_le_bytes_len(raw as nat, 16);
        if raw == 0 {
            assert(seq![0u8].drop_first() =~= Seq::<u8>::empty());
        }
    }
    if raw == 0 {
        return Decimal::zero();
    }
    let mut bytes: Vec<u8> = Vec::new();
    let mut rest: u128 = raw;
    while rest > 0
        invariant
            le_bytes_of(raw as nat) =~= bytes@ + le_bytes_of(rest as nat),
        decreases rest,
    {
        proof {
            assert(le_bytes_of(rest as nat) =~= seq![(rest % 256) as u8] + le_bytes_of(
                (rest / 256) as nat,
            ));
            assert(bytes@.push((rest % 256) as u8) =~= bytes@ + seq![(rest % 256) as u8]);
        }
        bytes.push((rest % 256) as u8);
        rest = rest / 256;
    }
    proof {
        assert(le_bytes_of(0nat) =~= Seq::<u8>::empty());
        assert(bytes@ =~= le_bytes_of(raw as nat));
    }
    Decimal { negative: false, bytes, scale: decimals as i64 }
}

/// What `substreams::scalar::BigDecimal` division returns for the two
/// modeled operands.
pub uninterp spec fn div_of(a: DecimalModel, b: DecimalModel) -> DecimalModel;

/// What `substreams::scalar::BigDecimal` multiplication returns for the two
/// modeled operands.
pub uninterp spec fn mul_of(a: DecimalModel, b: DecimalModel) -> DecimalModel;

/// How `substreams::scalar::BigDecimal` renders the modeled value.
pub uninterp spec fn render_of(d: DecimalModel) -> Seq<char>;

/// What `substreams::scalar::BigDecimal` parsing yields for a string:
/// absent exactly when the string does not parse as a decimal.
pub uninterp spec fn parse_of(s: Seq<char>) -> Option<DecimalModel>;

/// Relies on `substreams::scalar::BigDecimal` division (deferring to the
/// `bigdecimal` crate): the quotient of the two values, exact when it
/// terminates and cut off at 100 significant digits otherwise. It panics on
/// a divisor of value zero, so that is excluded; a dividend of value zero
/// comes back as zero at the dividend's scale, and otherwise the result's
/// scale moves from the scale difference by no more than the divisor's
/// digit count plus the precision cap, with a magnitude bounded by the
/// operand digit counts plus the cap.
#[verifier::external_body]
pub fn dec_div(a: &Decimal, b: &Decimal) -> (r: Decimal)
    requires
        !b@.is_zero(),
        dec_fits(a@),
        dec_fits(b@),
    ensures
        r@ == div_of(a@, b@),
        a@.is_zero() ==> r@.is_zero() && r@.scale == a@.scale && !r@.negative,
        !a@.is_zero() ==> a@.scale - b@.scale <= r@.scale <= a@.scale - b@.scale + 3 * b@.bytes.len()
            + 102,
        1 <= r@.bytes.len() <= 3 * (a@.bytes.len() + b@.bytes.len()) + 100,
{
    let xs = if a.negative { RawSign::Minus } else { RawSign::Plus };
    let ys = if b.negative { RawSign::Minus } else { RawSign::Plus };
    let xi = RawInt::from_bytes_le(xs, a.bytes.as_slice());
    let yi = RawInt::from_bytes_le(ys, b.bytes.as_slice());
    let x = substreams::scalar::BigDecimal::from(bigdecimal::BigDecimal::new(xi, a.scale));
    let y = substreams::scalar::BigDecimal::from(bigdecimal::BigDecimal::new(yi, b.scale));
    let (m, e) = (x / y).as_bigint_and_exponent();
    let (sign, by) = m.to_bytes_le();
    Decimal { negative: matches!(sign, RawSign::Minus), bytes: by, scale: e }
}

/// Relies on `substreams::scalar::BigDecimal` multiplication (deferring to
/// the `bigdecimal` crate): the exact product of the two values. The
/// result's scale is the scale sum, except in the crate's shortcut branches
/// for a unit operand, where the other operand comes back unchanged. The
/// scale sum must fit an `i64`, since the crate adds the scales directly.
#[verifier::external_body]
pub fn dec_mul(a: &Decimal, b: &Decimal) -> (r: Decimal)
    requires
        mant_fits(a@),
        mant_fits(b@),
        i64::MIN <= a@.scale + b@.scale <= i64::MAX,
    ensures
        r@ == mul_of(a@, b@),
        r@.scale == a@.scale + b@.scale || r@.scale == a@.scale || r@.scale == b@.scale,
        1 <= r@.bytes.len() <= a@.bytes.len() + b@.bytes.len(),
{
    let xs = if a.negative { RawSign::Minus } else { RawSign::Plus };
    let ys = if b.negative { RawSign::Minus } else { RawSign::Plus };
    let xi = RawInt::from_bytes_le(xs, a.bytes.as_slice());
    let yi = RawInt::from_bytes_le(ys, b.bytes.as_slice());
    let x = substreams::scalar::BigDecimal::from(bigdecimal::BigDecimal::new(xi, a.scale));
    let y = substreams::scalar::BigDecimal::from(bigdecimal::BigDecimal::new(yi, b.scale));
    let (m, e) = (x * y).as_bigint_and_exponent();
    let (sign, by) = m.to_bytes_le();
    Decimal { negative: matches!(sign, RawSign::Minus), bytes: by, scale: e }
}

/// Relies on the `Display` rendering of `substreams::scalar::BigDecimal`
/// (deferring to the `bigdecimal` crate), the form in which prices are
/// persisted. Any scale is accepted: values whose decimal point falls
/// outside small threshold regions are rendered in exponential notation,
/// and a scale at the `i64` extreme goes through checked negation.
#[verifier::external_body]
pub fn dec_render(d: &Decimal) -> (r: String)
    requires
        mant_fits(d@),
    ensures
        r@ == render_of(d@),
{
    let sign = if d.negative { RawSign::Minus } else { RawSign::Plus };
    let i = RawInt::from_bytes_le(sign, d.bytes.as_slice());
    let x = substreams::scalar::BigDecimal::from(bigdecimal::BigDecimal::new(i, d.scale));
    x.to_string()
}

/// Relies on `substreams::scalar::BigDecimal::from_str` (deferring to the
/// `bigdecimal` crate): `Some` exactly on strings that parse as a decimal,
/// with overflowing exponents rejected as errors rather than panicking. The
/// magnitude handed back always has at least one digit.
#[verifier::external_body]
pub fn dec_parse(s: &str) -> (r: Option<Decimal>)
    ensures
        r is Some <==> parse_of(s@) is Some,
        r is Some ==> r->Some_0@ == parse_of(s@)->Some_0,
        r is Some ==> 1 <= r->Some_0@.bytes.len(),
{
    match substreams::scalar::BigDecimal::from_str(s) {
        Ok(d) => {
            let (m, e) = d.as_bigint_and_exponent();
            let (sign, by) = m.to_bytes_le();
            Some(Decimal { negative: matches!(sign, RawSign::Minus), bytes: by, scale: e })
        },
        Err(_) => None,
    }
}

} // verus!
