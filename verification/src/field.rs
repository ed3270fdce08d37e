//! Elements of the BLS12-377 scalar field, held in canonical (non-Montgomery)
//! form as four 64-bit limbs, little-endian.  All arithmetic is delegated to
//! `snarkvm_fields`; the contracts state the results as integers modulo the
//! field order.

use vstd::prelude::*;

use snarkvm_curves::bls12_377::Fr;
use snarkvm_fields::{FftField, Field, PrimeField};
use snarkvm_utilities::biginteger::BigInteger256;
use snarkvm_utilities::Uniform;

verus! {

/// The order of the BLS12-377 scalar field.
pub open spec fn fp_modulus() -> nat {
    8444461749428370424248824938781546531375899335154063827935233455917409239041nat
}

/// Field addition on canonical representatives.
pub open spec fn f_add(a: nat, b: nat) -> nat {
    (a + b) % fp_modulus()
}

/// Field subtraction on canonical representatives.
pub open spec fn f_sub(a: nat, b: nat) -> nat {
    (((a - b) % (fp_modulus() as int))) as nat
}

/// Field multiplication on canonical representatives.
pub open spec fn f_mul(a: nat, b: nat) -> nat {
    (a * b) % fp_modulus()
}

/// Field exponentiation by a natural number.
pub open spec fn f_pow(b: nat, e: nat) -> nat
    decreases e,
{
    if e == 0 {
        1
    } else {
        f_mul(b, f_pow(b, (e - 1) as nat))
    }
}

/// One element of the scalar field, as its canonical representative
/// `d0 + d1*2^64 + d2*2^128 + d3*2^192 < fp_modulus()`.
#[derive(Clone, Copy, Debug, PartialEq, Eq, Structural)]
pub struct Fp {
    d0: u64,
    d1: u64,
    d2: u64,
    d3: u64,
}

impl View for Fp {
    type V = nat;

    closed spec fn view(&self) -> nat {
        (self.d0
            + self.d1 * 18446744073709551616nat
            + self.d2 * 340282366920938463463374607431768211456nat
            + self.d3 * 6277101735386680763835789423207666416102355444464034512896nat) as nat
    }
}

impl Fp {
    /// Every element holds a canonical representative: its value is below
    /// the field order.
    #[verifier::type_invariant]
    pub open spec fn in_field(self) -> bool {
        self@ < fp_modulus()
    }

    /// The additive identity.
    pub fn zero() -> (r: Fp)
        ensures
            r@ == 0,
    {
        Fp { d0: 0, d1: 0, d2: 0, d3: 0 }
    }

    /// The multiplicative identity (the constant wire's value).
    pub fn one() -> (r: Fp)
        ensures
            r@ == 1,
    {
        Fp { d0: 1, d1: 0, d2: 0, d3: 0 }
    }

    /// Embeds a machine integer into the field.
    pub fn from_u64(x: u64) -> (r: Fp)
        ensures
            r@ == x as nat,
    {
        Fp { d0: x, d1: 0, d2: 0, d3: 0 }
    }

    pub fn is_zero(&self) -> (r: bool)
        ensures
            r == (self@ == 0),
    {
        self.d0 == 0 && self.d1 == 0 && self.d2 == 0 && self.d3 == 0
    }

    pub fn is_one(&self) -> (r: bool)
        ensures
            r == (self@ == 1),
    {
        self.d0 == 1 && self.d1 == 0 && self.d2 == 0 && self.d3 == 0
    }

    pub fn add(&self, other: &Fp) -> (r: Fp)
        ensures
            r@ == f_add(self@, other@),
    {
        fr_add(self, other)
    }

    pub fn sub(&self, other: &Fp) -> (r: Fp)
        ensures
            r@ == f_sub(self@, other@),
    {
        fr_sub(self, other)
    }

    pub fn mul(&self, other: &Fp) -> (r: Fp)
        ensures
            r@ == f_mul(self@, other@),
    {
        fr_mul(self, other)
    }

    /// The multiplicative inverse; `None` exactly for the zero element.
    pub fn inverse(&self) -> (r: Option<Fp>)
        ensures
            r is Some <==> self@ != 0,
            r matches Some(v) ==> f_mul(self@, v@) == 1,
    {
        fr_inverse(self)
    }

    /// Exponentiation by repeated multiplication.
    pub fn pow(&self, e: u64) -> (r: Fp)
        ensures
            r@ == f_pow(self@, e as nat),
    {
        let mut acc = Fp::one();
        let mut i: u64 = 0;
        while i < e
            invariant
                i <= e,
                acc@ == f_pow(self@, i as nat),
            decreases e - i,
        {
            let ghost prev = acc@;
            acc = acc.mul(self);
            proof {
                vstd::arithmetic::mul::lemma_mul_is_commutative(prev as int, self@ as int);
                assert(acc@ == f_pow(self@, (i + 1) as nat));
            }
            i = i + 1;
        }
        acc
    }
}

/// A root of unity of exactly the requested power-of-two order, if the
/// field has one.
pub fn root_of_unity(n: usize) -> (r: Option<Fp>)
    ensures
        r is Some <==> (is_pow2(n as nat) && n <= 0x800000000000),
        r matches Some(w) ==> f_pow(w@, n as nat) == 1,
        r matches Some(w) ==> (n >= 2 ==> f_pow(w@, (n / 2) as nat) != 1),
{
    fr_root_of_unity(n)
}

/// The canonical representatives of a sequence of field elements.
pub open spec fn vals(s: Seq<Fp>) -> Seq<nat> {
    s.map_values(|x: Fp| x@)
}

/// Two elements with the same canonical representative are the same
/// element: the little-endian limb representation of a value is unique.
pub proof fn lemma_view_injective(x: Fp, y: Fp)
    requires
        x@ == y@,
    ensures
        x == y,
{
    lemma_limbs_of_view(x.d0, x.d1, x.d2, x.d3);
    lemma_limbs_of_view(y.d0, y.d1, y.d2, y.d3);
}

/// Each limb of the weighted limb sum is recovered by dividing and taking
/// remainders by the limb base, so the sum determines the limbs.
proof fn lemma_limbs_of_view(d0: u64, d1: u64, d2: u64, d3: u64)
    ensures
        ({
            let w = 18446744073709551616int;
            let v = d0 + d1 * w + d2 * (w * w) + d3 * (w * w * w);
            &&& v % w == d0
            &&& (v / w) % w == d1
            &&& ((v / w) / w) % w == d2
            &&& (((v / w) / w) / w) == d3
        }),
{
    let v = d0 + d1 * 18446744073709551616int
        + d2 * 340282366920938463463374607431768211456int
        + d3 * 6277101735386680763835789423207666416102355444464034512896int;
    let k1 = d1 + d2 * 18446744073709551616int
        + d3 * 340282366920938463463374607431768211456int;
    let k2 = d2 + d3 * 18446744073709551616int;
    assert(v == 18446744073709551616int * k1 + d0);
    vstd::arithmetic::div_mod::lemma_mod_multiples_vanish(k1, d0 as int, 18446744073709551616int);
    vstd::arithmetic::div_mod::lemma_small_mod(d0 as nat, 18446744073709551616nat);
    vstd::arithmetic::div_mod::lemma_div_multiples_vanish_fancy(
        k1,
        d0 as int,
        18446744073709551616int,
    );
    assert(v / 18446744073709551616int == k1);
    assert(k1 == 18446744073709551616int * k2 + d1);
    vstd::arithmetic::div_mod::lemma_mod_multiples_vanish(k2, d1 as int, 18446744073709551616int);
    vstd::arithmetic::div_mod::lemma_small_mod(d1 as nat, 18446744073709551616nat);
    vstd::arithmetic::div_mod::lemma_div_multiples_vanish_fancy(
        k2,
        d1 as int,
        18446744073709551616int,
    );
    assert(k1 / 18446744073709551616int == k2);
    assert(k2 == 18446744073709551616int * (d3 as int) + d2);
    vstd::arithmetic::div_mod::lemma_mod_multiples_vanish(
        d3 as int,
        d2 as int,
        18446744073709551616int,
    );
    vstd::arithmetic::div_mod::lemma_small_mod(d2 as nat, 18446744073709551616nat);
    vstd::arithmetic::div_mod::lemma_div_multiples_vanish_fancy(
        d3 as int,
        d2 as int,
        18446744073709551616int,
    );
    assert(k2 / 18446744073709551616int == d3);
}

/// The smallest power of two that is at least `n` (and at least 1).
pub open spec fn next_pow2(n: nat) -> nat
    decreases n,
{
    if n <= 1 {
        1
    } else {
        2 * next_pow2(((n + 1) / 2) as nat)
    }
}

/// `next_pow2(n)` is at least `n`.
pub proof fn lemma_next_pow2_ge(n: nat)
    ensures
        next_pow2(n) >= n,
        next_pow2(n) >= 1,
    decreases n,
{
    if n <= 1 {
    } else {
        lemma_next_pow2_ge(((n + 1) / 2) as nat);
    }
}

/// A power of two that is at least `n` and minimally so is `next_pow2(n)`.
pub proof fn lemma_next_pow2_unique(n: nat, p: nat)
    requires
        is_pow2(p),
        n <= p,
        p == 1 || p / 2 < n,
    ensures
        p == next_pow2(n),
    decreases n,
{
    if n <= 1 {
    } else {
        lemma_next_pow2_unique(((n + 1) / 2) as nat, (p / 2) as nat);
    }
}

/// Distinct powers of two are separated by at least a factor of two.
pub proof fn lemma_pow2_ordering(a: nat, b: nat)
    requires
        is_pow2(a),
        is_pow2(b),
        a < b,
    ensures
        2 * a <= b,
    decreases b,
{
    if b <= 1 {
    } else if a < b / 2 {
        lemma_pow2_ordering(a, b / 2);
    } else if b / 2 < a {
        lemma_pow2_ordering(b / 2, a);
    }
}

/// The field's two-adic bound `2^47` is a power of two.
pub proof fn lemma_pow2_47()
    ensures
        is_pow2(140737488355328nat),
{
    reveal_with_fuel(is_pow2, 50);
}

/// Zero raised to any positive power is zero.
pub proof fn lemma_f_pow_zero(e: nat)
    requires
        1 <= e,
    ensures
        f_pow(0, e) == 0,
{
    assert(f_pow(0, e) == f_mul(0, f_pow(0, (e - 1) as nat)));
    assert(0 * f_pow(0, (e - 1) as nat) == 0);
}

pub broadcast proof fn vals_len(s: Seq<Fp>)
    ensures
        #[trigger] vals(s).len() == s.len(),
{
}

pub broadcast proof fn vals_index(s: Seq<Fp>, i: int)
    requires
        0 <= i < s.len(),
    ensures
        #[trigger] vals(s)[i] == s[i]@,
{
}

/// Whether `n` is a power of two.
pub open spec fn is_pow2(n: nat) -> bool
    decreases n,
{
    if n == 0 {
        false
    } else if n == 1 {
        true
    } else {
        n % 2 == 0 && is_pow2(n / 2)
    }
}

/// Relies on `snarkvm_fields`' addition for the BLS12-377 scalar field:
/// `Fr::from_bigint` reads a canonical representative (defined for every
/// value below the field order), `+` adds modulo the order, and
/// `Fr::to_bigint` returns the canonical representative of the sum.
#[verifier::external_body]
fn fr_add(a: &Fp, b: &Fp) -> (r: Fp)
    ensures
        r@ == f_add(a@, b@),
{
    let x = Fr::from_bigint(BigInteger256([a.d0, a.d1, a.d2, a.d3])).unwrap();
    let y = Fr::from_bigint(BigInteger256([b.d0, b.d1, b.d2, b.d3])).unwrap();
    let l = (x + y).to_bigint().0;
    Fp { d0: l[0], d1: l[1], d2: l[2], d3: l[3] }
}

/// Relies on `snarkvm_fields`' subtraction for the BLS12-377 scalar field,
/// through the same canonical conversions as `fr_add`.
#[verifier::external_body]
fn fr_sub(a: &Fp, b: &Fp) -> (r: Fp)
    ensures
        r@ == f_sub(a@, b@),
{
    let x = Fr::from_bigint(BigInteger256([a.d0, a.d1, a.d2, a.d3])).unwrap();
    let y = Fr::from_bigint(BigInteger256([b.d0, b.d1, b.d2, b.d3])).unwrap();
    let l = (x - y).to_bigint().0;
    Fp { d0: l[0], d1: l[1], d2: l[2], d3: l[3] }
}

/// Relies on `snarkvm_fields`' multiplication for the BLS12-377 scalar
/// field, through the same canonical conversions as `fr_add`.
#[verifier::external_body]
fn fr_mul(a: &Fp, b: &Fp) -> (r: Fp)
    ensures
        r@ == f_mul(a@, b@),
{
    let x = Fr::from_bigint(BigInteger256([a.d0, a.d1, a.d2, a.d3])).unwrap();
    let y = Fr::from_bigint(BigInteger256([b.d0, b.d1, b.d2, b.d3])).unwrap();
    let l = (x * y).to_bigint().0;
    Fp { d0: l[0], d1: l[1], d2: l[2], d3: l[3] }
}

/// Relies on `snarkvm_fields::Field::inverse`, which returns `None` exactly
/// on the zero element and otherwise the multiplicative inverse.
#[verifier::external_body]
fn fr_inverse(a: &Fp) -> (r: Option<Fp>)
    ensures
        r is Some <==> a@ != 0,
        r matches Some(v) ==> f_mul(a@, v@) == 1,
{
    let x = Fr::from_bigint(BigInteger256([a.d0, a.d1, a.d2, a.d3])).unwrap();
    match x.inverse() {
        None => None,
        Some(y) => {
            let l = y.to_bigint().0;
            Some(Fp { d0: l[0], d1: l[1], d2: l[2], d3: l[3] })
        }
    }
}

/// Relies on `snarkvm_utilities::Uniform::rand` for the BLS12-377 scalar
/// field, which samples a field element; `to_bigint` returns its canonical
/// representative, below the field order.
#[verifier::external_body]
pub(crate) fn fr_random(rng: &mut rand::rngs::StdRng) -> Fp {
    let l = Fr::rand(rng).to_bigint().0;
    Fp { d0: l[0], d1: l[1], d2: l[2], d3: l[3] }
}

/// Relies on `snarkvm_fields::FftField::get_root_of_unity`: for this field it
/// returns `Some` exactly when `n` is a power of two within the field's
/// two-adicity of 47, and the returned element is the 2-adic root of unity
/// of order exactly `n` (the two-adic generator, of order `2^47`, raised to
/// `2^(47 - log2 n)`), so its `n/2`-th power is not the identity.
#[verifier::external_body]
fn fr_root_of_unity(n: usize) -> (r: Option<Fp>)
    ensures
        r is Some <==> (is_pow2(n as nat) && n <= 0x800000000000),
        r matches Some(w) ==> f_pow(w@, n as nat) == 1,
        r matches Some(w) ==> (n >= 2 ==> f_pow(w@, (n / 2) as nat) != 1),
{
    match <Fr as FftField>::get_root_of_unity(n) {
        None => None,
        Some(w) => {
            let l = w.to_bigint().0;
            Some(Fp { d0: l[0], d1: l[1], d2: l[2], d3: l[3] })
        }
    }
}

} // verus!
