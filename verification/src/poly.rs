//! Dense polynomials over the scalar field, with the two evaluation-domain
//! operations the selector algebra needs: division by the vanishing
//! polynomial `x^n - 1` of a radix-2 domain of size `n`, and multiplication
//! by it.  Division is stated coefficient-wise: the quotient coefficient
//! `q_j` is the mod-p sum of the dividend coefficients `c_{j+n}, c_{j+2n},
//! ...`, and the remainder coefficient is `c_j + q_j`.

use vstd::prelude::*;

use crate::error::AhpError;
use crate::field::{f_add, f_mul, f_sub, vals, Fp};

verus! {

broadcast use crate::field::vals_len, crate::field::vals_index;

/// A dense polynomial; `coeffs[i]` is the coefficient of `x^i`.  Trailing
/// zero coefficients are permitted; `degree` skips them.
#[derive(Clone, Debug, PartialEq, Eq)]
pub struct DensePoly {
    pub coeffs: Vec<Fp>,
}

impl View for DensePoly {
    type V = Seq<nat>;

    open spec fn view(&self) -> Seq<nat> {
        vals(self.coeffs@)
    }
}

/// Coefficient `j` of the quotient of `c` by `x^n - 1`: the mod-p sum
/// `c[j+n] + c[j+2n] + ...` over the indices below `c.len()`.
pub open spec fn quot_coeff(c: Seq<nat>, n: nat, j: int) -> nat
    decreases c.len() - j,
{
    if n == 0 || j < 0 || j + n >= c.len() {
        0
    } else {
        f_add(c[j + n], quot_coeff(c, n, j + n))
    }
}

/// Coefficient `j` of the remainder of `c` by `x^n - 1` (meaningful for
/// `0 <= j < min(n, c.len())`).
pub open spec fn rem_coeff(c: Seq<nat>, n: nat, j: int) -> nat {
    f_add(if 0 <= j < c.len() { c[j] } else { 0 }, quot_coeff(c, n, j))
}

/// Coefficient `i` of the product of `c` with `x^n - 1`.
pub open spec fn mulvan_coeff(c: Seq<nat>, n: nat, i: int) -> nat {
    f_sub(
        if n <= i && i - n < c.len() { c[i - n] } else { 0 },
        if 0 <= i < c.len() { c[i] } else { 0 },
    )
}

/// The quotient of `c` by `x^n - 1`, as a coefficient sequence.
pub open spec fn quot_seq(c: Seq<nat>, n: nat) -> Seq<nat> {
    Seq::new(if c.len() > n { (c.len() - n) as nat } else { 0 }, |j: int| quot_coeff(c, n, j))
}

/// The remainder of `c` by `x^n - 1`, as a coefficient sequence.
pub open spec fn rem_seq(c: Seq<nat>, n: nat) -> Seq<nat> {
    Seq::new(if c.len() < n { c.len() } else { n }, |j: int| rem_coeff(c, n, j))
}

/// The product of `c` with `x^n - 1`, as a coefficient sequence.
pub open spec fn mulvan_seq(c: Seq<nat>, n: nat) -> Seq<nat> {
    Seq::new(if c.len() == 0 { 0 } else { c.len() + n }, |i: int| mulvan_coeff(c, n, i))
}

/// Every coefficient of `c` multiplied by `m`.
pub open spec fn scaled_seq(c: Seq<nat>, m: nat) -> Seq<nat> {
    Seq::new(c.len(), |i: int| f_mul(m, c[i]))
}

/// Whether every coefficient of `c` is zero.
pub open spec fn all_zero(c: Seq<nat>) -> bool {
    forall|i: int| 0 <= i < c.len() ==> c[i] == 0
}

/// Quotient coefficients of a division by `x^n - 1` are canonical
/// representatives.
pub proof fn lemma_quot_coeff_lt(c: Seq<nat>, n: nat, j: int)
    ensures
        quot_coeff(c, n, j) < crate::field::fp_modulus(),
    decreases c.len() - j,
{
    if n == 0 || j < 0 || j + n >= c.len() {
    } else {
        lemma_quot_coeff_lt(c, n, j + n);
    }
}

/// Division by the vanishing polynomial recomposes the dividend: each
/// coefficient of `c` equals the matching coefficient of
/// `quotient * (x^n - 1) + remainder` over the field.
pub proof fn lemma_division_recomposition(c: Seq<nat>, n: nat, i: int)
    requires
        1 <= n,
        0 <= i < c.len(),
        c[i] < crate::field::fp_modulus(),
    ensures
        c[i] == f_add(
            mulvan_coeff(quot_seq(c, n), n, i),
            if 0 <= i < rem_seq(c, n).len() {
                rem_seq(c, n)[i]
            } else {
                0
            },
        ),
{
    let p = crate::field::fp_modulus() as int;
    let q = quot_coeff(c, n, i);
    lemma_quot_coeff_lt(c, n, i);
    if i < quot_seq(c, n).len() {
        assert(quot_seq(c, n)[i] == q);
    } else {
        assert(q == 0);
    }
    if i >= n {
        assert(quot_coeff(c, n, i - n) == f_add(c[i], q));
        assert(mulvan_coeff(quot_seq(c, n), n, i) == f_sub(f_add(c[i], q), q));
        vstd::arithmetic::div_mod::lemma_sub_mod_noop(c[i] + q as int, q as int, p);
        vstd::arithmetic::div_mod::lemma_small_mod(q, crate::field::fp_modulus());
        vstd::arithmetic::div_mod::lemma_small_mod(c[i], crate::field::fp_modulus());
        vstd::arithmetic::div_mod::lemma_small_mod(
            f_sub(f_add(c[i], q), q),
            crate::field::fp_modulus(),
        );
    } else {
        assert(mulvan_coeff(quot_seq(c, n), n, i) == f_sub(0, q));
        assert(rem_seq(c, n)[i] == f_add(c[i], q));
        vstd::arithmetic::div_mod::lemma_add_mod_noop(0 - q, c[i] + q as int, p);
        vstd::arithmetic::div_mod::lemma_small_mod(c[i], crate::field::fp_modulus());
    }
}

/// The coefficient at `i`, with out-of-range indices contributing zero.
pub open spec fn coeff_or_zero(c: Seq<nat>, i: int) -> nat {
    if 0 <= i < c.len() {
        c[i]
    } else {
        0
    }
}

/// The mod-p sum of the `u` coefficients `c[j - n], c[j - 2n], ...,
/// c[j - u*n]`, peeled nearest-first.
pub open spec fn head_sum(c: Seq<nat>, n: nat, j: int, u: nat) -> nat
    decreases u,
{
    if u == 0 {
        0
    } else {
        f_add(coeff_or_zero(c, j - n), head_sum(c, n, j - n, (u - 1) as nat))
    }
}

/// `(a - b) + (b + s) == a + s` modulo p.
proof fn lemma_cancel_middle(a: nat, b: nat, s: nat)
    ensures
        f_add(f_sub(a, b), f_add(b, s)) == f_add(a, s),
{
    let p = crate::field::fp_modulus() as int;
    vstd::arithmetic::div_mod::lemma_add_mod_noop(a - b, b + s as int, p);
}

/// Adding two terms to a sum in either order gives the same value mod p.
proof fn lemma_add_swap(x: nat, y: nat, s: nat)
    ensures
        f_add(x, f_add(y, s)) == f_add(y, f_add(x, s)),
{
    let p = crate::field::fp_modulus() as int;
    vstd::arithmetic::div_mod::lemma_add_mod_noop_right(x as int, y + s as int, p);
    vstd::arithmetic::div_mod::lemma_add_mod_noop_right(y as int, x + s as int, p);
}

/// A term added outside a head sum equals the head sum extended one level
/// deeper, when the term sits at the next-deeper index.
proof fn lemma_head_sum_push(c: Seq<nat>, n: nat, j: int, u: nat, d: int)
    requires
        1 <= n,
        d == j - u * n - n,
    ensures
        f_add(coeff_or_zero(c, d), head_sum(c, n, j, u)) == head_sum(c, n, j, (u + 1) as nat),
    decreases u,
{
    if u == 0 {
        vstd::arithmetic::mul::lemma_mul_basics(n as int);
        assert(d == j - n);
        assert(head_sum(c, n, j - n, 0nat) == 0);
        assert(head_sum(c, n, j, 1nat) == f_add(coeff_or_zero(c, j - n), 0));
    } else {
        lemma_add_swap(
            coeff_or_zero(c, d),
            coeff_or_zero(c, j - n),
            head_sum(c, n, j - n, (u - 1) as nat),
        );
        assert((u - 1) * (n as int) == u * (n as int) - n) by (nonlinear_arith);
        lemma_head_sum_push(c, n, j - n, (u - 1) as nat, d);
        assert(head_sum(c, n, j, (u + 1) as nat) == f_add(
            coeff_or_zero(c, j - n),
            head_sum(c, n, j - n, u),
        ));
    }
}

/// A head sum whose every index lies below zero is zero.
proof fn lemma_head_sum_low(c: Seq<nat>, n: nat, j: int, u: nat)
    requires
        1 <= n,
        j < n,
    ensures
        head_sum(c, n, j, u) == 0,
    decreases u,
{
    if u == 0 {
    } else {
        lemma_head_sum_low(c, n, j - n, (u - 1) as nat);
    }
}

/// A head sum whose every index lies at or above the sequence's length is
/// zero.
proof fn lemma_head_sum_high(c: Seq<nat>, n: nat, j: int, u: nat)
    requires
        1 <= n,
        c.len() == 0 || j - u * n >= c.len(),
    ensures
        head_sum(c, n, j, u) == 0,
    decreases u,
{
    if u == 0 {
    } else {
        assert((u - 1) * (n as int) == u * (n as int) - n) by (nonlinear_arith);
        lemma_head_sum_high(c, n, j - n, (u - 1) as nat);
    }
}

/// The tail sum defining the remainder of `c * (x^(k*n) - 1)` by `x^n - 1`
/// at index `j` telescopes to the head sum of the `k` coefficients of `c`
/// just below `j`, stepping by `n`.
proof fn lemma_mulvan_tail(c: Seq<nat>, n: nat, k: nat, j: int)
    requires
        1 <= n,
        0 <= j,
    ensures
        rem_coeff(mulvan_seq(c, (k * n) as nat), n, j) == head_sum(c, n, j, k),
    decreases
            (if j <= c.len() + k * n {
                c.len() + k * n - j + 1
            } else {
                0
            }),
{
    let nt = (k * n) as nat;
    let e = mulvan_seq(c, nt);
    if c.len() == 0 || j >= c.len() + nt {
        assert(quot_coeff(e, n, j) == 0);
        assert(rem_coeff(e, n, j) == f_add(0, 0));
        if c.len() == 0 {
            lemma_head_sum_high(c, n, j, k);
        } else {
            assert(j - k * n >= c.len());
            lemma_head_sum_high(c, n, j, k);
        }
    } else {
        assert(e.len() == c.len() + nt);
        assert(e[j] == f_sub(coeff_or_zero(c, j - nt), coeff_or_zero(c, j)));
        if j + n < e.len() {
            assert(quot_coeff(e, n, j) == rem_coeff(e, n, j + n));
        } else {
            assert(quot_coeff(e, n, j) == 0);
            assert(quot_coeff(e, n, j + n) == 0);
            assert(rem_coeff(e, n, j + n) == f_add(0, 0));
            assert(quot_coeff(e, n, j) == rem_coeff(e, n, j + n));
        }
        lemma_mulvan_tail(c, n, k, j + n);
        if k == 0 {
            assert(rem_coeff(e, n, j) == f_add(f_sub(coeff_or_zero(c, j), coeff_or_zero(c, j)), 0));
        } else {
            assert(head_sum(c, n, j + n, k) == f_add(
                coeff_or_zero(c, j),
                head_sum(c, n, j, (k - 1) as nat),
            ));
            lemma_cancel_middle(
                coeff_or_zero(c, j - nt),
                coeff_or_zero(c, j),
                head_sum(c, n, j, (k - 1) as nat),
            );
            assert((k - 1) * (n as int) == k * (n as int) - n) by (nonlinear_arith);
            lemma_head_sum_push(c, n, j, (k - 1) as nat, j - nt);
        }
    }
}

/// When `n` divides `m`, the vanishing polynomial `x^n - 1` divides
/// `x^m - 1`, so it divides any polynomial multiplied by `x^m - 1`: the
/// remainder of `c * (x^m - 1)` by `x^n - 1` is the zero polynomial.
pub proof fn lemma_vanishing_divides_expansion(c: Seq<nat>, n: nat, m: nat)
    requires
        1 <= n,
        m % n == 0,
    ensures
        all_zero(rem_seq(mulvan_seq(c, m), n)),
{
    let k = m / n;
    vstd::arithmetic::div_mod::lemma_fundamental_div_mod(m as int, n as int);
    assert(m == k * n);
    assert forall|j: int|
        0 <= j < rem_seq(mulvan_seq(c, m), n).len() implies rem_seq(mulvan_seq(c, m), n)[j]
        == 0 by {
        lemma_mulvan_tail(c, n, k as nat, j);
        lemma_head_sum_low(c, n, j, k as nat);
    }
}

/// Exact divisibility: a polynomial whose remainder by `x^n - 1` is zero
/// is, coefficient for coefficient, its quotient multiplied back by
/// `x^n - 1` — the invariant the no-remainder selector mode asserts.
pub proof fn lemma_exact_division(c: Seq<nat>, n: nat, i: int)
    requires
        1 <= n,
        0 <= i < c.len(),
        c[i] < crate::field::fp_modulus(),
        all_zero(rem_seq(c, n)),
    ensures
        c[i] == mulvan_coeff(quot_seq(c, n), n, i),
{
    lemma_division_recomposition(c, n, i);
    if 0 <= i < rem_seq(c, n).len() {
        assert(rem_seq(c, n)[i] == 0);
    }
    vstd::arithmetic::div_mod::lemma_small_mod(
        mulvan_coeff(quot_seq(c, n), n, i),
        crate::field::fp_modulus(),
    );
}

/// Horner evaluation of the coefficient tail `c[i..]` at `x`.
pub open spec fn horner(c: Seq<nat>, x: nat, i: int) -> nat
    decreases c.len() - i,
{
    if i < 0 || i >= c.len() {
        0
    } else {
        f_add(f_mul(horner(c, x, i + 1), x), c[i])
    }
}

/// The value of the polynomial `c` at the point `x`.
pub open spec fn poly_eval(c: Seq<nat>, x: nat) -> nat {
    horner(c, x, 0)
}

/// The quotient coefficient `quot_coeff(vals(c@), n, j)`, computed by the
/// recursion that defines it.
fn quot_at(c: &Vec<Fp>, n: usize, j: usize) -> (r: Fp)
    requires
        1 <= n,
        j <= c@.len(),
    ensures
        r@ == quot_coeff(vals(c@), n as nat, j as int),
    decreases c@.len() - j,
{
    if c.len() - j <= n {
        Fp::zero()
    } else {
        let rest = quot_at(c, n, j + n);
        c[j + n].add(&rest)
    }
}

impl DensePoly {
    /// The polynomial with the given coefficients.
    pub fn from_coeffs(coeffs: Vec<Fp>) -> (r: DensePoly)
        ensures
            r@ == vals(coeffs@),
    {
        DensePoly { coeffs }
    }

    /// Whether every coefficient is zero.
    pub fn is_zero(&self) -> (r: bool)
        ensures
            r == (forall|i: int| 0 <= i < self@.len() ==> self@[i] == 0),
    {
        let mut i: usize = 0;
        while i < self.coeffs.len()
            invariant
                i <= self@.len(),
                forall|k: int| 0 <= k < i ==> self@[k] == 0,
            decreases self@.len() - i,
        {
            if !self.coeffs[i].is_zero() {
                proof {
                    assert(self@[i as int] != 0);
                }
                return false;
            }
            i = i + 1;
        }
        true
    }

    /// The index of the highest non-zero coefficient, or 0 for the zero
    /// polynomial.
    pub fn degree(&self) -> (d: usize)
        ensures
            (forall|i: int| 0 <= i < self@.len() ==> self@[i] == 0) ==> d == 0,
            !(forall|i: int| 0 <= i < self@.len() ==> self@[i] == 0) ==> {
                &&& d < self@.len()
                &&& self@[d as int] != 0
                &&& forall|i: int| d < i < self@.len() ==> self@[i] == 0
            },
    {
        let mut i: usize = self.coeffs.len();
        while i > 0
            invariant
                i <= self@.len(),
                forall|k: int| i <= k < self@.len() ==> self@[k] == 0,
            decreases i,
        {
            if !self.coeffs[i - 1].is_zero() {
                proof {
                    assert(self@[i - 1] != 0);
                }
                return i - 1;
            }
            i = i - 1;
        }
        0
    }

    /// Horner evaluation at the point `x`.
    pub fn evaluate(&self, x: &Fp) -> (r: Fp)
        ensures
            r@ == poly_eval(self@, x@),
    {
        let mut acc = Fp::zero();
        let mut i: usize = self.coeffs.len();
        while i > 0
            invariant
                i <= self@.len(),
                acc@ == horner(self@, x@, i as int),
            decreases i,
        {
            let shifted = acc.mul(x);
            acc = shifted.add(&self.coeffs[i - 1]);
            i = i - 1;
        }
        acc
    }

    /// Every coefficient multiplied by `m`.
    pub fn scale(&self, m: &Fp) -> (r: DensePoly)
        ensures
            r@.len() == self@.len(),
            forall|i: int| 0 <= i < self@.len() ==> r@[i] == f_mul(m@, self@[i]),
    {
        let mut out: Vec<Fp> = Vec::new();
        let mut i: usize = 0;
        while i < self.coeffs.len()
            invariant
                i <= self@.len(),
                out@.len() == i,
                forall|k: int| 0 <= k < i ==> out@[k]@ == f_mul(m@, self@[k]),
            decreases self@.len() - i,
        {
            out.push(m.mul(&self.coeffs[i]));
            i = i + 1;
        }
        DensePoly { coeffs: out }
    }

    /// Division with remainder by the vanishing polynomial `x^n - 1` of a
    /// domain of size `n`.  Fails exactly on the degenerate domain `n == 0`.
    pub fn divide_by_vanishing(&self, n: usize) -> (res: Result<(DensePoly, DensePoly), AhpError>)
        ensures
            res is Err <==> n == 0,
            res matches Err(e) ==> e == AhpError::UndefinedDivision,
            res matches Ok(qr) ==> {
                &&& qr.0@.len() == if self@.len() > n { self@.len() - n as int } else { 0 }
                &&& forall|j: int| 0 <= j < qr.0@.len() ==> qr.0@[j] == quot_coeff(
                    self@,
                    n as nat,
                    j,
                )
                &&& qr.1@.len() == if self@.len() < n { self@.len() as int } else { n as int }
                &&& forall|j: int| 0 <= j < qr.1@.len() ==> qr.1@[j] == rem_coeff(
                    self@,
                    n as nat,
                    j,
                )
            },
    {
        if n == 0 {
            return Err(AhpError::UndefinedDivision);
        }
        let len = self.coeffs.len();
        let qlen = if len > n { len - n } else { 0 };
        let mut q: Vec<Fp> = Vec::new();
        let mut j: usize = 0;
        while j < qlen
            invariant
                1 <= n,
                qlen == if self@.len() > n { self@.len() - n as int } else { 0 },
                j <= qlen,
                q@.len() == j,
                forall|k: int| 0 <= k < j ==> q@[k]@ == quot_coeff(self@, n as nat, k),
            decreases qlen - j,
        {
            q.push(quot_at(&self.coeffs, n, j));
            j = j + 1;
        }
        let rlen = if len < n { len } else { n };
        let mut r: Vec<Fp> = Vec::new();
        let mut i: usize = 0;
        while i < rlen
            invariant
                1 <= n,
                rlen == if self@.len() < n { self@.len() as int } else { n as int },
                i <= rlen,
                r@.len() == i,
                forall|k: int| 0 <= k < i ==> r@[k]@ == rem_coeff(self@, n as nat, k),
            decreases rlen - i,
        {
            let quot = quot_at(&self.coeffs, n, i);
            r.push(self.coeffs[i].add(&quot));
            i = i + 1;
        }
        Ok((DensePoly { coeffs: q }, DensePoly { coeffs: r }))
    }

    /// The product with the vanishing polynomial `x^n - 1` of a domain of
    /// size `n`.
    pub fn mul_by_vanishing(&self, n: usize) -> (r: DensePoly)
        requires
            self@.len() + n <= usize::MAX,
        ensures
            r@.len() == if self@.len() == 0 { 0 } else { self@.len() + n as int },
            forall|i: int| 0 <= i < r@.len() ==> r@[i] == mulvan_coeff(self@, n as nat, i),
    {
        if self.coeffs.len() == 0 {
            return DensePoly { coeffs: Vec::new() };
        }
        let out_len = self.coeffs.len() + n;
        let mut out: Vec<Fp> = Vec::new();
        let mut i: usize = 0;
        while i < out_len
            invariant
                self@.len() + n <= usize::MAX,
                out_len == self@.len() + n as int,
                self@.len() >= 1,
                i <= out_len,
                out@.len() == i,
                forall|k: int| 0 <= k < i ==> out@[k]@ == mulvan_coeff(self@, n as nat, k),
            decreases out_len - i,
        {
            let hi = if i >= n {
                self.coeffs[i - n]
            } else {
                Fp::zero()
            };
            let lo = if i < self.coeffs.len() {
                self.coeffs[i]
            } else {
                Fp::zero()
            };
            out.push(hi.sub(&lo));
            i = i + 1;
        }
        DensePoly { coeffs: out }
    }
}

} // verus!
