//! Arithmetic for the signature scheme's prime-order group.
//!
//! Scalars and group elements are residues modulo a fixed prime.  The
//! prime lies below 2^32 so that the product of two reduced values fits
//! in a `u64` and every operation can be verified free of overflow.

use vstd::prelude::*;

verus! {

/// Order of the scalar field and of the group: a prime below 2^32.
pub const FIELD_ORDER: u64 = 4294967291;

/// The fixed generator that maps scalars to group elements.
pub const GENERATOR: u64 = 5;

/// Multiplicative inverse of `GENERATOR` modulo `FIELD_ORDER`.
pub const GENERATOR_INV: u64 = 3435973833;

/// Field sum of two residues.
pub open spec fn fadd(a: int, b: int) -> int {
    (a + b) % (FIELD_ORDER as int)
}

/// Field difference of two residues.
pub open spec fn fsub(a: int, b: int) -> int {
    (a - b) % (FIELD_ORDER as int)
}

/// Field product of two residues.
pub open spec fn fmul(a: int, b: int) -> int {
    (a * b) % (FIELD_ORDER as int)
}

/// A residue is reduced when it lies below the field order.
pub open spec fn reduced(v: int) -> bool {
    0 <= v < FIELD_ORDER
}

/// A scalar of the signature scheme: an exponent for the group.
#[derive(Clone, Copy, PartialEq, Eq, Structural, Debug)]
pub struct Scalar {
    pub v: u64,
}

/// A group element; the aggregated key, nonce points and public keys
/// all live here.  The group identity is the zero residue.
#[derive(Clone, Copy, PartialEq, Eq, Structural, Debug)]
pub struct Point {
    pub v: u64,
}

impl Scalar {
    /// A scalar is well formed when its residue is reduced.
    pub open spec fn wf(self) -> bool {
        reduced(self.v as int)
    }

    /// Reduce an arbitrary machine word into the field.
    pub fn new(v: u64) -> (r: Scalar)
        ensures
            r.wf(),
            r.v == v % FIELD_ORDER,
    {
        Scalar { v: v % FIELD_ORDER }
    }

    /// Field addition of scalars.
    pub fn add_mod(self, o: Scalar) -> (r: Scalar)
        requires
            self.wf(),
            o.wf(),
        ensures
            r.wf(),
            r.v == fadd(self.v as int, o.v as int),
    {
        Scalar { v: (self.v + o.v) % FIELD_ORDER }
    }

    /// Field multiplication of scalars.
    pub fn mul_mod(self, o: Scalar) -> (r: Scalar)
        requires
            self.wf(),
            o.wf(),
        ensures
            r.wf(),
            r.v == fmul(self.v as int, o.v as int),
    {
        proof {
            lemma_reduced_product_fits(self.v as int, o.v as int);
        }
        Scalar { v: (self.v * o.v) % FIELD_ORDER }
    }
}

impl Point {
    /// A group element is well formed when its residue is reduced.
    pub open spec fn wf(self) -> bool {
        reduced(self.v as int)
    }

    /// The group identity.
    pub open spec fn spec_identity() -> Point {
        Point { v: 0 }
    }

    /// The group identity, executable form.
    pub fn identity() -> (r: Point)
        ensures
            r == Point::spec_identity(),
            r.wf(),
    {
        Point { v: 0 }
    }

    /// The distinguished generator of the group.
    pub open spec fn spec_generator() -> Point {
        Point { v: GENERATOR }
    }

    /// The distinguished generator, executable form.
    pub fn generator() -> (r: Point)
        ensures
            r == Point::spec_generator(),
            r.wf(),
    {
        Point { v: GENERATOR }
    }

    /// Group addition.
    pub fn add_point(self, o: Point) -> (r: Point)
        requires
            self.wf(),
            o.wf(),
        ensures
            r.wf(),
            r.v == fadd(self.v as int, o.v as int),
    {
        Point { v: (self.v + o.v) % FIELD_ORDER }
    }

    /// Scalar multiplication: the element scaled by the exponent `s`.
    pub fn scaled_by(self, s: Scalar) -> (r: Point)
        requires
            self.wf(),
            s.wf(),
        ensures
            r.wf(),
            r.v == fmul(s.v as int, self.v as int),
    {
        proof {
            lemma_reduced_product_fits(s.v as int, self.v as int);
        }
        Point { v: (s.v * self.v) % FIELD_ORDER }
    }
}

/// The residue of the public key belonging to the secret scalar `x`.
pub open spec fn pubkey_res(x: int) -> int {
    fmul(x, GENERATOR as int)
}

/// Derive the public key of a secret scalar.
pub fn derive_pubkey(x: Scalar) -> (r: Point)
    requires
        x.wf(),
    ensures
        r.wf(),
        r.v == pubkey_res(x.v as int),
{
    Point::generator().scaled_by(x)
}

/// Adding a reduced non-zero offset moves every reduced residue.
pub proof fn lemma_fadd_cancel(t: int, d: int)
    requires
        reduced(t),
        reduced(d),
    ensures
        (fadd(t, d) == t) <==> (d == 0),
{
    let m = FIELD_ORDER as int;
    if d == 0 {
        vstd::arithmetic::div_mod::lemma_small_mod(t as nat, FIELD_ORDER as nat);
    } else {
        if t + d < m {
            vstd::arithmetic::div_mod::lemma_small_mod((t + d) as nat, FIELD_ORDER as nat);
        } else {
            vstd::arithmetic::div_mod::lemma_mod_add_multiples_vanish(t + d - m, m);
            vstd::arithmetic::div_mod::lemma_small_mod((t + d - m) as nat, FIELD_ORDER as nat);
        }
    }
}

/// A difference of reduced residues vanishes in the field only when
/// the residues are equal.
pub proof fn lemma_fsub_zero(a: int, b: int)
    requires
        reduced(a),
        reduced(b),
    ensures
        (fsub(a, b) == 0) <==> (a == b),
{
    let m = FIELD_ORDER as int;
    if a == b {
        assert(fsub(a, b) == 0int % m);
    } else if a > b {
        vstd::arithmetic::div_mod::lemma_small_mod((a - b) as nat, FIELD_ORDER as nat);
    } else {
        vstd::arithmetic::div_mod::lemma_mod_add_multiples_vanish(a - b, m);
        vstd::arithmetic::div_mod::lemma_small_mod((a - b + m) as nat, FIELD_ORDER as nat);
    }
}

/// Field multiplication is commutative.
pub proof fn lemma_fmul_comm(a: int, b: int)
    ensures
        fmul(a, b) == fmul(b, a),
{
    vstd::arithmetic::mul::lemma_mul_is_commutative(a, b);
}

/// Field multiplication is associative.
pub proof fn lemma_fmul_assoc(a: int, b: int, c: int)
    ensures
        fmul(fmul(a, b), c) == fmul(a, fmul(b, c)),
{
    let m = FIELD_ORDER as int;
    vstd::arithmetic::div_mod::lemma_mul_mod_noop_left(a * b, c, m);
    vstd::arithmetic::div_mod::lemma_mul_mod_noop_right(a, b * c, m);
    vstd::arithmetic::mul::lemma_mul_is_associative(a, b, c);
}

/// Field multiplication distributes over field addition.
pub proof fn lemma_fmul_dist(a: int, b: int, c: int)
    ensures
        fmul(fadd(a, b), c) == fadd(fmul(a, c), fmul(b, c)),
{
    let m = FIELD_ORDER as int;
    vstd::arithmetic::div_mod::lemma_mul_mod_noop_left(a + b, c, m);
    vstd::arithmetic::mul::lemma_mul_is_distributive_add_other_way(c, a, b);
    vstd::arithmetic::div_mod::lemma_add_mod_noop(a * c, b * c, m);
}

/// Scaling by the generator is injective on reduced residues: the
/// generator is invertible in the field.
pub proof fn lemma_scale_by_generator_injective(a: int, b: int)
    requires
        reduced(a),
        reduced(b),
        fmul(a, GENERATOR as int) == fmul(b, GENERATOR as int),
    ensures
        a == b,
{
    let m = FIELD_ORDER as int;
    let g = GENERATOR as int;
    let w = GENERATOR_INV as int;
    assert(5int * 3435973833int == 4int * 4294967291int + 1int) by (nonlinear_arith);
    assert(g * w == 4 * m + 1);
    vstd::arithmetic::div_mod::lemma_mod_add_multiples_vanish(1, m);
    vstd::arithmetic::div_mod::lemma_mod_add_multiples_vanish(1 + m, m);
    vstd::arithmetic::div_mod::lemma_mod_add_multiples_vanish(1 + 2 * m, m);
    vstd::arithmetic::div_mod::lemma_mod_add_multiples_vanish(1 + 3 * m, m);
    vstd::arithmetic::div_mod::lemma_small_mod(1nat, FIELD_ORDER as nat);
    assert(fmul(g, w) == 1);
    lemma_fmul_assoc(a, g, w);
    lemma_fmul_assoc(b, g, w);
    assert(fmul(a, fmul(g, w)) == fmul(b, fmul(g, w)));
    vstd::arithmetic::mul::lemma_mul_basics(a);
    vstd::arithmetic::mul::lemma_mul_basics(b);
    vstd::arithmetic::div_mod::lemma_small_mod(a as nat, FIELD_ORDER as nat);
    vstd::arithmetic::div_mod::lemma_small_mod(b as nat, FIELD_ORDER as nat);
}

/// The zero residue annihilates under field multiplication.
pub proof fn lemma_fmul_zero(a: int)
    ensures
        fmul(0, a) == 0,
        fmul(a, 0) == 0,
        fadd(0, 0) == 0,
{
    vstd::arithmetic::mul::lemma_mul_basics(a);
    vstd::arithmetic::div_mod::lemma_small_mod(0nat, FIELD_ORDER as nat);
}

/// Two two-element field sums can trade their second summands.
pub proof fn lemma_fadd_4_swap(a: int, b: int, d: int, e: int)
    ensures
        fadd(fadd(a, b), fadd(d, e)) == fadd(fadd(a, d), fadd(b, e)),
{
    let m = FIELD_ORDER as int;
    vstd::arithmetic::div_mod::lemma_add_mod_noop(a + b, d + e, m);
    vstd::arithmetic::div_mod::lemma_add_mod_noop(a + d, b + e, m);
}

/// Field addition cancels on the left for reduced addends.
pub proof fn lemma_fadd_left_cancel(r: int, u: int, v: int)
    requires
        reduced(u),
        reduced(v),
        fadd(r, u) == fadd(r, v),
    ensures
        u == v,
{
    let m = FIELD_ORDER as int;
    vstd::arithmetic::div_mod::lemma_fundamental_div_mod(r + u, m);
    vstd::arithmetic::div_mod::lemma_fundamental_div_mod(r + v, m);
    let q1 = (r + u) / m;
    let q2 = (r + v) / m;
    assert(u - v == m * (q1 - q2));
    if q1 - q2 >= 1 {
        vstd::arithmetic::mul::lemma_mul_inequality(1, q1 - q2, m);
    } else if q2 - q1 >= 1 {
        vstd::arithmetic::mul::lemma_mul_inequality(1, q2 - q1, m);
        assert(m * (q2 - q1) == (q2 - q1) * m) by (nonlinear_arith);
        assert(m * (q1 - q2) == -(m * (q2 - q1))) by (nonlinear_arith);
    } else {
        assert(q1 == q2);
    }
    if q1 - q2 >= 1 {
        assert(m * (q1 - q2) == (q1 - q2) * m) by (nonlinear_arith);
    }
}

/// Field multiplication distributes over field subtraction.
pub proof fn lemma_fmul_dist_sub(a: int, b: int, c: int)
    ensures
        fmul(fsub(a, b), c) == fsub(fmul(a, c), fmul(b, c)),
{
    let m = FIELD_ORDER as int;
    vstd::arithmetic::div_mod::lemma_mul_mod_noop_left(a - b, c, m);
    vstd::arithmetic::mul::lemma_mul_is_distributive_sub_other_way(c, a, b);
    vstd::arithmetic::div_mod::lemma_sub_mod_noop(a * c, b * c, m);
}

/// Every element of a sequence of residues is reduced.
pub open spec fn all_reduced(s: Seq<int>) -> bool {
    forall|i: int| 0 <= i < s.len() ==> reduced(#[trigger] s[i])
}

/// The field sum of a sequence of residues.
pub open spec fn sum_res(s: Seq<int>) -> int
    decreases s.len(),
{
    if s.len() == 0 {
        0
    } else {
        fadd(sum_res(s.drop_last()), s.last())
    }
}

/// A field sum is itself reduced.
pub proof fn lemma_sum_res_reduced(s: Seq<int>)
    ensures
        reduced(sum_res(s)),
    decreases s.len(),
{
    if s.len() == 0 {
    } else {
        lemma_sum_res_reduced(s.drop_last());
        vstd::arithmetic::div_mod::lemma_mod_bound(
            sum_res(s.drop_last()) + s.last(),
            FIELD_ORDER as int,
        );
    }
}

/// Extending a prefix by one element extends its field sum.
pub proof fn lemma_sum_res_extend(s: Seq<int>, i: int)
    requires
        0 <= i < s.len(),
    ensures
        sum_res(s.subrange(0, i + 1)) == fadd(sum_res(s.subrange(0, i)), s[i]),
{
    let p = s.subrange(0, i + 1);
    assert(p.drop_last() =~= s.subrange(0, i));
    assert(p.last() == s[i]);
}

/// Adding `x` and then the field difference of `q` and `x` is the
/// same as adding `q` outright.
pub proof fn lemma_fadd_shift(base: int, x: int, q: int)
    ensures
        fadd(fadd(base, x), fsub(q, x)) == fadd(base, q),
{
    let m = FIELD_ORDER as int;
    vstd::arithmetic::div_mod::lemma_add_mod_noop(base + x, q - x, m);
    vstd::arithmetic::div_mod::lemma_mod_twice(base + x, m);
    vstd::arithmetic::div_mod::lemma_mod_twice(q - x, m);
}

/// The order in which two residues are folded into a sum is immaterial.
pub proof fn lemma_fadd_swap(base: int, u: int, v: int)
    ensures
        fadd(fadd(base, u), v) == fadd(fadd(base, v), u),
{
    let m = FIELD_ORDER as int;
    vstd::arithmetic::div_mod::lemma_add_mod_noop_right(v, base + u, m);
    vstd::arithmetic::div_mod::lemma_add_mod_noop_right(u, base + v, m);
}

/// Replacing one element of a sequence shifts its field sum by the
/// field difference of the new and old elements.
pub proof fn lemma_sum_res_update(s: Seq<int>, j: int, q: int)
    requires
        0 <= j < s.len(),
    ensures
        sum_res(s.update(j, q)) == fadd(sum_res(s), fsub(q, s[j])),
    decreases s.len(),
{
    let t = s.update(j, q);
    if j == s.len() - 1 {
        assert(t.drop_last() =~= s.drop_last());
        let base = sum_res(s.drop_last());
        lemma_fadd_shift(base, s[j], q);
    } else {
        assert(t.drop_last() =~= s.drop_last().update(j, q));
        assert(t.last() == s.last());
        lemma_sum_res_update(s.drop_last(), j, q);
        let base = sum_res(s.drop_last());
        let d = fsub(q, s[j]);
        assert(s.drop_last()[j] == s[j]);
        lemma_fadd_swap(base, d, s.last());
    }
}

/// The product of two reduced residues fits in a `u64`.
pub proof fn lemma_reduced_product_fits(a: int, b: int)
    requires
        reduced(a),
        reduced(b),
    ensures
        0 <= a * b <= (FIELD_ORDER - 1) * (FIELD_ORDER - 1),
        a * b <= 0xffff_ffff_ffff_ffff,
{
    vstd::arithmetic::mul::lemma_mul_upper_bound(
        a,
        (FIELD_ORDER - 1) as int,
        b,
        (FIELD_ORDER - 1) as int,
    );
    vstd::arithmetic::mul::lemma_mul_nonnegative(a, b);
    assert((4294967290int) * 4294967290int <= 0xffff_ffff_ffff_ffff) by (nonlinear_arith);
}

} // verus!
