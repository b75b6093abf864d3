//! A small prime field: the scalar type every cell of the table holds.
//!
//! Elements are residues modulo the prime `P`. The spec-level functions
//! `f_add`, `f_sub`, `f_mul`, `f_neg` and `f_inv` say what each operation
//! returns as plain modular arithmetic on `int`, and every executable
//! operation is proved against them. Inverses exist for every nonzero
//! residue; that fact is established once by computation and is what the
//! cancellation lemmas (and through them the is-zero gadget) rest on.

use vstd::prelude::*;
use vstd::arithmetic::div_mod::{
    lemma_mod_add_multiples_vanish, lemma_mul_mod_noop_left, lemma_mul_mod_noop_right,
    lemma_small_mod,
};
use vstd::arithmetic::mul::lemma_mul_is_associative;

verus! {

/// The field modulus. Prime, and large enough that every value the
/// bundled chips and their callers work with is its own residue.
pub const P: u64 = 61;

/// Sum of two residues.
pub open spec fn f_add(a: int, b: int) -> int {
    (a + b) % (P as int)
}

/// Difference of two residues.
pub open spec fn f_sub(a: int, b: int) -> int {
    (a - b) % (P as int)
}

/// Product of two residues.
pub open spec fn f_mul(a: int, b: int) -> int {
    (a * b) % (P as int)
}

/// Additive inverse of a residue.
pub open spec fn f_neg(a: int) -> int {
    (-a) % (P as int)
}

/// `b` is a reduced multiplicative inverse of `a`.
pub open spec fn inv_ok(a: int, b: int) -> bool {
    1 <= b < P as int && (a * b) % (P as int) == 1
}

/// Multiplicative inverse of a residue; a residue with no inverse
/// (only 0 has none) maps to 0.
pub open spec fn f_inv(a: int) -> int {
    if exists|b: int| inv_ok(a, b) {
        choose|b: int| inv_ok(a, b)
    } else {
        0
    }
}

/// A field element: a residue modulo `P`.
#[derive(Clone, Copy, PartialEq, Eq, Structural, Debug)]
pub struct Fp {
    v: u64,
}

impl Fp {
    /// The residue this element stands for.
    pub closed spec fn val(self) -> int {
        self.v as int
    }

    /// The representative is reduced.
    pub closed spec fn wf(self) -> bool {
        self.v < P
    }

    /// The additive identity.
    pub fn zero() -> (r: Fp)
        ensures
            r.wf(),
            r.val() == 0,
    {
        Fp { v: 0 }
    }

    /// The multiplicative identity.
    pub fn one() -> (r: Fp)
        ensures
            r.wf(),
            r.val() == 1,
    {
        Fp { v: 1 }
    }

    /// The residue of an arbitrary machine integer.
    pub fn from_u64(x: u64) -> (r: Fp)
        ensures
            r.wf(),
            r.val() == x as int % (P as int),
    {
        Fp { v: x % P }
    }

    /// Whether this element is the additive identity.
    pub fn is_zero(self) -> (r: bool)
        requires
            self.wf(),
        ensures
            r <==> self.val() == 0,
    {
        self.v == 0
    }

    /// Field addition.
    pub fn add(self, o: Fp) -> (r: Fp)
        requires
            self.wf(),
            o.wf(),
        ensures
            r.wf(),
            r.val() == f_add(self.val(), o.val()),
    {
        Fp { v: (self.v + o.v) % P }
    }

    /// Field subtraction.
    pub fn sub(self, o: Fp) -> (r: Fp)
        requires
            self.wf(),
            o.wf(),
        ensures
            r.wf(),
            r.val() == f_sub(self.val(), o.val()),
    {
        proof {
            lemma_mod_add_multiples_vanish(self.val() - o.val(), P as int);
        }
        Fp { v: (self.v + P - o.v) % P }
    }

    /// Field multiplication.
    pub fn mul(self, o: Fp) -> (r: Fp)
        requires
            self.wf(),
            o.wf(),
        ensures
            r.wf(),
            r.val() == f_mul(self.val(), o.val()),
    {
        proof {
            assert(self.v * o.v <= 60 * 60) by (nonlinear_arith)
                requires
                    self.v < 61 && o.v < 61,
            ;
        }
        Fp { v: (self.v * o.v) % P }
    }

    /// Field negation.
    pub fn neg(self) -> (r: Fp)
        requires
            self.wf(),
        ensures
            r.wf(),
            r.val() == f_neg(self.val()),
    {
        proof {
            lemma_mod_add_multiples_vanish(-self.val(), P as int);
        }
        Fp { v: (P - self.v) % P }
    }

    /// Multiplicative inverse; the additive identity maps to itself.
    pub fn inverse(self) -> (r: Fp)
        requires
            self.wf(),
        ensures
            r.wf(),
            r.val() == f_inv(self.val()),
            self.val() != 0 ==> f_mul(self.val(), r.val()) == 1,
            self.val() == 0 ==> r.val() == 0,
    {
        if self.v == 0 {
            proof {
                lemma_zero_has_no_inverse();
            }
            return Fp { v: 0 };
        }
        let a = self.v;
        let mut b: u64 = 1;
        while b < P
            invariant
                1 <= b <= P,
                0 < a < P,
                a == self.v,
                forall|j: int| 1 <= j < b ==> #[trigger] ((a as int * j) % (P as int)) != 1,
            decreases P - b,
        {
            proof {
                assert(a * b <= 60 * 60) by (nonlinear_arith)
                    requires
                        a < 61 && b < 61,
                ;
            }
            if (a * b) % P == 1 {
                proof {
                    lemma_inv_unique(a as int, b as int);
                }
                return Fp { v: b };
            }
            b = b + 1;
        }
        proof {
            lemma_inv_exists(a as int);
            let c = choose|x: int| inv_ok(a as int, x);
            assert(inv_ok(a as int, c));
            assert(false);
        }
        Fp { v: 0 }
    }
}

/// The additive identity has no multiplicative inverse; `f_inv` sends it to 0.
pub proof fn lemma_zero_has_no_inverse()
    ensures
        f_inv(0) == 0,
{
    assert forall|b: int| !inv_ok(0, b) by {
        assert(0 * b == 0);
    }
}

/// Every nonzero residue has a multiplicative inverse.
pub proof fn lemma_inv_exists(a: int)
    requires
        1 <= a < P as int,
    ensures
        exists|b: int| inv_ok(a, b),
{
    if a == 1 {
        assert(inv_ok(a, 1));
    } else if a == 2 {
        assert(inv_ok(a, 31));
    } else if a == 3 {
        assert(inv_ok(a, 41));
    } else if a == 4 {
        assert(inv_ok(a, 46));
    } else if a == 5 {
        assert(inv_ok(a, 49));
    } else if a == 6 {
        assert(inv_ok(a, 51));
    } else if a == 7 {
        assert(inv_ok(a, 35));
    } else if a == 8 {
        assert(inv_ok(a, 23));
    } else if a == 9 {
        assert(inv_ok(a, 34));
    } else if a == 10 {
        assert(inv_ok(a, 55));
    } else if a == 11 {
        assert(inv_ok(a, 50));
    } else if a == 12 {
        assert(inv_ok(a, 56));
    } else if a == 13 {
        assert(inv_ok(a, 47));
    } else if a == 14 {
        assert(inv_ok(a, 48));
    } else if a == 15 {
        assert(inv_ok(a, 57));
    } else if a == 16 {
        assert(inv_ok(a, 42));
    } else if a == 17 {
        assert(inv_ok(a, 18));
    } else if a == 18 {
        assert(inv_ok(a, 17));
    } else if a == 19 {
        assert(inv_ok(a, 45));
    } else if a == 20 {
        assert(inv_ok(a, 58));
    } else if a == 21 {
        assert(inv_ok(a, 32));
    } else if a == 22 {
        assert(inv_ok(a, 25));
    } else if a == 23 {
        assert(inv_ok(a, 8));
    } else if a == 24 {
        assert(inv_ok(a, 28));
    } else if a == 25 {
        assert(inv_ok(a, 22));
    } else if a == 26 {
        assert(inv_ok(a, 54));
    } else if a == 27 {
        assert(inv_ok(a, 52));
    } else if a == 28 {
        assert(inv_ok(a, 24));
    } else if a == 29 {
        assert(inv_ok(a, 40));
    } else if a == 30 {
        assert(inv_ok(a, 59));
    } else if a == 31 {
        assert(inv_ok(a, 2));
    } else if a == 32 {
        assert(inv_ok(a, 21));
    } else if a == 33 {
        assert(inv_ok(a, 37));
    } else if a == 34 {
        assert(inv_ok(a, 9));
    } else if a == 35 {
        assert(inv_ok(a, 7));
    } else if a == 36 {
        assert(inv_ok(a, 39));
    } else if a == 37 {
        assert(inv_ok(a, 33));
    } else if a == 38 {
        assert(inv_ok(a, 53));
    } else if a == 39 {
        assert(inv_ok(a, 36));
    } else if a == 40 {
        assert(inv_ok(a, 29));
    } else if a == 41 {
        assert(inv_ok(a, 3));
    } else if a == 42 {
        assert(inv_ok(a, 16));
    } else if a == 43 {
        assert(inv_ok(a, 44));
    } else if a == 44 {
        assert(inv_ok(a, 43));
    } else if a == 45 {
        assert(inv_ok(a, 19));
    } else if a == 46 {
        assert(inv_ok(a, 4));
    } else if a == 47 {
        assert(inv_ok(a, 13));
    } else if a == 48 {
        assert(inv_ok(a, 14));
    } else if a == 49 {
        assert(inv_ok(a, 5));
    } else if a == 50 {
        assert(inv_ok(a, 11));
    } else if a == 51 {
        assert(inv_ok(a, 6));
    } else if a == 52 {
        assert(inv_ok(a, 27));
    } else if a == 53 {
        assert(inv_ok(a, 38));
    } else if a == 54 {
        assert(inv_ok(a, 26));
    } else if a == 55 {
        assert(inv_ok(a, 10));
    } else if a == 56 {
        assert(inv_ok(a, 12));
    } else if a == 57 {
        assert(inv_ok(a, 15));
    } else if a == 58 {
        assert(inv_ok(a, 20));
    } else if a == 59 {
        assert(inv_ok(a, 30));
    } else {
        assert(inv_ok(a, 60));
    }
}

/// `f_inv` names the one reduced inverse of every nonzero residue.
pub proof fn lemma_inv_correct(a: int)
    requires
        1 <= a < P as int,
    ensures
        1 <= f_inv(a) < P as int,
        f_mul(a, f_inv(a)) == 1,
{
    lemma_inv_exists(a);
    let c = choose|b: int| inv_ok(a, b);
    assert(inv_ok(a, c));
}

/// A reduced inverse witness is the value `f_inv` names: inverses are unique.
pub proof fn lemma_inv_unique(a: int, w: int)
    requires
        0 <= a < P as int,
        inv_ok(a, w),
    ensures
        f_inv(a) == w,
{
    let c = choose|b: int| inv_ok(a, b);
    assert(inv_ok(a, c));
    lemma_mul_left_undoes(a, w, w);
    lemma_mul_left_undoes(a, w, c);
    lemma_small_mod(w as nat, P as nat);
    assert(f_mul(w, 1) == w % (P as int));
}

/// Multiplication by a nonzero residue is injective.
pub proof fn lemma_mul_cancel(a: int, x: int, y: int)
    requires
        1 <= a < P as int,
        0 <= x < P as int,
        0 <= y < P as int,
        f_mul(a, x) == f_mul(a, y),
    ensures
        x == y,
{
    lemma_inv_correct(a);
    let ai = f_inv(a);
    lemma_mul_left_undoes(a, ai, x);
    lemma_mul_left_undoes(a, ai, y);
}

/// Multiplying by an inverse pair is the identity: `ai * (a * x) == x`.
proof fn lemma_mul_left_undoes(a: int, ai: int, x: int)
    requires
        0 <= a < P as int,
        0 <= ai < P as int,
        0 <= x < P as int,
        (a * ai) % (P as int) == 1,
    ensures
        f_mul(ai, f_mul(a, x)) == x,
{
    let p = P as int;
    lemma_mul_mod_noop_right(ai, a * x, p);
    assert(ai * (a * x) == (ai * a) * x) by {
        lemma_mul_is_associative(ai, a, x);
    }
    lemma_mul_mod_noop_left(ai * a, x, p);
    assert((ai * a) % p == 1) by {
        assert(ai * a == a * ai) by (nonlinear_arith);
    }
    lemma_small_mod(x as nat, p as nat);
}

/// A well-formed element stands for a reduced residue.
pub proof fn lemma_wf_range(x: Fp)
    requires
        x.wf(),
    ensures
        0 <= x.val() < P as int,
{
}

/// The element standing for a reduced residue.
pub closed spec fn fp_residue(a: int) -> Fp {
    Fp { v: a as u64 }
}

/// `fp_residue` really does stand for its residue.
pub proof fn lemma_fp_residue(a: int)
    requires
        0 <= a < P as int,
    ensures
        fp_residue(a).wf(),
        fp_residue(a).val() == a,
{
}

/// An element is determined by the residue it stands for.
pub proof fn lemma_fp_ext(a: Fp, b: Fp)
    requires
        a.val() == b.val(),
    ensures
        a == b,
{
}

/// Two reduced residues subtract to zero exactly when they are equal.
pub proof fn lemma_sub_zero_iff_eq(a: int, b: int)
    requires
        0 <= a < P as int,
        0 <= b < P as int,
    ensures
        f_sub(a, b) == 0 <==> a == b,
{
    let p = P as int;
    let d = a - b;
    if d != 0 {
        if d > 0 {
            lemma_small_mod(d as nat, p as nat);
        } else {
            lemma_mod_add_multiples_vanish(d, p);
            lemma_small_mod((d + p) as nat, p as nat);
        }
    }
}

/// Multiplying by the additive identity yields it, on either side.
pub proof fn lemma_mul_zero(a: int)
    ensures
        f_mul(0, a) == 0,
        f_mul(a, 0) == 0,
{
    assert(0 * a == 0) by (nonlinear_arith);
    assert(a * 0 == 0) by (nonlinear_arith);
}

/// Field multiplication is commutative.
pub proof fn lemma_mul_comm(a: int, b: int)
    ensures
        f_mul(a, b) == f_mul(b, a),
{
    assert(a * b == b * a) by (nonlinear_arith);
}

/// A prime field has no zero divisors.
pub proof fn lemma_no_zero_divisors(a: int, b: int)
    requires
        0 <= a < P as int,
        0 <= b < P as int,
        f_mul(a, b) == 0,
        a != 0,
    ensures
        b == 0,
{
    assert(f_mul(a, 0) == 0) by {
        assert(a * 0 == 0) by (nonlinear_arith);
    }
    lemma_mul_cancel(a, b, 0);
}

} // verus!
