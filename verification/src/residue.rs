use vstd::prelude::*;
use vstd::arithmetic::div_mod::{
    lemma_add_mod_noop, lemma_add_mod_noop_right, lemma_fundamental_div_mod,
    lemma_mul_mod_noop_general, lemma_small_mod, lemma_sub_mod_noop, lemma_sub_mod_noop_right,
};
use vstd::arithmetic::mul::{
    lemma_mul_is_associative, lemma_mul_is_commutative, lemma_mul_is_distributive_add,
    lemma_mul_is_distributive_sub,
};
use crate::algebra::{Field, Ring};
use crate::scalar::Scalar;

verus! {

/// The modulus of the residues: the Mersenne prime `2^31 - 1`.
pub const MODULUS: u64 = 2147483647;

/// The modulus as a mathematical integer.
pub open spec fn modulus() -> int {
    2147483647
}

/// The next coefficient of Euclid's algorithm, kept below the modulus.
pub open spec fn next_coefficient(r0: int, r1: int, s0: int, s1: int) -> int {
    (s0 - (r0 / r1) * s1) % modulus()
}

/// The coefficient that Euclid's algorithm ends with when it starts from the
/// remainders `r0` and `r1` with the coefficients `s0` and `s1`.
pub open spec fn euclid(r0: int, r1: int, s0: int, s1: int) -> int
    decreases r1,
{
    if r1 <= 0 {
        s0
    } else {
        euclid(r1, r0 % r1, s1, next_coefficient(r0, r1, s0, s1))
    }
}

/// An integer modulo `2^31 - 1`: a scalar whose arithmetic is exact.
#[derive(Debug, Clone, Copy, PartialEq, Eq)]
pub struct Residue {
    pub value: u64,
}

impl Residue {
    /// The residue of `n`.
    pub open spec fn of(n: int) -> Residue {
        Residue { value: (n % modulus()) as u64 }
    }

    /// The residue that gives one when multiplied with this one, or zero where
    /// this one is zero.
    pub open spec fn inverse_spec(self) -> Residue {
        if self.value % MODULUS == 0 {
            Residue::of(0)
        } else {
            Residue::of(euclid(modulus(), (self.value % MODULUS) as int, 0, 1))
        }
    }

    /// The residue of `n`.
    pub fn new(n: u64) -> (r: Self)
        ensures
            r == Self::of(n as int),
    {
        Residue { value: n % MODULUS }
    }

    /// The residue that gives one when multiplied with this one, or zero where
    /// this one is zero.
    pub fn inverse(self) -> (r: Self)
        ensures
            r == self.inverse_spec(),
    {
        let b: u64 = self.value % MODULUS;
        if b == 0 {
            return Residue { value: 0 };
        }
        let mut r0: u64 = MODULUS;
        let mut r1: u64 = b;
        let mut s0: u64 = 0;
        let mut s1: u64 = 1;
        while r1 != 0
            invariant
                0 <= r1 < r0 <= MODULUS,
                s0 < MODULUS,
                s1 < MODULUS,
                euclid(r0 as int, r1 as int, s0 as int, s1 as int) == euclid(
                    modulus(),
                    b as int,
                    0,
                    1,
                ),
            decreases r1,
        {
            let q: u64 = r0 / r1;
            let r2: u64 = r0 % r1;
            proof {
                assert((q % MODULUS) * s1 <= MODULUS * MODULUS) by (nonlinear_arith)
                    requires
                        q % MODULUS <= MODULUS,
                        s1 <= MODULUS,
                ;
            }
            let qs: u64 = (q % MODULUS) * s1 % MODULUS;
            let s2: u64 = (s0 + MODULUS - qs) % MODULUS;
            proof {
                lemma_mul_mod_noop_general(q as int, s1 as int, modulus());
                assert(qs as int == (q * s1) % modulus());
                lemma_sub_mod_noop_right(s0 as int, q * s1, modulus());
                lemma_add_mod_noop_right(s0 - qs, modulus(), modulus());
            }
            r0 = r1;
            r1 = r2;
            s0 = s1;
            s1 = s2;
        }
        proof {
            lemma_small_mod(s0 as nat, MODULUS as nat);
        }
        Residue { value: s0 }
    }
}

impl Scalar for Residue {
    open spec fn zero_spec() -> Self {
        Residue::of(0)
    }

    open spec fn one_spec() -> Self {
        Residue::of(1)
    }

    open spec fn from_usize_spec(n: usize) -> Self {
        Residue::of(n as int)
    }

    open spec fn tolerance_spec() -> Self {
        Residue::of(0)
    }

    open spec fn add_spec(self, rhs: Self) -> Self {
        Residue::of(self.value + rhs.value)
    }

    open spec fn sub_spec(self, rhs: Self) -> Self {
        Residue::of(self.value - rhs.value)
    }

    open spec fn mul_spec(self, rhs: Self) -> Self {
        Residue::of(self.value * rhs.value)
    }

    open spec fn div_spec(self, rhs: Self) -> Self {
        self.mul_spec(rhs.inverse_spec())
    }

    open spec fn neg_spec(self) -> Self {
        Residue::of(-self.value)
    }

    open spec fn lt_spec(self, rhs: Self) -> bool {
        self.value % MODULUS < rhs.value % MODULUS
    }

    fn zero() -> Self {
        Residue { value: 0 }
    }

    fn one() -> Self {
        Residue { value: 1 }
    }

    fn from_usize(n: usize) -> Self {
        Residue { value: (n % 2147483647) as u64 }
    }

    fn tolerance() -> Self {
        Residue { value: 0 }
    }

    fn add(self, rhs: Self) -> Self {
        let a: u64 = self.value % MODULUS;
        let b: u64 = rhs.value % MODULUS;
        proof {
            lemma_add_mod_noop(self.value as int, rhs.value as int, modulus());
        }
        Residue { value: (a + b) % MODULUS }
    }

    fn sub(self, rhs: Self) -> Self {
        let a: u64 = self.value % MODULUS;
        let b: u64 = rhs.value % MODULUS;
        proof {
            lemma_sub_mod_noop(self.value as int, rhs.value as int, modulus());
            lemma_add_mod_noop_right(a - b, modulus(), modulus());
        }
        Residue { value: (a + MODULUS - b) % MODULUS }
    }

    fn mul(self, rhs: Self) -> Self {
        let a: u64 = self.value % MODULUS;
        let b: u64 = rhs.value % MODULUS;
        proof {
            assert(a * b <= MODULUS * MODULUS) by (nonlinear_arith)
                requires
                    a <= MODULUS,
                    b <= MODULUS,
            ;
            lemma_mul_mod_noop_general(self.value as int, rhs.value as int, modulus());
        }
        Residue { value: a * b % MODULUS }
    }

    fn div(self, rhs: Self) -> Self {
        self.mul(rhs.inverse())
    }

    fn neg(self) -> Self {
        let a: u64 = self.value % MODULUS;
        proof {
            lemma_sub_mod_noop(0, self.value as int, modulus());
            lemma_add_mod_noop_right(0 - a, modulus(), modulus());
        }
        Residue { value: (MODULUS - a) % MODULUS }
    }

    fn lt(self, rhs: Self) -> bool {
        self.value % MODULUS < rhs.value % MODULUS
    }
}

impl Ring for Residue {
    open spec fn canonical(self) -> bool {
        self.value < MODULUS
    }

    proof fn lemma_canonical_results(a: Self, b: Self) {
    }

    proof fn lemma_add_commutative(a: Self, b: Self) {
    }

    proof fn lemma_add_associative(a: Self, b: Self, c: Self) {
        let m = modulus();
        let (x, y, z) = (a.value as int, b.value as int, c.value as int);
        lemma_add_mod_noop(x + y, z, m);
        lemma_add_mod_noop(x, y + z, m);
        lemma_small_mod((z % m) as nat, m as nat);
        lemma_small_mod((x % m) as nat, m as nat);
        assert(((x + y) % m + z) % m == (x + y + z) % m) by {
            lemma_add_mod_noop(x + y, z, m);
            lemma_add_mod_noop((x + y) % m, z, m);
            lemma_small_mod(((x + y) % m) as nat, m as nat);
        }
        assert((x + (y + z) % m) % m == (x + y + z) % m) by {
            lemma_add_mod_noop_right(x, y + z, m);
        }
    }

    proof fn lemma_add_zero(a: Self) {
        lemma_small_mod(a.value as nat, MODULUS as nat);
    }

    proof fn lemma_add_neg(a: Self) {
        lemma_add_mod_noop_right(a.value as int, -(a.value as int), modulus());
    }

    proof fn lemma_sub_is_add_neg(a: Self, b: Self) {
        lemma_add_mod_noop_right(a.value as int, -(b.value as int), modulus());
    }

    proof fn lemma_mul_commutative(a: Self, b: Self) {
        lemma_mul_is_commutative(a.value as int, b.value as int);
    }

    proof fn lemma_mul_associative(a: Self, b: Self, c: Self) {
        let m = modulus();
        let (x, y, z) = (a.value as int, b.value as int, c.value as int);
        lemma_mul_mod_noop_general(x * y, z, m);
        lemma_mul_mod_noop_general(x, y * z, m);
        lemma_mul_is_associative(x, y, z);
    }

    proof fn lemma_mul_one(a: Self) {
        lemma_small_mod(a.value as nat, MODULUS as nat);
        assert(a.value * 1 == a.value);
    }

    proof fn lemma_mul_distributive(a: Self, b: Self, c: Self) {
        let m = modulus();
        let (x, y, z) = (a.value as int, b.value as int, c.value as int);
        lemma_mul_mod_noop_general(x, y + z, m);
        lemma_mul_is_distributive_add(x, y, z);
        lemma_add_mod_noop(x * y, x * z, m);
    }

    proof fn lemma_from_usize_zero() {
    }

    proof fn lemma_from_usize_succ(n: usize) {
        lemma_add_mod_noop(n as int, 1, modulus());
    }
}

/// Whether `d` divides `n`.
pub open spec fn divides(d: int, n: int) -> bool {
    n % d == 0
}

/// No number from two up to the root of the modulus has a cofactor that
/// gives the modulus.
#[verifier::rlimit(100)]
proof fn lemma_no_small_divisor(d: u32, e: u32)
    requires
        2 <= d < 46341,
        e < 0x8000_0000,
    ensures
        (d as u64) * (e as u64) != 2147483647,
{
    assert(2 <= d && d < 46341 && e < 0x8000_0000 ==> (d as u64) * (e as u64)
        != 2147483647u64) by (bit_vector);
}

/// The modulus is prime: nothing between one and itself divides it.
pub proof fn lemma_modulus_prime(d: int)
    requires
        1 < d < modulus(),
    ensures
        !divides(d, modulus()),
{
    if divides(d, modulus()) {
        let e = modulus() / d;
        lemma_fundamental_div_mod(modulus(), d);
        assert(d * e == modulus());
        assert(2 <= e < modulus()) by (nonlinear_arith)
            requires
                1 < d < modulus(),
                d * e == modulus(),
                modulus() == 2147483647,
        ;
        if d < 46341 {
            lemma_no_small_divisor(d as u32, e as u32);
        } else {
            assert(e < 46341) by (nonlinear_arith)
                requires
                    46341 <= d,
                    0 <= e,
                    d * e == 2147483647,
            ;
            lemma_mul_is_commutative(d, e);
            lemma_no_small_divisor(e as u32, d as u32);
        }
    }
}

/// Euclid's algorithm on the modulus and a number below it ends with a
/// coefficient that is an inverse of that number.
pub proof fn lemma_euclid(b: int, r0: int, r1: int, s0: int, s1: int)
    requires
        0 < b < modulus(),
        0 <= r1 < r0 <= modulus(),
        (b * s0) % modulus() == r0 % modulus(),
        (b * s1) % modulus() == r1 % modulus(),
        forall|d: int|
            d > 0 && #[trigger] divides(d, r0) && divides(d, r1) ==> divides(d, modulus())
                && divides(d, b),
    ensures
        (b * euclid(r0, r1, s0, s1)) % modulus() == 1,
    decreases r1,
{
    let m = modulus();
    if r1 == 0 {
        assert(divides(r0, r0)) by {
            vstd::arithmetic::div_mod::lemma_mod_self_0(r0);
        }
        assert(divides(r0, r1));
        assert(divides(r0, m) && divides(r0, b));
        if r0 == m {
            lemma_small_mod(b as nat, m as nat);
        } else if r0 > 1 {
            lemma_modulus_prime(r0);
        }
        assert(r0 == 1);
    } else {
        let q = r0 / r1;
        let r2 = r0 % r1;
        let s2 = next_coefficient(r0, r1, s0, s1);
        lemma_fundamental_div_mod(r0, r1);
        assert(r0 == r1 * q + r2);
        lemma_mul_is_commutative(r1, q);
        assert((b * s2) % m == r2 % m) by {
            lemma_mul_mod_noop_general(b, s0 - q * s1, m);
            lemma_mul_is_distributive_sub(b, s0, q * s1);
            lemma_mul_is_associative(b, q, s1);
            lemma_mul_is_commutative(b, q);
            lemma_mul_is_associative(q, b, s1);
            assert(b * (s0 - q * s1) == b * s0 - q * (b * s1));
            lemma_sub_mod_noop(b * s0, q * (b * s1), m);
            lemma_mul_mod_noop_general(q, b * s1, m);
            lemma_mul_mod_noop_general(q, r1, m);
            lemma_sub_mod_noop(r0, q * r1, m);
        }
        assert forall|d: int| d > 0 && #[trigger] divides(d, r1) && divides(d, r2) implies divides(
            d,
            m,
        ) && divides(d, b) by {
            lemma_mul_mod_noop_general(q, r1, d);
            lemma_add_mod_noop(q * r1, r2, d);
            assert((q * 0) == 0);
            assert(divides(d, r0));
        }
        lemma_euclid(b, r1, r2, s1, s2);
    }
}

impl Residue {
    /// The inverse of a residue other than zero gives one when multiplied
    /// with it.
    pub proof fn lemma_inverse(self)
        requires
            self.value % MODULUS != 0,
        ensures
            self.mul_spec(self.inverse_spec()) == Residue::of(1),
            self.inverse_spec().mul_spec(self) == Residue::of(1),
    {
        let m = modulus();
        let b = (self.value % MODULUS) as int;
        let x = euclid(m, b, 0, 1);
        assert((b * 0) % m == m % m) by {
            assert(b * 0 == 0);
        }
        assert((b * 1) % m == b % m) by {
            assert(b * 1 == b);
        }
        lemma_euclid(b, m, b, 0, 1);
        lemma_mul_mod_noop_general(self.value as int, x, m);
        lemma_mul_is_commutative(self.value as int, (x % m));
    }
}

impl Field for Residue {
    proof fn lemma_div_canonical(a: Self, b: Self) {
    }

    proof fn lemma_div_mul(a: Self, b: Self) {
        let inverse = b.inverse_spec();
        lemma_small_mod(b.value as nat, MODULUS as nat);
        lemma_small_mod(a.value as nat, MODULUS as nat);
        b.lemma_inverse();
        Self::lemma_mul_associative(a, inverse, b);
        assert(a.value * 1 == a.value);
    }

    proof fn lemma_zero_negligible() {
    }

    proof fn lemma_one_not_zero() {
    }

    proof fn lemma_negligible_is_zero(a: Self) {
        lemma_small_mod(a.value as nat, MODULUS as nat);
    }

    proof fn lemma_tolerance_exact() {
    }

    proof fn lemma_zero_is_least(a: Self) {
    }
}

} // verus!
