use vstd::prelude::*;

verus! {

/// An unsigned 256-bit integer, held as two 128-bit limbs.  Token amounts
/// and token identifiers both live in this numeric domain.  The domain is
/// unsigned, so a subtraction is performed only once it is known not to
/// underflow, and an addition only once it is known not to overflow.
#[derive(Clone, Copy, PartialEq, Eq, Structural, Debug)]
pub struct Uint256 {
    pub hi: u128,
    pub lo: u128,
}

impl Uint256 {
    /// The weight of the high limb: 2^128.
    pub open spec fn limb_base() -> int {
        0x1_0000_0000_0000_0000_0000_0000_0000_0000int
    }

    /// One past the largest representable value: 2^256.
    pub open spec fn modulus() -> int {
        0x1_0000_0000_0000_0000_0000_0000_0000_0000_0000_0000_0000_0000_0000_0000_0000_0000int
    }

    /// The mathematical value of this 256-bit integer.
    pub open spec fn as_int(self) -> int {
        self.hi as int * Uint256::limb_base() + self.lo as int
    }

    /// The zero value, as a specification value.
    pub open spec fn spec_zero() -> Uint256 {
        Uint256 { hi: 0, lo: 0 }
    }

    /// Every representable value lies in the 256-bit range.
    pub proof fn lemma_in_range(self)
        ensures
            0 <= self.as_int() < Uint256::modulus(),
    {
    }

    /// Equal mathematical values are held by equal limb pairs.
    pub proof fn lemma_as_int_injective(a: Uint256, b: Uint256)
        requires
            a.as_int() == b.as_int(),
        ensures
            a == b,
    {
    }

    pub fn new(hi: u128, lo: u128) -> (r: Uint256)
        ensures
            r == (Uint256 { hi, lo }),
            r.as_int() == hi * Uint256::limb_base() + lo,
    {
        Uint256 { hi, lo }
    }

    pub fn zero() -> (r: Uint256)
        ensures
            r == Uint256::spec_zero(),
            r.as_int() == 0,
    {
        Uint256 { hi: 0, lo: 0 }
    }

    pub fn from_u128(v: u128) -> (r: Uint256)
        ensures
            r.as_int() == v,
    {
        Uint256 { hi: 0, lo: v }
    }

    pub fn is_zero(&self) -> (r: bool)
        ensures
            r == (self.as_int() == 0),
    {
        self.hi == 0 && self.lo == 0
    }

    /// Strict comparison of the mathematical values.
    pub fn lt(&self, other: &Uint256) -> (r: bool)
        ensures
            r == (self.as_int() < other.as_int()),
    {
        self.hi < other.hi || (self.hi == other.hi && self.lo < other.lo)
    }

    /// Sum of two values known to fit in 256 bits.
    pub fn add(self, other: Uint256) -> (r: Uint256)
        requires
            self.as_int() + other.as_int() < Uint256::modulus(),
        ensures
            r.as_int() == self.as_int() + other.as_int(),
    {
        let (lo, carry): (u128, u128) = if self.lo <= u128::MAX - other.lo {
            (self.lo + other.lo, 0)
        } else {
            (self.lo - (u128::MAX - other.lo) - 1, 1)
        };
        assert(lo as int == self.lo as int + other.lo as int - carry * Uint256::limb_base());
        assert(self.hi as int + other.hi as int + carry < Uint256::limb_base());
        let hi = self.hi + other.hi + carry;
        Uint256 { hi, lo }
    }

    /// Difference of two values known not to underflow.
    pub fn sub(self, other: Uint256) -> (r: Uint256)
        requires
            other.as_int() <= self.as_int(),
        ensures
            r.as_int() == self.as_int() - other.as_int(),
    {
        let (lo, borrow): (u128, u128) = if self.lo >= other.lo {
            (self.lo - other.lo, 0)
        } else {
            (u128::MAX - other.lo + 1 + self.lo, 1)
        };
        assert(lo as int == self.lo as int - other.lo as int + borrow * Uint256::limb_base());
        assert(other.hi as int + borrow <= self.hi as int);
        let hi = self.hi - other.hi - borrow;
        Uint256 { hi, lo }
    }
}

} // verus!
