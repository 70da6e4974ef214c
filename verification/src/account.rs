use vstd::prelude::*;

verus! {

/// An opaque 160-bit account identifier, held as a 32-bit high limb and a
/// 128-bit low limb.  The all-zero value is the reserved sentinel: it can
/// never own a balance and serves only as the synthetic source of a mint and
/// the synthetic destination of a burn.
#[derive(Clone, Copy, PartialEq, Eq, Structural, Debug)]
pub struct Account {
    pub hi: u32,
    pub lo: u128,
}

impl Account {
    /// The reserved zero-address sentinel, as a specification value.
    pub open spec fn spec_zero() -> Account {
        Account { hi: 0, lo: 0 }
    }

    pub fn new(hi: u32, lo: u128) -> (r: Account)
        ensures
            r == (Account { hi, lo }),
    {
        Account { hi, lo }
    }

    /// The reserved zero-address sentinel.
    pub fn zero() -> (r: Account)
        ensures
            r == Account::spec_zero(),
    {
        Account { hi: 0, lo: 0 }
    }

    /// Whether this identifier is the reserved zero-address sentinel.
    pub fn is_zero(&self) -> (r: bool)
        ensures
            r == (*self == Account::spec_zero()),
    {
        self.hi == 0 && self.lo == 0
    }
}

} // verus!
