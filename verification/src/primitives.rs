//! Fixed-width chain values: account addresses, transaction hashes and
//! 256-bit unsigned amounts, held as plain bytes and words.

use vstd::prelude::*;

verus! {

/// A 20-byte account or contract address.
#[derive(Clone, Copy, Debug, Hash)]
pub struct Address {
    pub bytes: [u8; 20],
}

/// A 32-byte transaction hash.
#[derive(Clone, Copy, Debug, Hash)]
pub struct H256 {
    pub bytes: [u8; 32],
}

/// An unsigned 256-bit integer, as four 64-bit words, least significant first.
#[derive(Clone, Copy, Debug, Hash)]
pub struct U256 {
    pub limbs: [u64; 4],
}

impl Address {
    /// The address whose bytes are all zero.
    pub fn zero() -> (a: Address)
        ensures
            a.bytes@ == Seq::new(20, |i: int| 0u8),
    {
        let a = Address { bytes: [0u8; 20] };
        assert(a.bytes@ =~= Seq::new(20, |i: int| 0u8));
        a
    }

    /// The address whose bytes all equal `byte`.
    pub fn repeat_byte(byte: u8) -> (a: Address)
        ensures
            a.bytes@ == Seq::new(20, |i: int| byte),
    {
        let a = Address { bytes: [byte; 20] };
        assert(a.bytes@ =~= Seq::new(20, |i: int| byte));
        a
    }

    /// The address with the given bytes.
    pub fn from_bytes(bytes: [u8; 20]) -> (a: Address)
        ensures
            a.bytes == bytes,
    {
        Address { bytes }
    }
}

impl PartialEq for Address {
    fn eq(&self, other: &Address) -> (same: bool) {
        let mut i: usize = 0;
        while i < 20
            invariant
                i <= 20,
                forall|j: int| 0 <= j < i ==> self.bytes@[j] == other.bytes@[j],
            decreases 20 - i,
        {
            if self.bytes[i] != other.bytes[i] {
                return false;
            }
            i = i + 1;
        }
        assert(self.bytes@ =~= other.bytes@);
        assert(self.bytes == other.bytes);
        true
    }
}

impl Eq for Address {

}

impl vstd::std_specs::cmp::PartialEqSpecImpl for Address {
    open spec fn obeys_eq_spec() -> bool {
        true
    }

    open spec fn eq_spec(&self, other: &Address) -> bool {
        *self == *other
    }
}

impl H256 {
    /// The hash whose bytes are all zero.
    pub fn zero() -> (h: H256)
        ensures
            h.bytes@ == Seq::new(32, |i: int| 0u8),
    {
        let h = H256 { bytes: [0u8; 32] };
        assert(h.bytes@ =~= Seq::new(32, |i: int| 0u8));
        h
    }

    /// The hash with the given bytes.
    pub fn from_bytes(bytes: [u8; 32]) -> (h: H256)
        ensures
            h.bytes == bytes,
    {
        H256 { bytes }
    }
}

impl PartialEq for H256 {
    fn eq(&self, other: &H256) -> (same: bool) {
        let mut i: usize = 0;
        while i < 32
            invariant
                i <= 32,
                forall|j: int| 0 <= j < i ==> self.bytes@[j] == other.bytes@[j],
            decreases 32 - i,
        {
            if self.bytes[i] != other.bytes[i] {
                return false;
            }
            i = i + 1;
        }
        assert(self.bytes@ =~= other.bytes@);
        assert(self.bytes == other.bytes);
        true
    }
}

impl Eq for H256 {

}

impl vstd::std_specs::cmp::PartialEqSpecImpl for H256 {
    open spec fn obeys_eq_spec() -> bool {
        true
    }

    open spec fn eq_spec(&self, other: &H256) -> bool {
        *self == *other
    }
}

/// Two to the power 64: the weight of one word of a [`U256`].
pub open spec fn word_base() -> nat {
    0x1_0000_0000_0000_0000
}

impl U256 {
    /// The number that the four words stand for.
    pub open spec fn value(self) -> nat {
        (self.limbs@[0] as nat) + word_base() * ((self.limbs@[1] as nat) + word_base() * ((
        self.limbs@[2] as nat) + word_base() * (self.limbs@[3] as nat)))
    }

    /// Zero.
    pub fn zero() -> (n: U256)
        ensures
            n.value() == 0,
    {
        U256 { limbs: [0, 0, 0, 0] }
    }

    /// One.
    pub fn one() -> (n: U256)
        ensures
            n.value() == 1,
    {
        U256 { limbs: [1, 0, 0, 0] }
    }

    /// The 256-bit integer equal to `v`.
    pub fn from_u64(v: u64) -> (n: U256)
        ensures
            n.value() == v,
    {
        U256 { limbs: [v, 0, 0, 0] }
    }

    /// The 256-bit integer with the given words, least significant first.
    pub fn from_limbs(limbs: [u64; 4]) -> (n: U256)
        ensures
            n.limbs == limbs,
    {
        U256 { limbs }
    }

    /// Whether the number is zero.
    pub fn is_zero(&self) -> (zero: bool)
        ensures
            zero == (self.value() == 0),
    {
        let zero = self.limbs[0] == 0 && self.limbs[1] == 0 && self.limbs[2] == 0 && self.limbs[3]
            == 0;
        proof {
            let a = self.limbs@[1] as nat;
            let b = self.limbs@[2] as nat;
            let c = self.limbs@[3] as nat;
            let base = word_base();
            assert(base * (b + base * c) >= 0 && (b + base * c > 0 ==> base * (b + base * c) > 0))
                by (nonlinear_arith)
                requires
                    base > 0,
            ;
            assert(base * c >= 0 && (c > 0 ==> base * c > 0)) by (nonlinear_arith)
                requires
                    base > 0,
            ;
            assert(base * (a + base * (b + base * c)) >= 0 && (a + base * (b + base * c) > 0
                ==> base * (a + base * (b + base * c)) > 0)) by (nonlinear_arith)
                requires
                    base > 0,
                    base * (b + base * c) >= 0,
            ;
        }
        zero
    }
}

} // verus!
