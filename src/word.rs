//! 256-bit words and 160-bit account addresses, held as plain integers.
use vstd::prelude::*;
use vstd::arithmetic::div_mod::lemma_fundamental_div_mod_converse;

verus! {

/// 2^128, the weight of the high half of a word.
pub open spec fn half_base() -> nat {
    0x1_0000_0000_0000_0000_0000_0000_0000_0000nat
}

/// 2^160, one past the largest address.
pub open spec fn address_base() -> nat {
    0x1_0000_0000_0000_0000_0000_0000_0000_0000_0000_0000nat
}

/// An unsigned 256-bit word: `hi * 2^128 + lo`.
/// Hashes (code hashes, block hashes) are held as words too.
#[derive(Clone, Copy, PartialEq, Eq, Structural, Debug, Hash, Default)]
pub struct U256 {
    pub hi: u128,
    pub lo: u128,
}

impl View for U256 {
    type V = nat;

    open spec fn view(&self) -> nat {
        self.hi as nat * half_base() + self.lo as nat
    }
}

/// The word whose value is `n`, for `n < 2^256`.
pub open spec fn word_of(n: nat) -> U256 {
    U256 { hi: (n / half_base()) as u128, lo: (n % half_base()) as u128 }
}

pub proof fn lemma_word_of_view(w: U256)
    ensures
        word_of(w@) == w,
{
    lemma_fundamental_div_mod_converse(w@ as int, half_base() as int, w.hi as int, w.lo as int);
}

impl U256 {
    /// The word zero.
    pub fn zero() -> (r: U256)
        ensures
            r@ == 0,
            r == (U256 { hi: 0, lo: 0 }),
    {
        U256 { hi: 0, lo: 0 }
    }

    pub fn from_u64(v: u64) -> (r: U256)
        ensures
            r@ == v as nat,
    {
        U256 { hi: 0, lo: v as u128 }
    }

    pub fn from_usize(v: usize) -> (r: U256)
        ensures
            r@ == v as nat,
    {
        U256 { hi: 0, lo: v as u128 }
    }

    pub fn is_zero(&self) -> (r: bool)
        ensures
            r == (self@ == 0),
    {
        self.hi == 0 && self.lo == 0
    }

    /// Equality of the numeric values.
    pub fn same(&self, other: &U256) -> (r: bool)
        ensures
            r == (self@ == other@),
    {
        self.hi == other.hi && self.lo == other.lo
    }

    /// The value as a `usize`, or `None` when it does not fit.
    pub fn to_usize(&self) -> (r: Option<usize>)
        ensures
            r == (if self@ <= usize::MAX {
                Some(self@ as usize)
            } else {
                None::<usize>
            }),
    {
        if self.hi == 0 && self.lo <= usize::MAX as u128 {
            Some(self.lo as usize)
        } else {
            None
        }
    }

    /// The value, or `usize::MAX` when it does not fit.
    pub fn to_usize_saturated(&self) -> (r: usize)
        ensures
            r == (if self@ <= usize::MAX {
                self@
            } else {
                usize::MAX as nat
            }),
    {
        if self.hi == 0 && self.lo <= usize::MAX as u128 {
            self.lo as usize
        } else {
            usize::MAX
        }
    }

    /// The value, or `u64::MAX` when it does not fit.
    pub fn to_u64_saturated(&self) -> (r: u64)
        ensures
            r == (if self@ <= u64::MAX {
                self@
            } else {
                u64::MAX as nat
            }),
    {
        if self.hi == 0 && self.lo <= u64::MAX as u128 {
            self.lo as u64
        } else {
            u64::MAX
        }
    }

    /// The least significant byte.
    pub fn low_byte(&self) -> (r: u8)
        ensures
            r as nat == self@ % 256,
    {
        let b = (self.lo % 256) as u8;
        proof {
            let q = self.hi as nat * 0x1000000000000000000000000000000nat + self.lo as nat / 256;
            assert(self.lo as nat == (self.lo as nat / 256) * 256 + self.lo as nat % 256);
            assert(b as nat == self.lo as nat % 256);
            assert(self@ == q * 256 + b as nat) by (nonlinear_arith)
                requires
                    self@ == self.hi as nat * 0x1_0000_0000_0000_0000_0000_0000_0000_0000nat
                        + self.lo as nat,
                    q == self.hi as nat * 0x1000000000000000000000000000000nat + self.lo as nat
                        / 256,
                    self.lo as nat == (self.lo as nat / 256) * 256 + b as nat,
            ;
            lemma_fundamental_div_mod_converse(self@ as int, 256, q as int, b as int);
        }
        b
    }

    /// `self - other`, or `None` when `other` is larger.
    pub fn checked_sub(&self, other: &U256) -> (r: Option<U256>)
        ensures
            r matches Some(d) <==> other@ <= self@,
            r matches Some(d) ==> d@ == self@ - other@,
    {
        if self.hi < other.hi || (self.hi == other.hi && self.lo < other.lo) {
            None
        } else if self.lo >= other.lo {
            Some(U256 { hi: self.hi - other.hi, lo: self.lo - other.lo })
        } else {
            Some(U256 { hi: self.hi - other.hi - 1, lo: u128::MAX - (other.lo - self.lo) + 1 })
        }
    }
}

impl From<u64> for U256 {
    fn from(v: u64) -> (r: U256) {
        U256::from_u64(v)
    }
}

impl vstd::std_specs::convert::FromSpecImpl<u64> for U256 {
    open spec fn obeys_from_spec() -> bool {
        true
    }

    open spec fn from_spec(v: u64) -> U256 {
        U256 { hi: 0, lo: v as u128 }
    }
}

/// A 160-bit account address: `hi * 2^128 + lo`.
#[derive(Clone, Copy, PartialEq, Eq, Structural, Debug, Hash, Default)]
pub struct Address {
    pub hi: u32,
    pub lo: u128,
}

impl View for Address {
    type V = nat;

    open spec fn view(&self) -> nat {
        self.hi as nat * half_base() + self.lo as nat
    }
}

impl Address {
    pub fn zero() -> (r: Address)
        ensures
            r@ == 0,
    {
        Address { hi: 0, lo: 0 }
    }

    pub fn from_u64(v: u64) -> (r: Address)
        ensures
            r@ == v as nat,
    {
        Address { hi: 0, lo: v as u128 }
    }

    /// The address held in the low 160 bits of a word.
    pub fn from_word(w: &U256) -> (r: Address)
        ensures
            r@ == w@ % address_base(),
    {
        let h = (w.hi % 0x1_0000_0000) as u32;
        proof {
            let q = w.hi as nat / 0x1_0000_0000;
            assert(w.hi as nat == q * 0x1_0000_0000 + h as nat);
            assert(w@ == q * address_base() + (h as nat * half_base() + w.lo as nat));
            lemma_fundamental_div_mod_converse(
                w@ as int,
                address_base() as int,
                q as int,
                (h as nat * half_base() + w.lo as nat) as int,
            );
        }
        Address { hi: h, lo: w.lo }
    }

    /// The address as a word.
    pub fn to_word(&self) -> (r: U256)
        ensures
            r@ == self@,
    {
        U256 { hi: self.hi as u128, lo: self.lo }
    }

    pub fn same(&self, other: &Address) -> (r: bool)
        ensures
            r == (self@ == other@),
    {
        self.hi == other.hi && self.lo == other.lo
    }
}

impl From<u64> for Address {
    fn from(v: u64) -> (r: Address) {
        Address::from_u64(v)
    }
}

impl vstd::std_specs::convert::FromSpecImpl<u64> for Address {
    open spec fn obeys_from_spec() -> bool {
        true
    }

    open spec fn from_spec(v: u64) -> Address {
        Address { hi: 0, lo: v as u128 }
    }
}

} // verus!
