//! Bytecode, account information and log records.
use sha3::Digest;
use vstd::prelude::*;
use crate::word::{Address, U256};

verus! {

/// The Keccak-256 digest of `data`, as a big-endian number.
pub uninterp spec fn keccak_word(data: Seq<u8>) -> nat;

/// Relies on sha3's `Keccak256::digest`: the 32-byte Keccak-256 digest of the
/// input, read here as a big-endian word.
#[verifier::external_body]
pub(crate) fn keccak256(data: &[u8]) -> (r: U256)
    ensures
        r@ == keccak_word(data@),
{
    let d = sha3::Keccak256::digest(data);
    let hi: [u8; 16] = d[0..16].try_into().unwrap();
    let lo: [u8; 16] = d[16..32].try_into().unwrap();
    U256 { hi: u128::from_be_bytes(hi), lo: u128::from_be_bytes(lo) }
}

/// The digest of no bytes, the code hash of an account without code.
pub open spec fn keccak_empty_value() -> nat {
    0xc5d2460186f7233c927e7db2dcc703c0e500b653ca82273b7bfad8045d85a470nat
}

pub fn keccak_empty() -> (r: U256)
    ensures
        r@ == keccak_empty_value(),
        r == (U256 {
            hi: 0xc5d2460186f7233c927e7db2dcc703c0,
            lo: 0xe500b653ca82273b7bfad8045d85a470,
        }),
{
    U256 { hi: 0xc5d2460186f7233c927e7db2dcc703c0, lo: 0xe500b653ca82273b7bfad8045d85a470 }
}

/// The hash under which code is filed: the empty-code digest for no code.
pub open spec fn code_hash_of(code: Seq<u8>) -> nat {
    if code.len() == 0 {
        keccak_empty_value()
    } else {
        keccak_word(code)
    }
}

/// Contract code as raw bytes.
#[derive(Clone, Debug, PartialEq, Eq, Default)]
pub struct Bytecode {
    pub bytes: Vec<u8>,
}

impl View for Bytecode {
    type V = Seq<u8>;

    open spec fn view(&self) -> Seq<u8> {
        self.bytes@
    }
}

impl Bytecode {
    /// No code.
    pub fn new() -> (r: Bytecode)
        ensures
            r@ == Seq::<u8>::empty(),
    {
        Bytecode { bytes: Vec::new() }
    }

    pub fn new_raw(bytes: Vec<u8>) -> (r: Bytecode)
        ensures
            r@ == bytes@,
    {
        Bytecode { bytes }
    }

    pub fn len(&self) -> (r: usize)
        ensures
            r == self@.len(),
    {
        self.bytes.len()
    }

    pub fn is_empty(&self) -> (r: bool)
        ensures
            r == (self@.len() == 0),
    {
        self.bytes.len() == 0
    }

    pub fn bytes(&self) -> (r: &Vec<u8>)
        ensures
            r@ == self@,
    {
        &self.bytes
    }

    /// The code's hash.
    pub fn hash(&self) -> (r: U256)
        ensures
            r@ == code_hash_of(self@),
    {
        if self.bytes.len() == 0 {
            keccak_empty()
        } else {
            keccak256(self.bytes.as_slice())
        }
    }

    /// A copy of the code.
    pub fn duplicate(&self) -> (r: Bytecode)
        ensures
            r@ == self@,
    {
        Bytecode { bytes: self.bytes.clone() }
    }
}

/// What is known of an account besides its storage.
#[derive(Clone, Debug, PartialEq, Eq)]
pub struct AccountInfo {
    pub balance: U256,
    pub nonce: u64,
    pub code_hash: U256,
    pub code: Option<Bytecode>,
}

/// Account information as values.
pub struct AccountInfoView {
    pub balance: U256,
    pub nonce: u64,
    pub code_hash: U256,
    pub code: Option<Seq<u8>>,
}

impl View for AccountInfo {
    type V = AccountInfoView;

    open spec fn view(&self) -> AccountInfoView {
        AccountInfoView {
            balance: self.balance,
            nonce: self.nonce,
            code_hash: self.code_hash,
            code: match self.code {
                Some(c) => Some(c@),
                None => None,
            },
        }
    }
}

/// The information of an empty account: no balance, no nonce, no code.
pub open spec fn default_info() -> AccountInfoView {
    AccountInfoView {
        balance: U256 { hi: 0, lo: 0 },
        nonce: 0,
        code_hash: U256 {
            hi: 0xc5d2460186f7233c927e7db2dcc703c0,
            lo: 0xe500b653ca82273b7bfad8045d85a470,
        },
        code: Some(Seq::empty()),
    }
}

impl Default for AccountInfo {
    fn default() -> (r: AccountInfo)
        ensures
            r@ == default_info(),
    {
        AccountInfo {
            balance: U256 { hi: 0, lo: 0 },
            nonce: 0,
            code_hash: keccak_empty(),
            code: Some(Bytecode::new()),
        }
    }
}

impl AccountInfo {
    /// A copy of the information.
    pub fn duplicate(&self) -> (r: AccountInfo)
        ensures
            r@ == self@,
    {
        AccountInfo {
            balance: self.balance,
            nonce: self.nonce,
            code_hash: self.code_hash,
            code: match &self.code {
                Some(c) => Some(c.duplicate()),
                None => None,
            },
        }
    }
}

/// A log record: the emitting contract, up to four topics, and data.
#[derive(Clone, Debug, PartialEq, Eq)]
pub struct Log {
    pub address: Address,
    pub topics: Vec<U256>,
    pub data: Vec<u8>,
}

} // verus!
