//! Protocol revisions and the gas price and refund rules that depend on them.
use vstd::prelude::*;
use crate::word::U256;

verus! {

/// A protocol revision. Revisions are totally ordered; a rule introduced at a
/// revision holds at every later one.
#[derive(Clone, Copy, PartialEq, Eq, Structural, Debug)]
pub enum SpecId {
    Frontier,
    Homestead,
    Tangerine,
    SpuriousDragon,
    Byzantium,
    Constantinople,
    Petersburg,
    Istanbul,
    Berlin,
    London,
    Merge,
    Shanghai,
    Cancun,
    Latest,
}

impl SpecId {
    /// The position of the revision in protocol history.
    pub open spec fn rank(self) -> nat {
        match self {
            SpecId::Frontier => 0,
            SpecId::Homestead => 1,
            SpecId::Tangerine => 2,
            SpecId::SpuriousDragon => 3,
            SpecId::Byzantium => 4,
            SpecId::Constantinople => 5,
            SpecId::Petersburg => 6,
            SpecId::Istanbul => 7,
            SpecId::Berlin => 8,
            SpecId::London => 9,
            SpecId::Merge => 10,
            SpecId::Shanghai => 11,
            SpecId::Cancun => 12,
            SpecId::Latest => 13,
        }
    }

    /// Whether the rules of `gate` are in force at this revision.
    pub open spec fn is_enabled(self, gate: SpecId) -> bool {
        self.rank() >= gate.rank()
    }

    pub fn position(self) -> (r: u8)
        ensures
            r as nat == self.rank(),
    {
        match self {
            SpecId::Frontier => 0,
            SpecId::Homestead => 1,
            SpecId::Tangerine => 2,
            SpecId::SpuriousDragon => 3,
            SpecId::Byzantium => 4,
            SpecId::Constantinople => 5,
            SpecId::Petersburg => 6,
            SpecId::Istanbul => 7,
            SpecId::Berlin => 8,
            SpecId::London => 9,
            SpecId::Merge => 10,
            SpecId::Shanghai => 11,
            SpecId::Cancun => 12,
            SpecId::Latest => 13,
        }
    }

    pub fn enabled(self, gate: SpecId) -> (r: bool)
        ensures
            r == self.is_enabled(gate),
    {
        self.position() >= gate.position()
    }
}

pub const BASE: u64 = 2;
pub const VERYLOW: u64 = 3;
pub const LOW: u64 = 5;
pub const COPY: u64 = 3;
pub const BLOCKHASH: u64 = 20;
pub const LOG: u64 = 375;
pub const LOGDATA: u64 = 8;
pub const LOGTOPIC: u64 = 375;
pub const KECCAK256WORD: u64 = 6;
pub const CREATE: u64 = 32000;
pub const CALLVALUE: u64 = 9000;
pub const NEWACCOUNT: u64 = 25000;
pub const MEMORY: u64 = 3;
pub const INITCODE_WORD_COST: u64 = 2;
pub const CALL_STIPEND: u64 = 2300;
pub const SSTORE_SET: u64 = 20000;
pub const SSTORE_RESET: u64 = 5000;
pub const REFUND_SSTORE_CLEARS: i64 = 15000;
pub const SELFDESTRUCT: i64 = 24000;
pub const ACCESS_LIST_STORAGE_KEY: u64 = 1900;
pub const COLD_SLOAD_COST: u64 = 2100;
pub const COLD_ACCOUNT_ACCESS_COST: u64 = 2600;
pub const WARM_STORAGE_READ_COST: u64 = 100;

/// The number of 32-byte words that cover `len` bytes.
pub open spec fn num_words(len: nat) -> nat {
    (len + 31) / 32
}

/// `v` when it fits in a `u64`, else `None`.
pub open spec fn fit(v: nat) -> Option<u64> {
    if v <= u64::MAX {
        Some(v as u64)
    } else {
        None
    }
}

/// `v`, or `u64::MAX` when it does not fit.
pub open spec fn saturate(v: nat) -> nat {
    if v <= u64::MAX {
        v
    } else {
        u64::MAX as nat
    }
}

/// Words covering `len` bytes, computed without overflow.
pub fn words_for(len: u64) -> (r: u64)
    ensures
        r as nat == num_words(len as nat),
{
    let w = len / 32;
    if len % 32 == 0 {
        w
    } else {
        w + 1
    }
}

fn saturating_mul(a: u64, b: u64) -> (r: u64)
    ensures
        r as nat == saturate(a as nat * b as nat),
{
    match a.checked_mul(b) {
        Some(x) => x,
        None => u64::MAX,
    }
}

/// Price of an account access, by revision and warmth.
pub open spec fn account_access_gas_spec(spec: SpecId, is_cold: bool) -> nat {
    if spec.is_enabled(SpecId::Berlin) {
        if is_cold {
            2600
        } else {
            100
        }
    } else if spec.is_enabled(SpecId::Istanbul) {
        700
    } else {
        20
    }
}

pub fn account_access_gas(spec: SpecId, is_cold: bool) -> (r: u64)
    ensures
        r as nat == account_access_gas_spec(spec, is_cold),
{
    if spec.enabled(SpecId::Berlin) {
        if is_cold {
            COLD_ACCOUNT_ACCESS_COST
        } else {
            WARM_STORAGE_READ_COST
        }
    } else if spec.enabled(SpecId::Istanbul) {
        700
    } else {
        20
    }
}

/// Price of `BALANCE`.
pub open spec fn balance_cost_spec(spec: SpecId, is_cold: bool) -> nat {
    if spec.is_enabled(SpecId::Istanbul) {
        account_access_gas_spec(spec, is_cold)
    } else if spec.is_enabled(SpecId::Tangerine) {
        400
    } else {
        20
    }
}

pub fn balance_cost(spec: SpecId, is_cold: bool) -> (r: u64)
    ensures
        r as nat == balance_cost_spec(spec, is_cold),
{
    if spec.enabled(SpecId::Istanbul) {
        account_access_gas(spec, is_cold)
    } else if spec.enabled(SpecId::Tangerine) {
        400
    } else {
        20
    }
}

/// Price of `EXTCODESIZE`, and the base price of `EXTCODECOPY`.
pub open spec fn extcodesize_cost_spec(spec: SpecId, is_cold: bool) -> nat {
    if spec.is_enabled(SpecId::Berlin) {
        if is_cold {
            2600
        } else {
            100
        }
    } else if spec.is_enabled(SpecId::Tangerine) {
        700
    } else {
        20
    }
}

pub fn extcodesize_cost(spec: SpecId, is_cold: bool) -> (r: u64)
    ensures
        r as nat == extcodesize_cost_spec(spec, is_cold),
{
    if spec.enabled(SpecId::Berlin) {
        if is_cold {
            COLD_ACCOUNT_ACCESS_COST
        } else {
            WARM_STORAGE_READ_COST
        }
    } else if spec.enabled(SpecId::Tangerine) {
        700
    } else {
        20
    }
}

/// Price of `EXTCODEHASH`.
pub open spec fn extcodehash_cost_spec(spec: SpecId, is_cold: bool) -> nat {
    if spec.is_enabled(SpecId::Berlin) {
        if is_cold {
            2600
        } else {
            100
        }
    } else if spec.is_enabled(SpecId::Istanbul) {
        700
    } else {
        400
    }
}

pub fn extcodehash_cost(spec: SpecId, is_cold: bool) -> (r: u64)
    ensures
        r as nat == extcodehash_cost_spec(spec, is_cold),
{
    if spec.enabled(SpecId::Berlin) {
        if is_cold {
            COLD_ACCOUNT_ACCESS_COST
        } else {
            WARM_STORAGE_READ_COST
        }
    } else if spec.enabled(SpecId::Istanbul) {
        700
    } else {
        400
    }
}

/// Price of `SLOAD`.
pub open spec fn sload_cost_spec(spec: SpecId, is_cold: bool) -> nat {
    if spec.is_enabled(SpecId::Berlin) {
        if is_cold {
            2100
        } else {
            100
        }
    } else if spec.is_enabled(SpecId::Istanbul) {
        800
    } else if spec.is_enabled(SpecId::Tangerine) {
        200
    } else {
        50
    }
}

pub fn sload_cost(spec: SpecId, is_cold: bool) -> (r: u64)
    ensures
        r as nat == sload_cost_spec(spec, is_cold),
{
    if spec.enabled(SpecId::Berlin) {
        if is_cold {
            COLD_SLOAD_COST
        } else {
            WARM_STORAGE_READ_COST
        }
    } else if spec.enabled(SpecId::Istanbul) {
        800
    } else if spec.enabled(SpecId::Tangerine) {
        200
    } else {
        50
    }
}

/// Price of `SSTORE` before the cold surcharge, from the slot's value at the
/// start of the transaction, its value now, and the value written.
pub open spec fn sstore_base_cost_spec(
    spec: SpecId,
    original: nat,
    current: nat,
    new: nat,
    is_cold: bool,
) -> nat {
    let gas_sload = if spec.is_enabled(SpecId::Berlin) {
        100
    } else {
        sload_cost_spec(spec, is_cold)
    };
    let gas_sstore_reset = if spec.is_enabled(SpecId::Berlin) {
        2900nat
    } else {
        5000nat
    };
    if spec.is_enabled(SpecId::Istanbul) {
        if new == current {
            gas_sload
        } else if original == current && original == 0 {
            20000
        } else if original == current {
            gas_sstore_reset
        } else {
            gas_sload
        }
    } else if current == 0 && new != 0 {
        20000
    } else {
        gas_sstore_reset
    }
}

/// Price of `SSTORE`: `None` when, from Istanbul on, no more than the call
/// stipend is left.
pub open spec fn sstore_cost_spec(
    spec: SpecId,
    original: nat,
    current: nat,
    new: nat,
    remaining: nat,
    is_cold: bool,
) -> Option<u64> {
    if spec.is_enabled(SpecId::Istanbul) && remaining <= 2300 {
        None
    } else if spec.is_enabled(SpecId::Berlin) && is_cold {
        Some((sstore_base_cost_spec(spec, original, current, new, is_cold) + 2100) as u64)
    } else {
        Some(sstore_base_cost_spec(spec, original, current, new, is_cold) as u64)
    }
}

pub fn sstore_cost(
    spec: SpecId,
    original: &U256,
    current: &U256,
    new: &U256,
    remaining: u64,
    is_cold: bool,
) -> (r: Option<u64>)
    ensures
        r == sstore_cost_spec(spec, original@, current@, new@, remaining as nat, is_cold),
{
    let berlin = spec.enabled(SpecId::Berlin);
    let gas_sload = if berlin {
        WARM_STORAGE_READ_COST
    } else {
        sload_cost(spec, is_cold)
    };
    let gas_sstore_reset = if berlin {
        SSTORE_RESET - COLD_SLOAD_COST
    } else {
        SSTORE_RESET
    };
    let gas_cost = if spec.enabled(SpecId::Istanbul) {
        if remaining <= CALL_STIPEND {
            return None;
        }
        if new.same(current) {
            gas_sload
        } else if original.same(current) && original.is_zero() {
            SSTORE_SET
        } else if original.same(current) {
            gas_sstore_reset
        } else {
            gas_sload
        }
    } else if current.is_zero() && !new.is_zero() {
        SSTORE_SET
    } else {
        gas_sstore_reset
    };
    if berlin && is_cold {
        Some(gas_cost + COLD_SLOAD_COST)
    } else {
        Some(gas_cost)
    }
}

/// Refund for clearing a slot: reduced from London on.
pub open spec fn sstore_clears_schedule(spec: SpecId) -> int {
    if spec.is_enabled(SpecId::London) {
        4800
    } else {
        15000
    }
}

/// Refund (negative: a refund taken back) granted by `SSTORE`.
pub open spec fn sstore_refund_spec(spec: SpecId, original: nat, current: nat, new: nat) -> int {
    let clears = sstore_clears_schedule(spec);
    if spec.is_enabled(SpecId::Istanbul) {
        if current == new {
            0
        } else if original == current && new == 0 {
            clears
        } else {
            let clear_part: int = if original != 0 && current == 0 {
                -clears
            } else if original != 0 && new == 0 {
                clears
            } else {
                0
            };
            let gas_sload: int = if spec.is_enabled(SpecId::Berlin) {
                100
            } else {
                800
            };
            let gas_sstore_reset: int = if spec.is_enabled(SpecId::Berlin) {
                2900
            } else {
                5000
            };
            let reset_part: int = if original == new {
                if original == 0 {
                    20000 - gas_sload
                } else {
                    gas_sstore_reset - gas_sload
                }
            } else {
                0
            };
            clear_part + reset_part
        }
    } else if current != 0 && new == 0 {
        15000
    } else {
        0
    }
}

pub fn sstore_refund(spec: SpecId, original: &U256, current: &U256, new: &U256) -> (r: i64)
    ensures
        r as int == sstore_refund_spec(spec, original@, current@, new@),
{
    if spec.enabled(SpecId::Istanbul) {
        let clears: i64 = if spec.enabled(SpecId::London) {
            (SSTORE_RESET - COLD_SLOAD_COST + ACCESS_LIST_STORAGE_KEY) as i64
        } else {
            REFUND_SSTORE_CLEARS
        };
        if current.same(new) {
            0
        } else if original.same(current) && new.is_zero() {
            clears
        } else {
            let mut refund: i64 = 0;
            if !original.is_zero() {
                if current.is_zero() {
                    refund = refund - clears;
                } else if new.is_zero() {
                    refund = refund + clears;
                }
            }
            if original.same(new) {
                let berlin = spec.enabled(SpecId::Berlin);
                let gas_sstore_reset: u64 = if berlin {
                    SSTORE_RESET - COLD_SLOAD_COST
                } else {
                    SSTORE_RESET
                };
                let gas_sload: u64 = if berlin {
                    WARM_STORAGE_READ_COST
                } else {
                    sload_cost(spec, false)
                };
                if original.is_zero() {
                    refund = refund + (SSTORE_SET - gas_sload) as i64;
                } else {
                    refund = refund + (gas_sstore_reset - gas_sload) as i64;
                }
            }
            refund
        }
    } else if !current.is_zero() && new.is_zero() {
        REFUND_SSTORE_CLEARS
    } else {
        0
    }
}

/// Price of `LOG<n>` with `len` bytes of data.
pub open spec fn log_cost_spec(n: nat, len: nat) -> Option<u64> {
    fit(375 + 8 * len + 375 * n)
}

pub fn log_cost(n: u8, len: u64) -> (r: Option<u64>)
    ensures
        r == log_cost_spec(n as nat, len as nat),
{
    match LOGDATA.checked_mul(len) {
        None => None,
        Some(data) => match LOG.checked_add(data) {
            None => None,
            Some(s) => s.checked_add(LOGTOPIC * n as u64),
        },
    }
}

/// Price of copying `len` bytes at a base price of `base`.
pub open spec fn copy_cost_spec(base: nat, len: nat) -> Option<u64> {
    fit(base + 3 * num_words(len))
}

/// Price of `MCOPY` and the other very-low-priced copies.
pub fn verylowcopy_cost(len: u64) -> (r: Option<u64>)
    ensures
        r == copy_cost_spec(3, len as nat),
{
    match COPY.checked_mul(words_for(len)) {
        None => None,
        Some(c) => VERYLOW.checked_add(c),
    }
}

/// Price of `EXTCODECOPY`.
pub fn extcodecopy_cost(spec: SpecId, len: u64, is_cold: bool) -> (r: Option<u64>)
    ensures
        r == copy_cost_spec(extcodesize_cost_spec(spec, is_cold), len as nat),
{
    let base = extcodesize_cost(spec, is_cold);
    match COPY.checked_mul(words_for(len)) {
        None => None,
        Some(c) => base.checked_add(c),
    }
}

/// Price of metering `len` bytes of init code.
pub fn initcode_cost(len: u64) -> (r: u64)
    ensures
        r as nat == 2 * num_words(len as nat),
{
    INITCODE_WORD_COST * words_for(len)
}

/// Price of `CREATE2`: the base creation price and the hashing of the init code.
pub open spec fn create2_cost_spec(len: nat) -> Option<u64> {
    fit(32000 + 6 * num_words(len))
}

pub fn create2_cost(len: usize) -> (r: Option<u64>)
    ensures
        r == create2_cost_spec(len as nat),
{
    match KECCAK256WORD.checked_mul(words_for(len as u64)) {
        None => None,
        Some(h) => CREATE.checked_add(h),
    }
}

/// What the host reports of a self-destruct.
#[derive(Clone, Copy, PartialEq, Eq, Structural, Debug)]
pub struct SelfDestructResult {
    pub had_value: bool,
    pub target_exists: bool,
    pub is_cold: bool,
    pub previously_destroyed: bool,
}

/// Price of `SELFDESTRUCT`.
pub open spec fn selfdestruct_cost_spec(spec: SpecId, res: SelfDestructResult) -> nat {
    let topup = if spec.is_enabled(SpecId::SpuriousDragon) {
        res.had_value && !res.target_exists
    } else {
        !res.target_exists
    };
    let new_account: nat = if spec.is_enabled(SpecId::Tangerine) && topup {
        25000
    } else {
        0
    };
    let base: nat = if spec.is_enabled(SpecId::Tangerine) {
        5000
    } else {
        0
    };
    let cold: nat = if spec.is_enabled(SpecId::Berlin) && res.is_cold {
        2600
    } else {
        0
    };
    base + new_account + cold
}

pub fn selfdestruct_cost(spec: SpecId, res: SelfDestructResult) -> (r: u64)
    ensures
        r as nat == selfdestruct_cost_spec(spec, res),
{
    let topup = if spec.enabled(SpecId::SpuriousDragon) {
        res.had_value && !res.target_exists
    } else {
        !res.target_exists
    };
    let tangerine = spec.enabled(SpecId::Tangerine);
    let new_account: u64 = if tangerine && topup {
        NEWACCOUNT
    } else {
        0
    };
    let base: u64 = if tangerine {
        5000
    } else {
        0
    };
    let mut gas = base + new_account;
    if spec.enabled(SpecId::Berlin) && res.is_cold {
        gas = gas + COLD_ACCOUNT_ACCESS_COST;
    }
    gas
}

/// Price of a call, before any gas is forwarded.
pub open spec fn call_cost_spec(
    spec: SpecId,
    transfers_value: bool,
    is_new: bool,
    is_cold: bool,
    is_call_or_callcode: bool,
    is_call_or_staticcall: bool,
) -> nat {
    let access: nat = if spec.is_enabled(SpecId::Berlin) {
        if is_cold {
            2600
        } else {
            100
        }
    } else if spec.is_enabled(SpecId::Tangerine) {
        700
    } else {
        40
    };
    let transfer: nat = if is_call_or_callcode && transfers_value {
        9000
    } else {
        0
    };
    let creates: bool = if spec.is_enabled(SpecId::SpuriousDragon) {
        transfers_value && is_new
    } else {
        is_new
    };
    let new_account: nat = if is_call_or_staticcall && creates {
        25000
    } else {
        0
    };
    access + transfer + new_account
}

pub fn call_cost(
    spec: SpecId,
    transfers_value: bool,
    is_new: bool,
    is_cold: bool,
    is_call_or_callcode: bool,
    is_call_or_staticcall: bool,
) -> (r: u64)
    ensures
        r as nat == call_cost_spec(
            spec,
            transfers_value,
            is_new,
            is_cold,
            is_call_or_callcode,
            is_call_or_staticcall,
        ),
{
    let access: u64 = if spec.enabled(SpecId::Berlin) {
        if is_cold {
            COLD_ACCOUNT_ACCESS_COST
        } else {
            WARM_STORAGE_READ_COST
        }
    } else if spec.enabled(SpecId::Tangerine) {
        700
    } else {
        40
    };
    let transfer: u64 = if is_call_or_callcode && transfers_value {
        CALLVALUE
    } else {
        0
    };
    let creates = if spec.enabled(SpecId::SpuriousDragon) {
        transfers_value && is_new
    } else {
        is_new
    };
    let new_account: u64 = if is_call_or_staticcall && creates {
        NEWACCOUNT
    } else {
        0
    };
    access + transfer + new_account
}

/// Total price of a memory of `words` words.
pub open spec fn memory_gas_spec(words: nat) -> nat {
    saturate(saturate(3 * words) + saturate(words * words) / 512)
}

pub fn memory_gas(words: u64) -> (r: u64)
    ensures
        r as nat == memory_gas_spec(words as nat),
{
    let linear = saturating_mul(MEMORY, words);
    let quadratic = saturating_mul(words, words) / 512;
    match linear.checked_add(quadratic) {
        Some(t) => t,
        None => u64::MAX,
    }
}

/// Gas that may be forwarded out of `remaining`: all but one 64th of it.
pub open spec fn all_but_one_64th(remaining: nat) -> nat {
    (remaining - remaining / 64) as nat
}

pub fn all_but_one_64th_of(remaining: u64) -> (r: u64)
    ensures
        r as nat == all_but_one_64th(remaining as nat),
{
    remaining - remaining / 64
}

} // verus!
