//! What the instructions ask of the chain state around them.
use vstd::prelude::*;
use crate::gas::SelfDestructResult;
use crate::primitives::{Bytecode, Log};
use crate::word::{Address, U256};

verus! {

/// The execution environment an instruction may read.
#[derive(Clone, Copy, PartialEq, Eq, Structural, Debug)]
pub struct Env {
    /// The number of the block being executed.
    pub block_number: U256,
    /// A configured bound on the size of deployed code, if any.
    pub limit_contract_code_size: Option<usize>,
}

/// The value under `(address, key)` in transient storage: zero when unset.
pub open spec fn transient_value(m: Map<(Address, U256), U256>, address: Address, key: U256) -> U256 {
    if m.contains_key((address, key)) {
        m[(address, key)]
    } else {
        U256 { hi: 0, lo: 0 }
    }
}

/// A log record, as values.
pub struct LogPlan {
    pub address: Address,
    pub topics: Seq<U256>,
    pub data: Seq<u8>,
}

/// A log record as values.
pub open spec fn log_view(log: Log) -> LogPlan {
    LogPlan { address: log.address, topics: log.topics@, data: log.data@ }
}

/// The chain state an instruction reads and changes. Each query returns
/// `None` when the state behind it is unavailable; the instruction then ends
/// its frame with a fatal external error. The flag beside a value tells
/// whether the access was cold.
pub trait Host {
    /// The transient storage the host holds, by address and key.
    open spec fn transient(&self) -> Map<(Address, U256), U256> {
        Map::empty()
    }

    /// The log records emitted so far, in order.
    open spec fn logs(&self) -> Seq<LogPlan> {
        Seq::empty()
    }

    /// The execution environment the host holds.
    open spec fn env_model(&self) -> Env {
        Env { block_number: U256 { hi: 0, lo: 0 }, limit_contract_code_size: None }
    }

    fn env(&self) -> (r: Env)
        ensures
            r == self.env_model(),
    ;

    /// Whether the account was cold, and whether it exists.
    fn load_account(&mut self, address: Address) -> Option<(bool, bool)>;

    fn block_hash(&mut self, number: U256) -> Option<U256>;

    fn balance(&mut self, address: Address) -> Option<(U256, bool)>;

    fn code(&mut self, address: Address) -> Option<(Bytecode, bool)>;

    fn code_hash(&mut self, address: Address) -> Option<(U256, bool)>;

    fn sload(&mut self, address: Address, index: U256) -> Option<(U256, bool)>;

    /// Writes a slot; returns its value at the start of the transaction, its
    /// value before and after this write, and whether it was cold.
    fn sstore(&mut self, address: Address, index: U256, value: U256) -> Option<(U256, U256, U256, bool)>;

    /// Reads transient storage; an unset key reads zero.
    fn tload(&mut self, address: Address, index: U256) -> (r: U256)
        ensures
            r == transient_value(old(self).transient(), address, index),
    ;

    /// Writes transient storage.
    fn tstore(&mut self, address: Address, index: U256, value: U256)
        ensures
            final(self).transient() == old(self).transient().insert((address, index), value),
    ;

    /// Emits a log record.
    fn log(&mut self, log: Log)
        ensures
            final(self).logs() == old(self).logs().push(log_view(log)),
    ;

    fn selfdestruct(&mut self, address: Address, target: Address) -> Option<SelfDestructResult>;
}

} // verus!
