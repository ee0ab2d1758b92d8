//! The execution state of one call frame: operand stack, linear memory, gas
//! meter, call context and the frame's outcome.
use vstd::prelude::*;
use crate::gas::{memory_gas, memory_gas_spec, num_words};
use crate::word::{Address, U256};

verus! {

/// Most words the operand stack can hold.
pub const STACK_LIMIT: usize = 1024;

/// How the current instruction ended.
#[derive(Clone, Copy, PartialEq, Eq, Structural, Debug)]
pub enum InstructionResult {
    Continue,
    Stop,
    CallOrCreate,
    SelfDestruct,
    OutOfGas,
    MemoryOOG,
    MemoryLimitOOG,
    InvalidOperandOOG,
    StackUnderflow,
    StackOverflow,
    NotActivated,
    StateChangeDuringStaticCall,
    CallNotAllowedInsideStatic,
    CreateInitCodeSizeLimit,
    FatalExternalError,
}

/// The gas meter of a frame. `remaining` is what is left of `limit` after
/// instruction costs and the memory cost, which is held apart in `memory`.
/// Refunds accrue in `refunded` and are realised only at the end of the
/// transaction.
#[derive(Clone, Copy, PartialEq, Eq, Structural, Debug)]
pub struct Gas {
    pub limit: u64,
    pub remaining: u64,
    pub memory: u64,
    pub refunded: i64,
}

/// `v` clamped into `i64`.
pub open spec fn clamp_i64(v: int) -> i64 {
    if v > i64::MAX {
        i64::MAX
    } else if v < i64::MIN {
        i64::MIN
    } else {
        v as i64
    }
}

impl Gas {
    pub fn new(limit: u64) -> (r: Gas)
        ensures
            r == (Gas { limit, remaining: limit, memory: 0, refunded: 0 }),
    {
        Gas { limit, remaining: limit, memory: 0, refunded: 0 }
    }

    pub fn remaining(&self) -> (r: u64)
        ensures
            r == self.remaining,
    {
        self.remaining
    }

    /// Charges `cost`; fails, changing nothing, when less is left.
    pub fn record_cost(&mut self, cost: u64) -> (r: bool)
        ensures
            r == (cost <= old(self).remaining),
            r ==> *final(self) == (Gas { remaining: (old(self).remaining - cost) as u64, ..*old(self) }),
            !r ==> *final(self) == *old(self),
    {
        if cost > self.remaining {
            return false;
        }
        self.remaining = self.remaining - cost;
        true
    }

    /// Raises the memory cost to `new_cost`, charging the difference.
    pub fn record_memory(&mut self, new_cost: u64) -> (r: bool)
        ensures
            *final(self) == (if r { old(self).grow_memory(new_cost as nat) } else { *old(self) }),
            r == old(self).can_grow_memory(new_cost as nat),
    {
        if new_cost > self.memory {
            let diff = new_cost - self.memory;
            if diff > self.remaining {
                return false;
            }
            self.remaining = self.remaining - diff;
            self.memory = new_cost;
        }
        true
    }

    pub open spec fn can_grow_memory(self, new_cost: nat) -> bool {
        new_cost <= self.memory || new_cost - self.memory <= self.remaining
    }

    pub open spec fn grow_memory(self, new_cost: nat) -> Gas {
        if new_cost <= self.memory {
            self
        } else {
            Gas {
                remaining: (self.remaining - (new_cost - self.memory)) as u64,
                memory: new_cost as u64,
                ..self
            }
        }
    }

    /// Adds `refund` to the refund counter, clamped into `i64`.
    pub fn record_refund(&mut self, refund: i64)
        ensures
            *final(self) == (Gas { refunded: clamp_i64(old(self).refunded + refund), ..*old(self) }),
    {
        self.refunded = match self.refunded.checked_add(refund) {
            Some(v) => v,
            None => if refund > 0 {
                i64::MAX
            } else {
                i64::MIN
            },
        };
    }
}

/// The identity of the executing contract.
#[derive(Clone, Copy, PartialEq, Eq, Structural, Debug)]
pub struct Contract {
    pub address: Address,
    pub caller: Address,
    pub value: U256,
}

#[derive(Clone, Copy, PartialEq, Eq, Structural, Debug)]
pub enum CallScheme {
    Call,
    CallCode,
    DelegateCall,
    StaticCall,
}

/// The value moved by a call.
#[derive(Clone, Copy, PartialEq, Eq, Structural, Debug)]
pub struct Transfer {
    pub source: Address,
    pub target: Address,
    pub value: U256,
}

/// The context the callee sees.
#[derive(Clone, Copy, PartialEq, Eq, Structural, Debug)]
pub struct CallContext {
    pub address: Address,
    pub caller: Address,
    pub code_address: Address,
    pub apparent_value: U256,
    pub scheme: CallScheme,
}

/// A byte range of memory, `start..end`.
#[derive(Clone, Copy, PartialEq, Eq, Structural, Debug)]
pub struct MemoryRange {
    pub start: usize,
    pub end: usize,
}

/// A nested call that the frame asks the driver to run.
#[derive(Clone, Debug)]
pub struct CallInputs {
    pub contract: Address,
    pub transfer: Transfer,
    pub input: Vec<u8>,
    pub gas_limit: u64,
    pub context: CallContext,
    pub is_static: bool,
    pub return_memory_offset: MemoryRange,
}

#[derive(Clone, Copy, PartialEq, Eq, Structural, Debug)]
pub enum CreateScheme {
    Create,
    Create2 { salt: U256 },
}

/// A contract creation that the frame asks the driver to run.
#[derive(Clone, Debug)]
pub struct CreateInputs {
    pub caller: Address,
    pub scheme: CreateScheme,
    pub value: U256,
    pub init_code: Vec<u8>,
    pub gas_limit: u64,
}

/// What the frame asks of the driver once the instruction is done.
#[derive(Clone, Debug)]
pub enum InterpreterAction {
    Idle,
    Call { inputs: CallInputs },
    Create { inputs: CreateInputs },
}

/// The state of one frame.
#[derive(Clone, Debug)]
pub struct Interpreter {
    pub stack: Vec<U256>,
    pub memory: Vec<u8>,
    pub gas: Gas,
    pub contract: Contract,
    pub is_static: bool,
    pub instruction_result: InstructionResult,
    pub next_action: InterpreterAction,
}

/// The state of a frame as values: the stack with its top last.
pub struct FrameView {
    pub stack: Seq<U256>,
    pub memory: Seq<u8>,
    pub gas: Gas,
    pub contract: Contract,
    pub is_static: bool,
    pub result: InstructionResult,
    pub action: InterpreterAction,
}

impl View for Interpreter {
    type V = FrameView;

    open spec fn view(&self) -> FrameView {
        FrameView {
            stack: self.stack@,
            memory: self.memory@,
            gas: self.gas,
            contract: self.contract,
            is_static: self.is_static,
            result: self.instruction_result,
            action: self.next_action,
        }
    }
}

/// `m` grown with zero bytes to `n` bytes.
pub open spec fn zero_extend(m: Seq<u8>, n: nat) -> Seq<u8> {
    m + Seq::new((n - m.len()) as nat, |i: int| 0u8)
}

/// The memory size, a whole number of words, that covers `offset + len`.
pub open spec fn covering_size(offset: nat, len: nat) -> nat {
    num_words(offset + len) * 32
}

impl FrameView {
    /// The state with the outcome set to `r`.
    pub open spec fn with_result(self, r: InstructionResult) -> FrameView {
        FrameView { result: r, ..self }
    }

    /// The state with the top `n` words popped.
    pub open spec fn popped(self, n: nat) -> FrameView {
        FrameView { stack: self.stack.subrange(0, self.stack.len() - n), ..self }
    }

    /// The state with `v` pushed.
    pub open spec fn pushed(self, v: U256) -> FrameView {
        FrameView { stack: self.stack.push(v), ..self }
    }

    /// The `k`-th word from the top of the stack (0 is the top).
    pub open spec fn top(self, k: nat) -> U256 {
        self.stack[self.stack.len() - 1 - k]
    }

    /// The state with `cost` taken from the remaining gas.
    pub open spec fn charged(self, cost: nat) -> FrameView {
        FrameView { gas: Gas { remaining: (self.gas.remaining - cost) as u64, ..self.gas }, ..self }
    }

    /// The state with `r` added to the refund counter.
    pub open spec fn refunded(self, r: int) -> FrameView {
        FrameView { gas: Gas { refunded: clamp_i64(self.gas.refunded + r), ..self.gas }, ..self }
    }

    /// The state with the memory `m`.
    pub open spec fn with_memory(self, m: Seq<u8>) -> FrameView {
        FrameView { memory: m, ..self }
    }

    /// Pushes `v`, or ends the frame when the stack is full.
    pub open spec fn push_or_overflow(self, v: U256) -> FrameView {
        if self.stack.len() < STACK_LIMIT {
            self.pushed(v)
        } else {
            self.with_result(InstructionResult::StackOverflow)
        }
    }

    /// The state after the memory has been made to cover `offset + len`, or
    /// the failure when it cannot be.
    pub open spec fn resized(self, offset: nat, len: nat) -> Result<FrameView, InstructionResult> {
        let size = covering_size(offset, len);
        if size > usize::MAX {
            Err(InstructionResult::MemoryOOG)
        } else if size <= self.memory.len() {
            Ok(self)
        } else if !self.gas.can_grow_memory(memory_gas_spec(size / 32)) {
            Err(InstructionResult::MemoryLimitOOG)
        } else {
            Ok(
                FrameView {
                    gas: self.gas.grow_memory(memory_gas_spec(size / 32)),
                    memory: zero_extend(self.memory, size),
                    ..self
                },
            )
        }
    }

    /// `resized` followed by the failure it brings, if any.
    pub open spec fn after_resize(self, offset: nat, len: nat) -> FrameView {
        match self.resized(offset, len) {
            Ok(v) => v,
            Err(e) => self.with_result(e),
        }
    }
}

/// Popping words one at a time pops them in stack order.
pub proof fn lemma_pop_in_turn(s: FrameView, n: nat)
    requires
        s.stack.len() >= n + 1,
    ensures
        s.popped(1).popped(n) == s.popped(n + 1),
        forall|k: nat| k < n ==> #[trigger] s.popped(1).top(k) == s.top(k + 1),
{
    assert(s.popped(1).popped(n).stack =~= s.popped(n + 1).stack);
}

/// Popping `a` words and then `b` pops `a + b`.
pub proof fn lemma_popped_add(s: FrameView, a: nat, b: nat)
    requires
        s.stack.len() >= a + b,
    ensures
        s.popped(a).popped(b) == s.popped(a + b),
        forall|k: nat| k + a < s.stack.len() ==> #[trigger] s.popped(a).top(k) == s.top(k + a),
{
    assert(s.popped(a).popped(b).stack =~= s.popped(a + b).stack);
}

impl Interpreter {
    /// A fresh frame with an empty stack and memory.
    pub fn new(contract: Contract, gas_limit: u64, is_static: bool) -> (r: Interpreter)
        ensures
            r@.stack.len() == 0,
            r@.memory.len() == 0,
            r.gas == (Gas { limit: gas_limit, remaining: gas_limit, memory: 0, refunded: 0 }),
            r.contract == contract,
            r.is_static == is_static,
            r.instruction_result == InstructionResult::Continue,
            r.next_action is Idle,
    {
        Interpreter {
            stack: Vec::new(),
            memory: Vec::new(),
            gas: Gas::new(gas_limit),
            contract,
            is_static,
            instruction_result: InstructionResult::Continue,
            next_action: InterpreterAction::Idle,
        }
    }

    pub fn halt(&mut self, r: InstructionResult)
        ensures
            final(self)@ == old(self)@.with_result(r),
    {
        self.instruction_result = r;
    }

    /// Charges `cost`, or ends the frame out of gas.
    pub fn charge(&mut self, cost: u64) -> (r: bool)
        ensures
            r == (cost <= old(self).gas.remaining),
            r ==> final(self)@ == old(self)@.charged(cost as nat),
            !r ==> final(self)@ == old(self)@.with_result(InstructionResult::OutOfGas),
    {
        if self.gas.record_cost(cost) {
            true
        } else {
            self.instruction_result = InstructionResult::OutOfGas;
            false
        }
    }

    /// Adds `r` to the refund counter.
    pub fn refund(&mut self, r: i64)
        ensures
            final(self)@ == old(self)@.refunded(r as int),
    {
        self.gas.record_refund(r);
    }

    /// Pops the top word.
    pub fn pop(&mut self) -> (r: U256)
        requires
            old(self)@.stack.len() > 0,
        ensures
            r == old(self)@.top(0),
            final(self)@ == old(self)@.popped(1),
    {
        let r = self.stack.pop().unwrap();
        proof {
            assert(self@.stack =~= old(self)@.popped(1).stack);
        }
        r
    }

    /// Pushes a word, or ends the frame when the stack is full.
    pub fn push(&mut self, v: U256) -> (r: bool)
        ensures
            r == (old(self)@.stack.len() < STACK_LIMIT),
            r ==> final(self)@ == old(self)@.pushed(v),
            !r ==> final(self)@ == old(self)@.with_result(InstructionResult::StackOverflow),
    {
        if self.stack.len() >= STACK_LIMIT {
            self.instruction_result = InstructionResult::StackOverflow;
            return false;
        }
        self.stack.push(v);
        true
    }

    /// A word taken as a size or offset, or the frame ended with an invalid
    /// operand when it does not fit in a `usize`.
    pub fn as_usize_or_fail(&mut self, w: U256) -> (r: Option<usize>)
        ensures
            r == (if w@ <= usize::MAX {
                Some(w@ as usize)
            } else {
                None::<usize>
            }),
            r is Some ==> final(self)@ == old(self)@,
            r is None ==> final(self)@ == old(self)@.with_result(
                InstructionResult::InvalidOperandOOG,
            ),
    {
        let r = w.to_usize();
        if r.is_none() {
            self.instruction_result = InstructionResult::InvalidOperandOOG;
        }
        r
    }

    /// Makes the memory cover `offset + len`, zero-filling and charging for
    /// the growth, or ends the frame when it cannot.
    pub fn resize_memory(&mut self, offset: usize, len: usize) -> (r: bool)
        ensures
            r == old(self)@.resized(offset as nat, len as nat) is Ok,
            final(self)@ == old(self)@.after_resize(offset as nat, len as nat),
    {
        if offset > usize::MAX - len || offset + len > usize::MAX - 31 {
            proof {
                assert(covering_size(offset as nat, len as nat) > usize::MAX);
            }
            self.instruction_result = InstructionResult::MemoryOOG;
            return false;
        }
        let size = (offset + len + 31) / 32 * 32;
        if size <= self.memory.len() {
            return true;
        }
        let cost = memory_gas((size / 32) as u64);
        if !self.gas.record_memory(cost) {
            self.instruction_result = InstructionResult::MemoryLimitOOG;
            return false;
        }
        let ghost before = self.memory@;
        self.memory.resize(size, 0u8);
        proof {
            assert forall|i: int| 0 <= i < size implies self.memory@[i] == zero_extend(before, size as nat)[i] by {
                if i >= before.len() {
                    assert(vstd::pervasive::cloned::<u8>(0u8, self.memory@[i]));
                } else {
                    assert(self.memory@.subrange(0, before.len() as int)[i] == before[i]);
                }
            }
            assert(self.memory@ =~= zero_extend(before, size as nat));
        }
        true
    }
}

} // verus!
