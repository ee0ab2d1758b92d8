//! Instructions that read or change chain state through the host.
use vstd::prelude::*;
use crate::bytes::{copy_in, copy_out, overwrite};
use crate::gas::{
    balance_cost, balance_cost_spec, extcodehash_cost, extcodehash_cost_spec, extcodesize_cost,
    extcodesize_cost_spec, sload_cost, sload_cost_spec, SpecId, LOW, WARM_STORAGE_READ_COST,
    extcodecopy_cost, copy_cost_spec, BLOCKHASH, CALL_STIPEND, sstore_cost, sstore_cost_spec,
    sstore_refund, sstore_refund_spec, log_cost, log_cost_spec, selfdestruct_cost,
    selfdestruct_cost_spec, SelfDestructResult, SELFDESTRUCT, num_words, create2_cost,
    create2_cost_spec, initcode_cost, all_but_one_64th, all_but_one_64th_of, call_cost,
    call_cost_spec, CREATE,
};
use crate::host::{log_view, transient_value, Env, Host, LogPlan};
use crate::interpreter::{
    lemma_pop_in_turn, lemma_popped_add, CallContext, CallInputs, CallScheme, CreateInputs, CreateScheme, FrameView,
    InstructionResult, Interpreter, InterpreterAction, MemoryRange, Transfer,
};
use crate::memory_instructions::{charge_and_pop, lemma_covering_size};
use crate::primitives::{Bytecode, Log};
use crate::word::{address_base, lemma_word_of_view, word_of, Address, U256};

verus! {

/// Blocks back from the current one whose hashes `BLOCKHASH` can read.
pub const BLOCK_HASH_HISTORY: u64 = 256;

/// The address held in a word.
pub open spec fn address_of(w: U256) -> Address {
    Address { hi: ((w.hi as nat) % 0x1_0000_0000) as u32, lo: w.lo }
}

pub proof fn lemma_address_of(w: U256, a: Address)
    requires
        a@ == w@ % address_base(),
    ensures
        a == address_of(w),
{
    let h = (w.hi as nat) % 0x1_0000_0000;
    let q = w.hi as nat / 0x1_0000_0000;
    assert(w@ == q * address_base() + (h * 0x1_0000_0000_0000_0000_0000_0000_0000_0000nat + w.lo as nat));
    vstd::arithmetic::div_mod::lemma_fundamental_div_mod_converse(
        w@ as int,
        address_base() as int,
        q as int,
        (h * 0x1_0000_0000_0000_0000_0000_0000_0000_0000nat + w.lo as nat) as int,
    );
    vstd::arithmetic::div_mod::lemma_fundamental_div_mod_converse(
        a@ as int,
        0x1_0000_0000_0000_0000_0000_0000_0000_0000int,
        a.hi as int,
        a.lo as int,
    );
    vstd::arithmetic::div_mod::lemma_fundamental_div_mod_converse(
        a@ as int,
        0x1_0000_0000_0000_0000_0000_0000_0000_0000int,
        h as int,
        w.lo as int,
    );
}

/// Pops an address off the top of the stack.
fn pop_address(interpreter: &mut Interpreter) -> (r: Address)
    requires
        old(interpreter)@.stack.len() > 0,
    ensures
        r == address_of(old(interpreter)@.top(0)),
        final(interpreter)@ == old(interpreter)@.popped(1),
{
    let w = interpreter.pop();
    let a = Address::from_word(&w);
    proof {
        lemma_address_of(w, a);
    }
    a
}

/// Reads a word of state, charges its price (`cold` or `warm` by the host's
/// answer), pushes it: the shape of `BALANCE`, `EXTCODESIZE`, `EXTCODEHASH`
/// and `SLOAD` once the operand is popped.
pub open spec fn charge_and_push(t: FrameView, res: Option<(U256, bool)>, cold: nat, warm: nat) -> FrameView {
    match res {
        None => t.with_result(InstructionResult::FatalExternalError),
        Some((v, is_cold)) => {
            let price = if is_cold {
                cold
            } else {
                warm
            };
            if t.gas.remaining < price {
                t.with_result(InstructionResult::OutOfGas)
            } else {
                t.charged(price).push_or_overflow(v)
            }
        },
    }
}

/// Everything a state-reading instruction does with the host's answer:
/// a fatal error when there is none, else charges the price for the
/// answer's warmth and pushes the value.
pub fn finish_read(interpreter: &mut Interpreter, res: Option<(U256, bool)>, cold: u64, warm: u64)
    ensures
        final(interpreter)@ == charge_and_push(old(interpreter)@, res, cold as nat, warm as nat),
{
    match res {
        None => {
            interpreter.halt(InstructionResult::FatalExternalError);
        },
        Some((v, is_cold)) => {
            let price = if is_cold {
                cold
            } else {
                warm
            };
            if interpreter.charge(price) {
                interpreter.push(v);
            }
        },
    }
}

/// `BALANCE`, given what the host answered.
pub open spec fn balance_spec(s: FrameView, spec: SpecId, res: Option<(U256, bool)>) -> FrameView {
    if s.stack.len() < 1 {
        s.with_result(InstructionResult::StackUnderflow)
    } else {
        charge_and_push(s.popped(1), res, balance_cost_spec(spec, true), balance_cost_spec(spec, false))
    }
}

/// `BALANCE`: asks the host for the balance of the popped address.
pub fn balance<H: Host>(interpreter: &mut Interpreter, host: &mut H, spec: SpecId)
    ensures
        exists|res: Option<(U256, bool)>|
            final(interpreter)@ == #[trigger] balance_spec(old(interpreter)@, spec, res),
        old(interpreter)@.stack.len() < 1 ==> *final(host) == *old(host),
{
    if interpreter.stack.len() < 1 {
        interpreter.halt(InstructionResult::StackUnderflow);
        assert(interpreter@ == balance_spec(old(interpreter)@, spec, None));
        return;
    }
    let address = pop_address(interpreter);
    let res = host.balance(address);
    finish_read(interpreter, res, balance_cost(spec, true), balance_cost(spec, false));
    assert(interpreter@ == balance_spec(old(interpreter)@, spec, res));
}

/// `SELFBALANCE`, given what the host answered.
pub open spec fn selfbalance_spec(s: FrameView, spec: SpecId, res: Option<(U256, bool)>) -> FrameView {
    if !spec.is_enabled(SpecId::Istanbul) {
        s.with_result(InstructionResult::NotActivated)
    } else if s.gas.remaining < 5 {
        s.with_result(InstructionResult::OutOfGas)
    } else {
        match res {
            None => s.charged(5).with_result(InstructionResult::FatalExternalError),
            Some((v, _)) => s.charged(5).push_or_overflow(v),
        }
    }
}

/// `SELFBALANCE`: asks the host for this contract's balance.
pub fn selfbalance<H: Host>(interpreter: &mut Interpreter, host: &mut H, spec: SpecId)
    ensures
        exists|res: Option<(U256, bool)>|
            final(interpreter)@ == #[trigger] selfbalance_spec(old(interpreter)@, spec, res),
        !spec.is_enabled(SpecId::Istanbul) || old(interpreter)@.gas.remaining < 5 ==> *final(host)
            == *old(host),
{
    if !spec.enabled(SpecId::Istanbul) {
        interpreter.halt(InstructionResult::NotActivated);
        assert(interpreter@ == selfbalance_spec(old(interpreter)@, spec, None));
        return;
    }
    if !interpreter.charge(LOW) {
        assert(interpreter@ == selfbalance_spec(old(interpreter)@, spec, None));
        return;
    }
    let res = host.balance(interpreter.contract.address);
    match res {
        None => {
            interpreter.halt(InstructionResult::FatalExternalError);
        },
        Some((balance, _)) => {
            interpreter.push(balance);
        },
    }
    assert(interpreter@ == selfbalance_spec(old(interpreter)@, spec, res));
}

/// The size of the code the host answered, as a word, with its warmth.
pub open spec fn size_answer(res: Option<(Seq<u8>, bool)>) -> Option<(U256, bool)> {
    match res {
        None => None,
        Some((code, cold)) => Some((word_of(code.len()), cold)),
    }
}

/// `EXTCODESIZE`, given what the host answered.
pub open spec fn extcodesize_spec(s: FrameView, spec: SpecId, res: Option<(Seq<u8>, bool)>) -> FrameView {
    if s.stack.len() < 1 {
        s.with_result(InstructionResult::StackUnderflow)
    } else {
        charge_and_push(
            s.popped(1),
            size_answer(res),
            extcodesize_cost_spec(spec, true),
            extcodesize_cost_spec(spec, false),
        )
    }
}

/// The code and warmth the host answered, as values.
pub open spec fn code_answer(res: Option<(Bytecode, bool)>) -> Option<(Seq<u8>, bool)> {
    match res {
        None => None,
        Some((c, cold)) => Some((c@, cold)),
    }
}

/// `EXTCODESIZE`: asks the host for the code of the popped address.
pub fn extcodesize<H: Host>(interpreter: &mut Interpreter, host: &mut H, spec: SpecId)
    ensures
        exists|res: Option<(Seq<u8>, bool)>|
            final(interpreter)@ == #[trigger] extcodesize_spec(old(interpreter)@, spec, res),
        old(interpreter)@.stack.len() < 1 ==> *final(host) == *old(host),
{
    if interpreter.stack.len() < 1 {
        interpreter.halt(InstructionResult::StackUnderflow);
        assert(interpreter@ == extcodesize_spec(old(interpreter)@, spec, None));
        return;
    }
    let address = pop_address(interpreter);
    let res = host.code(address);
    let size = match &res {
        None => None,
        Some((code, is_cold)) => {
            let size = U256::from_usize(code.len());
            proof {
                lemma_word_of_view(size);
            }
            Some((size, *is_cold))
        },
    };
    finish_read(interpreter, size, extcodesize_cost(spec, true), extcodesize_cost(spec, false));
    assert(interpreter@ == extcodesize_spec(old(interpreter)@, spec, code_answer(res)));
}

/// `EXTCODEHASH`, given what the host answered.
pub open spec fn extcodehash_spec(s: FrameView, spec: SpecId, res: Option<(U256, bool)>) -> FrameView {
    if !spec.is_enabled(SpecId::Constantinople) {
        s.with_result(InstructionResult::NotActivated)
    } else if s.stack.len() < 1 {
        s.with_result(InstructionResult::StackUnderflow)
    } else {
        charge_and_push(
            s.popped(1),
            res,
            extcodehash_cost_spec(spec, true),
            extcodehash_cost_spec(spec, false),
        )
    }
}

/// `EXTCODEHASH`: asks the host for the code hash of the popped address.
pub fn extcodehash<H: Host>(interpreter: &mut Interpreter, host: &mut H, spec: SpecId)
    ensures
        exists|res: Option<(U256, bool)>|
            final(interpreter)@ == #[trigger] extcodehash_spec(old(interpreter)@, spec, res),
        !spec.is_enabled(SpecId::Constantinople) || old(interpreter)@.stack.len() < 1
            ==> *final(host) == *old(host),
{
    if !spec.enabled(SpecId::Constantinople) {
        interpreter.halt(InstructionResult::NotActivated);
        assert(interpreter@ == extcodehash_spec(old(interpreter)@, spec, None));
        return;
    }
    if interpreter.stack.len() < 1 {
        interpreter.halt(InstructionResult::StackUnderflow);
        assert(interpreter@ == extcodehash_spec(old(interpreter)@, spec, None));
        return;
    }
    let address = pop_address(interpreter);
    let res = host.code_hash(address);
    finish_read(interpreter, res, extcodehash_cost(spec, true), extcodehash_cost(spec, false));
    assert(interpreter@ == extcodehash_spec(old(interpreter)@, spec, res));
}

/// `SLOAD`, given what the host answered.
pub open spec fn sload_spec(s: FrameView, spec: SpecId, res: Option<(U256, bool)>) -> FrameView {
    if s.stack.len() < 1 {
        s.with_result(InstructionResult::StackUnderflow)
    } else {
        charge_and_push(s.popped(1), res, sload_cost_spec(spec, true), sload_cost_spec(spec, false))
    }
}

/// `SLOAD`: asks the host for the popped slot of this contract.
pub fn sload<H: Host>(interpreter: &mut Interpreter, host: &mut H, spec: SpecId)
    ensures
        exists|res: Option<(U256, bool)>|
            final(interpreter)@ == #[trigger] sload_spec(old(interpreter)@, spec, res),
        old(interpreter)@.stack.len() < 1 ==> *final(host) == *old(host),
{
    if interpreter.stack.len() < 1 {
        interpreter.halt(InstructionResult::StackUnderflow);
        assert(interpreter@ == sload_spec(old(interpreter)@, spec, None));
        return;
    }
    let index = interpreter.pop();
    let res = host.sload(interpreter.contract.address, index);
    finish_read(interpreter, res, sload_cost(spec, true), sload_cost(spec, false));
    assert(interpreter@ == sload_spec(old(interpreter)@, spec, res));
}

/// `TSTORE`. The host is handed the contract's address and the two popped
/// words, and answers nothing.
pub open spec fn tstore_spec(s: FrameView, spec: SpecId) -> FrameView {
    if !spec.is_enabled(SpecId::Cancun) {
        s.with_result(InstructionResult::NotActivated)
    } else if s.is_static {
        s.with_result(InstructionResult::StateChangeDuringStaticCall)
    } else {
        match charge_and_pop(s, 100, 2) {
            Err(e) => e,
            Ok(t) => t,
        }
    }
}

/// Whether `TSTORE` gets as far as writing: the revision has it, the frame
/// is not static, the price is there and so are the two operands.
pub open spec fn tstore_writes(s: FrameView, spec: SpecId) -> bool {
    spec.is_enabled(SpecId::Cancun) && !s.is_static && s.gas.remaining >= 100 && s.stack.len() >= 2
}

/// `TSTORE`: writes the second word under the key on top, for this
/// contract, into the host's transient storage.
pub fn tstore<H: Host>(interpreter: &mut Interpreter, host: &mut H, spec: SpecId)
    ensures
        final(interpreter)@ == tstore_spec(old(interpreter)@, spec),
        tstore_writes(old(interpreter)@, spec) ==> final(host).transient() == old(host).transient().insert(
            (old(interpreter)@.contract.address, old(interpreter)@.top(0)),
            old(interpreter)@.top(1),
        ),
        !tstore_writes(old(interpreter)@, spec) ==> *final(host) == *old(host),
{
    if !spec.enabled(SpecId::Cancun) {
        interpreter.halt(InstructionResult::NotActivated);
        return;
    }
    if interpreter.is_static {
        interpreter.halt(InstructionResult::StateChangeDuringStaticCall);
        return;
    }
    if !interpreter.charge(WARM_STORAGE_READ_COST) {
        return;
    }
    if interpreter.stack.len() < 2 {
        interpreter.halt(InstructionResult::StackUnderflow);
        return;
    }
    proof {
        lemma_pop_in_turn(interpreter@, 1);
    }
    let index = interpreter.pop();
    let value = interpreter.pop();
    host.tstore(interpreter.contract.address, index, value);
}

/// The frame with its top word replaced by `v`.
pub open spec fn replace_top(s: FrameView, v: U256) -> FrameView {
    FrameView { stack: s.stack.update(s.stack.len() - 1, v), ..s }
}

/// `TLOAD`, given the value in transient storage.
pub open spec fn tload_spec(s: FrameView, spec: SpecId, value: U256) -> FrameView {
    if !spec.is_enabled(SpecId::Cancun) {
        s.with_result(InstructionResult::NotActivated)
    } else if s.gas.remaining < 100 {
        s.with_result(InstructionResult::OutOfGas)
    } else if s.stack.len() < 1 {
        s.charged(100).with_result(InstructionResult::StackUnderflow)
    } else {
        replace_top(s.charged(100), value)
    }
}

/// `TLOAD`: replaces the key on top with its value in the host's transient
/// storage, for this contract.
pub fn tload<H: Host>(interpreter: &mut Interpreter, host: &mut H, spec: SpecId)
    ensures
        final(interpreter)@ == tload_spec(
            old(interpreter)@,
            spec,
            transient_value(
                old(host).transient(),
                old(interpreter)@.contract.address,
                old(interpreter)@.top(0),
            ),
        ),
{
    if !spec.enabled(SpecId::Cancun) {
        interpreter.halt(InstructionResult::NotActivated);
        return;
    }
    if !interpreter.charge(WARM_STORAGE_READ_COST) {
        return;
    }
    if interpreter.stack.len() < 1 {
        interpreter.halt(InstructionResult::StackUnderflow);
        return;
    }
    let last = interpreter.stack.len() - 1;
    let index = interpreter.stack[last];
    let value = host.tload(interpreter.contract.address, index);
    interpreter.stack.set(last, value);
}

/// `len` bytes of `code` from `offset`, zero past its end.
pub open spec fn code_window(code: Seq<u8>, offset: nat, len: nat) -> Seq<u8> {
    Seq::new(len, |i: int| if offset + i < code.len() { code[offset + i] } else { 0u8 })
}

fn window(code: &Vec<u8>, offset: usize, len: usize) -> (r: Vec<u8>)
    requires
        offset <= code.len(),
    ensures
        r@ == code_window(code@, offset as nat, len as nat),
{
    let mut out: Vec<u8> = Vec::new();
    let avail = code.len() - offset;
    let mut k: usize = 0;
    while k < len
        invariant
            k <= len,
            offset <= code.len(),
            avail == code.len() - offset,
            out@ == code_window(code@, offset as nat, k as nat),
        decreases len - k,
    {
        if k < avail {
            out.push(code[offset + k]);
        } else {
            out.push(0u8);
        }
        k = k + 1;
        proof {
            assert(out@ =~= code_window(code@, offset as nat, k as nat));
        }
    }
    out
}

/// What `EXTCODECOPY` does with the host's answer, once its four operands
/// are popped: checks the length, charges the copy, and copies the code from
/// `code_offset` (zero past its end) into memory at `memory_offset`.
pub open spec fn copy_outcome(
    u: FrameView,
    spec: SpecId,
    memory_offset: nat,
    code_offset: nat,
    len: nat,
    res: Option<(Seq<u8>, bool)>,
) -> FrameView {
    match res {
        None => u.with_result(InstructionResult::FatalExternalError),
        Some((code, is_cold)) => if len > usize::MAX {
            u.with_result(InstructionResult::InvalidOperandOOG)
        } else {
            match copy_cost_spec(extcodesize_cost_spec(spec, is_cold), len) {
                None => u.with_result(InstructionResult::OutOfGas),
                Some(cost) => if u.gas.remaining < cost {
                    u.with_result(InstructionResult::OutOfGas)
                } else if len == 0 {
                    u.charged(cost as nat)
                } else if memory_offset > usize::MAX {
                    u.charged(cost as nat).with_result(InstructionResult::InvalidOperandOOG)
                } else {
                    let c = u.charged(cost as nat);
                    let from = if code_offset < code.len() {
                        code_offset
                    } else {
                        code.len()
                    };
                    match c.resized(memory_offset, len) {
                        Err(e) => c.with_result(e),
                        Ok(m) => m.with_memory(
                            overwrite(m.memory, memory_offset, code_window(code, from, len)),
                        ),
                    }
                },
            }
        },
    }
}

/// `EXTCODECOPY`, given what the host answered. Operands: address, then
/// memory offset, code offset and length.
pub open spec fn extcodecopy_spec(s: FrameView, spec: SpecId, res: Option<(Seq<u8>, bool)>) -> FrameView {
    if s.stack.len() < 1 {
        s.with_result(InstructionResult::StackUnderflow)
    } else if s.stack.len() < 4 {
        s.popped(1).with_result(InstructionResult::StackUnderflow)
    } else {
        copy_outcome(s.popped(4), spec, s.top(1)@, s.top(2)@, s.top(3)@, res)
    }
}

/// Everything `EXTCODECOPY` does with the host's answer on the code.
pub fn finish_extcodecopy(
    interpreter: &mut Interpreter,
    spec: SpecId,
    memory_offset: U256,
    code_offset: U256,
    len: U256,
    res: Option<(Bytecode, bool)>,
)
    ensures
        final(interpreter)@ == copy_outcome(
            old(interpreter)@,
            spec,
            memory_offset@,
            code_offset@,
            len@,
            code_answer(res),
        ),
{
    let (code, is_cold) = match res {
        None => {
            interpreter.halt(InstructionResult::FatalExternalError);
            return;
        },
        Some(r) => r,
    };
    let len = match interpreter.as_usize_or_fail(len) {
        Some(l) => l,
        None => return,
    };
    match extcodecopy_cost(spec, len as u64, is_cold) {
        None => {
            interpreter.halt(InstructionResult::OutOfGas);
            return;
        },
        Some(cost) => {
            if !interpreter.charge(cost) {
                return;
            }
        },
    }
    if len == 0 {
        return;
    }
    let memory_offset = match interpreter.as_usize_or_fail(memory_offset) {
        Some(m) => m,
        None => return,
    };
    let code_offset = code_offset.to_usize_saturated();
    let from = if code_offset < code.len() {
        code_offset
    } else {
        code.len()
    };
    if !interpreter.resize_memory(memory_offset, len) {
        return;
    }
    proof {
        lemma_covering_size(memory_offset as nat, len as nat);
    }
    let data = window(code.bytes(), from, len);
    copy_in(&mut interpreter.memory, memory_offset, &data);
}

/// `EXTCODECOPY`: asks the host for the code of the popped address.
pub fn extcodecopy<H: Host>(interpreter: &mut Interpreter, host: &mut H, spec: SpecId)
    ensures
        exists|res: Option<(Seq<u8>, bool)>|
            final(interpreter)@ == #[trigger] extcodecopy_spec(old(interpreter)@, spec, res),
        old(interpreter)@.stack.len() < 4 ==> *final(host) == *old(host),
{
    if interpreter.stack.len() < 1 {
        interpreter.halt(InstructionResult::StackUnderflow);
        assert(interpreter@ == extcodecopy_spec(old(interpreter)@, spec, None));
        return;
    }
    proof {
        if interpreter@.stack.len() >= 4 {
            lemma_pop_in_turn(interpreter@, 3);
        }
    }
    let address = pop_address(interpreter);
    if interpreter.stack.len() < 3 {
        interpreter.halt(InstructionResult::StackUnderflow);
        assert(interpreter@ == extcodecopy_spec(old(interpreter)@, spec, None));
        return;
    }
    let ghost s1 = interpreter@;
    proof {
        lemma_pop_in_turn(s1, 2);
        lemma_pop_in_turn(s1.popped(1), 1);
    }
    let memory_offset = interpreter.pop();
    let code_offset = interpreter.pop();
    let len = interpreter.pop();
    let res = host.code(address);
    let ghost answer = code_answer(res);
    finish_extcodecopy(interpreter, spec, memory_offset, code_offset, len, res);
    assert(interpreter@ == extcodecopy_spec(old(interpreter)@, spec, answer));
}

/// Whether `BLOCKHASH` asks the host for a hash: the price is there, so is
/// the operand, and the block is one of the 256 before the current one.
pub open spec fn blockhash_asks(s: FrameView, env: Env) -> bool {
    s.gas.remaining >= 20 && s.stack.len() >= 1 && s.top(0)@ < env.block_number@
        && env.block_number@ - s.top(0)@ <= 256
}

/// `BLOCKHASH`, given the environment and the hash the host answered.
pub open spec fn blockhash_spec(s: FrameView, env: Env, hash: Option<U256>) -> FrameView {
    if s.gas.remaining < 20 {
        s.with_result(InstructionResult::OutOfGas)
    } else if s.stack.len() < 1 {
        s.charged(20).with_result(InstructionResult::StackUnderflow)
    } else {
        let c = s.charged(20);
        let number = s.top(0)@;
        let current = env.block_number@;
        if number < current && current - number <= 256 {
            match hash {
                None => c.with_result(InstructionResult::FatalExternalError),
                Some(h) => replace_top(c, h),
            }
        } else {
            replace_top(c, U256 { hi: 0, lo: 0 })
        }
    }
}

/// `BLOCKHASH`: replaces the block number on top with its hash, asking the
/// host only for a block in the window.
pub fn blockhash<H: Host>(interpreter: &mut Interpreter, host: &mut H)
    ensures
        exists|hash: Option<U256>|
            final(interpreter)@ == #[trigger] blockhash_spec(old(interpreter)@, old(host).env_model(), hash),
        !blockhash_asks(old(interpreter)@, old(host).env_model()) ==> *final(host) == *old(host),
{
    if !interpreter.charge(BLOCKHASH) {
        assert(interpreter@ == blockhash_spec(old(interpreter)@, old(host).env_model(), None));
        return;
    }
    if interpreter.stack.len() < 1 {
        interpreter.halt(InstructionResult::StackUnderflow);
        assert(interpreter@ == blockhash_spec(old(interpreter)@, old(host).env_model(), None));
        return;
    }
    let last = interpreter.stack.len() - 1;
    let number = interpreter.stack[last];
    let env = host.env();
    if let Some(diff) = env.block_number.checked_sub(&number) {
        let diff = diff.to_usize_saturated();
        if diff <= BLOCK_HASH_HISTORY as usize && diff != 0 {
            let hash = host.block_hash(number);
            match hash {
                None => {
                    interpreter.halt(InstructionResult::FatalExternalError);
                },
                Some(h) => {
                    interpreter.stack.set(last, h);
                },
            }
            assert(interpreter@ == blockhash_spec(old(interpreter)@, env, hash));
            return;
        }
    }
    interpreter.stack.set(last, U256::zero());
    proof {
        assert(interpreter.stack@[last as int] =~= U256 { hi: 0, lo: 0 });
    }
    assert(interpreter@ == blockhash_spec(old(interpreter)@, env, None));
}

/// `SSTORE`, given what the host answered. From Istanbul on, the frame fails
/// before the write when no more than the call stipend is left.
pub open spec fn sstore_spec(s: FrameView, spec: SpecId, res: Option<(U256, U256, U256, bool)>) -> FrameView {
    if s.is_static {
        s.with_result(InstructionResult::StateChangeDuringStaticCall)
    } else if s.stack.len() < 2 {
        s.with_result(InstructionResult::StackUnderflow)
    } else {
        let t = s.popped(2);
        if spec.is_enabled(SpecId::Istanbul) && t.gas.remaining <= 2300 {
            t.with_result(InstructionResult::OutOfGas)
        } else {
            match res {
                None => t.with_result(InstructionResult::FatalExternalError),
                Some((original, current, new, is_cold)) => match sstore_cost_spec(
                    spec,
                    original@,
                    current@,
                    new@,
                    t.gas.remaining as nat,
                    is_cold,
                ) {
                    None => t.with_result(InstructionResult::OutOfGas),
                    Some(cost) => if t.gas.remaining < cost {
                        t.with_result(InstructionResult::OutOfGas)
                    } else {
                        t.charged(cost as nat).refunded(
                            sstore_refund_spec(spec, original@, current@, new@),
                        )
                    },
                },
            }
        }
    }
}

/// The checks and pops of `SSTORE` before the write: the frame with the
/// key and value popped, and the key and value the host is to write for
/// this contract; or the frame stopped.
pub open spec fn sstore_operands(s: FrameView, spec: SpecId) -> Result<(FrameView, U256, U256), FrameView> {
    if s.is_static {
        Err(s.with_result(InstructionResult::StateChangeDuringStaticCall))
    } else if s.stack.len() < 2 {
        Err(s.with_result(InstructionResult::StackUnderflow))
    } else if spec.is_enabled(SpecId::Istanbul) && s.popped(2).gas.remaining <= 2300 {
        Err(s.popped(2).with_result(InstructionResult::OutOfGas))
    } else {
        Ok((s.popped(2), s.top(0), s.top(1)))
    }
}

/// Everything `SSTORE` does before the write: returns the key and value to
/// hand to the host.
pub fn prepare_sstore(interpreter: &mut Interpreter, spec: SpecId) -> (r: Option<(U256, U256)>)
    ensures
        match sstore_operands(old(interpreter)@, spec) {
            Ok((t, k, v)) => r == Some((k, v)) && final(interpreter)@ == t,
            Err(e) => r is None && final(interpreter)@ == e,
        },
{
    if interpreter.is_static {
        interpreter.halt(InstructionResult::StateChangeDuringStaticCall);
        return None;
    }
    if interpreter.stack.len() < 2 {
        interpreter.halt(InstructionResult::StackUnderflow);
        return None;
    }
    proof {
        lemma_pop_in_turn(interpreter@, 1);
    }
    let index = interpreter.pop();
    let value = interpreter.pop();
    if spec.enabled(SpecId::Istanbul) && interpreter.gas.remaining() <= CALL_STIPEND {
        interpreter.halt(InstructionResult::OutOfGas);
        return None;
    }
    Some((index, value))
}

/// `SSTORE`: hands the key and value that `prepare_sstore` returns, for
/// this contract, to the host, then charges and refunds by its answer.
pub fn sstore<H: Host>(interpreter: &mut Interpreter, host: &mut H, spec: SpecId)
    ensures
        exists|res: Option<(U256, U256, U256, bool)>|
            final(interpreter)@ == #[trigger] sstore_spec(old(interpreter)@, spec, res),
        sstore_operands(old(interpreter)@, spec) is Err ==> *final(host) == *old(host),
{
    let (index, value) = match prepare_sstore(interpreter, spec) {
        Some(p) => p,
        None => {
            assert(interpreter@ == sstore_spec(old(interpreter)@, spec, None));
            return;
        },
    };
    let res = host.sstore(interpreter.contract.address, index, value);
    match res {
        None => {
            interpreter.halt(InstructionResult::FatalExternalError);
        },
        Some((original, current, new, is_cold)) => {
            let remaining = interpreter.gas.remaining();
            match sstore_cost(spec, &original, &current, &new, remaining, is_cold) {
                None => {
                    interpreter.halt(InstructionResult::OutOfGas);
                },
                Some(cost) => {
                    if interpreter.charge(cost) {
                        let refund = sstore_refund(spec, &original, &current, &new);
                        interpreter.refund(refund);
                    }
                },
            }
        },
    }
    assert(interpreter@ == sstore_spec(old(interpreter)@, spec, res));
}

/// `LOG<n>`: the frame afterwards and the record handed to the host, if the
/// instruction gets that far. Operands: offset and length of the data, then
/// `n` topics, the first on top.
pub open spec fn log_outcome(s: FrameView, n: nat) -> (FrameView, Option<LogPlan>) {
    if s.is_static {
        (s.with_result(InstructionResult::StateChangeDuringStaticCall), None)
    } else if s.stack.len() < 2 {
        (s.with_result(InstructionResult::StackUnderflow), None)
    } else {
        let offset = s.top(0)@;
        let len = s.top(1)@;
        let t = s.popped(2);
        if len > usize::MAX {
            (t.with_result(InstructionResult::InvalidOperandOOG), None)
        } else {
            match log_cost_spec(n, len) {
                None => (t.with_result(InstructionResult::OutOfGas), None),
                Some(cost) => if t.gas.remaining < cost {
                    (t.with_result(InstructionResult::OutOfGas), None)
                } else {
                    let c = t.charged(cost as nat);
                    let m: Result<(FrameView, Seq<u8>), FrameView> = if len == 0 {
                        Ok((c, Seq::empty()))
                    } else if offset > usize::MAX {
                        Err(c.with_result(InstructionResult::InvalidOperandOOG))
                    } else {
                        match c.resized(offset, len) {
                            Err(e) => Err(c.with_result(e)),
                            Ok(m) => Ok((m, m.memory.subrange(offset as int, (offset + len) as int))),
                        }
                    };
                    match m {
                        Err(e) => (e, None),
                        Ok((m, data)) => if m.stack.len() < n {
                            (m.with_result(InstructionResult::StackUnderflow), None)
                        } else {
                            (
                                m.popped(n),
                                Some(
                                    LogPlan {
                                        address: s.contract.address,
                                        topics: Seq::new(n, |i: int| m.top(i as nat)),
                                        data,
                                    },
                                ),
                            )
                        },
                    }
                },
            }
        }
    }
}

/// The frame after `LOG<n>`.
pub open spec fn log_spec(s: FrameView, n: nat) -> FrameView {
    log_outcome(s, n).0
}

/// Everything `LOG<N>` does but handing the record to the host: checks,
/// charges, reads the data and pops the topics; returns the record.
pub fn prepare_log<const N: usize>(interpreter: &mut Interpreter) -> (r: Option<Log>)
    requires
        N <= 4,
    ensures
        final(interpreter)@ == log_outcome(old(interpreter)@, N as nat).0,
        match log_outcome(old(interpreter)@, N as nat).1 {
            Some(p) => r matches Some(l) && l.address == p.address && l.topics@ == p.topics
                && l.data@ == p.data,
            None => r is None,
        },
{
    if interpreter.is_static {
        interpreter.halt(InstructionResult::StateChangeDuringStaticCall);
        return None;
    }
    if interpreter.stack.len() < 2 {
        interpreter.halt(InstructionResult::StackUnderflow);
        return None;
    }
    proof {
        lemma_pop_in_turn(interpreter@, 1);
    }
    let offset = interpreter.pop();
    let len = interpreter.pop();
    let len = match interpreter.as_usize_or_fail(len) {
        Some(l) => l,
        None => return None,
    };
    match log_cost(N as u8, len as u64) {
        None => {
            interpreter.halt(InstructionResult::OutOfGas);
            return None;
        },
        Some(cost) => {
            if !interpreter.charge(cost) {
                return None;
            }
        },
    }
    let data = if len == 0 {
        Vec::new()
    } else {
        let offset = match interpreter.as_usize_or_fail(offset) {
            Some(o) => o,
            None => return None,
        };
        if !interpreter.resize_memory(offset, len) {
            return None;
        }
        proof {
            lemma_covering_size(offset as nat, len as nat);
        }
        copy_out(&interpreter.memory, offset, len)
    };
    if interpreter.stack.len() < N {
        interpreter.halt(InstructionResult::StackUnderflow);
        return None;
    }
    let ghost before = interpreter@;
    let mut topics: Vec<U256> = Vec::new();
    let mut k: usize = 0;
    proof {
        assert(before.popped(0).stack =~= before.stack);
    }
    while k < N
        invariant
            k <= N,
            before.stack.len() >= N,
            interpreter@ == before.popped(k as nat),
            topics@ == Seq::new(k as nat, |i: int| before.top(i as nat)),
        decreases N - k,
    {
        proof {
            lemma_popped_add(before, k as nat, 1);
        }
        let t = interpreter.pop();
        topics.push(t);
        k = k + 1;
        proof {
            assert(interpreter@.stack =~= before.popped(k as nat).stack);
            assert(topics@ =~= Seq::new(k as nat, |i: int| before.top(i as nat)));
        }
    }
    Some(Log { address: interpreter.contract.address, topics, data })
}

/// `LOG<N>`: hands the record that `prepare_log` makes to the host.
pub fn log<const N: usize, H: Host>(interpreter: &mut Interpreter, host: &mut H)
    requires
        N <= 4,
    ensures
        final(interpreter)@ == log_spec(old(interpreter)@, N as nat),
        match log_outcome(old(interpreter)@, N as nat).1 {
            Some(p) => final(host).logs() == old(host).logs().push(p),
            None => *final(host) == *old(host),
        },
{
    if let Some(log) = prepare_log::<N>(interpreter) {
        let ghost plan = log_view(log);
        host.log(log);
        proof {
            assert(plan == log_outcome(old(interpreter)@, N as nat).1.unwrap());
        }
    }
}

/// `SELFDESTRUCT`, given what the host answered.
pub open spec fn selfdestruct_spec(s: FrameView, spec: SpecId, res: Option<SelfDestructResult>) -> FrameView {
    if s.is_static {
        s.with_result(InstructionResult::StateChangeDuringStaticCall)
    } else if s.stack.len() < 1 {
        s.with_result(InstructionResult::StackUnderflow)
    } else {
        let t = s.popped(1);
        match res {
            None => t.with_result(InstructionResult::FatalExternalError),
            Some(r) => {
                let u = if !spec.is_enabled(SpecId::London) && !r.previously_destroyed {
                    t.refunded(24000)
                } else {
                    t
                };
                let cost = selfdestruct_cost_spec(spec, r);
                if u.gas.remaining < cost {
                    u.with_result(InstructionResult::OutOfGas)
                } else {
                    u.charged(cost).with_result(InstructionResult::SelfDestruct)
                }
            },
        }
    }
}

/// The checks and pop of `SELFDESTRUCT` before the host is asked: the frame
/// with the beneficiary popped, and the beneficiary; or the frame stopped.
pub open spec fn selfdestruct_operands(s: FrameView) -> Result<(FrameView, Address), FrameView> {
    if s.is_static {
        Err(s.with_result(InstructionResult::StateChangeDuringStaticCall))
    } else if s.stack.len() < 1 {
        Err(s.with_result(InstructionResult::StackUnderflow))
    } else {
        Ok((s.popped(1), address_of(s.top(0))))
    }
}

/// Everything `SELFDESTRUCT` does before asking the host: returns the
/// beneficiary to hand to it, with this contract's address.
pub fn prepare_selfdestruct(interpreter: &mut Interpreter) -> (r: Option<Address>)
    ensures
        match selfdestruct_operands(old(interpreter)@) {
            Ok((t, target)) => r == Some(target) && final(interpreter)@ == t,
            Err(e) => r is None && final(interpreter)@ == e,
        },
{
    if interpreter.is_static {
        interpreter.halt(InstructionResult::StateChangeDuringStaticCall);
        return None;
    }
    if interpreter.stack.len() < 1 {
        interpreter.halt(InstructionResult::StackUnderflow);
        return None;
    }
    Some(pop_address(interpreter))
}

/// `SELFDESTRUCT`: hands this contract's address and the beneficiary that
/// `prepare_selfdestruct` returns to the host, then refunds and charges by
/// its answer.
pub fn selfdestruct<H: Host>(interpreter: &mut Interpreter, host: &mut H, spec: SpecId)
    ensures
        exists|res: Option<SelfDestructResult>|
            final(interpreter)@ == #[trigger] selfdestruct_spec(old(interpreter)@, spec, res),
        selfdestruct_operands(old(interpreter)@) is Err ==> *final(host) == *old(host),
{
    let target = match prepare_selfdestruct(interpreter) {
        Some(t) => t,
        None => {
            assert(interpreter@ == selfdestruct_spec(old(interpreter)@, spec, None));
            return;
        },
    };
    let res = host.selfdestruct(interpreter.contract.address, target);
    match res {
        None => {
            interpreter.halt(InstructionResult::FatalExternalError);
        },
        Some(r) => {
            if !spec.enabled(SpecId::London) && !r.previously_destroyed {
                interpreter.refund(SELFDESTRUCT);
            }
            let cost = selfdestruct_cost(spec, r);
            if interpreter.charge(cost) {
                interpreter.halt(InstructionResult::SelfDestruct);
            }
        },
    }
    assert(interpreter@ == selfdestruct_spec(old(interpreter)@, spec, res));
}

/// Largest init code when no code size limit is configured.
pub const MAX_INITCODE_SIZE: usize = 49152;

/// A creation request, as values.
pub struct CreatePlan {
    pub caller: Address,
    pub scheme: CreateScheme,
    pub value: U256,
    pub init_code: Seq<u8>,
    pub gas_limit: u64,
}

/// Whether the pending action is the creation `p`.
pub open spec fn create_matches(a: InterpreterAction, p: CreatePlan) -> bool {
    match a {
        InterpreterAction::Create { inputs } => inputs.caller == p.caller && inputs.scheme == p.scheme
            && inputs.value == p.value && inputs.init_code@ == p.init_code && inputs.gas_limit
            == p.gas_limit,
        _ => false,
    }
}

/// The init-code size bound from Shanghai on.
pub open spec fn max_initcode_size(env: Env) -> nat {
    match env.limit_contract_code_size {
        Some(l) => if 2 * l <= usize::MAX {
            (2 * l) as nat
        } else {
            usize::MAX as nat
        },
        None => 49152,
    }
}

/// The init code of a creation: metered and size-checked from Shanghai on,
/// copied out of memory; or the failure that stops the frame.
pub open spec fn init_code_outcome(t: FrameView, spec: SpecId, code_offset: nat, len: nat, env: Env) -> Result<(FrameView, Seq<u8>), FrameView> {
    if len == 0 {
        Ok((t, Seq::empty()))
    } else {
        let metered: Result<FrameView, FrameView> = if spec.is_enabled(SpecId::Shanghai) {
            if len > max_initcode_size(env) {
                Err(t.with_result(InstructionResult::CreateInitCodeSizeLimit))
            } else if t.gas.remaining < 2 * num_words(len) {
                Err(t.with_result(InstructionResult::OutOfGas))
            } else {
                Ok(t.charged(2 * num_words(len)))
            }
        } else {
            Ok(t)
        };
        match metered {
            Err(e) => Err(e),
            Ok(u) => if code_offset > usize::MAX {
                Err(u.with_result(InstructionResult::InvalidOperandOOG))
            } else {
                match u.resized(code_offset, len) {
                    Err(e) => Err(u.with_result(e)),
                    Ok(m) => Ok((m, m.memory.subrange(code_offset as int, (code_offset + len) as int))),
                }
            },
        }
    }
}

/// The creation scheme, with its price charged (and for `CREATE2` the salt
/// popped); or the failure that stops the frame.
pub open spec fn scheme_outcome(m: FrameView, is_create2: bool, len: nat) -> Result<(FrameView, CreateScheme), FrameView> {
    if is_create2 {
        if m.stack.len() < 1 {
            Err(m.with_result(InstructionResult::StackUnderflow))
        } else {
            let n = m.popped(1);
            match create2_cost_spec(len) {
                None => Err(n.with_result(InstructionResult::OutOfGas)),
                Some(c) => if n.gas.remaining < c {
                    Err(n.with_result(InstructionResult::OutOfGas))
                } else {
                    Ok((n.charged(c as nat), CreateScheme::Create2 { salt: m.top(0) }))
                },
            }
        }
    } else if m.gas.remaining < 32000 {
        Err(m.with_result(InstructionResult::OutOfGas))
    } else {
        Ok((m.charged(32000), CreateScheme::Create))
    }
}

/// `CREATE` (or `CREATE2` when `is_create2`) given the environment: the frame
/// afterwards, its pending action aside, and the creation it asks for, if any.
/// Operands: value, code offset, code length, and for `CREATE2` a salt.
pub open spec fn create_outcome(s: FrameView, spec: SpecId, is_create2: bool, env: Env) -> (FrameView, Option<CreatePlan>) {
    if s.is_static {
        (s.with_result(InstructionResult::StateChangeDuringStaticCall), None)
    } else if is_create2 && !spec.is_enabled(SpecId::Petersburg) {
        (s.with_result(InstructionResult::NotActivated), None)
    } else if s.stack.len() < 3 {
        (s.with_result(InstructionResult::StackUnderflow), None)
    } else {
        let len = s.top(2)@;
        let t = s.popped(3);
        if len > usize::MAX {
            (t.with_result(InstructionResult::InvalidOperandOOG), None)
        } else {
            match init_code_outcome(t, spec, s.top(1)@, len, env) {
                Err(e) => (e, None),
                Ok((m, code)) => match scheme_outcome(m, is_create2, len) {
                    Err(e) => (e, None),
                    Ok((n, scheme)) => {
                        let limit = if spec.is_enabled(SpecId::Tangerine) {
                            all_but_one_64th(n.gas.remaining as nat)
                        } else {
                            n.gas.remaining as nat
                        };
                        (
                            n.charged(limit).with_result(InstructionResult::CallOrCreate),
                            Some(
                                CreatePlan {
                                    caller: s.contract.address,
                                    scheme,
                                    value: s.top(0),
                                    init_code: code,
                                    gas_limit: limit as u64,
                                },
                            ),
                        )
                    },
                },
            }
        }
    }
}

/// Whether `f` is what `create_outcome` gives for `s`: the frame agrees
/// but for its pending action, which is the planned creation when there is
/// one and is left alone otherwise.
pub open spec fn create_holds(s: FrameView, f: FrameView, spec: SpecId, is_create2: bool, env: Env) -> bool {
    let (v, plan) = create_outcome(s, spec, is_create2, env);
    match plan {
        None => f == v,
        Some(p) => f == (FrameView { action: f.action, ..v }) && create_matches(f.action, p),
    }
}

fn saturating_double(l: usize) -> (r: usize)
    ensures
        r as nat == (if 2 * l <= usize::MAX {
            (2 * l) as nat
        } else {
            usize::MAX as nat
        }),
{
    match l.checked_mul(2) {
        Some(d) => d,
        None => usize::MAX,
    }
}

/// Everything a creation does to load its init code, given the
/// environment: the size limit and metering from Shanghai on, and the copy
/// out of memory.
pub fn init_code_with_env(interpreter: &mut Interpreter, spec: SpecId, code_offset: U256, len: usize, env: Env) -> (r: Option<Vec<u8>>)
    ensures
        match init_code_outcome(old(interpreter)@, spec, code_offset@, len as nat, env) {
            Ok((m, code)) => r matches Some(c) && c@ == code && final(interpreter)@ == m,
            Err(e) => r is None && final(interpreter)@ == e,
        },
{
    if len == 0 {
        return Some(Vec::new());
    }
    if spec.enabled(SpecId::Shanghai) {
        let max_initcode_size = match env.limit_contract_code_size {
            Some(limit) => saturating_double(limit),
            None => MAX_INITCODE_SIZE,
        };
        if len > max_initcode_size {
            interpreter.halt(InstructionResult::CreateInitCodeSizeLimit);
            return None;
        }
        let cost = initcode_cost(len as u64);
        if !interpreter.charge(cost) {
            return None;
        }
    }
    let code_offset = match interpreter.as_usize_or_fail(code_offset) {
        Some(o) => o,
        None => return None,
    };
    if !interpreter.resize_memory(code_offset, len) {
        return None;
    }
    proof {
        lemma_covering_size(code_offset as nat, len as nat);
    }
    Some(copy_out(&interpreter.memory, code_offset, len))
}

/// Loads the init code, reading the environment from the host only when
/// the size limit applies.
fn load_init_code<H: Host>(interpreter: &mut Interpreter, host: &H, spec: SpecId, code_offset: U256, len: usize) -> (r: Option<Vec<u8>>)
    ensures
        match init_code_outcome(old(interpreter)@, spec, code_offset@, len as nat, host.env_model()) {
            Ok((m, code)) => r matches Some(c) && c@ == code && final(interpreter)@ == m,
            Err(e) => r is None && final(interpreter)@ == e,
        },
{
    let env = if len != 0 && spec.enabled(SpecId::Shanghai) {
        host.env()
    } else {
        Env { block_number: U256::zero(), limit_contract_code_size: None }
    };
    let ghost t = interpreter@;
    proof {
        assert(init_code_outcome(t, spec, code_offset@, len as nat, env) == init_code_outcome(
            t,
            spec,
            code_offset@,
            len as nat,
            host.env_model(),
        ));
    }
    init_code_with_env(interpreter, spec, code_offset, len, env)
}

fn pick_scheme(interpreter: &mut Interpreter, is_create2: bool, len: usize) -> (r: Option<CreateScheme>)
    ensures
        match scheme_outcome(old(interpreter)@, is_create2, len as nat) {
            Ok((n, scheme)) => r == Some(scheme) && final(interpreter)@ == n,
            Err(e) => r is None && final(interpreter)@ == e,
        },
{
    if is_create2 {
        if interpreter.stack.len() < 1 {
            interpreter.halt(InstructionResult::StackUnderflow);
            return None;
        }
        let salt = interpreter.pop();
        match create2_cost(len) {
            None => {
                interpreter.halt(InstructionResult::OutOfGas);
                None
            },
            Some(cost) => {
                if interpreter.charge(cost) {
                    Some(CreateScheme::Create2 { salt })
                } else {
                    None
                }
            },
        }
    } else if interpreter.charge(CREATE) {
        Some(CreateScheme::Create)
    } else {
        None
    }
}

#[verifier::rlimit(40)]
pub fn create<const IS_CREATE2: bool, H: Host>(interpreter: &mut Interpreter, host: &mut H, spec: SpecId)
    ensures
        create_holds(old(interpreter)@, final(interpreter)@, spec, IS_CREATE2, old(host).env_model()),
        *final(host) == *old(host),
{
    let ghost s = interpreter@;
    let ghost model = host.env_model();
    if interpreter.is_static {
        interpreter.halt(InstructionResult::StateChangeDuringStaticCall);
        assert(create_holds(s, interpreter@, spec, IS_CREATE2, model));
        return;
    }
    if IS_CREATE2 && !spec.enabled(SpecId::Petersburg) {
        interpreter.halt(InstructionResult::NotActivated);
        assert(create_holds(s, interpreter@, spec, IS_CREATE2, model));
        return;
    }
    if interpreter.stack.len() < 3 {
        interpreter.halt(InstructionResult::StackUnderflow);
        assert(create_holds(s, interpreter@, spec, IS_CREATE2, model));
        return;
    }
    proof {
        lemma_pop_in_turn(s, 2);
        lemma_pop_in_turn(s.popped(1), 1);
    }
    let value = interpreter.pop();
    let code_offset = interpreter.pop();
    let len = interpreter.pop();
    let len = match interpreter.as_usize_or_fail(len) {
        Some(l) => l,
        None => {
            assert(create_holds(s, interpreter@, spec, IS_CREATE2, model));
            return;
        },
    };
    let ghost env = model;
    let code = load_init_code(interpreter, host, spec, code_offset, len);
    let code = match code {
        Some(c) => c,
        None => {
            assert(create_holds(s, interpreter@, spec, IS_CREATE2, env));
            return;
        },
    };
    let scheme = match pick_scheme(interpreter, IS_CREATE2, len) {
        Some(sc) => sc,
        None => {
            assert(create_holds(s, interpreter@, spec, IS_CREATE2, env));
            return;
        },
    };
    let mut gas_limit = interpreter.gas.remaining();
    if spec.enabled(SpecId::Tangerine) {
        gas_limit = all_but_one_64th_of(gas_limit);
    }
    interpreter.charge(gas_limit);
    interpreter.next_action = InterpreterAction::Create {
        inputs: CreateInputs {
            caller: interpreter.contract.address,
            scheme,
            value,
            init_code: code,
            gas_limit,
        },
    };
    interpreter.halt(InstructionResult::CallOrCreate);
    assert(create_holds(s, interpreter@, spec, IS_CREATE2, env));
}

/// `v`, or `u64::MAX` when it does not fit.
pub open spec fn saturate_u64(v: nat) -> u64 {
    if v <= u64::MAX {
        v as u64
    } else {
        u64::MAX
    }
}

/// The operands of a call before its memory ranges: gas limit, target and,
/// for `CALL` and `CALLCODE`, the value (zero otherwise); with the frame
/// after popping them, or the failure that stops it.
pub open spec fn operands_outcome(s: FrameView, spec: SpecId, scheme: CallScheme) -> Result<(FrameView, u64, Address, U256), FrameView> {
    let carries = scheme == CallScheme::Call || scheme == CallScheme::CallCode;
    if scheme == CallScheme::DelegateCall && !spec.is_enabled(SpecId::Homestead) {
        Err(s.with_result(InstructionResult::NotActivated))
    } else if scheme == CallScheme::StaticCall && !spec.is_enabled(SpecId::Byzantium) {
        Err(s.with_result(InstructionResult::NotActivated))
    } else if s.stack.len() < 1 {
        Err(s.with_result(InstructionResult::StackUnderflow))
    } else if s.stack.len() < 2 {
        Err(s.popped(1).with_result(InstructionResult::StackUnderflow))
    } else if carries && s.stack.len() < 3 {
        Err(s.popped(2).with_result(InstructionResult::StackUnderflow))
    } else {
        let local = saturate_u64(s.top(0)@);
        let to = address_of(s.top(1));
        let value = if carries {
            s.top(2)
        } else {
            U256 { hi: 0, lo: 0 }
        };
        let t = if carries {
            s.popped(3)
        } else {
            s.popped(2)
        };
        if scheme == CallScheme::Call && t.is_static && value@ != 0 {
            Err(t.with_result(InstructionResult::CallNotAllowedInsideStatic))
        } else {
            Ok((t, local, to, value))
        }
    }
}

fn pop_call_operands(interpreter: &mut Interpreter, spec: SpecId, scheme: CallScheme) -> (r: Option<(u64, Address, U256)>)
    ensures
        match operands_outcome(old(interpreter)@, spec, scheme) {
            Ok((t, local, to, value)) => r == Some((local, to, value)) && final(interpreter)@ == t,
            Err(e) => r is None && final(interpreter)@ == e,
        },
{
    let ghost s = interpreter@;
    if scheme == CallScheme::DelegateCall && !spec.enabled(SpecId::Homestead) {
        interpreter.halt(InstructionResult::NotActivated);
        return None;
    }
    if scheme == CallScheme::StaticCall && !spec.enabled(SpecId::Byzantium) {
        interpreter.halt(InstructionResult::NotActivated);
        return None;
    }
    if interpreter.stack.len() < 1 {
        interpreter.halt(InstructionResult::StackUnderflow);
        return None;
    }
    proof {
        if s.stack.len() >= 3 {
            lemma_pop_in_turn(s, 2);
            lemma_pop_in_turn(s, 1);
            lemma_pop_in_turn(s.popped(1), 1);
        } else if s.stack.len() >= 2 {
            lemma_pop_in_turn(s, 1);
        }
    }
    let gas_word = interpreter.pop();
    if interpreter.stack.len() < 1 {
        interpreter.halt(InstructionResult::StackUnderflow);
        return None;
    }
    let to = pop_address(interpreter);
    let local = gas_word.to_u64_saturated();
    let carries = scheme == CallScheme::Call || scheme == CallScheme::CallCode;
    let value = if carries {
        if interpreter.stack.len() < 1 {
            interpreter.halt(InstructionResult::StackUnderflow);
            return None;
        }
        interpreter.pop()
    } else {
        U256 { hi: 0, lo: 0 }
    };
    if scheme == CallScheme::Call && interpreter.is_static && !value.is_zero() {
        interpreter.halt(InstructionResult::CallNotAllowedInsideStatic);
        return None;
    }
    Some((local, to, value))
}

/// The call's input bytes, copied from memory; or the failure that stops the
/// frame.
pub open spec fn input_outcome(t: FrameView, in_offset: nat, in_len: nat) -> Result<(FrameView, Seq<u8>), FrameView> {
    if in_len > usize::MAX {
        Err(t.with_result(InstructionResult::InvalidOperandOOG))
    } else if in_len == 0 {
        Ok((t, Seq::empty()))
    } else if in_offset > usize::MAX {
        Err(t.with_result(InstructionResult::InvalidOperandOOG))
    } else {
        match t.resized(in_offset, in_len) {
            Err(e) => Err(t.with_result(e)),
            Ok(m) => Ok((m, m.memory.subrange(in_offset as int, (in_offset + in_len) as int))),
        }
    }
}

/// The memory range the callee's output goes to, with memory grown to cover
/// it; an empty range at `usize::MAX` when its length is zero.
pub open spec fn output_outcome(m: FrameView, out_offset: nat, out_len: nat) -> Result<(FrameView, MemoryRange), FrameView> {
    if out_len > usize::MAX {
        Err(m.with_result(InstructionResult::InvalidOperandOOG))
    } else if out_len == 0 {
        Ok((m, MemoryRange { start: usize::MAX, end: usize::MAX }))
    } else if out_offset > usize::MAX {
        Err(m.with_result(InstructionResult::InvalidOperandOOG))
    } else {
        match m.resized(out_offset, out_len) {
            Err(e) => Err(m.with_result(e)),
            Ok(n) => Ok(
                (n, MemoryRange { start: out_offset as usize, end: (out_offset + out_len) as usize }),
            ),
        }
    }
}

/// The four memory operands of a call (input offset and length, output
/// offset and length), popped and turned into the input bytes and the output
/// range.
pub open spec fn io_outcome(s: FrameView) -> Result<(FrameView, Seq<u8>, MemoryRange), FrameView> {
    if s.stack.len() < 4 {
        Err(s.with_result(InstructionResult::StackUnderflow))
    } else {
        match input_outcome(s.popped(4), s.top(0)@, s.top(1)@) {
            Err(e) => Err(e),
            Ok((m, input)) => match output_outcome(m, s.top(2)@, s.top(3)@) {
                Err(e) => Err(e),
                Ok((n, range)) => Ok((n, input, range)),
            },
        }
    }
}

fn memory_input(interpreter: &mut Interpreter, in_offset: U256, in_len: U256) -> (r: Option<Vec<u8>>)
    ensures
        match input_outcome(old(interpreter)@, in_offset@, in_len@) {
            Ok((m, input)) => r matches Some(i) && i@ == input && final(interpreter)@ == m,
            Err(e) => r is None && final(interpreter)@ == e,
        },
{
    let in_len = match interpreter.as_usize_or_fail(in_len) {
        Some(l) => l,
        None => return None,
    };
    if in_len == 0 {
        return Some(Vec::new());
    }
    let in_offset = match interpreter.as_usize_or_fail(in_offset) {
        Some(o) => o,
        None => return None,
    };
    if !interpreter.resize_memory(in_offset, in_len) {
        return None;
    }
    proof {
        lemma_covering_size(in_offset as nat, in_len as nat);
    }
    Some(copy_out(&interpreter.memory, in_offset, in_len))
}

fn memory_output(interpreter: &mut Interpreter, out_offset: U256, out_len: U256) -> (r: Option<MemoryRange>)
    ensures
        match output_outcome(old(interpreter)@, out_offset@, out_len@) {
            Ok((n, range)) => r == Some(range) && final(interpreter)@ == n,
            Err(e) => r is None && final(interpreter)@ == e,
        },
{
    let out_len = match interpreter.as_usize_or_fail(out_len) {
        Some(l) => l,
        None => return None,
    };
    if out_len == 0 {
        return Some(MemoryRange { start: usize::MAX, end: usize::MAX });
    }
    let out_offset = match interpreter.as_usize_or_fail(out_offset) {
        Some(o) => o,
        None => return None,
    };
    if !interpreter.resize_memory(out_offset, out_len) {
        return None;
    }
    proof {
        lemma_covering_size(out_offset as nat, out_len as nat);
    }
    Some(MemoryRange { start: out_offset, end: out_offset + out_len })
}

/// Pops the input and output ranges of a call; copies the input out of
/// memory and grows memory to cover the output.
pub fn get_memory_input_and_out_ranges(interpreter: &mut Interpreter) -> (r: Option<(Vec<u8>, MemoryRange)>)
    ensures
        match io_outcome(old(interpreter)@) {
            Ok((n, input, range)) => r matches Some((i, rg)) && i@ == input && rg == range
                && final(interpreter)@ == n,
            Err(e) => r is None && final(interpreter)@ == e,
        },
{
    let ghost s = interpreter@;
    if interpreter.stack.len() < 4 {
        interpreter.halt(InstructionResult::StackUnderflow);
        return None;
    }
    proof {
        lemma_popped_add(s, 1, 1);
        lemma_popped_add(s, 2, 1);
        lemma_popped_add(s, 3, 1);
    }
    let in_offset = interpreter.pop();
    let in_len = interpreter.pop();
    let out_offset = interpreter.pop();
    let out_len = interpreter.pop();
    let input = match memory_input(interpreter, in_offset, in_len) {
        Some(i) => i,
        None => return None,
    };
    match memory_output(interpreter, out_offset, out_len) {
        Some(range) => Some((input, range)),
        None => None,
    }
}

/// The price of a call charged, and the gas it may forward, given whether
/// the target was cold and whether it exists; or the failure that stops the
/// frame. From Tangerine on, the forwarded gas is at most all but one 64th
/// of what is left.
pub open spec fn call_gas_outcome(
    s: FrameView,
    spec: SpecId,
    has_transfer: bool,
    local_gas_limit: u64,
    is_call_or_callcode: bool,
    is_call_or_staticcall: bool,
    load: Option<(bool, bool)>,
) -> Result<(FrameView, u64), FrameView> {
    match load {
        None => Err(s.with_result(InstructionResult::FatalExternalError)),
        Some((is_cold, exists)) => {
            let cost = call_cost_spec(
                spec,
                has_transfer,
                !exists,
                is_cold,
                is_call_or_callcode,
                is_call_or_staticcall,
            );
            if s.gas.remaining < cost {
                Err(s.with_result(InstructionResult::OutOfGas))
            } else {
                let c = s.charged(cost);
                let cap = all_but_one_64th(c.gas.remaining as nat);
                let limit = if spec.is_enabled(SpecId::Tangerine) && cap < local_gas_limit {
                    cap as u64
                } else {
                    local_gas_limit
                };
                Ok((c, limit))
            }
        },
    }
}

/// Everything a call does with the host's answer on its target (cold,
/// exists): charges the call's price and works out the gas to forward.
pub fn call_gas_for(
    interpreter: &mut Interpreter,
    spec: SpecId,
    has_transfer: bool,
    local_gas_limit: u64,
    is_call_or_callcode: bool,
    is_call_or_staticcall: bool,
    load: Option<(bool, bool)>,
) -> (r: Option<u64>)
    ensures
        match call_gas_outcome(
            old(interpreter)@,
            spec,
            has_transfer,
            local_gas_limit,
            is_call_or_callcode,
            is_call_or_staticcall,
            load,
        ) {
            Ok((c, limit)) => r == Some(limit) && final(interpreter)@ == c,
            Err(e) => r is None && final(interpreter)@ == e,
        },
{
    let (is_cold, exists) = match load {
        None => {
            interpreter.halt(InstructionResult::FatalExternalError);
            return None;
        },
        Some(l) => l,
    };
    let cost = call_cost(spec, has_transfer, !exists, is_cold, is_call_or_callcode, is_call_or_staticcall);
    if !interpreter.charge(cost) {
        return None;
    }
    let cap = all_but_one_64th_of(interpreter.gas.remaining());
    if spec.enabled(SpecId::Tangerine) && cap < local_gas_limit {
        Some(cap)
    } else {
        Some(local_gas_limit)
    }
}

/// Asks the host about the call's target and hands its answer to
/// `call_gas_for`.
pub fn calc_call_gas<H: Host>(
    interpreter: &mut Interpreter,
    host: &mut H,
    spec: SpecId,
    to: Address,
    has_transfer: bool,
    local_gas_limit: u64,
    is_call_or_callcode: bool,
    is_call_or_staticcall: bool,
) -> (r: Option<u64>)
    ensures
        exists|load: Option<(bool, bool)>|
            match #[trigger] call_gas_outcome(
                old(interpreter)@,
                spec,
                has_transfer,
                local_gas_limit,
                is_call_or_callcode,
                is_call_or_staticcall,
                load,
            ) {
                Ok((c, limit)) => r == Some(limit) && final(interpreter)@ == c,
                Err(e) => r is None && final(interpreter)@ == e,
            },
{
    let load = host.load_account(to);
    call_gas_for(
        interpreter,
        spec,
        has_transfer,
        local_gas_limit,
        is_call_or_callcode,
        is_call_or_staticcall,
        load,
    )
}

/// A call request, as values.
pub struct CallPlan {
    pub contract: Address,
    pub transfer: Transfer,
    pub input: Seq<u8>,
    pub gas_limit: u64,
    pub context: CallContext,
    pub is_static: bool,
    pub return_memory_offset: MemoryRange,
}

/// Whether the pending action is the call `p`.
pub open spec fn call_matches(a: InterpreterAction, p: CallPlan) -> bool {
    match a {
        InterpreterAction::Call { inputs } => inputs.contract == p.contract && inputs.transfer
            == p.transfer && inputs.input@ == p.input && inputs.gas_limit == p.gas_limit
            && inputs.context == p.context && inputs.is_static == p.is_static
            && inputs.return_memory_offset == p.return_memory_offset,
        _ => false,
    }
}

/// The request each scheme makes: who pays, whose storage and code the
/// callee runs with, and what it sees as caller and value.
pub open spec fn call_plan(
    s: FrameView,
    scheme: CallScheme,
    to: Address,
    value: U256,
    input: Seq<u8>,
    gas_limit: u64,
    range: MemoryRange,
) -> CallPlan {
    let me = s.contract.address;
    let zero = U256 { hi: 0, lo: 0 };
    let (transfer, context, is_static) = match scheme {
        CallScheme::Call => (
            Transfer { source: me, target: to, value },
            CallContext { address: to, caller: me, code_address: to, apparent_value: value, scheme },
            s.is_static,
        ),
        CallScheme::CallCode => (
            Transfer { source: me, target: me, value },
            CallContext { address: me, caller: me, code_address: to, apparent_value: value, scheme },
            s.is_static,
        ),
        CallScheme::DelegateCall => (
            Transfer { source: me, target: me, value: zero },
            CallContext {
                address: me,
                caller: s.contract.caller,
                code_address: to,
                apparent_value: s.contract.value,
                scheme,
            },
            s.is_static,
        ),
        CallScheme::StaticCall => (
            Transfer { source: me, target: me, value: zero },
            CallContext { address: to, caller: me, code_address: to, apparent_value: zero, scheme },
            true,
        ),
    };
    CallPlan {
        contract: to,
        transfer,
        input,
        gas_limit,
        context,
        is_static,
        return_memory_offset: range,
    }
}

/// A call of the given scheme, given the host's answer on the target
/// (cold, exists): the frame afterwards, its pending action aside, and the
/// call it asks for, if any. With value, `CALL` and `CALLCODE` add the call
/// stipend to the forwarded gas after the caller is charged.
pub open spec fn call_outcome(s: FrameView, spec: SpecId, scheme: CallScheme, load: Option<(bool, bool)>) -> (FrameView, Option<CallPlan>) {
    match operands_outcome(s, spec, scheme) {
        Err(e) => (e, None),
        Ok((t, local, to, value)) => match io_outcome(t) {
            Err(e) => (e, None),
            Ok((m, input, range)) => {
                let carries = scheme == CallScheme::Call || scheme == CallScheme::CallCode;
                let transfers = carries && value@ != 0;
                match call_gas_outcome(
                    m,
                    spec,
                    transfers,
                    local,
                    carries,
                    scheme == CallScheme::Call || scheme == CallScheme::StaticCall,
                    load,
                ) {
                    Err(e) => (e, None),
                    Ok((c, limit)) => if c.gas.remaining < limit {
                        (c.with_result(InstructionResult::OutOfGas), None)
                    } else {
                        let forwarded = if transfers {
                            saturate_u64((limit + 2300) as nat)
                        } else {
                            limit
                        };
                        (
                            c.charged(limit as nat).with_result(InstructionResult::CallOrCreate),
                            Some(call_plan(s, scheme, to, value, input, forwarded, range)),
                        )
                    },
                }
            },
        },
    }
}

/// Whether `f` is what `call_outcome` gives for `s`.
pub open spec fn call_holds(s: FrameView, f: FrameView, spec: SpecId, scheme: CallScheme, load: Option<(bool, bool)>) -> bool {
    let (v, plan) = call_outcome(s, spec, scheme, load);
    match plan {
        None => f == v,
        Some(p) => f == (FrameView { action: f.action, ..v }) && call_matches(f.action, p),
    }
}

/// Whether a call gets as far as asking the host about its target: its
/// operands and memory ranges are all right.
pub open spec fn call_asks_host(s: FrameView, spec: SpecId, scheme: CallScheme) -> bool {
    match operands_outcome(s, spec, scheme) {
        Ok((t, _, _, _)) => io_outcome(t) is Ok,
        Err(_) => false,
    }
}

#[verifier::rlimit(60)]
fn call_with_scheme<H: Host>(interpreter: &mut Interpreter, host: &mut H, spec: SpecId, scheme: CallScheme)
    ensures
        exists|load: Option<(bool, bool)>|
            #[trigger] call_holds(old(interpreter)@, final(interpreter)@, spec, scheme, load),
        !call_asks_host(old(interpreter)@, spec, scheme) ==> *final(host) == *old(host),
{
    let ghost s = interpreter@;
    let (local, to, value) = match pop_call_operands(interpreter, spec, scheme) {
        Some(o) => o,
        None => {
            assert(call_holds(s, interpreter@, spec, scheme, None));
            return;
        },
    };
    let (input, range) = match get_memory_input_and_out_ranges(interpreter) {
        Some(io) => io,
        None => {
            assert(call_holds(s, interpreter@, spec, scheme, None));
            return;
        },
    };
    let ghost m = interpreter@;
    let carries = scheme == CallScheme::Call || scheme == CallScheme::CallCode;
    let transfers = carries && !value.is_zero();
    let unguarded = scheme == CallScheme::Call || scheme == CallScheme::StaticCall;
    let load = host.load_account(to);
    let limit = call_gas_for(interpreter, spec, transfers, local, carries, unguarded, load);
    let limit = match limit {
        Some(l) => l,
        None => {
            assert(call_holds(s, interpreter@, spec, scheme, load));
            return;
        },
    };
    if !interpreter.charge(limit) {
        assert(call_holds(s, interpreter@, spec, scheme, load));
        return;
    }
    let forwarded = if transfers {
        match limit.checked_add(CALL_STIPEND) {
            Some(g) => g,
            None => u64::MAX,
        }
    } else {
        limit
    };
    let me = interpreter.contract.address;
    let zero = U256::zero();
    let (transfer, context, is_static) = match scheme {
        CallScheme::Call => (
            Transfer { source: me, target: to, value },
            CallContext { address: to, caller: me, code_address: to, apparent_value: value, scheme },
            interpreter.is_static,
        ),
        CallScheme::CallCode => (
            Transfer { source: me, target: me, value },
            CallContext { address: me, caller: me, code_address: to, apparent_value: value, scheme },
            interpreter.is_static,
        ),
        CallScheme::DelegateCall => (
            Transfer { source: me, target: me, value: zero },
            CallContext {
                address: me,
                caller: interpreter.contract.caller,
                code_address: to,
                apparent_value: interpreter.contract.value,
                scheme,
            },
            interpreter.is_static,
        ),
        CallScheme::StaticCall => (
            Transfer { source: me, target: me, value: zero },
            CallContext { address: to, caller: me, code_address: to, apparent_value: zero, scheme },
            true,
        ),
    };
    interpreter.next_action = InterpreterAction::Call {
        inputs: CallInputs {
            contract: to,
            transfer,
            input,
            gas_limit: forwarded,
            context,
            is_static,
            return_memory_offset: range,
        },
    };
    interpreter.halt(InstructionResult::CallOrCreate);
    assert(call_holds(s, interpreter@, spec, scheme, load));
}

/// `CALL`: operands gas, target, value, then the input and output ranges.
pub fn call<H: Host>(interpreter: &mut Interpreter, host: &mut H, spec: SpecId)
    ensures
        exists|load: Option<(bool, bool)>|
            #[trigger] call_holds(old(interpreter)@, final(interpreter)@, spec, CallScheme::Call, load),
        !call_asks_host(old(interpreter)@, spec, CallScheme::Call) ==> *final(host) == *old(host),
{
    call_with_scheme(interpreter, host, spec, CallScheme::Call);
}

/// `CALLCODE`: runs the target's code on this contract's own state.
pub fn call_code<H: Host>(interpreter: &mut Interpreter, host: &mut H, spec: SpecId)
    ensures
        exists|load: Option<(bool, bool)>|
            #[trigger] call_holds(old(interpreter)@, final(interpreter)@, spec, CallScheme::CallCode, load),
        !call_asks_host(old(interpreter)@, spec, CallScheme::CallCode) ==> *final(host) == *old(host),
{
    call_with_scheme(interpreter, host, spec, CallScheme::CallCode);
}

/// `DELEGATECALL`: as `CALLCODE`, keeping this frame's caller and value.
pub fn delegate_call<H: Host>(interpreter: &mut Interpreter, host: &mut H, spec: SpecId)
    ensures
        exists|load: Option<(bool, bool)>|
            #[trigger] call_holds(old(interpreter)@, final(interpreter)@, spec, CallScheme::DelegateCall, load),
        !call_asks_host(old(interpreter)@, spec, CallScheme::DelegateCall) ==> *final(host) == *old(host),
{
    call_with_scheme(interpreter, host, spec, CallScheme::DelegateCall);
}

/// `STATICCALL`: a call whose callee may not change state.
pub fn static_call<H: Host>(interpreter: &mut Interpreter, host: &mut H, spec: SpecId)
    ensures
        exists|load: Option<(bool, bool)>|
            #[trigger] call_holds(old(interpreter)@, final(interpreter)@, spec, CallScheme::StaticCall, load),
        !call_asks_host(old(interpreter)@, spec, CallScheme::StaticCall) ==> *final(host) == *old(host),
{
    call_with_scheme(interpreter, host, spec, CallScheme::StaticCall);
}

/// From Tangerine on, a creation forwards all but one 64th of the gas left
/// once its own price is paid, and the frame keeps the 64th.
pub proof fn lemma_create_forwards_all_but_one_64th(s: FrameView, spec: SpecId, is_create2: bool, env: Env)
    requires
        spec.is_enabled(SpecId::Tangerine),
        create_outcome(s, spec, is_create2, env).1 is Some,
    ensures
        ({
            let (f, plan) = create_outcome(s, spec, is_create2, env);
            let left = f.gas.remaining + plan.unwrap().gas_limit;
            plan.unwrap().gas_limit == all_but_one_64th(left as nat) && f.gas.remaining == left / 64
        }),
{
}

/// `LOG0` with no data costs the base log price alone and leaves memory as
/// it was.
pub proof fn lemma_log0_without_data(s: FrameView)
    requires
        !s.is_static,
        s.stack.len() >= 2,
        s.top(0)@ == 0,
        s.top(1)@ == 0,
        s.gas.remaining >= 375,
    ensures
        log_spec(s, 0) == s.popped(2).charged(375),
        log_spec(s, 0).memory == s.memory,
{
    let c = s.popped(2).charged(375);
    assert(c.popped(0).stack =~= c.stack);
}

/// `EXTCODECOPY` of no bytes touches no memory whatever the host answers,
/// however large the offsets; given the code, it charges the copy price of
/// zero words and ends normally.
pub proof fn lemma_extcodecopy_nothing(s: FrameView, spec: SpecId, res: Option<(Seq<u8>, bool)>)
    requires
        s.stack.len() >= 4,
        s.top(3)@ == 0,
    ensures
        extcodecopy_spec(s, spec, res).memory == s.memory,
        res matches Some((code, is_cold)) ==> (s.gas.remaining >= extcodesize_cost_spec(spec, is_cold)
            ==> extcodecopy_spec(s, spec, res) == s.popped(4).charged(
            extcodesize_cost_spec(spec, is_cold),
        )),
{
    assert(num_words(0) == 0);
}

} // verus!
