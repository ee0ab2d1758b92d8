//! Instructions on the frame's linear memory.
use vstd::prelude::*;
use crate::bytes::{be_value, copy_in, copy_out, overwrite, read_word, word_be_bytes, word_bytes};
use crate::gas::{copy_cost_spec, verylowcopy_cost, SpecId, BASE, VERYLOW};
use crate::host::Host;
use crate::interpreter::{covering_size, lemma_pop_in_turn, FrameView, InstructionResult, Interpreter};
use crate::word::{lemma_word_of_view, word_of, U256};

verus! {

pub proof fn lemma_covering_size(offset: nat, len: nat)
    ensures
        covering_size(offset, len) >= offset + len,
{
    let n = offset + len;
    assert((n + 31) / 32 * 32 >= n) by (nonlinear_arith);
}

/// The frame after charging `cost` and popping `n` words, or the failure
/// that stops it first.
pub open spec fn charge_and_pop(s: FrameView, cost: nat, n: nat) -> Result<FrameView, FrameView> {
    if s.gas.remaining < cost {
        Err(s.with_result(InstructionResult::OutOfGas))
    } else if s.stack.len() < n {
        Err(s.charged(cost).with_result(InstructionResult::StackUnderflow))
    } else {
        Ok(s.charged(cost).popped(n))
    }
}

/// `MLOAD`: pushes the word at the popped offset.
pub open spec fn mload_spec(s: FrameView) -> FrameView {
    match charge_and_pop(s, 3, 1) {
        Err(e) => e,
        Ok(t) => {
            let index = s.top(0)@;
            if index > usize::MAX {
                t.with_result(InstructionResult::InvalidOperandOOG)
            } else {
                match t.resized(index, 32) {
                    Err(e) => t.with_result(e),
                    Ok(u) => u.push_or_overflow(
                        word_of(be_value(u.memory.subrange(index as int, (index + 32) as int))),
                    ),
                }
            }
        },
    }
}

/// `MSTORE`: writes the second word at the offset on top.
pub open spec fn mstore_spec(s: FrameView) -> FrameView {
    match charge_and_pop(s, 3, 2) {
        Err(e) => e,
        Ok(t) => {
            let index = s.top(0)@;
            if index > usize::MAX {
                t.with_result(InstructionResult::InvalidOperandOOG)
            } else {
                match t.resized(index, 32) {
                    Err(e) => t.with_result(e),
                    Ok(u) => u.with_memory(overwrite(u.memory, index, word_be_bytes(s.top(1)))),
                }
            }
        },
    }
}

/// `MSTORE8`: writes the low byte of the second word at the offset on top.
pub open spec fn mstore8_spec(s: FrameView) -> FrameView {
    match charge_and_pop(s, 3, 2) {
        Err(e) => e,
        Ok(t) => {
            let index = s.top(0)@;
            if index > usize::MAX {
                t.with_result(InstructionResult::InvalidOperandOOG)
            } else {
                match t.resized(index, 1) {
                    Err(e) => t.with_result(e),
                    Ok(u) => u.with_memory(u.memory.update(index as int, (s.top(1)@ % 256) as u8)),
                }
            }
        },
    }
}

/// `MSIZE`: pushes the memory size in bytes.
pub open spec fn msize_spec(s: FrameView) -> FrameView {
    if s.gas.remaining < 2 {
        s.with_result(InstructionResult::OutOfGas)
    } else {
        s.charged(2).push_or_overflow(word_of(s.memory.len()))
    }
}

/// `MCOPY`: copies `len` bytes from `src` to `dst`, the operands popped in
/// the order `dst`, `src`, `len`.
pub open spec fn mcopy_spec(s: FrameView, spec: SpecId) -> FrameView {
    if !spec.is_enabled(SpecId::Cancun) {
        s.with_result(InstructionResult::NotActivated)
    } else if s.stack.len() < 3 {
        s.with_result(InstructionResult::StackUnderflow)
    } else {
        let t = s.popped(3);
        let dst = s.top(0)@;
        let src = s.top(1)@;
        let len = s.top(2)@;
        if len > usize::MAX {
            t.with_result(InstructionResult::InvalidOperandOOG)
        } else {
            match copy_cost_spec(3, len) {
                None => t.with_result(InstructionResult::OutOfGas),
                Some(cost) => if t.gas.remaining < cost {
                    t.with_result(InstructionResult::OutOfGas)
                } else if len == 0 {
                    t.charged(cost as nat)
                } else if dst > usize::MAX || src > usize::MAX {
                    t.charged(cost as nat).with_result(InstructionResult::InvalidOperandOOG)
                } else {
                    let c = t.charged(cost as nat);
                    let far = if dst > src {
                        dst
                    } else {
                        src
                    };
                    match c.resized(far, len) {
                        Err(e) => c.with_result(e),
                        Ok(u) => u.with_memory(
                            overwrite(u.memory, dst, u.memory.subrange(src as int, (src + len) as int)),
                        ),
                    }
                },
            }
        }
    }
}

pub fn mload<H: Host>(interpreter: &mut Interpreter, _host: &mut H)
    ensures
        final(interpreter)@ == mload_spec(old(interpreter)@),
{
    if !interpreter.charge(VERYLOW) {
        return;
    }
    if interpreter.stack.len() < 1 {
        interpreter.halt(InstructionResult::StackUnderflow);
        return;
    }
    let index = interpreter.pop();
    let index = match interpreter.as_usize_or_fail(index) {
        Some(i) => i,
        None => return,
    };
    if !interpreter.resize_memory(index, 32) {
        return;
    }
    proof {
        lemma_covering_size(index as nat, 32);
    }
    let w = read_word(&interpreter.memory, index);
    proof {
        lemma_word_of_view(w);
    }
    interpreter.push(w);
}

pub fn mstore<H: Host>(interpreter: &mut Interpreter, _host: &mut H)
    ensures
        final(interpreter)@ == mstore_spec(old(interpreter)@),
{
    if !interpreter.charge(VERYLOW) {
        return;
    }
    if interpreter.stack.len() < 2 {
        interpreter.halt(InstructionResult::StackUnderflow);
        return;
    }
    proof {
        lemma_pop_in_turn(interpreter@, 1);
    }
    let index = interpreter.pop();
    let value = interpreter.pop();
    let index = match interpreter.as_usize_or_fail(index) {
        Some(i) => i,
        None => return,
    };
    if !interpreter.resize_memory(index, 32) {
        return;
    }
    proof {
        lemma_covering_size(index as nat, 32);
    }
    let bytes = word_bytes(&value);
    copy_in(&mut interpreter.memory, index, &bytes);
}

pub fn mstore8<H: Host>(interpreter: &mut Interpreter, _host: &mut H)
    ensures
        final(interpreter)@ == mstore8_spec(old(interpreter)@),
{
    if !interpreter.charge(VERYLOW) {
        return;
    }
    if interpreter.stack.len() < 2 {
        interpreter.halt(InstructionResult::StackUnderflow);
        return;
    }
    proof {
        lemma_pop_in_turn(interpreter@, 1);
    }
    let index = interpreter.pop();
    let value = interpreter.pop();
    let index = match interpreter.as_usize_or_fail(index) {
        Some(i) => i,
        None => return,
    };
    if !interpreter.resize_memory(index, 1) {
        return;
    }
    proof {
        lemma_covering_size(index as nat, 1);
    }
    interpreter.memory.set(index, value.low_byte());
}

pub fn msize<H: Host>(interpreter: &mut Interpreter, _host: &mut H)
    ensures
        final(interpreter)@ == msize_spec(old(interpreter)@),
{
    if !interpreter.charge(BASE) {
        return;
    }
    let size = U256::from_usize(interpreter.memory.len());
    proof {
        lemma_word_of_view(size);
    }
    interpreter.push(size);
}

pub fn mcopy<H: Host>(interpreter: &mut Interpreter, _host: &mut H, spec: SpecId)
    ensures
        final(interpreter)@ == mcopy_spec(old(interpreter)@, spec),
{
    if !spec.enabled(SpecId::Cancun) {
        interpreter.halt(InstructionResult::NotActivated);
        return;
    }
    if interpreter.stack.len() < 3 {
        interpreter.halt(InstructionResult::StackUnderflow);
        return;
    }
    proof {
        lemma_pop_in_turn(interpreter@, 2);
        lemma_pop_in_turn(interpreter@.popped(1), 1);
    }
    let dst = interpreter.pop();
    let src = interpreter.pop();
    let len = interpreter.pop();
    let len = match interpreter.as_usize_or_fail(len) {
        Some(l) => l,
        None => return,
    };
    match verylowcopy_cost(len as u64) {
        None => {
            interpreter.halt(InstructionResult::OutOfGas);
            return;
        },
        Some(cost) => {
            if !interpreter.charge(cost) {
                return;
            }
        },
    }
    if len == 0 {
        return;
    }
    let dst = match interpreter.as_usize_or_fail(dst) {
        Some(d) => d,
        None => return,
    };
    let src = match interpreter.as_usize_or_fail(src) {
        Some(s) => s,
        None => return,
    };
    let far = if dst > src {
        dst
    } else {
        src
    };
    if !interpreter.resize_memory(far, len) {
        return;
    }
    proof {
        lemma_covering_size(far as nat, len as nat);
    }
    let data = copy_out(&interpreter.memory, src, len);
    copy_in(&mut interpreter.memory, dst, &data);
}

} // verus!
