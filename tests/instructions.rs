use revm_core::gas::{SelfDestructResult, SpecId};
use revm_core::host::{Env, Host};
use revm_core::host_instructions::{
    balance, blockhash, call, call_code, create, delegate_call, extcodecopy, extcodehash,
    extcodesize, finish_extcodecopy, finish_read, init_code_with_env, call_gas_for, log,
    prepare_selfdestruct, prepare_sstore, selfbalance, selfdestruct, sload, sstore, static_call,
    tload, tstore,
};
use revm_core::interpreter::{
    CallScheme, Contract, CreateScheme, InstructionResult, Interpreter, InterpreterAction,
};
use revm_core::memory_instructions::{mcopy, mload, msize, mstore, mstore8};
use revm_core::primitives::{Bytecode, Log};
use revm_core::word::{Address, U256};

struct TestHost {
    available: bool,
    cold: bool,
    code: Vec<u8>,
    logs: Vec<Log>,
    transient: Vec<(U256, U256)>,
    block_number: U256,
    sstore_answer: (U256, U256, U256),
    exists: bool,
}

impl TestHost {
    fn new() -> TestHost {
        TestHost {
            available: true,
            cold: false,
            code: vec![1, 2, 3, 4],
            logs: Vec::new(),
            transient: Vec::new(),
            block_number: U256::from(1000u64),
            sstore_answer: (U256::zero(), U256::zero(), U256::from(1u64)),
            exists: true,
        }
    }
}

impl Host for TestHost {
    fn env(&self) -> Env {
        Env { block_number: self.block_number, limit_contract_code_size: None }
    }
    fn load_account(&mut self, _address: Address) -> Option<(bool, bool)> {
        if self.available { Some((self.cold, self.exists)) } else { None }
    }
    fn block_hash(&mut self, number: U256) -> Option<U256> {
        if self.available { Some(U256 { hi: 7, lo: number.lo }) } else { None }
    }
    fn balance(&mut self, address: Address) -> Option<(U256, bool)> {
        if self.available { Some((U256::from(address.lo as u64 * 10), self.cold)) } else { None }
    }
    fn code(&mut self, _address: Address) -> Option<(Bytecode, bool)> {
        if self.available { Some((Bytecode::new_raw(self.code.clone()), self.cold)) } else { None }
    }
    fn code_hash(&mut self, _address: Address) -> Option<(U256, bool)> {
        if self.available { Some((U256::from(77u64), self.cold)) } else { None }
    }
    fn sload(&mut self, _address: Address, index: U256) -> Option<(U256, bool)> {
        if self.available { Some((U256::from(index.lo as u64 + 1), self.cold)) } else { None }
    }
    fn sstore(&mut self, _address: Address, _index: U256, _value: U256) -> Option<(U256, U256, U256, bool)> {
        if self.available {
            let (o, c, n) = self.sstore_answer;
            Some((o, c, n, self.cold))
        } else {
            None
        }
    }
    fn tload(&mut self, _address: Address, index: U256) -> U256 {
        self.transient.iter().rev().find(|(k, _)| *k == index).map(|(_, v)| *v).unwrap_or(U256::zero())
    }
    fn tstore(&mut self, _address: Address, index: U256, value: U256) {
        self.transient.push((index, value));
    }
    fn log(&mut self, log: Log) {
        self.logs.push(log);
    }
    fn selfdestruct(&mut self, _address: Address, _target: Address) -> Option<SelfDestructResult> {
        if self.available {
            Some(SelfDestructResult { had_value: true, target_exists: false, is_cold: self.cold, previously_destroyed: false })
        } else {
            None
        }
    }
}

fn frame(gas: u64) -> Interpreter {
    Interpreter::new(
        Contract { address: Address::from(1u64), caller: Address::from(2u64), value: U256::from(5u64) },
        gas,
        false,
    )
}

fn push(i: &mut Interpreter, v: u64) {
    i.stack.push(U256::from(v));
}

#[test]
fn mstore_then_mload_round_trip() {
    let mut host = TestHost::new();
    let mut i = frame(1000);
    let word = U256 { hi: 0x0102030405060708090a0b0c0d0e0f10, lo: 0x1112131415161718191a1b1c1d1e1f20 };
    i.stack.push(word);
    push(&mut i, 0);
    mstore(&mut i, &mut host);
    assert_eq!(i.instruction_result, InstructionResult::Continue);
    assert_eq!(i.memory.len(), 32);
    assert_eq!(i.memory[0], 1);
    assert_eq!(i.memory[31], 0x20);
    push(&mut i, 0);
    mload(&mut i, &mut host);
    assert_eq!(i.stack, vec![word]);
    // two VERYLOW charges and one word of memory
    assert_eq!(i.gas.remaining, 1000 - 3 - 3 - 3);
}

#[test]
fn mstore8_writes_low_byte() {
    let mut host = TestHost::new();
    let mut i = frame(1000);
    push(&mut i, 0x1ff);
    push(&mut i, 5);
    mstore8(&mut i, &mut host);
    assert_eq!(i.memory.len(), 32);
    assert_eq!(i.memory[5], 0xff);
    assert_eq!(i.memory[4], 0);
    msize(&mut i, &mut host);
    assert_eq!(i.stack, vec![U256::from(32u64)]);
}

#[test]
fn mload_with_huge_offset_is_invalid_operand() {
    let mut host = TestHost::new();
    let mut i = frame(1000);
    i.stack.push(U256 { hi: 1, lo: 0 });
    mload(&mut i, &mut host);
    assert_eq!(i.instruction_result, InstructionResult::InvalidOperandOOG);
}

#[test]
fn mload_near_usize_max_is_memory_oog() {
    let mut host = TestHost::new();
    let mut i = frame(1000);
    push(&mut i, u64::MAX - 10);
    mload(&mut i, &mut host);
    assert_eq!(i.instruction_result, InstructionResult::MemoryOOG);
}

#[test]
fn memory_growth_without_gas_fails() {
    let mut host = TestHost::new();
    let mut i = frame(10);
    push(&mut i, 1 << 20);
    mload(&mut i, &mut host);
    assert_eq!(i.instruction_result, InstructionResult::MemoryLimitOOG);
    assert!(i.memory.is_empty());
}

#[test]
fn mload_underflow_and_out_of_gas() {
    let mut host = TestHost::new();
    let mut i = frame(1000);
    mload(&mut i, &mut host);
    assert_eq!(i.instruction_result, InstructionResult::StackUnderflow);
    let mut j = frame(2);
    push(&mut j, 0);
    mload(&mut j, &mut host);
    assert_eq!(j.instruction_result, InstructionResult::OutOfGas);
}

#[test]
fn mcopy_copies_and_is_gated() {
    let mut host = TestHost::new();
    let mut i = frame(1000);
    i.memory = (0u8..64).collect();
    push(&mut i, 4); // len
    push(&mut i, 0); // src
    push(&mut i, 40); // dst
    mcopy(&mut i, &mut host, SpecId::Cancun);
    assert_eq!(i.instruction_result, InstructionResult::Continue);
    assert_eq!(&i.memory[40..44], &[0, 1, 2, 3]);
    assert_eq!(i.gas.remaining, 1000 - 6);
    let mut j = frame(1000);
    push(&mut j, 0);
    push(&mut j, 0);
    push(&mut j, 0);
    mcopy(&mut j, &mut host, SpecId::Shanghai);
    assert_eq!(j.instruction_result, InstructionResult::NotActivated);
}

#[test]
fn mcopy_of_nothing_touches_no_memory() {
    let mut host = TestHost::new();
    let mut i = frame(1000);
    push(&mut i, 0);
    i.stack.push(U256 { hi: 5, lo: 0 });
    i.stack.push(U256 { hi: 5, lo: 0 });
    mcopy(&mut i, &mut host, SpecId::Cancun);
    assert_eq!(i.instruction_result, InstructionResult::Continue);
    assert!(i.memory.is_empty());
    assert_eq!(i.gas.remaining, 997);
}

#[test]
fn balance_prices_by_revision() {
    let mut host = TestHost::new();
    host.cold = true;
    let mut i = frame(10000);
    push(&mut i, 3);
    balance(&mut i, &mut host, SpecId::Berlin);
    assert_eq!(i.stack, vec![U256::from(30u64)]);
    assert_eq!(i.gas.remaining, 10000 - 2600);
    let mut j = frame(10000);
    push(&mut j, 3);
    balance(&mut j, &mut host, SpecId::Tangerine);
    assert_eq!(j.gas.remaining, 10000 - 400);
}

#[test]
fn unavailable_state_is_fatal() {
    let mut host = TestHost::new();
    host.available = false;
    let mut i = frame(10000);
    push(&mut i, 3);
    balance(&mut i, &mut host, SpecId::Berlin);
    assert_eq!(i.instruction_result, InstructionResult::FatalExternalError);
    assert!(i.stack.is_empty());
}

#[test]
fn selfbalance_needs_istanbul() {
    let mut host = TestHost::new();
    let mut i = frame(100);
    selfbalance(&mut i, &mut host, SpecId::Petersburg);
    assert_eq!(i.instruction_result, InstructionResult::NotActivated);
    let mut j = frame(100);
    selfbalance(&mut j, &mut host, SpecId::Istanbul);
    assert_eq!(j.stack, vec![U256::from(10u64)]);
    assert_eq!(j.gas.remaining, 95);
}

#[test]
fn extcodesize_and_hash() {
    let mut host = TestHost::new();
    let mut i = frame(10000);
    push(&mut i, 9);
    extcodesize(&mut i, &mut host, SpecId::Berlin);
    assert_eq!(i.stack, vec![U256::from(4u64)]);
    assert_eq!(i.gas.remaining, 9900);
    push(&mut i, 9);
    extcodehash(&mut i, &mut host, SpecId::Istanbul);
    assert_eq!(i.stack, vec![U256::from(4u64), U256::from(77u64)]);
    assert_eq!(i.gas.remaining, 9200);
    let mut j = frame(10000);
    push(&mut j, 9);
    extcodehash(&mut j, &mut host, SpecId::Byzantium);
    assert_eq!(j.instruction_result, InstructionResult::NotActivated);
}

#[test]
fn extcodecopy_pads_with_zeros() {
    let mut host = TestHost::new();
    let mut i = frame(10000);
    push(&mut i, 6); // len
    push(&mut i, 2); // code offset
    push(&mut i, 0); // memory offset
    push(&mut i, 9); // address
    extcodecopy(&mut i, &mut host, SpecId::Berlin);
    assert_eq!(i.instruction_result, InstructionResult::Continue);
    assert_eq!(&i.memory[0..8], &[3, 4, 0, 0, 0, 0, 0, 0]);
    assert_eq!(i.gas.remaining, 10000 - 100 - 3 - 3);
}

#[test]
fn extcodecopy_of_nothing_with_huge_offsets() {
    let mut host = TestHost::new();
    let mut i = frame(10000);
    push(&mut i, 0); // len
    i.stack.push(U256 { hi: u128::MAX, lo: u128::MAX }); // code offset
    i.stack.push(U256 { hi: u128::MAX, lo: u128::MAX }); // memory offset
    push(&mut i, 9);
    extcodecopy(&mut i, &mut host, SpecId::Berlin);
    assert_eq!(i.instruction_result, InstructionResult::Continue);
    assert!(i.memory.is_empty());
    assert_eq!(i.gas.remaining, 10000 - 100);
}

#[test]
fn blockhash_window() {
    let mut host = TestHost::new();
    let mut i = frame(1000);
    push(&mut i, 999);
    blockhash(&mut i, &mut host);
    assert_eq!(i.stack, vec![U256 { hi: 7, lo: 999 }]);
    assert_eq!(i.gas.remaining, 980);
    for n in [1000u64, 1001, 743] {
        let mut j = frame(1000);
        push(&mut j, n);
        blockhash(&mut j, &mut host);
        assert_eq!(j.stack, vec![U256::zero()]);
    }
    let mut k = frame(1000);
    push(&mut k, 744);
    blockhash(&mut k, &mut host);
    assert_eq!(k.stack, vec![U256 { hi: 7, lo: 744 }]);
}

#[test]
fn sload_charges_by_warmth() {
    let mut host = TestHost::new();
    host.cold = true;
    let mut i = frame(5000);
    push(&mut i, 4);
    sload(&mut i, &mut host, SpecId::London);
    assert_eq!(i.stack, vec![U256::from(5u64)]);
    assert_eq!(i.gas.remaining, 2900);
}

#[test]
fn sstore_charges_and_refunds() {
    let mut host = TestHost::new();
    host.sstore_answer = (U256::from(3u64), U256::from(3u64), U256::zero());
    let mut i = frame(10000);
    push(&mut i, 0); // value
    push(&mut i, 1); // index
    sstore(&mut i, &mut host, SpecId::London);
    assert_eq!(i.instruction_result, InstructionResult::Continue);
    assert_eq!(i.gas.remaining, 10000 - 2900);
    assert_eq!(i.gas.refunded, 4800);
}

#[test]
fn sstore_needs_the_stipend_left() {
    let mut host = TestHost::new();
    host.available = false;
    let mut i = frame(2300);
    push(&mut i, 0);
    push(&mut i, 1);
    sstore(&mut i, &mut host, SpecId::London);
    assert_eq!(i.instruction_result, InstructionResult::OutOfGas);
}

#[test]
fn sstore_in_static_frame_fails() {
    let mut host = TestHost::new();
    let mut i = Interpreter::new(
        Contract { address: Address::from(1u64), caller: Address::from(2u64), value: U256::zero() },
        10000,
        true,
    );
    push(&mut i, 0);
    push(&mut i, 1);
    sstore(&mut i, &mut host, SpecId::London);
    assert_eq!(i.instruction_result, InstructionResult::StateChangeDuringStaticCall);
}

#[test]
fn transient_storage_round_trip() {
    let mut host = TestHost::new();
    let mut i = frame(1000);
    push(&mut i, 42); // value
    push(&mut i, 7); // index
    tstore(&mut i, &mut host, SpecId::Cancun);
    push(&mut i, 7);
    tload(&mut i, &mut host, SpecId::Cancun);
    assert_eq!(i.stack, vec![U256::from(42u64)]);
    assert_eq!(i.gas.remaining, 800);
    let mut j = frame(1000);
    push(&mut j, 7);
    tload(&mut j, &mut host, SpecId::Shanghai);
    assert_eq!(j.instruction_result, InstructionResult::NotActivated);
}

#[test]
fn log0_without_data_costs_base_price() {
    let mut host = TestHost::new();
    let mut i = frame(1000);
    push(&mut i, 0); // len
    push(&mut i, 0); // offset
    log::<0, TestHost>(&mut i, &mut host);
    assert_eq!(i.instruction_result, InstructionResult::Continue);
    assert_eq!(i.gas.remaining, 1000 - 375);
    assert!(i.memory.is_empty());
    assert_eq!(host.logs.len(), 1);
    assert!(host.logs[0].data.is_empty());
    assert!(host.logs[0].topics.is_empty());
}

#[test]
fn log2_takes_topics_and_data() {
    let mut host = TestHost::new();
    let mut i = frame(10000);
    i.memory = vec![9u8; 32];
    push(&mut i, 22); // second topic
    push(&mut i, 11); // first topic
    push(&mut i, 3); // len
    push(&mut i, 1); // offset
    log::<2, TestHost>(&mut i, &mut host);
    assert_eq!(i.instruction_result, InstructionResult::Continue);
    assert_eq!(host.logs[0].topics, vec![U256::from(11u64), U256::from(22u64)]);
    assert_eq!(host.logs[0].data, vec![9, 9, 9]);
    assert_eq!(host.logs[0].address, Address::from(1u64));
    assert_eq!(i.gas.remaining, 10000 - (375 + 24 + 750));
    let mut j = frame(10000);
    push(&mut j, 0);
    push(&mut j, 0);
    log::<1, TestHost>(&mut j, &mut host);
    assert_eq!(j.instruction_result, InstructionResult::StackUnderflow);
}

#[test]
fn selfdestruct_refund_before_london() {
    let mut host = TestHost::new();
    let mut i = frame(100000);
    push(&mut i, 8);
    selfdestruct(&mut i, &mut host, SpecId::Berlin);
    assert_eq!(i.instruction_result, InstructionResult::SelfDestruct);
    assert_eq!(i.gas.refunded, 24000);
    assert_eq!(i.gas.remaining, 100000 - 30000);
    let mut j = frame(100000);
    push(&mut j, 8);
    selfdestruct(&mut j, &mut host, SpecId::London);
    assert_eq!(j.gas.refunded, 0);
}

#[test]
fn create_forwards_all_but_one_64th() {
    let mut host = TestHost::new();
    let mut i = frame(32000 + 6400);
    push(&mut i, 0); // len
    push(&mut i, 0); // code offset
    push(&mut i, 5); // value
    create::<false, TestHost>(&mut i, &mut host, SpecId::Berlin);
    assert_eq!(i.instruction_result, InstructionResult::CallOrCreate);
    match &i.next_action {
        InterpreterAction::Create { inputs } => {
            assert_eq!(inputs.gas_limit, 6300);
            assert_eq!(inputs.value, U256::from(5u64));
            assert_eq!(inputs.caller, Address::from(1u64));
            assert!(inputs.init_code.is_empty());
            assert_eq!(inputs.scheme, CreateScheme::Create);
        }
        _ => panic!("expected a creation"),
    }
    assert_eq!(i.gas.remaining, 100);
}

#[test]
fn create2_copies_init_code_and_salt() {
    let mut host = TestHost::new();
    let mut i = frame(100000);
    i.memory = vec![0xaa; 32];
    push(&mut i, 99); // salt
    push(&mut i, 2); // len
    push(&mut i, 0); // code offset
    push(&mut i, 0); // value
    create::<true, TestHost>(&mut i, &mut host, SpecId::Shanghai);
    match &i.next_action {
        InterpreterAction::Create { inputs } => {
            assert_eq!(inputs.init_code, vec![0xaa, 0xaa]);
            assert_eq!(inputs.scheme, CreateScheme::Create2 { salt: U256::from(99u64) });
            let left = 100000u64 - 2 - 32006;
            assert_eq!(inputs.gas_limit, left - left / 64);
        }
        _ => panic!("expected a creation"),
    }
}

#[test]
fn create_rejects_oversized_init_code() {
    let mut host = TestHost::new();
    let mut i = frame(1_000_000);
    push(&mut i, 49153); // len
    push(&mut i, 0);
    push(&mut i, 0);
    create::<false, TestHost>(&mut i, &mut host, SpecId::Shanghai);
    assert_eq!(i.instruction_result, InstructionResult::CreateInitCodeSizeLimit);
}

fn push_call_operands(i: &mut Interpreter, gas: u64, to: u64, value: Option<u64>) {
    push(i, 0); // out len
    push(i, 0); // out offset
    push(i, 0); // in len
    push(i, 0); // in offset
    if let Some(v) = value {
        push(i, v);
    }
    push(i, to);
    push(i, gas);
}

#[test]
fn call_with_value_adds_stipend() {
    let mut host = TestHost::new();
    let mut i = frame(100000);
    push_call_operands(&mut i, 5000, 9, Some(1));
    call(&mut i, &mut host, SpecId::London);
    assert_eq!(i.instruction_result, InstructionResult::CallOrCreate);
    match &i.next_action {
        InterpreterAction::Call { inputs } => {
            assert_eq!(inputs.gas_limit, 5000 + 2300);
            assert_eq!(inputs.transfer.value, U256::from(1u64));
            assert_eq!(inputs.transfer.target, Address::from(9u64));
            assert_eq!(inputs.context.scheme, CallScheme::Call);
            assert_eq!(inputs.return_memory_offset.start, usize::MAX);
        }
        _ => panic!("expected a call"),
    }
    assert_eq!(i.gas.remaining, 100000 - 100 - 9000 - 5000);
}

#[test]
fn call_caps_forwarded_gas() {
    let mut host = TestHost::new();
    let mut i = frame(6500);
    push_call_operands(&mut i, u64::MAX, 9, Some(0));
    call(&mut i, &mut host, SpecId::London);
    match &i.next_action {
        InterpreterAction::Call { inputs } => assert_eq!(inputs.gas_limit, 6400 - 100),
        _ => panic!("expected a call"),
    }
    assert_eq!(i.gas.remaining, 100);
}

#[test]
fn call_with_value_in_static_frame_fails() {
    let mut host = TestHost::new();
    let mut i = Interpreter::new(
        Contract { address: Address::from(1u64), caller: Address::from(2u64), value: U256::zero() },
        100000,
        true,
    );
    push_call_operands(&mut i, 5000, 9, Some(1));
    call(&mut i, &mut host, SpecId::London);
    assert_eq!(i.instruction_result, InstructionResult::CallNotAllowedInsideStatic);
}

#[test]
fn call_variants_set_context() {
    let mut host = TestHost::new();
    let mut i = frame(100000);
    push_call_operands(&mut i, 1000, 9, Some(0));
    call_code(&mut i, &mut host, SpecId::London);
    match &i.next_action {
        InterpreterAction::Call { inputs } => {
            assert_eq!(inputs.context.address, Address::from(1u64));
            assert_eq!(inputs.context.code_address, Address::from(9u64));
        }
        _ => panic!("expected a call"),
    }
    let mut j = frame(100000);
    push_call_operands(&mut j, 1000, 9, None);
    delegate_call(&mut j, &mut host, SpecId::London);
    match &j.next_action {
        InterpreterAction::Call { inputs } => {
            assert_eq!(inputs.context.caller, Address::from(2u64));
            assert_eq!(inputs.context.apparent_value, U256::from(5u64));
            assert_eq!(inputs.transfer.value, U256::zero());
        }
        _ => panic!("expected a call"),
    }
    let mut k = frame(100000);
    push_call_operands(&mut k, 1000, 9, None);
    static_call(&mut k, &mut host, SpecId::London);
    match &k.next_action {
        InterpreterAction::Call { inputs } => {
            assert!(inputs.is_static);
            assert_eq!(inputs.context.address, Address::from(9u64));
        }
        _ => panic!("expected a call"),
    }
    let mut m = frame(100000);
    push_call_operands(&mut m, 1000, 9, None);
    static_call(&mut m, &mut host, SpecId::Homestead);
    assert_eq!(m.instruction_result, InstructionResult::NotActivated);
}

#[test]
fn push_on_full_stack_overflows() {
    let mut host = TestHost::new();
    let mut i = frame(1000);
    for _ in 0..1024 {
        push(&mut i, 1);
    }
    msize(&mut i, &mut host);
    assert_eq!(i.instruction_result, InstructionResult::StackOverflow);
}

#[test]
fn prepare_sstore_returns_key_and_value() {
    let mut i = frame(10000);
    push(&mut i, 9); // value
    push(&mut i, 4); // key
    assert_eq!(prepare_sstore(&mut i, SpecId::London), Some((U256::from(4u64), U256::from(9u64))));
    assert!(i.stack.is_empty());
    let mut j = frame(2000);
    push(&mut j, 9);
    push(&mut j, 4);
    assert_eq!(prepare_sstore(&mut j, SpecId::London), None);
    assert_eq!(j.instruction_result, InstructionResult::OutOfGas);
}

#[test]
fn prepare_selfdestruct_returns_beneficiary() {
    let mut i = frame(10000);
    i.stack.push(U256 { hi: 0xffff_ffff_0000_0001, lo: 8 });
    assert_eq!(prepare_selfdestruct(&mut i), Some(Address { hi: 1, lo: 8 }));
    let mut j = frame(10000);
    assert_eq!(prepare_selfdestruct(&mut j), None);
    assert_eq!(j.instruction_result, InstructionResult::StackUnderflow);
}

#[test]
fn tstore_keys_by_contract() {
    let mut host = TestHost::new();
    let mut i = frame(1000);
    push(&mut i, 42);
    push(&mut i, 7);
    tstore(&mut i, &mut host, SpecId::Cancun);
    assert_eq!(host.transient, vec![(U256::from(7u64), U256::from(42u64))]);
    let mut j = frame(1000);
    push(&mut j, 8);
    tload(&mut j, &mut host, SpecId::Cancun);
    assert_eq!(j.stack, vec![U256::zero()]);
}

#[test]
fn finish_read_charges_by_warmth() {
    let mut i = frame(1000);
    finish_read(&mut i, Some((U256::from(9u64), true)), 700, 100);
    assert_eq!(i.stack, vec![U256::from(9u64)]);
    assert_eq!(i.gas.remaining, 300);
    finish_read(&mut i, Some((U256::from(8u64), false)), 700, 100);
    assert_eq!(i.gas.remaining, 200);
    finish_read(&mut i, None, 700, 100);
    assert_eq!(i.instruction_result, InstructionResult::FatalExternalError);
    let mut j = frame(50);
    finish_read(&mut j, Some((U256::from(9u64), false)), 700, 100);
    assert_eq!(j.instruction_result, InstructionResult::OutOfGas);
}

#[test]
fn call_gas_for_follows_the_answer() {
    let mut i = frame(100000);
    assert_eq!(call_gas_for(&mut i, SpecId::London, true, 5000, true, true, Some((true, false))), Some(5000));
    assert_eq!(i.gas.remaining, 100000 - 2600 - 9000 - 25000);
    let mut j = frame(100000);
    assert_eq!(call_gas_for(&mut j, SpecId::London, false, 5000, true, true, None), None);
    assert_eq!(j.instruction_result, InstructionResult::FatalExternalError);
}

#[test]
fn init_code_respects_configured_limit() {
    let mut i = frame(100000);
    i.memory = vec![1u8; 64];
    let env = Env { block_number: U256::zero(), limit_contract_code_size: Some(10) };
    assert_eq!(init_code_with_env(&mut i, SpecId::Shanghai, U256::zero(), 21, env), None);
    assert_eq!(i.instruction_result, InstructionResult::CreateInitCodeSizeLimit);
    let mut j = frame(100000);
    j.memory = vec![1u8; 64];
    assert_eq!(init_code_with_env(&mut j, SpecId::Shanghai, U256::zero(), 20, env), Some(vec![1u8; 20]));
    assert_eq!(j.gas.remaining, 100000 - 2);
}

#[test]
fn finish_extcodecopy_copies_window() {
    let mut i = frame(10000);
    let code = Bytecode::new_raw(vec![5, 6, 7]);
    finish_extcodecopy(&mut i, SpecId::Berlin, U256::from(1u64), U256::from(1u64), U256::from(4u64), Some((code, false)));
    assert_eq!(&i.memory[0..6], &[0, 6, 7, 0, 0, 0]);
    assert_eq!(i.gas.remaining, 10000 - 100 - 3 - 3);
}

#[test]
fn blockhash_outside_window_leaves_host_alone() {
    let mut host = TestHost::new();
    host.available = false;
    let mut i = frame(1000);
    push(&mut i, 2000);
    blockhash(&mut i, &mut host);
    assert_eq!(i.stack, vec![U256::zero()]);
    assert_eq!(i.instruction_result, InstructionResult::Continue);
}
