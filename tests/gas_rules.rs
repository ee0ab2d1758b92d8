use revm_core::gas::{
    account_access_gas, balance_cost, call_cost, create2_cost, extcodecopy_cost, extcodehash_cost,
    extcodesize_cost, initcode_cost, log_cost, memory_gas, selfdestruct_cost, sload_cost,
    sstore_cost, sstore_refund, verylowcopy_cost, all_but_one_64th_of, SelfDestructResult, SpecId,
};
use revm_core::word::U256;

fn w(v: u64) -> U256 {
    U256::from(v)
}

#[test]
fn revision_order() {
    assert!(SpecId::London.enabled(SpecId::Berlin));
    assert!(SpecId::Berlin.enabled(SpecId::Berlin));
    assert!(!SpecId::Istanbul.enabled(SpecId::Berlin));
    assert!(SpecId::Latest.enabled(SpecId::Cancun));
}

#[test]
fn sstore_refund_london_table() {
    let s = SpecId::London;
    // unchanged value
    assert_eq!(sstore_refund(s, &w(1), &w(1), &w(1)), 0);
    // fresh slot set from zero
    assert_eq!(sstore_refund(s, &w(0), &w(0), &w(5)), 0);
    // clean slot cleared
    assert_eq!(sstore_refund(s, &w(3), &w(3), &w(0)), 4800);
    // dirty slot cleared
    assert_eq!(sstore_refund(s, &w(3), &w(4), &w(0)), 4800);
    // cleared slot restored to its original value
    assert_eq!(sstore_refund(s, &w(3), &w(0), &w(3)), -4800 + 2800);
    // cleared slot set to another value
    assert_eq!(sstore_refund(s, &w(3), &w(0), &w(7)), -4800);
    // dirty slot restored to a nonzero original
    assert_eq!(sstore_refund(s, &w(3), &w(4), &w(3)), 2800);
    // slot created in this transaction and cleared again
    assert_eq!(sstore_refund(s, &w(0), &w(4), &w(0)), 19900);
    // dirty slot changed again
    assert_eq!(sstore_refund(s, &w(3), &w(4), &w(5)), 0);
}

#[test]
fn sstore_refund_istanbul_table() {
    let s = SpecId::Istanbul;
    assert_eq!(sstore_refund(s, &w(3), &w(3), &w(0)), 15000);
    assert_eq!(sstore_refund(s, &w(3), &w(0), &w(3)), -15000 + 4200);
    assert_eq!(sstore_refund(s, &w(0), &w(4), &w(0)), 19200);
    assert_eq!(sstore_refund(s, &w(3), &w(4), &w(3)), 4200);
    assert_eq!(sstore_refund(s, &w(0), &w(0), &w(5)), 0);
}

#[test]
fn sstore_refund_berlin_table() {
    let s = SpecId::Berlin;
    assert_eq!(sstore_refund(s, &w(3), &w(3), &w(0)), 15000);
    assert_eq!(sstore_refund(s, &w(3), &w(0), &w(3)), -15000 + 2800);
    assert_eq!(sstore_refund(s, &w(0), &w(4), &w(0)), 19900);
}

#[test]
fn sstore_refund_before_istanbul() {
    let s = SpecId::Petersburg;
    assert_eq!(sstore_refund(s, &w(3), &w(3), &w(0)), 15000);
    assert_eq!(sstore_refund(s, &w(0), &w(0), &w(5)), 0);
    assert_eq!(sstore_refund(s, &w(0), &w(4), &w(0)), 15000);
}

#[test]
fn sstore_cost_table() {
    let s = SpecId::London;
    assert_eq!(sstore_cost(s, &w(0), &w(0), &w(1), 10000, false), Some(20000));
    assert_eq!(sstore_cost(s, &w(2), &w(2), &w(1), 10000, false), Some(2900));
    assert_eq!(sstore_cost(s, &w(2), &w(2), &w(2), 10000, false), Some(100));
    assert_eq!(sstore_cost(s, &w(2), &w(3), &w(1), 10000, false), Some(100));
    assert_eq!(sstore_cost(s, &w(0), &w(0), &w(1), 10000, true), Some(22100));
    // the stipend must be left
    assert_eq!(sstore_cost(s, &w(0), &w(0), &w(1), 2300, false), None);
    assert_eq!(sstore_cost(s, &w(0), &w(0), &w(1), 2301, false), Some(20000));
    // before Istanbul
    assert_eq!(sstore_cost(SpecId::Byzantium, &w(0), &w(0), &w(1), 0, false), Some(20000));
    assert_eq!(sstore_cost(SpecId::Byzantium, &w(1), &w(1), &w(2), 0, false), Some(5000));
    assert_eq!(sstore_cost(SpecId::Istanbul, &w(2), &w(2), &w(2), 10000, false), Some(800));
}

#[test]
fn access_prices() {
    assert_eq!(sload_cost(SpecId::Berlin, true), 2100);
    assert_eq!(sload_cost(SpecId::Berlin, false), 100);
    assert_eq!(sload_cost(SpecId::Istanbul, true), 800);
    assert_eq!(sload_cost(SpecId::Tangerine, true), 200);
    assert_eq!(sload_cost(SpecId::Frontier, true), 50);
    assert_eq!(account_access_gas(SpecId::Berlin, true), 2600);
    assert_eq!(balance_cost(SpecId::Istanbul, true), 700);
    assert_eq!(balance_cost(SpecId::Tangerine, true), 400);
    assert_eq!(balance_cost(SpecId::Frontier, true), 20);
    assert_eq!(extcodesize_cost(SpecId::Berlin, false), 100);
    assert_eq!(extcodesize_cost(SpecId::Istanbul, true), 700);
    assert_eq!(extcodesize_cost(SpecId::Frontier, true), 20);
    assert_eq!(extcodehash_cost(SpecId::Constantinople, true), 400);
    assert_eq!(extcodehash_cost(SpecId::Istanbul, true), 700);
    assert_eq!(extcodehash_cost(SpecId::London, true), 2600);
}

#[test]
fn log_prices() {
    assert_eq!(log_cost(0, 0), Some(375));
    assert_eq!(log_cost(2, 10), Some(375 + 80 + 750));
    assert_eq!(log_cost(4, 1), Some(375 + 8 + 1500));
    assert_eq!(log_cost(0, u64::MAX), None);
    assert_eq!(log_cost(0, u64::MAX / 8), None);
}

#[test]
fn copy_prices() {
    assert_eq!(verylowcopy_cost(0), Some(3));
    assert_eq!(verylowcopy_cost(1), Some(6));
    assert_eq!(verylowcopy_cost(32), Some(6));
    assert_eq!(verylowcopy_cost(33), Some(9));
    assert_eq!(extcodecopy_cost(SpecId::Berlin, 0, true), Some(2600));
    assert_eq!(extcodecopy_cost(SpecId::Berlin, 64, false), Some(106));
    assert_eq!(extcodecopy_cost(SpecId::Frontier, 1, false), Some(23));
}

#[test]
fn creation_prices() {
    assert_eq!(initcode_cost(64), 4);
    assert_eq!(initcode_cost(65), 6);
    assert_eq!(create2_cost(0), Some(32000));
    assert_eq!(create2_cost(33), Some(32012));
}

#[test]
fn memory_prices() {
    assert_eq!(memory_gas(0), 0);
    assert_eq!(memory_gas(1), 3);
    assert_eq!(memory_gas(32), 98);
    assert_eq!(memory_gas(1024), 3072 + 2048);
    assert_eq!(memory_gas(u64::MAX), u64::MAX);
}

#[test]
fn call_prices() {
    assert_eq!(call_cost(SpecId::Berlin, true, true, true, true, true), 2600 + 9000 + 25000);
    assert_eq!(call_cost(SpecId::Berlin, false, true, false, true, true), 100);
    assert_eq!(call_cost(SpecId::Tangerine, false, true, false, false, true), 700 + 25000);
    assert_eq!(call_cost(SpecId::Frontier, true, false, false, true, false), 40 + 9000);
    assert_eq!(call_cost(SpecId::Berlin, true, false, false, false, false), 100);
}

#[test]
fn selfdestruct_prices() {
    let r = SelfDestructResult { had_value: true, target_exists: false, is_cold: true, previously_destroyed: false };
    assert_eq!(selfdestruct_cost(SpecId::Berlin, r), 5000 + 25000 + 2600);
    let r = SelfDestructResult { had_value: false, target_exists: false, is_cold: false, previously_destroyed: false };
    assert_eq!(selfdestruct_cost(SpecId::London, r), 5000);
    assert_eq!(selfdestruct_cost(SpecId::Tangerine, r), 5000 + 25000);
    assert_eq!(selfdestruct_cost(SpecId::Frontier, r), 0);
}

#[test]
fn one_64th_rule() {
    assert_eq!(all_but_one_64th_of(6400), 6300);
    assert_eq!(all_but_one_64th_of(63), 63);
    assert_eq!(all_but_one_64th_of(64), 63);
    assert_eq!(all_but_one_64th_of(0), 0);
}
