//! The addressable store's asymmetric out-of-range policies.

use srctl::{AddressMap, SharedModbusState};

fn seeded() -> SharedModbusState {
    // enable coil 8, running coil 9, index register 8
    SharedModbusState::new()
}

#[test]
fn unmapped_coil_reads_false() {
    let s = seeded();
    assert_eq!(s.read_coil(0), false);
    assert_eq!(s.read_coil(1234), false);
    assert_eq!(s.read_coil(8), false);
}

#[test]
fn unmapped_coil_write_is_a_noop() {
    let mut s = seeded();
    s.write_coil(0, true);
    assert_eq!(s.read_coil(0), false);
    s.write_coil(8, true);
    assert_eq!(s.read_coil(8), true);
}

#[test]
fn coil_block_read_mixes_defaults_and_values() {
    let mut s = seeded();
    s.write_coil(9, true);
    let values = s.read_coils(7, 4);
    assert_eq!(values, vec![false, false, true, false]);
}

#[test]
fn coil_block_write_skips_unmapped_offsets() {
    let mut s = seeded();
    s.write_coils(7, &[true, true, true]);
    assert_eq!(s.read_coil(7), false);
    assert_eq!(s.read_coil(8), true);
    assert_eq!(s.read_coil(9), true);
}

#[test]
fn coil_block_read_past_end_of_address_space() {
    let mut s = seeded();
    s.define_coil(u16::MAX, true);
    let values = s.read_coils(u16::MAX, 3);
    assert_eq!(values, vec![true, false, false]);
}

#[test]
fn unmapped_register_read_fails() {
    let s = seeded();
    let err = s.read_holding_registers(0, 1).unwrap_err();
    assert_eq!(err.addr, 0);
}

#[test]
fn mapped_register_reads_back() {
    let mut s = seeded();
    assert_eq!(s.read_holding_registers(8, 1).unwrap(), vec![0]);
    s.write_holding_register(8, 77).unwrap();
    assert_eq!(s.read_holding_registers(8, 1).unwrap(), vec![77]);
}

#[test]
fn unmapped_register_write_fails() {
    let mut s = seeded();
    let err = s.write_holding_register(3, 5).unwrap_err();
    assert_eq!(err.addr, 3);
}

#[test]
fn register_block_read_fails_on_first_unmapped_offset() {
    let mut s = seeded();
    s.define_register(9, 4);
    let err = s.read_holding_registers(8, 3).unwrap_err();
    assert_eq!(err.addr, 10);
}

#[test]
fn register_block_write_is_all_or_nothing() {
    let mut s = seeded();
    // offset 9 is unmapped, so nothing of the block may land
    let err = s.write_holding_registers(8, &[1, 2]).unwrap_err();
    assert_eq!(err.addr, 9);
    assert_eq!(s.read_holding_registers(8, 1).unwrap(), vec![0]);
    // once every offset is mapped the whole block lands
    s.define_register(9, 0);
    s.write_holding_registers(8, &[1, 2]).unwrap();
    assert_eq!(s.read_holding_registers(8, 2).unwrap(), vec![1, 2]);
}

#[test]
fn register_block_past_end_of_address_space_fails() {
    let mut s = seeded();
    s.define_register(u16::MAX, 1);
    assert!(s.read_holding_registers(u16::MAX, 2).is_err());
    assert!(s.write_holding_registers(u16::MAX, &[1, 2]).is_err());
    assert_eq!(s.read_holding_registers(u16::MAX, 1).unwrap(), vec![1]);
}

#[test]
fn with_addresses_seeds_the_control_points() {
    let a = AddressMap {
        enable_coil: 3,
        running_coil: 4,
        index_register: 0,
    };
    let s = SharedModbusState::with_addresses(&a);
    assert_eq!(s.read_coil(3), false);
    assert_eq!(s.read_coil(4), false);
    assert_eq!(s.read_holding_registers(0, 1).unwrap(), vec![0]);
    assert!(s.read_holding_registers(8, 1).is_err());
}

#[test]
fn empty_blocks_are_no_ops() {
    let mut s = seeded();
    assert_eq!(s.read_coils(0, 0), Vec::<bool>::new());
    s.write_coils(0, &[]);
    assert_eq!(s.read_holding_registers(0, 0).unwrap(), Vec::<u16>::new());
    s.write_holding_registers(0, &[]).unwrap();
    assert_eq!(s.read_coil(8), false);
    assert_eq!(s.read_holding_registers(8, 1).unwrap(), vec![0]);
}
