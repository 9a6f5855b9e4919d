//! The peripheral's request handler.

use srctl::{
    ExampleService, ServiceException, ServiceRequest, ServiceResponse, SharedModbusState,
};

fn handler() -> ExampleService {
    ExampleService::with_shared_state(SharedModbusState::new())
}

#[test]
fn reading_mapped_registers_returns_their_words() {
    let mut svc = handler();
    svc.call(ServiceRequest::WriteSingleRegister(8, 42)).unwrap();
    let r = svc.call(ServiceRequest::ReadHoldingRegisters(8, 1)).unwrap();
    assert_eq!(r, ServiceResponse::ReadHoldingRegisters(vec![42]));
}

#[test]
fn reading_unmapped_registers_is_an_illegal_data_address() {
    let mut svc = handler();
    let e = svc.call(ServiceRequest::ReadHoldingRegisters(0, 1)).unwrap_err();
    assert_eq!(e, ServiceException::IllegalDataAddress);
}

#[test]
fn writing_an_unmapped_register_is_an_illegal_data_address() {
    let mut svc = handler();
    let e = svc.call(ServiceRequest::WriteSingleRegister(0, 1)).unwrap_err();
    assert_eq!(e, ServiceException::IllegalDataAddress);
}

#[test]
fn a_block_register_write_fails_atomically() {
    let mut svc = handler();
    let e = svc
        .call(ServiceRequest::WriteMultipleRegisters(8, vec![1, 2]))
        .unwrap_err();
    assert_eq!(e, ServiceException::IllegalDataAddress);
    let r = svc.call(ServiceRequest::ReadHoldingRegisters(8, 1)).unwrap();
    assert_eq!(r, ServiceResponse::ReadHoldingRegisters(vec![0]));
}

#[test]
fn a_block_register_write_echoes_its_count() {
    let mut svc = handler();
    let r = svc
        .call(ServiceRequest::WriteMultipleRegisters(8, vec![9]))
        .unwrap();
    assert_eq!(r, ServiceResponse::WriteMultipleRegisters(8, 1));
}

#[test]
fn coil_requests_never_fail() {
    let mut svc = handler();
    let r = svc.call(ServiceRequest::ReadCoils(0, 3)).unwrap();
    assert_eq!(r, ServiceResponse::ReadCoils(vec![false, false, false]));
    let r = svc.call(ServiceRequest::WriteSingleCoil(0, true)).unwrap();
    assert_eq!(r, ServiceResponse::WriteSingleCoil(0, true));
    // the write at the unmapped offset was a no-op
    let r = svc.call(ServiceRequest::ReadCoils(0, 1)).unwrap();
    assert_eq!(r, ServiceResponse::ReadCoils(vec![false]));
}

#[test]
fn coil_writes_at_mapped_offsets_take_effect() {
    let mut svc = handler();
    let r = svc
        .call(ServiceRequest::WriteMultipleCoils(8, vec![true, true]))
        .unwrap();
    assert_eq!(r, ServiceResponse::WriteMultipleCoils(8, 2));
    let r = svc.call(ServiceRequest::ReadCoils(8, 2)).unwrap();
    assert_eq!(r, ServiceResponse::ReadCoils(vec![true, true]));
}

#[test]
fn an_unsupported_function_code_is_rejected() {
    let mut svc = handler();
    let e = svc.call(ServiceRequest::Unsupported).unwrap_err();
    assert_eq!(e, ServiceException::IllegalFunction);
}

#[test]
fn the_store_comes_back_out_of_the_handler() {
    let mut svc = handler();
    svc.call(ServiceRequest::WriteSingleCoil(9, true)).unwrap();
    let store = svc.into_shared_state();
    assert_eq!(store.read_coil(9), true);
}
