//! The peripheral's request handler: dispatches coil and register
//! requests against the shared store, with the store's asymmetric
//! out-of-range policy, and rejects unsupported function codes.

use vstd::prelude::*;
use crate::store::SharedModbusState;

verus! {

/// A request addressed to the peripheral. Only coil and
/// holding-register access is supported; everything else arrives as
/// `Unsupported`.
#[derive(Debug, PartialEq, Eq)]
pub enum ServiceRequest {
    /// Read a block of words: starting offset and count.
    ReadHoldingRegisters(u16, u16),
    /// Write a block of words at the starting offset.
    WriteMultipleRegisters(u16, Vec<u16>),
    /// Write one word: offset and value.
    WriteSingleRegister(u16, u16),
    /// Read a block of coils: starting offset and count.
    ReadCoils(u16, u16),
    /// Write a block of coils at the starting offset.
    WriteMultipleCoils(u16, Vec<bool>),
    /// Write one coil: offset and value.
    WriteSingleCoil(u16, bool),
    /// Any function code the peripheral does not implement.
    Unsupported,
}

/// The response to a successful request, mirroring the request shape;
/// write responses echo the starting offset and the element count.
#[derive(Debug, PartialEq, Eq)]
pub enum ServiceResponse {
    /// The words read.
    ReadHoldingRegisters(Vec<u16>),
    /// Echo of a block register write: offset and count.
    WriteMultipleRegisters(u16, u16),
    /// Echo of a single register write.
    WriteSingleRegister(u16, u16),
    /// The coils read.
    ReadCoils(Vec<bool>),
    /// Echo of a block coil write: offset and count.
    WriteMultipleCoils(u16, u16),
    /// Echo of a single coil write.
    WriteSingleCoil(u16, bool),
}

/// The exception a request can come back with.
#[derive(Clone, Copy, Debug, PartialEq, Eq, Structural)]
pub enum ServiceException {
    /// The function code is not implemented.
    IllegalFunction,
    /// A register request referenced an unmapped offset.
    IllegalDataAddress,
}

/// Block writes must fit the wire's 16-bit element count.
pub open spec fn req_wf(req: ServiceRequest) -> bool {
    match req {
        ServiceRequest::WriteMultipleRegisters(_, values) => values@.len() <= u16::MAX,
        ServiceRequest::WriteMultipleCoils(_, values) => values@.len() <= u16::MAX,
        _ => true,
    }
}

/// The request handler of the in-process peripheral.
pub struct ExampleService {
    shared_state: SharedModbusState,
}

impl ExampleService {
    /// The store the handler serves.
    pub closed spec fn spec_state(self) -> SharedModbusState {
        self.shared_state
    }

    /// A handler over the given store.
    pub fn with_shared_state(shared_state: SharedModbusState) -> (s: Self)
        ensures
            s.spec_state() == shared_state,
    {
        ExampleService { shared_state }
    }

    /// Give the store back, consuming the handler.
    pub fn into_shared_state(self) -> (s: SharedModbusState)
        ensures
            s == self.spec_state(),
    {
        self.shared_state
    }

    /// Dispatch one request: coil requests never fail and degrade to
    /// defaults at unmapped offsets, register requests fail atomically
    /// with `IllegalDataAddress` when any offset of the block is
    /// unmapped, and unsupported function codes are rejected with
    /// `IllegalFunction`.
    pub fn call(&mut self, req: ServiceRequest) -> (r: Result<ServiceResponse, ServiceException>)
        requires
            req_wf(req),
        ensures
            req matches ServiceRequest::Unsupported ==> r == Err::<ServiceResponse, ServiceException>(ServiceException::IllegalFunction) && final(self).spec_state() == old(self).spec_state(),
            req matches ServiceRequest::ReadCoils(addr, cnt) ==> {
                &&& final(self).spec_state() == old(self).spec_state()
                &&& r matches Ok(ServiceResponse::ReadCoils(v)) && v@.len() == cnt && (forall|
                    i: int,
                |
                    0 <= i < cnt ==> v@[i] == old(self).spec_state().spec_coil_offset(addr, i))
            },
            req matches ServiceRequest::WriteSingleCoil(addr, value) ==> {
                &&& r == Ok::<ServiceResponse, ServiceException>(ServiceResponse::WriteSingleCoil(addr, value))
                &&& final(self).spec_state().registers_view() == old(self).spec_state().registers_view()
                &&& old(self).spec_state().coil_mapped(addr) ==> final(self).spec_state().coils_view() == old(self).spec_state().coils_view().insert(addr, value)
                &&& !old(self).spec_state().coil_mapped(addr) ==> final(self).spec_state().coils_view() == old(self).spec_state().coils_view()
            },
            req matches ServiceRequest::WriteMultipleCoils(addr, values) ==> {
                &&& r == Ok::<ServiceResponse, ServiceException>(ServiceResponse::WriteMultipleCoils(addr, values@.len() as u16))
                &&& final(self).spec_state().registers_view() == old(self).spec_state().registers_view()
                &&& final(self).spec_state().coils_view().dom() == old(self).spec_state().coils_view().dom()
                &&& forall|a: u16|
                    old(self).spec_state().coil_mapped(a) ==> final(self).spec_state().coils_view()[a] == (if addr <= a < addr + values@.len() {
                        values@[a - addr]
                    } else {
                        old(self).spec_state().coils_view()[a]
                    })
            },
            req matches ServiceRequest::ReadHoldingRegisters(addr, cnt) ==> {
                &&& final(self).spec_state() == old(self).spec_state()
                &&& old(self).spec_state().regs_all_mapped(addr, cnt as int) ==> (r matches Ok(
                    ServiceResponse::ReadHoldingRegisters(v),
                ) && v@.len() == cnt && (forall|i: int|
                    0 <= i < cnt ==> v@[i] == old(self).spec_state().spec_reg(
                        ((addr + i) as u16),
                    )))
                &&& !old(self).spec_state().regs_all_mapped(addr, cnt as int) ==> r == Err::<ServiceResponse, ServiceException>(ServiceException::IllegalDataAddress)
            },
            req matches ServiceRequest::WriteSingleRegister(addr, value) ==> {
                &&& final(self).spec_state().coils_view() == old(self).spec_state().coils_view()
                &&& old(self).spec_state().reg_mapped(addr) ==> (r == Ok::<ServiceResponse, ServiceException>(ServiceResponse::WriteSingleRegister(addr, value)) && final(self).spec_state().registers_view() == old(self).spec_state().registers_view().insert(addr, value))
                &&& !old(self).spec_state().reg_mapped(addr) ==> (r == Err::<ServiceResponse, ServiceException>(ServiceException::IllegalDataAddress) && final(self).spec_state().registers_view() == old(self).spec_state().registers_view())
            },
            req matches ServiceRequest::WriteMultipleRegisters(addr, values) ==> {
                &&& final(self).spec_state().coils_view() == old(self).spec_state().coils_view()
                &&& old(self).spec_state().regs_all_mapped(addr, values@.len() as int) ==> (r == Ok::<ServiceResponse, ServiceException>(ServiceResponse::WriteMultipleRegisters(addr, values@.len() as u16)) && final(self).spec_state().registers_view().dom() == old(self).spec_state().registers_view().dom() && (forall|a: u16|
                    old(self).spec_state().reg_mapped(a) ==> final(self).spec_state().registers_view()[a] == (if addr <= a < addr + values@.len() {
                        values@[a - addr]
                    } else {
                        old(self).spec_state().registers_view()[a]
                    })))
                &&& !old(self).spec_state().regs_all_mapped(addr, values@.len() as int) ==> (r == Err::<ServiceResponse, ServiceException>(ServiceException::IllegalDataAddress) && final(self).spec_state().registers_view() == old(self).spec_state().registers_view())
            },
    {
        match req {
            ServiceRequest::ReadHoldingRegisters(addr, cnt) => {
                match self.shared_state.read_holding_registers(addr, cnt) {
                    Ok(values) => Ok(ServiceResponse::ReadHoldingRegisters(values)),
                    Err(_) => Err(ServiceException::IllegalDataAddress),
                }
            },
            ServiceRequest::WriteMultipleRegisters(addr, values) => {
                match self.shared_state.write_holding_registers(addr, values.as_slice()) {
                    Ok(()) => Ok(ServiceResponse::WriteMultipleRegisters(addr, values.len() as u16)),
                    Err(_) => Err(ServiceException::IllegalDataAddress),
                }
            },
            ServiceRequest::WriteSingleRegister(addr, value) => {
                match self.shared_state.write_holding_register(addr, value) {
                    Ok(()) => Ok(ServiceResponse::WriteSingleRegister(addr, value)),
                    Err(_) => Err(ServiceException::IllegalDataAddress),
                }
            },
            ServiceRequest::ReadCoils(addr, cnt) => {
                let values = self.shared_state.read_coils(addr, cnt);
                Ok(ServiceResponse::ReadCoils(values))
            },
            ServiceRequest::WriteMultipleCoils(addr, values) => {
                self.shared_state.write_coils(addr, values.as_slice());
                Ok(ServiceResponse::WriteMultipleCoils(addr, values.len() as u16))
            },
            ServiceRequest::WriteSingleCoil(addr, value) => {
                self.shared_state.write_coil(addr, value);
                Ok(ServiceResponse::WriteSingleCoil(addr, value))
            },
            ServiceRequest::Unsupported => Err(ServiceException::IllegalFunction),
        }
    }
}

} // verus!
