//! The addressable device memory: two sparse namespaces, coils (booleans)
//! and holding registers (16-bit words), each keyed by a 16-bit offset.
//!
//! The two namespaces have deliberately asymmetric out-of-range policies:
//! a coil access at an unmapped offset degrades to a default (`false` on
//! read, no-op on write) and never fails, while a register access at an
//! unmapped offset is an addressing error, and a multi-register write is
//! all-or-nothing.

use vstd::prelude::*;
use std::collections::HashMap;
use crate::addr::{ENABLE_COIL_OFFSET, RUNNING_COIL_OFFSET, INDEX_HREG_OFFSET};
use crate::addr::AddressMap;

verus! {

broadcast use vstd::std_specs::hash::group_hash_axioms;

/// A request referenced an offset that is not mapped in the register
/// namespace.
#[derive(Clone, Copy, Debug, PartialEq, Eq, Structural)]
pub struct AddressError {
    /// The unmapped offset the request referenced.
    pub addr: u16,
}

/// The device memory shared between a peripheral's request handlers and
/// the controller driving it in-process.
pub struct SharedModbusState {
    holding_registers: HashMap<u16, u16>,
    coils: HashMap<u16, bool>,
}

impl SharedModbusState {
    /// The coil namespace as a mathematical map.
    pub closed spec fn coils_view(self) -> Map<u16, bool> {
        self.coils@
    }

    /// The register namespace as a mathematical map.
    pub closed spec fn registers_view(self) -> Map<u16, u16> {
        self.holding_registers@
    }

    /// Whether a coil is mapped at `addr`.
    pub open spec fn coil_mapped(self, addr: u16) -> bool {
        self.coils_view().contains_key(addr)
    }

    /// Whether a register is mapped at `addr`.
    pub open spec fn reg_mapped(self, addr: u16) -> bool {
        self.registers_view().contains_key(addr)
    }

    /// The value a coil read returns: the mapped value, or `false` at an
    /// unmapped offset.
    pub open spec fn spec_coil(self, addr: u16) -> bool {
        if self.coil_mapped(addr) {
            self.coils_view()[addr]
        } else {
            false
        }
    }

    /// The value a register read returns at a mapped offset.
    pub open spec fn spec_reg(self, addr: u16) -> u16 {
        self.registers_view()[addr]
    }

    /// The coil value a multi-coil read returns at element `i` of a block
    /// starting at `addr`: offsets past the end of the address space are
    /// unmapped.
    pub open spec fn spec_coil_offset(self, addr: u16, i: int) -> bool {
        if addr + i <= u16::MAX {
            self.spec_coil((addr + i) as u16)
        } else {
            false
        }
    }

    /// Whether every offset of a `count`-element register block starting
    /// at `addr` stays inside the address space and is mapped.
    pub open spec fn regs_all_mapped(self, addr: u16, count: int) -> bool {
        &&& addr + count <= u16::MAX + 1
        &&& forall|a: u16| addr <= a < addr + count ==> #[trigger] self.reg_mapped(a)
    }

    /// A store pre-seeded with the control points of the in-process
    /// shared peripheral: enable and running coils `false`, index
    /// register zero.
    pub fn new() -> (s: Self)
        ensures
            s.coils_view() == map![ENABLE_COIL_OFFSET => false, RUNNING_COIL_OFFSET => false],
            s.registers_view() == map![INDEX_HREG_OFFSET => 0u16],
    {
        let mut coils: HashMap<u16, bool> = HashMap::new();
        coils.insert(ENABLE_COIL_OFFSET, false);
        coils.insert(RUNNING_COIL_OFFSET, false);
        let mut holding_registers: HashMap<u16, u16> = HashMap::new();
        holding_registers.insert(INDEX_HREG_OFFSET, 0);
        proof {
            assert(coils@ =~= map![ENABLE_COIL_OFFSET => false, RUNNING_COIL_OFFSET => false]);
            assert(holding_registers@ =~= map![INDEX_HREG_OFFSET => 0u16]);
        }
        SharedModbusState { coils, holding_registers }
    }

    /// A store pre-seeded with the control points named by `a`.
    pub fn with_addresses(a: &AddressMap) -> (s: Self)
        ensures
            s.coils_view() == map![a.enable_coil => false, a.running_coil => false],
            s.registers_view() == map![a.index_register => 0u16],
    {
        let mut coils: HashMap<u16, bool> = HashMap::new();
        coils.insert(a.enable_coil, false);
        coils.insert(a.running_coil, false);
        let mut holding_registers: HashMap<u16, u16> = HashMap::new();
        holding_registers.insert(a.index_register, 0);
        proof {
            assert(coils@ =~= map![a.enable_coil => false, a.running_coil => false]);
            assert(holding_registers@ =~= map![a.index_register => 0u16]);
        }
        SharedModbusState { coils, holding_registers }
    }

    /// Map a coil at `addr` (or overwrite it), seeding it with `value`.
    pub fn define_coil(&mut self, addr: u16, value: bool)
        ensures
            final(self).coils_view() == old(self).coils_view().insert(addr, value),
            final(self).registers_view() == old(self).registers_view(),
    {
        self.coils.insert(addr, value);
    }

    /// Map a register at `addr` (or overwrite it), seeding it with
    /// `value`.
    pub fn define_register(&mut self, addr: u16, value: u16)
        ensures
            final(self).registers_view() == old(self).registers_view().insert(addr, value),
            final(self).coils_view() == old(self).coils_view(),
    {
        self.holding_registers.insert(addr, value);
    }

    /// Read one coil: the mapped value, or `false` at an unmapped offset.
    /// Never fails.
    pub fn read_coil(&self, addr: u16) -> (value: bool)
        ensures
            value == self.spec_coil(addr),
    {
        match self.coils.get(&addr) {
            Some(v) => *v,
            None => false,
        }
    }

    /// Read a block of coils; each element follows the single-coil
    /// policy, so unmapped offsets read as `false` and the call never
    /// fails.
    pub fn read_coils(&self, addr: u16, count: u16) -> (values: Vec<bool>)
        ensures
            values@.len() == count,
            forall|i: int| 0 <= i < count ==> values@[i] == self.spec_coil_offset(addr, i),
    {
        let mut values: Vec<bool> = Vec::new();
        let mut i: u16 = 0;
        while i < count
            invariant
                i <= count,
                values@.len() == i,
                forall|j: int| 0 <= j < i ==> values@[j] == self.spec_coil_offset(addr, j),
            decreases count - i,
        {
            let v = if i <= u16::MAX - addr {
                self.read_coil(addr + i)
            } else {
                false
            };
            values.push(v);
            i += 1;
        }
        values
    }

    /// Write one coil: updates a mapped offset, and is a no-op at an
    /// unmapped one. Never fails.
    pub fn write_coil(&mut self, addr: u16, value: bool)
        ensures
            final(self).registers_view() == old(self).registers_view(),
            old(self).coil_mapped(addr) ==> final(self).coils_view() == old(self).coils_view().insert(addr, value),
            !old(self).coil_mapped(addr) ==> final(self).coils_view() == old(self).coils_view(),
    {
        if self.coils.contains_key(&addr) {
            self.coils.insert(addr, value);
        }
    }

    /// Write a block of coils; each element follows the single-coil
    /// policy, so unmapped offsets are skipped and the call never fails.
    pub fn write_coils(&mut self, addr: u16, values: &[bool])
        ensures
            final(self).registers_view() == old(self).registers_view(),
            final(self).coils_view().dom() == old(self).coils_view().dom(),
            forall|a: u16|
                old(self).coil_mapped(a) ==> final(self).coils_view()[a] == (if addr <= a < addr
                    + values@.len() {
                    values@[a - addr]
                } else {
                    old(self).coils_view()[a]
                }),
    {
        let ghost orig = *self;
        let mut i: usize = 0;
        while i < values.len()
            invariant
                i <= values@.len(),
                self.registers_view() == orig.registers_view(),
                self.coils_view().dom() == orig.coils_view().dom(),
                forall|a: u16|
                    orig.coil_mapped(a) ==> self.coils_view()[a] == (if addr <= a < addr + i {
                        values@[a - addr]
                    } else {
                        orig.coils_view()[a]
                    }),
            decreases values@.len() - i,
        {
            if i <= (u16::MAX - addr) as usize {
                let a = addr + i as u16;
                let ghost pre = *self;
                self.write_coil(a, values[i]);
                proof {
                    assert(self.coils_view().dom() =~= pre.coils_view().dom());
                }
            }
            i += 1;
        }
    }

    /// Read a block of registers. Fails atomically with the first
    /// unmapped offset if any offset in the block is unmapped; returns
    /// the block of mapped values otherwise.
    pub fn read_holding_registers(&self, addr: u16, count: u16) -> (r: Result<
        Vec<u16>,
        AddressError,
    >)
        ensures
            match r {
                Ok(values) => {
                    &&& self.regs_all_mapped(addr, count as int)
                    &&& values@.len() == count
                    &&& forall|i: int|
                        0 <= i < count ==> values@[i] == self.spec_reg(#[trigger] ((addr + i) as u16))
                },
                Err(e) => {
                    &&& !self.regs_all_mapped(addr, count as int)
                    &&& (addr + count <= u16::MAX + 1 ==> addr <= e.addr <= addr + count - 1
                        && !self.reg_mapped(e.addr))
                },
            },
    {
        let mut values: Vec<u16> = Vec::new();
        let mut i: u16 = 0;
        while i < count
            invariant
                i <= count,
                values@.len() == i,
                addr + i <= u16::MAX + 1,
                forall|a: u16| addr <= a < addr + i ==> #[trigger] self.reg_mapped(a),
                forall|j: int|
                    0 <= j < i ==> #[trigger] values@[j] == self.spec_reg(((addr + j) as u16)),
            decreases count - i,
        {
            if i > u16::MAX - addr {
                // the block runs past the end of the address space
                assert(addr + count > u16::MAX + 1);
                return Err(AddressError { addr: u16::MAX });
            }
            let a = addr + i;
            match self.holding_registers.get(&a) {
                Some(v) => values.push(*v),
                None => {
                    assert(!self.reg_mapped(a));
                    return Err(AddressError { addr: a });
                },
            }
            i += 1;
        }
        Ok(values)
    }

    /// Write one register: fails with an addressing error at an unmapped
    /// offset, leaving the store unchanged.
    pub fn write_holding_register(&mut self, addr: u16, value: u16) -> (r: Result<
        (),
        AddressError,
    >)
        ensures
            final(self).coils_view() == old(self).coils_view(),
            match r {
                Ok(()) => old(self).reg_mapped(addr) && final(self).registers_view() == old(self).registers_view().insert(addr, value),
                Err(e) => !old(self).reg_mapped(addr) && e.addr == addr && final(self).registers_view() == old(self).registers_view(),
            },
    {
        if self.holding_registers.contains_key(&addr) {
            self.holding_registers.insert(addr, value);
            Ok(())
        } else {
            Err(AddressError { addr })
        }
    }

    /// Write a block of registers, all-or-nothing: if any offset in the
    /// block is unmapped the call fails with an addressing error and no
    /// element is applied; otherwise every element is written.
    pub fn write_holding_registers(&mut self, addr: u16, values: &[u16]) -> (r: Result<
        (),
        AddressError,
    >)
        ensures
            final(self).coils_view() == old(self).coils_view(),
            match r {
                Ok(()) => {
                    &&& old(self).regs_all_mapped(addr, values@.len() as int)
                    &&& final(self).registers_view().dom() == old(self).registers_view().dom()
                    &&& forall|a: u16|
                        old(self).reg_mapped(a) ==> final(self).registers_view()[a] == (if addr <= a
                            < addr + values@.len() {
                            values@[a - addr]
                        } else {
                            old(self).registers_view()[a]
                        })
                },
                Err(e) => {
                    &&& !old(self).regs_all_mapped(addr, values@.len() as int)
                    &&& final(self).registers_view() == old(self).registers_view()
                    &&& (addr + values@.len() <= u16::MAX + 1 ==> addr <= e.addr <= addr
                        + values@.len() - 1 && !old(self).reg_mapped(e.addr))
                },
            },
    {
        // first pass: the all-or-nothing addressing check
        let mut i: usize = 0;
        while i < values.len()
            invariant
                i <= values@.len(),
                addr + i <= u16::MAX + 1,
                forall|a: u16| addr <= a < addr + i ==> #[trigger] self.reg_mapped(a),
            decreases values@.len() - i,
        {
            if i > (u16::MAX - addr) as usize {
                assert(addr + values@.len() > u16::MAX + 1);
                return Err(AddressError { addr: u16::MAX });
            }
            let a = addr + i as u16;
            if !self.holding_registers.contains_key(&a) {
                assert(!self.reg_mapped(a));
                return Err(AddressError { addr: a });
            }
            i += 1;
        }
        // second pass: every offset is mapped, apply the whole block
        let ghost orig = *self;
        let mut i: usize = 0;
        while i < values.len()
            invariant
                i <= values@.len(),
                orig.regs_all_mapped(addr, values@.len() as int),
                self.coils_view() == orig.coils_view(),
                self.registers_view().dom() == orig.registers_view().dom(),
                forall|a: u16|
                    orig.reg_mapped(a) ==> self.registers_view()[a] == (if addr <= a < addr + i {
                        values@[a - addr]
                    } else {
                        orig.registers_view()[a]
                    }),
            decreases values@.len() - i,
        {
            proof {
                assert(orig.reg_mapped(((addr + i) as u16)));
            }
            let a = addr + i as u16;
            let ghost pre = *self;
            let res = self.write_holding_register(a, values[i]);
            proof {
                assert(res is Ok);
                assert(self.registers_view().dom() =~= pre.registers_view().dom());
                assert(a - addr == i as int);
            }
            i += 1;
        }
        Ok(())
    }
}

} // verus!
