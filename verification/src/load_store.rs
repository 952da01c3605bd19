//! Loading registers from memory and storing them into it.

use vstd::prelude::*;
use crate::address::effective_address;
use crate::codec::{field_read, field_write};
use crate::mix_machine::{
    follows, memory_read, memory_write, register_write, ErrorKind, MachineState, MixMachine,
    MixMachineErr,
};
use crate::mix_operations::{LoadOp, StoreOp};
use crate::word::negated;

verus! {

/// What a load does: the field of the memory word at the effective address,
/// negated if the instruction says so, goes into the register.
pub open spec fn load_model(s: MachineState, op: LoadOp) -> Result<MachineState, ErrorKind> {
    match effective_address(s, op.address, op.index_spec) {
        Err(kind) => Err(kind),
        Ok(address) => match memory_read(s, address) {
            Err(kind) => Err(kind),
            Ok(contents) => match field_read(contents, op.field) {
                Err(kind) => Err(kind),
                Ok(v) => register_write(
                    s,
                    op.register,
                    if op.negative {
                        negated(v)
                    } else {
                        v
                    },
                ),
            },
        },
    }
}

/// The word a store writes from: the register, or `+0` where there is none.
pub open spec fn store_source(s: MachineState, op: StoreOp) -> u32 {
    match op.register {
        Some(reg) => s.register(reg),
        None => 0,
    }
}

/// What a store does: the field of the memory word at the effective address
/// is replaced from the register; the rest of that word stays.
pub open spec fn store_model(s: MachineState, op: StoreOp) -> Result<MachineState, ErrorKind> {
    match effective_address(s, op.address, op.index_spec) {
        Err(kind) => Err(kind),
        Ok(address) => match memory_read(s, address) {
            Err(kind) => Err(kind),
            Ok(contents) => match field_write(store_source(s, op), contents, op.field) {
                Err(kind) => Err(kind),
                Ok(changed) => memory_write(s, address, changed),
            },
        },
    }
}

impl MixMachine {
    /// Carries out a load.
    pub fn execute_load_op(&mut self, op: &LoadOp) -> (r: Result<(), MixMachineErr>)
        ensures
            old(self)@.wf(),
            final(self)@.wf(),
            follows(old(self)@, final(self)@, r, load_model(old(self)@, *op)),
    {
        let effective_address: u16 = match self.compute_effective_address(
            op.address,
            op.index_spec,
        ) {
            Ok(address) => address,
            Err(e) => {
                return Err(e);
            },
        };
        let contents: u32 = match self.peek_memory(effective_address) {
            Ok(contents) => contents,
            Err(e) => {
                return Err(e);
            },
        };
        let trunc_cont: u32 = match MixMachine::truncate_to_field(contents, op.field) {
            Ok(v) => v,
            Err(e) => {
                return Err(e);
            },
        };
        if op.negative {
            self.poke_register(op.register, MixMachine::negate_value(trunc_cont))
        } else {
            self.poke_register(op.register, trunc_cont)
        }
    }

    /// Carries out a store.
    pub fn execute_store_op(&mut self, op: &StoreOp) -> (r: Result<(), MixMachineErr>)
        ensures
            old(self)@.wf(),
            final(self)@.wf(),
            follows(old(self)@, final(self)@, r, store_model(old(self)@, *op)),
    {
        let effective_address: u16 = match self.compute_effective_address(
            op.address,
            op.index_spec,
        ) {
            Ok(address) => address,
            Err(e) => {
                return Err(e);
            },
        };
        let value_to_store: u32 = match op.register {
            Some(reg) => self.register(reg),
            None => 0u32,
        };
        let value_to_overwrite: u32 = match self.peek_memory(effective_address) {
            Ok(contents) => contents,
            Err(e) => {
                return Err(e);
            },
        };
        let changed: u32 = match MixMachine::embed_from_field(
            value_to_store,
            value_to_overwrite,
            op.field,
        ) {
            Ok(v) => v,
            Err(e) => {
                return Err(e);
            },
        };
        self.poke_memory(effective_address, changed)
    }
}

} // verus!
