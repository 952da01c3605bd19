//! Address transfer: entering an address into a register, and increasing or
//! decreasing a register by an address.

use vstd::prelude::*;
use crate::address::address_to_enter;
use crate::arithmetic::add_to_register;
use crate::mix_machine::{
    follows, register_write, ErrorKind, MachineState, MixMachine, MixMachineErr,
};
use crate::mix_operations::AddressOp;
use crate::word::negated;

verus! {

/// What an address transfer does.  The address to enter is the indexed
/// address as a word, a zero keeping the sign of the instruction; it is
/// negated where the instruction says so.  It is then written into the
/// register, or added to it as an addition adds.
pub open spec fn transfer_model(s: MachineState, op: AddressOp) -> Result<MachineState, ErrorKind> {
    match address_to_enter(s, op.address, op.index_spec, op.negative_address) {
        Err(kind) => Err(kind),
        Ok(entered) => {
            let word = if op.negate_value {
                negated(entered)
            } else {
                entered
            };
            if op.increase {
                add_to_register(s, op.register, word)
            } else {
                register_write(s, op.register, word)
            }
        },
    }
}

impl MixMachine {
    /// Carries out an address transfer.
    pub fn execute_address_transfer(&mut self, op: &AddressOp) -> (r: Result<(), MixMachineErr>)
        ensures
            old(self)@.wf(),
            final(self)@.wf(),
            follows(old(self)@, final(self)@, r, transfer_model(old(self)@, *op)),
    {
        let entered: u32 = match self.compute_address_to_enter(
            op.address,
            op.index_spec,
            op.negative_address,
        ) {
            Ok(word) => word,
            Err(e) => {
                return Err(e);
            },
        };
        let addr: u32 = if op.negate_value {
            MixMachine::negate_value(entered)
        } else {
            entered
        };
        if op.increase {
            self.execute_addition_general(op.register, addr)
        } else {
            self.poke_register(op.register, addr)
        }
    }
}

} // verus!
