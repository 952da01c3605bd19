//! Comparison of a register with a memory word.

use vstd::prelude::*;
use crate::address::effective_address;
use crate::codec::field_read;
use crate::mix_machine::{
    follows, memory_read, ComparisonState, ErrorKind, MachineState, MixMachine, MixMachineErr,
};
use crate::mix_operations::CompOp;
use crate::word::{field_of, signed_value, valid_field};

verus! {

/// How the integer `left` stands to the integer `right`.
pub open spec fn ordering_of(left: int, right: int) -> ComparisonState {
    if left < right {
        ComparisonState::Less
    } else if left > right {
        ComparisonState::Greater
    } else {
        ComparisonState::Equal
    }
}

/// How the field `field` of `register` stands to the same field of
/// `contents`, each taken as the integer it stands for.
pub open spec fn compared(register: u32, contents: u32, field: u8) -> ComparisonState {
    ordering_of(
        signed_value(field_of(register, field)),
        signed_value(field_of(contents, field)),
    )
}

/// What a comparison does: the comparison indicator says how the field of
/// the register stands to the same field of the memory word at the
/// effective address.
pub open spec fn comparison_model(s: MachineState, op: CompOp) -> Result<MachineState, ErrorKind> {
    match effective_address(s, op.address, op.index_spec) {
        Err(kind) => Err(kind),
        Ok(address) => match memory_read(s, address) {
            Err(kind) => Err(kind),
            Ok(contents) => match field_read(contents, op.field) {
                Err(kind) => Err(kind),
                Ok(_) => Ok(s.with_comparison(compared(s.register(op.register), contents, op.field))),
            },
        },
    }
}

/// After a comparison the indicator is `Equal` exactly if the field of the
/// register and the same field of the memory word stand for the same
/// integer, so that a field that is `+0` equals one that is `-0`.
pub proof fn law_equal_means_same_value(s: MachineState, op: CompOp)
    requires
        comparison_model(s, op) is Ok,
    ensures
        effective_address(s, op.address, op.index_spec) is Ok,
        valid_field(op.field),
        comparison_model(s, op)->Ok_0.comparison == ComparisonState::Equal <==> signed_value(
            field_of(s.register(op.register), op.field),
        ) == signed_value(
            field_of(
                s.memory[effective_address(s, op.address, op.index_spec)->Ok_0 as int],
                op.field,
            ),
        ),
{
}

impl MixMachine {
    /// Carries out a comparison.
    pub fn execute_comparison_op(&mut self, op: &CompOp) -> (r: Result<(), MixMachineErr>)
        ensures
            old(self)@.wf(),
            final(self)@.wf(),
            follows(old(self)@, final(self)@, r, comparison_model(old(self)@, *op)),
    {
        let effective_address: u16 = match self.compute_effective_address(
            op.address,
            op.index_spec,
        ) {
            Ok(address) => address,
            Err(e) => {
                return Err(e);
            },
        };
        let contents: u32 = match self.peek_memory(effective_address) {
            Ok(contents) => contents,
            Err(e) => {
                return Err(e);
            },
        };
        let truncated_contents: i32 = match MixMachine::truncate_to_field(contents, op.field) {
            Ok(v) => MixMachine::reg32_to_i32(v),
            Err(e) => {
                return Err(e);
            },
        };
        let register_value: u32 = self.register(op.register);
        let truncated_register: i32 = match MixMachine::truncate_to_field(
            register_value,
            op.field,
        ) {
            Ok(v) => MixMachine::reg32_to_i32(v),
            Err(e) => {
                return Err(e);
            },
        };
        if truncated_register < truncated_contents {
            self.poke_comparison_indicator(ComparisonState::Less)
        } else if truncated_register > truncated_contents {
            self.poke_comparison_indicator(ComparisonState::Greater)
        } else {
            self.poke_comparison_indicator(ComparisonState::Equal)
        }
    }
}

} // verus!
