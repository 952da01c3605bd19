//! One step of the machine: fetch, advance, decode, carry out.

use vstd::prelude::*;
use vstd::string::StringExecFns;
use crate::address::effective_address;
use crate::arithmetic::arithmetic_model;
use crate::comparison::comparison_model;
use crate::jump::{jump_mode, jump_outcome};
use crate::load_store::{load_model, store_model};
use crate::mix_machine::{
    performs, register_write, ErrorKind, MachineState, MixMachine, MixMachineErr, Outcome,
    Register, MEM_SIZE,
};
use crate::mix_operations::{decode, JumpOp, Operation};
use crate::moving::move_model;
use crate::shift::shift_model;
use crate::text::{push_decimal, sentence_with_number};
use crate::transfer::transfer_model;

verus! {

/// What carrying out a decoded instruction does, in a machine whose program
/// counter is already past the instruction.
pub open spec fn execution(s: MachineState, op: Operation) -> Outcome {
    match op {
        Operation::Load(op) => Outcome::of(s, load_model(s, op)),
        Operation::Store(op) => Outcome::of(s, store_model(s, op)),
        Operation::Arithmetic(op) => Outcome::of(s, arithmetic_model(s, op)),
        Operation::AddressTransfer(op) => Outcome::of(s, transfer_model(s, op)),
        Operation::Comparison(op) => Outcome::of(s, comparison_model(s, op)),
        Operation::Jump(op) => jump_outcome(s, op),
        Operation::Shift(op) => Outcome::of(s, shift_model(s, op)),
        Operation::Move(op) => Outcome::of(s, move_model(s, op)),
        Operation::NoOp => Outcome::done(s),
        Operation::Unknown => Outcome::failed(s, ErrorKind::UnknownOpcode),
    }
}

/// What one step does.  Where the program counter is outside memory the
/// step fails with `InvalidAddress` and changes nothing.  Otherwise the
/// program counter moves on by one, and the word it pointed at is decoded
/// and carried out; a word that stands for no instruction fails with
/// `UnknownOpcode`.
pub open spec fn step_outcome(s: MachineState) -> Outcome {
    if s.program_counter >= MEM_SIZE {
        Outcome::failed(s, ErrorKind::InvalidAddress)
    } else {
        execution(
            s.with_program_counter((s.program_counter + 1) as u16),
            decode(s.memory[s.program_counter as int]),
        )
    }
}

impl MixMachine {
    /// Carries out the instruction at the program counter.
    pub fn step(&mut self) -> (r: Result<(), MixMachineErr>)
        ensures
            old(self)@.wf(),
            final(self)@.wf(),
            performs(final(self)@, r, step_outcome(old(self)@)),
    {
        let counter: u16 = self.program_counter();
        if counter >= MEM_SIZE {
            return Err(
                MixMachineErr {
                    kind: ErrorKind::InvalidAddress,
                    message: sentence_with_number(
                        "Attempted instruction fetch from invalid memory address ",
                        counter as i32,
                        ".",
                    ),
                },
            );
        }
        let instruction: u32 = self.word_at(counter);
        self.set_program_counter(counter + 1);
        match Operation::from_u32(instruction) {
            Ok(Operation::Load(op)) => self.execute_load_op(&op),
            Ok(Operation::Store(op)) => self.execute_store_op(&op),
            Ok(Operation::Arithmetic(op)) => self.execute_arithmetic_op(&op),
            Ok(Operation::AddressTransfer(op)) => self.execute_address_transfer(&op),
            Ok(Operation::Comparison(op)) => self.execute_comparison_op(&op),
            Ok(Operation::Jump(op)) => self.execute_jump_op(&op),
            Ok(Operation::Shift(op)) => self.execute_shift_op(&op),
            Ok(Operation::Move(op)) => self.execute_move_op(&op),
            Ok(Operation::NoOp) => Ok(()),
            Ok(Operation::Unknown) | Err(_) => {
                let mut message = String::from_str("Unknown or unimplemeted instruction: ");
                push_decimal(&mut message, instruction);
                Err(MixMachineErr { kind: ErrorKind::UnknownOpcode, message })
            },
        }
    }
}

/// A step that carries out a jump whose effective address is right leaves
/// in `J` the address of the instruction after the jump, unless the jump is
/// of the kind that leaves `J` alone, in which case `J` is as it was.
pub proof fn law_jump_sets_j(s: MachineState, op: JumpOp)
    requires
        s.wf(),
        s.program_counter < MEM_SIZE,
        decode(s.memory[s.program_counter as int]) == Operation::Jump(op),
        effective_address(s, op.address, op.index_spec) is Ok,
    ensures
        jump_mode(op) != 1 ==> step_outcome(s).state.j == s.program_counter + 1,
        jump_mode(op) == 1 ==> step_outcome(s).state.j == s.j,
{
    let fetched = s.with_program_counter((s.program_counter + 1) as u16);
    assert(effective_address(fetched, op.address, op.index_spec) == effective_address(
        s,
        op.address,
        op.index_spec,
    ));
    assert(register_write(fetched, Register::RegJ, fetched.program_counter as u32) is Ok);
}

} // verus!
