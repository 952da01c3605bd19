//! Jumps.

use vstd::prelude::*;
use vstd::string::StringExecFns;
use crate::address::effective_address;
use crate::mix_machine::{
    performs, register_write, ComparisonState, ErrorKind, MachineState, MixMachine,
    MixMachineErr, Outcome, Register,
};
use crate::mix_operations::JumpOp;
use crate::word::{is_negative, magnitude, SIGN_BIT};

verus! {

/// How a register stands to zero: `Equal` for either zero, `Less` for a
/// negative word, `Greater` for a positive one.
pub open spec fn sign_state(w: u32) -> ComparisonState {
    if magnitude(w) == 0 {
        ComparisonState::Equal
    } else if is_negative(w) {
        ComparisonState::Less
    } else {
        ComparisonState::Greater
    }
}

/// The mode of a jump: the field itself for a jump without a register (0 jump,
/// 1 jump and leave `J`, 2 on overflow, 3 on no overflow, 4 to 9 on the
/// comparison indicator); the field plus 4 for a jump on a register, so that
/// 4 to 9 are negative, zero, positive, non-negative, non-zero, non-positive.
pub open spec fn jump_mode(op: JumpOp) -> int {
    match op.register {
        None => op.field as int,
        Some(_) => op.field + 4,
    }
}

/// What a conditional jump goes by: the comparison indicator, or how the
/// register of the jump stands to zero.
pub open spec fn jump_indicator(s: MachineState, op: JumpOp) -> ComparisonState {
    match op.register {
        None => s.comparison,
        Some(reg) => sign_state(s.register(reg)),
    }
}

/// Whether a jump of mode 4 to 9 is taken: less, equal, greater, greater or
/// equal, not equal, less or equal.
pub open spec fn condition_holds(mode: int, indicator: ComparisonState) -> bool {
    if mode == 4 {
        indicator == ComparisonState::Less
    } else if mode == 5 {
        indicator == ComparisonState::Equal
    } else if mode == 6 {
        indicator == ComparisonState::Greater
    } else if mode == 7 {
        indicator != ComparisonState::Less
    } else if mode == 8 {
        indicator != ComparisonState::Equal
    } else {
        indicator != ComparisonState::Greater
    }
}

/// What a jump does, in a machine whose program counter is already past the
/// jump.
///
/// A wrong effective address fails and changes nothing.  Then every mode
/// but 1 stores the program counter in `J`.  Modes 0 and 1 jump.  Modes 2
/// and 3 jump if the overflow toggle is on, respectively off, and turn it
/// off.  Modes 4 to 9 jump on their condition.  Any other mode fails with
/// `InvalidFieldSpec`, `J` having been written.
pub open spec fn jump_outcome(s: MachineState, op: JumpOp) -> Outcome {
    match effective_address(s, op.address, op.index_spec) {
        Err(kind) => Outcome::failed(s, kind),
        Ok(target) => {
            let mode = jump_mode(op);
            let indicator = jump_indicator(s, op);
            let saving = if mode != 1 {
                register_write(s, Register::RegJ, s.program_counter as u32)
            } else {
                Ok(s)
            };
            match saving {
                Err(kind) => Outcome::failed(s, kind),
                Ok(saved) => {
                    let there = saved.with_program_counter(target);
                    if mode == 0 || mode == 1 {
                        Outcome::done(there)
                    } else if mode == 2 || mode == 3 {
                        Outcome::done(
                            (if (mode == 2) == saved.overflow {
                                there
                            } else {
                                saved
                            }).with_overflow(false),
                        )
                    } else if 4 <= mode <= 9 {
                        Outcome::done(
                            if condition_holds(mode, indicator) {
                                there
                            } else {
                                saved
                            },
                        )
                    } else {
                        Outcome::failed(saved, ErrorKind::InvalidFieldSpec)
                    }
                },
            }
        },
    }
}

impl MixMachine {
    /// Carries out a jump.
    pub fn execute_jump_op(&mut self, op: &JumpOp) -> (r: Result<(), MixMachineErr>)
        ensures
            old(self)@.wf(),
            final(self)@.wf(),
            performs(final(self)@, r, jump_outcome(old(self)@, *op)),
    {
        let target: u16 = match self.compute_effective_address(op.address, op.index_spec) {
            Ok(target) => target,
            Err(e) => {
                return Err(e);
            },
        };
        let adjusted_field: u16 = match op.register {
            None => op.field as u16,
            Some(_) => op.field as u16 + 4,
        };
        let comp_state: ComparisonState = match op.register {
            None => self.comparison(),
            Some(reg) => {
                let x: u32 = self.register(reg);
                if x % SIGN_BIT == 0 {
                    ComparisonState::Equal
                } else if x >= SIGN_BIT {
                    ComparisonState::Less
                } else {
                    ComparisonState::Greater
                }
            },
        };
        if adjusted_field != 1 {
            let counter: u32 = self.program_counter() as u32;
            match self.poke_register(Register::RegJ, counter) {
                Ok(_) => {},
                Err(e) => {
                    return Err(e);
                },
            }
        }
        let taken: bool = match adjusted_field {
            0 | 1 => true,
            2 | 3 => {
                let overflow: bool = self.overflow();
                if overflow {
                    let _ = self.clear_overflow_toggle();
                }
                (adjusted_field == 2) == overflow
            },
            4 => comp_state == ComparisonState::Less,
            5 => comp_state == ComparisonState::Equal,
            6 => comp_state == ComparisonState::Greater,
            7 => comp_state == ComparisonState::Greater || comp_state == ComparisonState::Equal,
            8 => comp_state == ComparisonState::Greater || comp_state == ComparisonState::Less,
            9 => comp_state == ComparisonState::Less || comp_state == ComparisonState::Equal,
            _ => {
                return Err(
                    MixMachineErr {
                        kind: ErrorKind::InvalidFieldSpec,
                        message: String::from_str("Invalid field spec in comparison operation"),
                    },
                );
            },
        };
        if taken {
            self.set_program_counter(target);
        }
        Ok(())
    }
}

} // verus!
