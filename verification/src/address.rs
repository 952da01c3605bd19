//! Addresses: the address of an instruction, offset by an index register.

use vstd::prelude::*;
use crate::mix_machine::{agrees, ErrorKind, MachineState, MixMachine, MixMachineErr, Register};
use crate::text::sentence_with_number;
use crate::word::{is_narrow_word, signed_value, word_of, SIGN_BIT};

verus! {

/// What an index specification adds to an address: nothing for 0, the value
/// of `I1` to `I6` for 1 to 6.
pub open spec fn index_offset(s: MachineState, index_spec: u8) -> Result<int, ErrorKind> {
    if index_spec == 0 {
        Ok(0)
    } else if index_spec <= 6 {
        Ok(signed_value(s.index[index_spec - 1]))
    } else {
        Err(ErrorKind::InvalidIndexSpec)
    }
}

/// The indexed address: the address plus what the index specification adds.
pub open spec fn indexed_address(s: MachineState, address: i16, index_spec: u8) -> Result<
    int,
    ErrorKind,
> {
    match index_offset(s, index_spec) {
        Ok(offset) => Ok(address + offset),
        Err(kind) => Err(kind),
    }
}

/// The effective address: the indexed address, which must not be negative.
pub open spec fn effective_address(s: MachineState, address: i16, index_spec: u8) -> Result<
    u16,
    ErrorKind,
> {
    match indexed_address(s, address, index_spec) {
        Ok(m) => if m >= 0 {
            Ok(m as u16)
        } else {
            Err(ErrorKind::NegativeEffectiveAddress)
        },
        Err(kind) => Err(kind),
    }
}

/// The indexed address as a word to enter into a register.  Where it is
/// zero, the word is the zero of the instruction's own sign.
pub open spec fn address_to_enter(
    s: MachineState,
    address: i16,
    index_spec: u8,
    negative_address: bool,
) -> Result<u32, ErrorKind> {
    match indexed_address(s, address, index_spec) {
        Ok(m) => Ok(
            if m == 0 {
                word_of(negative_address, 0)
            } else if m < 0 {
                word_of(true, (-m) as nat)
            } else {
                word_of(false, m as nat)
            },
        ),
        Err(kind) => Err(kind),
    }
}

/// In a well-formed machine an indexed address is at most an `i16` and an
/// index register away from zero.
pub proof fn lemma_indexed_address_range(s: MachineState, address: i16, index_spec: u8)
    requires
        s.wf(),
    ensures
        match indexed_address(s, address, index_spec) {
            Ok(m) => -0x8000 - 0x1000 < m < 0x8000 + 0x1000,
            Err(_) => true,
        },
{
    if 1 <= index_spec <= 6 {
        let w = s.index[index_spec - 1];
        assert(is_narrow_word(w));
    }
}

impl MixMachine {
    /// The address plus the value of the index register that `index_spec`
    /// selects.
    pub fn compute_indexed_address(&self, address: i16, index_spec: u8) -> (r: Result<
        i32,
        MixMachineErr,
    >)
        ensures
            self@.wf(),
            match r {
                Ok(m) => indexed_address(self@, address, index_spec) == Ok::<int, ErrorKind>(
                    m as int,
                ),
                Err(e) => indexed_address(self@, address, index_spec) == Err::<int, ErrorKind>(
                    e.kind,
                ),
            },
    {
        proof {
            use_type_invariant(&*self);
            self.lemma_wf();
        }
        let reg = match index_spec {
            0 => {
                return Ok(address as i32);
            },
            1 => Register::RegI1,
            2 => Register::RegI2,
            3 => Register::RegI3,
            4 => Register::RegI4,
            5 => Register::RegI5,
            6 => Register::RegI6,
            _ => {
                return Err(
                    MixMachineErr {
                        kind: ErrorKind::InvalidIndexSpec,
                        message: sentence_with_number(
                            "Invalid index_spec for computing effective address: ",
                            index_spec as i32,
                            "",
                        ),
                    },
                );
            },
        };
        proof {
            lemma_indexed_address_range(self@, address, index_spec);
        }
        match self.peek_register(reg) {
            Ok(x) => Ok(MixMachine::reg32_to_i32(x) + address as i32),
            Err(e) => Err(e),
        }
    }

    /// The indexed address as a memory address, shift distance or jump
    /// target.
    pub fn compute_effective_address(&self, address: i16, index_spec: u8) -> (r: Result<
        u16,
        MixMachineErr,
    >)
        ensures
            self@.wf(),
            agrees(r, effective_address(self@, address, index_spec)),
    {
        proof {
            use_type_invariant(&*self);
            self.lemma_wf();
            lemma_indexed_address_range(self@, address, index_spec);
        }
        match self.compute_indexed_address(address, index_spec) {
            Ok(m) => if m >= 0 {
                Ok(m as u16)
            } else {
                Err(
                    MixMachineErr {
                        kind: ErrorKind::NegativeEffectiveAddress,
                        message: sentence_with_number(
                            "Computed negative effective address: ",
                            m,
                            "",
                        ),
                    },
                )
            },
            Err(e) => Err(e),
        }
    }

    /// The indexed address as a word to enter into a register.
    pub fn compute_address_to_enter(
        &self,
        address: i16,
        index_spec: u8,
        negative_address: bool,
    ) -> (r: Result<u32, MixMachineErr>)
        ensures
            self@.wf(),
            agrees(r, address_to_enter(self@, address, index_spec, negative_address)),
    {
        proof {
            use_type_invariant(&*self);
            self.lemma_wf();
            lemma_indexed_address_range(self@, address, index_spec);
        }
        match self.compute_indexed_address(address, index_spec) {
            Ok(m) => if m == 0 {
                if negative_address {
                    Ok(SIGN_BIT)
                } else {
                    Ok(0)
                }
            } else if m < 0 {
                Ok((-m) as u32 + SIGN_BIT)
            } else {
                Ok(m as u32)
            },
            Err(e) => Err(e),
        }
    }
}

} // verus!
