//! Instructions: the layout of an instruction word, the operations it can
//! stand for, and the decoder.
//!
//! An instruction word holds, from the right: the operation code in bits 0
//! to 5, the field specification in bits 6 to 11, the index specification in
//! bits 12 to 17, the magnitude of the address in bits 18 to 29 and the sign
//! of the address in bit 30.

use vstd::prelude::*;
use crate::mix_machine::Register;
use crate::word::{is_negative, is_word};

verus! {

/// A decoded instruction.
#[derive(Debug, Clone, Copy, PartialEq, Eq)]
pub enum Operation {
    Load(LoadOp),
    Store(StoreOp),
    Arithmetic(ArithOp),
    AddressTransfer(AddressOp),
    Comparison(CompOp),
    Jump(JumpOp),
    Shift(ShiftOp),
    Move(MoveOp),
    /// The instruction that does nothing.
    NoOp,
    /// A word that stands for no instruction this machine carries out.
    Unknown,
}

/// Load a field of a memory word into a register, negated or not.
#[derive(Debug, Clone, Copy, PartialEq, Eq)]
pub struct LoadOp {
    pub register: Register,
    pub field: u8,
    pub negative: bool,
    pub address: i16,
    pub index_spec: u8,
}

/// Store a register, or zero where there is none, into a field of a memory
/// word.
#[derive(Debug, Clone, Copy, PartialEq, Eq)]
pub struct StoreOp {
    pub register: Option<Register>,
    pub field: u8,
    pub address: i16,
    pub index_spec: u8,
}

/// The four arithmetic operations on `A` and `X`.
#[derive(Debug, Clone, Copy, PartialEq, Eq)]
pub enum ArithOpType {
    Addition,
    Subtraction,
    Multiplication,
    Division,
}

/// Arithmetic between `A` (and `X`) and a field of a memory word.
#[derive(Debug, Clone, Copy, PartialEq, Eq)]
pub struct ArithOp {
    pub op_type: ArithOpType,
    pub field: u8,
    pub address: i16,
    pub index_spec: u8,
}

/// Enter an address into a register, or increase the register by it.
#[derive(Debug, Clone, Copy, PartialEq, Eq)]
pub struct AddressOp {
    pub register: Register,
    pub address: i16,
    /// The sign of the instruction word, which an address of zero keeps.
    pub negative_address: bool,
    pub index_spec: u8,
    /// Whether the address is negated first: enter-negative and decrease.
    pub negate_value: bool,
    /// Whether the address is added to the register rather than entered.
    pub increase: bool,
}

/// Compare a field of a register with the same field of a memory word.
#[derive(Debug, Clone, Copy, PartialEq, Eq)]
pub struct CompOp {
    pub register: Register,
    pub field: u8,
    pub address: i16,
    pub index_spec: u8,
}

/// Jump.  Without a register the field selects among the unconditional
/// jumps, the overflow jumps and the jumps on the comparison indicator;
/// with a register it selects the condition on that register.
#[derive(Debug, Clone, Copy, PartialEq, Eq)]
pub struct JumpOp {
    pub register: Option<Register>,
    pub address: i16,
    pub index_spec: u8,
    pub field: u8,
}

/// Shift `A`, or `A` and `X` together, by as many bytes as the address says.
#[derive(Debug, Clone, Copy, PartialEq, Eq)]
pub struct ShiftOp {
    pub shift_left: bool,
    pub use_reg_x: bool,
    pub circulating_shift: bool,
    pub address: i16,
    pub index_spec: u8,
}

/// Move words of memory to where `I1` points.
#[derive(Debug, Clone, Copy, PartialEq, Eq)]
pub struct MoveOp {
    pub num_to_move: u16,
    pub address: i16,
    pub index_spec: u8,
}

/// The operation code of an instruction word.
pub open spec fn opcode_of(instruction: u32) -> u8 {
    (instruction % 64) as u8
}

/// The field specification of an instruction word.
pub open spec fn field_spec_of(instruction: u32) -> u8 {
    ((instruction / 0x40) % 64) as u8
}

/// The index specification of an instruction word.
pub open spec fn index_spec_of(instruction: u32) -> u8 {
    ((instruction / 0x1000) % 64) as u8
}

/// The address of an instruction word, under its sign.
pub open spec fn address_of(instruction: u32) -> i16 {
    if is_negative(instruction) {
        (-((instruction / 0x4_0000) % 0x1000)) as i16
    } else {
        ((instruction / 0x4_0000) % 0x1000) as i16
    }
}

/// The register that an operation code selects within its group of eight:
/// `A`, then `I1` to `I6`, then `X`.
pub open spec fn group_register(place: int) -> Register {
    if place == 0 {
        Register::RegA
    } else if place == 1 {
        Register::RegI1
    } else if place == 2 {
        Register::RegI2
    } else if place == 3 {
        Register::RegI3
    } else if place == 4 {
        Register::RegI4
    } else if place == 5 {
        Register::RegI5
    } else if place == 6 {
        Register::RegI6
    } else {
        Register::RegX
    }
}

/// The operation that an instruction word stands for.
///
/// Code 0 does nothing; 1 to 4 are the arithmetic operations; 6 shifts, its
/// field choosing among six kinds; 7 moves, its field being the number of
/// words; 8 to 15 load and 16 to 23 load negated; 24 to 31 store a
/// register of the group, 32 stores `J` and 33 stores zero; 39 jumps, 40 to
/// 47 jump on a register; 48 to 55 transfer an address, the two low bits of
/// the field choosing among increase, decrease, enter and enter-negative;
/// 56 to 63 compare.  Every other word is `Unknown`: the codes of the
/// machine's conversion, halt and input-output instructions, which this
/// interpreter does not carry out, are not told apart from a shift whose
/// field selects none of its six kinds.
pub open spec fn decode(instruction: u32) -> Operation {
    let code = opcode_of(instruction) as int;
    let field = field_spec_of(instruction);
    let index_spec = index_spec_of(instruction);
    let address = address_of(instruction);
    if code == 0 {
        Operation::NoOp
    } else if 1 <= code <= 4 {
        Operation::Arithmetic(
            ArithOp {
                op_type: if code == 1 {
                    ArithOpType::Addition
                } else if code == 2 {
                    ArithOpType::Subtraction
                } else if code == 3 {
                    ArithOpType::Multiplication
                } else {
                    ArithOpType::Division
                },
                field,
                address,
                index_spec,
            },
        )
    } else if code == 6 && field <= 5 {
        Operation::Shift(
            ShiftOp {
                shift_left: field % 2 == 0,
                use_reg_x: field >= 2,
                circulating_shift: field >= 4,
                address,
                index_spec,
            },
        )
    } else if code == 7 {
        Operation::Move(MoveOp { num_to_move: field as u16, address, index_spec })
    } else if 8 <= code <= 23 {
        Operation::Load(
            LoadOp {
                register: group_register(code % 8),
                field,
                negative: code >= 16,
                address,
                index_spec,
            },
        )
    } else if 24 <= code <= 33 {
        Operation::Store(
            StoreOp {
                register: if code == 33 {
                    None
                } else if code == 32 {
                    Some(Register::RegJ)
                } else {
                    Some(group_register(code % 8))
                },
                field,
                address,
                index_spec,
            },
        )
    } else if 39 <= code <= 47 {
        Operation::Jump(
            JumpOp {
                register: if code == 39 {
                    None
                } else {
                    Some(group_register(code % 8))
                },
                address,
                index_spec,
                field,
            },
        )
    } else if 48 <= code <= 55 {
        Operation::AddressTransfer(
            AddressOp {
                register: group_register(code % 8),
                address,
                negative_address: is_negative(instruction),
                index_spec,
                negate_value: field % 2 != 0,
                increase: field / 2 == 0,
            },
        )
    } else if 56 <= code <= 63 {
        Operation::Comparison(
            CompOp { register: group_register(code % 8), field, address, index_spec },
        )
    } else {
        Operation::Unknown
    }
}

/// The instruction word built from its five parts.
pub open spec fn encoded(positive: bool, address: u16, index_spec: u8, field_spec: u8, op_code: u8) -> u32
    recommends
        address < 0x1000,
        index_spec < 64,
        field_spec < 64,
        op_code < 64,
{
    ((if positive {
        0int
    } else {
        0x4000_0000int
    }) + address * 0x4_0000 + index_spec * 0x1000 + field_spec * 0x40 + op_code) as u32
}

/// An instruction word gives back the parts it was built from.
proof fn lemma_instruction_parts(sign: u32, address: u32, index_spec: u32, field: u32, code: u32)
    by (bit_vector)
    requires
        sign <= 1,
        address < 0x1000,
        index_spec < 64,
        field < 64,
        code < 64,
    ensures
        sign * 0x4000_0000 + address * 0x4_0000 + index_spec * 0x1000 + field * 0x40 + code
            <= 0x7FFF_FFFF,
        (sign * 0x4000_0000 + address * 0x4_0000 + index_spec * 0x1000 + field * 0x40 + code) % 64
            == code,
        ((sign * 0x4000_0000 + address * 0x4_0000 + index_spec * 0x1000 + field * 0x40 + code)
            / 0x40) % 64 == field,
        ((sign * 0x4000_0000 + address * 0x4_0000 + index_spec * 0x1000 + field * 0x40 + code)
            / 0x1000) % 64 == index_spec,
        ((sign * 0x4000_0000 + address * 0x4_0000 + index_spec * 0x1000 + field * 0x40 + code)
            / 0x4_0000) % 0x1000 == address,
        ((sign * 0x4000_0000 + address * 0x4_0000 + index_spec * 0x1000 + field * 0x40 + code)
            / 0x4000_0000) % 2 == sign,
{
}

impl Operation {
    /// Decodes an instruction word.  A word that stands for no instruction
    /// this machine carries out gives `Err`.
    pub fn from_u32(instruction: u32) -> (r: Result<Operation, ()>)
        ensures
            decode(instruction) is Unknown ==> r == Err::<Operation, ()>(()),
            !(decode(instruction) is Unknown) ==> r == Ok::<Operation, ()>(decode(instruction)),
    {
        let op_code: u8 = (instruction % 64) as u8;
        let field: u8 = ((instruction / 0x40) % 64) as u8;
        let index_spec: u8 = ((instruction / 0x1000) % 64) as u8;
        let negative_address: bool = (instruction / 0x4000_0000) % 2 == 1;
        let size: i16 = ((instruction / 0x4_0000) % 0x1000) as i16;
        let address: i16 = if negative_address {
            -size
        } else {
            size
        };
        let negate_value: bool = field % 2 != 0;
        let increase: bool = field / 2 == 0;
        match op_code {
            0 => Ok(Operation::NoOp),
            1 => Ok(
                Operation::Arithmetic(
                    ArithOp { op_type: ArithOpType::Addition, field, address, index_spec },
                ),
            ),
            2 => Ok(
                Operation::Arithmetic(
                    ArithOp { op_type: ArithOpType::Subtraction, field, address, index_spec },
                ),
            ),
            3 => Ok(
                Operation::Arithmetic(
                    ArithOp { op_type: ArithOpType::Multiplication, field, address, index_spec },
                ),
            ),
            4 => Ok(
                Operation::Arithmetic(
                    ArithOp { op_type: ArithOpType::Division, field, address, index_spec },
                ),
            ),
            6 => match field {
                0 => Ok(Operation::Shift(ShiftOp { shift_left: true, use_reg_x: false, circulating_shift: false, address, index_spec })),
                1 => Ok(Operation::Shift(ShiftOp { shift_left: false, use_reg_x: false, circulating_shift: false, address, index_spec })),
                2 => Ok(Operation::Shift(ShiftOp { shift_left: true, use_reg_x: true, circulating_shift: false, address, index_spec })),
                3 => Ok(Operation::Shift(ShiftOp { shift_left: false, use_reg_x: true, circulating_shift: false, address, index_spec })),
                4 => Ok(Operation::Shift(ShiftOp { shift_left: true, use_reg_x: true, circulating_shift: true, address, index_spec })),
                5 => Ok(Operation::Shift(ShiftOp { shift_left: false, use_reg_x: true, circulating_shift: true, address, index_spec })),
                _ => Err(()),
            },
            7 => Ok(Operation::Move(MoveOp { num_to_move: field as u16, address, index_spec })),
            8 => Ok(Operation::Load(LoadOp { register: Register::RegA, field, negative: false, address, index_spec })),
            9 => Ok(Operation::Load(LoadOp { register: Register::RegI1, field, negative: false, address, index_spec })),
            10 => Ok(Operation::Load(LoadOp { register: Register::RegI2, field, negative: false, address, index_spec })),
            11 => Ok(Operation::Load(LoadOp { register: Register::RegI3, field, negative: false, address, index_spec })),
            12 => Ok(Operation::Load(LoadOp { register: Register::RegI4, field, negative: false, address, index_spec })),
            13 => Ok(Operation::Load(LoadOp { register: Register::RegI5, field, negative: false, address, index_spec })),
            14 => Ok(Operation::Load(LoadOp { register: Register::RegI6, field, negative: false, address, index_spec })),
            15 => Ok(Operation::Load(LoadOp { register: Register::RegX, field, negative: false, address, index_spec })),
            16 => Ok(Operation::Load(LoadOp { register: Register::RegA, field, negative: true, address, index_spec })),
            17 => Ok(Operation::Load(LoadOp { register: Register::RegI1, field, negative: true, address, index_spec })),
            18 => Ok(Operation::Load(LoadOp { register: Register::RegI2, field, negative: true, address, index_spec })),
            19 => Ok(Operation::Load(LoadOp { register: Register::RegI3, field, negative: true, address, index_spec })),
            20 => Ok(Operation::Load(LoadOp { register: Register::RegI4, field, negative: true, address, index_spec })),
            21 => Ok(Operation::Load(LoadOp { register: Register::RegI5, field, negative: true, address, index_spec })),
            22 => Ok(Operation::Load(LoadOp { register: Register::RegI6, field, negative: true, address, index_spec })),
            23 => Ok(Operation::Load(LoadOp { register: Register::RegX, field, negative: true, address, index_spec })),
            24 => Ok(Operation::Store(StoreOp { register: Some(Register::RegA), field, address, index_spec })),
            25 => Ok(Operation::Store(StoreOp { register: Some(Register::RegI1), field, address, index_spec })),
            26 => Ok(Operation::Store(StoreOp { register: Some(Register::RegI2), field, address, index_spec })),
            27 => Ok(Operation::Store(StoreOp { register: Some(Register::RegI3), field, address, index_spec })),
            28 => Ok(Operation::Store(StoreOp { register: Some(Register::RegI4), field, address, index_spec })),
            29 => Ok(Operation::Store(StoreOp { register: Some(Register::RegI5), field, address, index_spec })),
            30 => Ok(Operation::Store(StoreOp { register: Some(Register::RegI6), field, address, index_spec })),
            31 => Ok(Operation::Store(StoreOp { register: Some(Register::RegX), field, address, index_spec })),
            32 => Ok(Operation::Store(StoreOp { register: Some(Register::RegJ), field, address, index_spec })),
            33 => Ok(Operation::Store(StoreOp { register: None, field, address, index_spec })),
            39 => Ok(Operation::Jump(JumpOp { register: None, address, index_spec, field })),
            40 => Ok(Operation::Jump(JumpOp { register: Some(Register::RegA), address, index_spec, field })),
            41 => Ok(Operation::Jump(JumpOp { register: Some(Register::RegI1), address, index_spec, field })),
            42 => Ok(Operation::Jump(JumpOp { register: Some(Register::RegI2), address, index_spec, field })),
            43 => Ok(Operation::Jump(JumpOp { register: Some(Register::RegI3), address, index_spec, field })),
            44 => Ok(Operation::Jump(JumpOp { register: Some(Register::RegI4), address, index_spec, field })),
            45 => Ok(Operation::Jump(JumpOp { register: Some(Register::RegI5), address, index_spec, field })),
            46 => Ok(Operation::Jump(JumpOp { register: Some(Register::RegI6), address, index_spec, field })),
            47 => Ok(Operation::Jump(JumpOp { register: Some(Register::RegX), address, index_spec, field })),
            48 => Ok(Operation::AddressTransfer(AddressOp { register: Register::RegA, address, negative_address, index_spec, negate_value, increase })),
            49 => Ok(Operation::AddressTransfer(AddressOp { register: Register::RegI1, address, negative_address, index_spec, negate_value, increase })),
            50 => Ok(Operation::AddressTransfer(AddressOp { register: Register::RegI2, address, negative_address, index_spec, negate_value, increase })),
            51 => Ok(Operation::AddressTransfer(AddressOp { register: Register::RegI3, address, negative_address, index_spec, negate_value, increase })),
            52 => Ok(Operation::AddressTransfer(AddressOp { register: Register::RegI4, address, negative_address, index_spec, negate_value, increase })),
            53 => Ok(Operation::AddressTransfer(AddressOp { register: Register::RegI5, address, negative_address, index_spec, negate_value, increase })),
            54 => Ok(Operation::AddressTransfer(AddressOp { register: Register::RegI6, address, negative_address, index_spec, negate_value, increase })),
            55 => Ok(Operation::AddressTransfer(AddressOp { register: Register::RegX, address, negative_address, index_spec, negate_value, increase })),
            56 => Ok(Operation::Comparison(CompOp { register: Register::RegA, field, address, index_spec })),
            57 => Ok(Operation::Comparison(CompOp { register: Register::RegI1, field, address, index_spec })),
            58 => Ok(Operation::Comparison(CompOp { register: Register::RegI2, field, address, index_spec })),
            59 => Ok(Operation::Comparison(CompOp { register: Register::RegI3, field, address, index_spec })),
            60 => Ok(Operation::Comparison(CompOp { register: Register::RegI4, field, address, index_spec })),
            61 => Ok(Operation::Comparison(CompOp { register: Register::RegI5, field, address, index_spec })),
            62 => Ok(Operation::Comparison(CompOp { register: Register::RegI6, field, address, index_spec })),
            63 => Ok(Operation::Comparison(CompOp { register: Register::RegX, field, address, index_spec })),
            _ => Err(()),
        }
    }

    /// Builds an instruction word from its five parts.
    pub fn make_instruction(positive: bool, address: u16, index_spec: u8, field_spec: u8, op_code: u8) -> (r: u32)
        requires
            address < 0x1000,
            index_spec < 64,
            field_spec < 64,
            op_code < 64,
        ensures
            r == encoded(positive, address, index_spec, field_spec, op_code),
            is_word(r),
            opcode_of(r) == op_code,
            field_spec_of(r) == field_spec,
            index_spec_of(r) == index_spec,
            is_negative(r) == !positive,
            address_of(r) == if positive {
                address as int
            } else {
                -(address as int)
            },
    {
        let sign: u32 = if positive {
            0
        } else {
            0x4000_0000
        };
        proof {
            lemma_instruction_parts(
                sign / 0x4000_0000,
                address as u32,
                index_spec as u32,
                field_spec as u32,
                op_code as u32,
            );
        }
        sign + (address as u32) * 0x4_0000 + (index_spec as u32) * 0x1000 + (field_spec as u32)
            * 0x40 + (op_code as u32)
    }
}

} // verus!
