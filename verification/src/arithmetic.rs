//! Addition, subtraction, multiplication and division.

use vstd::prelude::*;
use vstd::string::StringExecFns;
use crate::address::effective_address;
use crate::codec::field_read;
use crate::mix_machine::{
    follows, memory_read, ErrorKind, MachineState, MixMachine, MixMachineErr, Register,
};
use crate::mix_operations::{ArithOp, ArithOpType};
use crate::word::{
    drop_bytes, is_negative, is_word, lemma_field_of_is_word, lemma_word_of, low_bytes,
    magnitude, negated, pair_of, signed_value, word_of, SIGN_BIT,
};

verus! {

/// The size of an integer.
pub open spec fn size_of(n: int) -> nat {
    if n < 0 {
        (-n) as nat
    } else {
        n as nat
    }
}

/// The word that holds a sum: its sign is that of the sum, a sum of zero
/// being positive, and its bytes are the size of the sum, less what would
/// carry out to the left of byte 1.
pub open spec fn sum_word(sum: int) -> u32 {
    word_of(sum < 0, low_bytes(size_of(sum), 5))
}

/// What adding the word `v` to a register does.  In `A` and `X` a sum too
/// large for five bytes turns the overflow toggle on.  In an index register
/// or `J` a sum too large for two bytes is an error.
pub open spec fn add_to_register(s: MachineState, reg: Register, v: u32) -> Result<
    MachineState,
    ErrorKind,
> {
    let sum = signed_value(s.register(reg)) + signed_value(v);
    if reg.is_wide() {
        Ok(
            s.with_overflow(s.overflow || size_of(sum) >= SIGN_BIT).with_register(
                reg,
                sum_word(sum),
            ),
        )
    } else if size_of(sum) >= 0x1000 {
        Err(ErrorKind::UndefinedOverflow)
    } else {
        Ok(s.with_register(reg, sum_word(sum)))
    }
}

/// The machine after `A` is multiplied by the word `v`: the product of the
/// two magnitudes is a number of ten bytes, of which `A` gets the left five
/// and `X` the right five; both get the sign of the product, which is
/// negative if exactly one of the factors is.
pub open spec fn multiplied(s: MachineState, v: u32) -> MachineState {
    let negative = is_negative(s.a) != is_negative(v);
    let product = magnitude(s.a) * magnitude(v);
    MachineState {
        a: word_of(negative, drop_bytes(product, 5)),
        x: word_of(negative, low_bytes(product, 5)),
        ..s
    }
}

/// The machine after the ten bytes of `A` and `X` are divided by the word
/// `v`.  Where `v` is zero or the quotient needs more than five bytes, the
/// overflow toggle is turned on and the registers stay.  Otherwise `A` gets
/// the quotient, negative if exactly one of `A` and `v` was, and `X` the
/// remainder under the sign that `A` had.
pub open spec fn divided(s: MachineState, v: u32) -> MachineState {
    let dividend = pair_of(s.a, s.x);
    let divisor = magnitude(v);
    if divisor == 0 || dividend / divisor >= SIGN_BIT {
        s.with_overflow(true)
    } else {
        MachineState {
            a: word_of(is_negative(s.a) != is_negative(v), dividend / divisor),
            x: word_of(is_negative(s.a), dividend % divisor),
            ..s
        }
    }
}

/// What an arithmetic operation on the word `v` does.
pub open spec fn arithmetic_on(s: MachineState, op_type: ArithOpType, v: u32) -> Result<
    MachineState,
    ErrorKind,
> {
    match op_type {
        ArithOpType::Addition => add_to_register(s, Register::RegA, v),
        ArithOpType::Subtraction => add_to_register(s, Register::RegA, negated(v)),
        ArithOpType::Multiplication => Ok(multiplied(s, v)),
        ArithOpType::Division => Ok(divided(s, v)),
    }
}

/// What an arithmetic instruction does: it takes the field of the memory
/// word at the effective address and works on that.
pub open spec fn arithmetic_model(s: MachineState, op: ArithOp) -> Result<MachineState, ErrorKind> {
    match effective_address(s, op.address, op.index_spec) {
        Err(kind) => Err(kind),
        Ok(address) => match memory_read(s, address) {
            Err(kind) => Err(kind),
            Ok(contents) => match field_read(contents, op.field) {
                Err(kind) => Err(kind),
                Ok(v) => arithmetic_on(s, op.op_type, v),
            },
        },
    }
}

impl MixMachine {
    /// Carries out an arithmetic instruction.
    pub fn execute_arithmetic_op(&mut self, op: &ArithOp) -> (r: Result<(), MixMachineErr>)
        ensures
            old(self)@.wf(),
            final(self)@.wf(),
            follows(old(self)@, final(self)@, r, arithmetic_model(old(self)@, *op)),
    {
        let effective_address: u16 = match self.compute_effective_address(
            op.address,
            op.index_spec,
        ) {
            Ok(address) => address,
            Err(e) => {
                return Err(e);
            },
        };
        let contents: u32 = match self.peek_memory(effective_address) {
            Ok(contents) => contents,
            Err(e) => {
                return Err(e);
            },
        };
        let v: u32 = match MixMachine::truncate_to_field(contents, op.field) {
            Ok(v) => v,
            Err(e) => {
                return Err(e);
            },
        };
        proof {
            lemma_field_of_is_word(contents, op.field);
        }
        match op.op_type {
            ArithOpType::Addition => self.execute_addition(v),
            ArithOpType::Subtraction => self.execute_subtraction(v),
            ArithOpType::Multiplication => self.execute_multiplication(v),
            ArithOpType::Division => self.execute_division(v),
        }
    }

    /// Subtracts the word `v` from `A`.
    pub fn execute_subtraction(&mut self, v: u32) -> (r: Result<(), MixMachineErr>)
        ensures
            old(self)@.wf(),
            final(self)@.wf(),
            follows(
                old(self)@,
                final(self)@,
                r,
                add_to_register(old(self)@, Register::RegA, negated(v)),
            ),
    {
        self.execute_addition(MixMachine::negate_value(v))
    }

    /// Adds the word `v` to `A`.
    pub fn execute_addition(&mut self, v: u32) -> (r: Result<(), MixMachineErr>)
        ensures
            old(self)@.wf(),
            final(self)@.wf(),
            follows(old(self)@, final(self)@, r, add_to_register(old(self)@, Register::RegA, v)),
    {
        self.execute_addition_general(Register::RegA, v)
    }

    /// Adds the word `v` to a register.
    pub fn execute_addition_general(&mut self, target_reg: Register, v: u32) -> (r: Result<
        (),
        MixMachineErr,
    >)
        ensures
            old(self)@.wf(),
            final(self)@.wf(),
            follows(old(self)@, final(self)@, r, add_to_register(old(self)@, target_reg, v)),
    {
        let a: u32 = self.register(target_reg);
        let signed_a: i32 = MixMachine::reg32_to_i32(a);
        let signed_v: i32 = MixMachine::reg32_to_i32(v);
        let signed_result: i32 = signed_a + signed_v;
        let size: u32 = if signed_result >= 0 {
            signed_result as u32
        } else {
            (-signed_result) as u32
        };
        match target_reg {
            Register::RegA | Register::RegX => {
                if size >= SIGN_BIT {
                    let _ = self.set_overflow_toggle();
                }
            },
            _ => {
                if size >= 0x1000 {
                    return Err(
                        MixMachineErr {
                            kind: ErrorKind::UndefinedOverflow,
                            message: String::from_str(
                                "Overflow on inc or dec resulted in undefined behaviour!",
                            ),
                        },
                    );
                }
            },
        }
        let bytes: u32 = size % SIGN_BIT;
        let result: u32 = if signed_result >= 0 {
            bytes
        } else {
            bytes + SIGN_BIT
        };
        proof {
            lemma_word_of(signed_result < 0, bytes as nat);
        }
        self.poke_register(target_reg, result)
    }

    /// Multiplies `A` by the word `v`, the product going to `A` and `X`.
    pub fn execute_multiplication(&mut self, v: u32) -> (r: Result<(), MixMachineErr>)
        ensures
            old(self)@.wf(),
            final(self)@.wf(),
            follows(old(self)@, final(self)@, r, Ok(multiplied(old(self)@, v))),
    {
        let a: u32 = self.register(Register::RegA);
        let negative: bool = ((a / SIGN_BIT) % 2 == 1) != ((v / SIGN_BIT) % 2 == 1);
        let sign_bit: u32 = if negative {
            SIGN_BIT
        } else {
            0
        };
        let left: u64 = (a % SIGN_BIT) as u64;
        let right: u64 = (v % SIGN_BIT) as u64;
        assert(left * right <= 0x3FFF_FFFF * 0x3FFF_FFFF) by (nonlinear_arith)
            requires
                left <= 0x3FFF_FFFF,
                right <= 0x3FFF_FFFF,
        ;
        let product_magnitude: u64 = left * right;
        let lower_part_of_result: u32 = sign_bit + (product_magnitude % (SIGN_BIT as u64)) as u32;
        let upper_part_of_result: u32 = sign_bit + (product_magnitude / (SIGN_BIT as u64)) as u32;
        proof {
            lemma_word_of(negative, (product_magnitude % (SIGN_BIT as u64)) as nat);
            lemma_word_of(negative, (product_magnitude / (SIGN_BIT as u64)) as nat);
        }
        let _ = self.poke_register(Register::RegX, lower_part_of_result);
        self.poke_register(Register::RegA, upper_part_of_result)
    }

    /// Divides `A` and `X` by the word `v`, the quotient going to `A` and
    /// the remainder to `X`.
    pub fn execute_division(&mut self, v: u32) -> (r: Result<(), MixMachineErr>)
        ensures
            old(self)@.wf(),
            final(self)@.wf(),
            follows(old(self)@, final(self)@, r, Ok(divided(old(self)@, v))),
    {
        let a: u32 = self.register(Register::RegA);
        let x: u32 = self.register(Register::RegX);
        let a_negative: bool = (a / SIGN_BIT) % 2 == 1;
        let v_negative: bool = (v / SIGN_BIT) % 2 == 1;
        let v_magnitude: u64 = (v % SIGN_BIT) as u64;
        let dividend_magnitude: u64 = (a % SIGN_BIT) as u64 * (SIGN_BIT as u64) + (x
            % SIGN_BIT) as u64;
        if v_magnitude == 0 {
            return self.set_overflow_toggle();
        }
        let quotient_large: u64 = dividend_magnitude / v_magnitude;
        if quotient_large >= SIGN_BIT as u64 {
            self.set_overflow_toggle()
        } else {
            let rest: u64 = dividend_magnitude % v_magnitude;
            let quotient: u32 = (if a_negative != v_negative {
                SIGN_BIT
            } else {
                0
            }) + quotient_large as u32;
            let remainder: u32 = (if a_negative {
                SIGN_BIT
            } else {
                0
            }) + rest as u32;
            proof {
                lemma_word_of(a_negative != v_negative, quotient_large as nat);
                lemma_word_of(a_negative, rest as nat);
            }
            let _ = self.poke_register(Register::RegA, quotient);
            self.poke_register(Register::RegX, remainder)
        }
    }
}

/// After a multiplication `A` and `X` are words that spell the product of
/// the two magnitudes between them, and both carry the sign of the product,
/// also where the half that one of them holds is zero.
pub proof fn law_product_signs(s: MachineState, v: u32)
    requires
        s.wf(),
    ensures
        is_word(multiplied(s, v).a),
        is_word(multiplied(s, v).x),
        pair_of(multiplied(s, v).a, multiplied(s, v).x) == magnitude(s.a) * magnitude(v),
        is_negative(multiplied(s, v).a) == (is_negative(s.a) != is_negative(v)),
        is_negative(multiplied(s, v).x) == (is_negative(s.a) != is_negative(v)),
{
    let left = magnitude(s.a);
    let right = magnitude(v);
    let product = left * right;
    assert(product <= 0x3FFF_FFFF * 0x3FFF_FFFF) by (nonlinear_arith)
        requires
            product == left * right,
            left <= 0x3FFF_FFFF,
            right <= 0x3FFF_FFFF,
    ;
    let negative = is_negative(s.a) != is_negative(v);
    lemma_word_of(negative, drop_bytes(product, 5));
    lemma_word_of(negative, low_bytes(product, 5));
}

/// An addition to `A` or `X` whose sum fits in five bytes leaves the sum
/// and does not touch the overflow toggle.  One whose sum does not fit
/// turns the toggle on and leaves, under the sign of the sum, what the sum
/// is beyond `64^5`: the largest number plus one leaves `+0`.
pub proof fn law_sum_carries_out(s: MachineState, reg: Register, v: u32)
    requires
        s.wf(),
        reg.is_wide(),
    ensures
        add_to_register(s, reg, v) is Ok,
        is_word(add_to_register(s, reg, v)->Ok_0.register(reg)),
        size_of(signed_value(s.register(reg)) + signed_value(v)) < SIGN_BIT ==> {
            &&& signed_value(add_to_register(s, reg, v)->Ok_0.register(reg)) == signed_value(
                s.register(reg),
            ) + signed_value(v)
            &&& add_to_register(s, reg, v)->Ok_0.overflow == s.overflow
        },
        size_of(signed_value(s.register(reg)) + signed_value(v)) >= SIGN_BIT ==> {
            &&& magnitude(add_to_register(s, reg, v)->Ok_0.register(reg)) == size_of(
                signed_value(s.register(reg)) + signed_value(v),
            ) - SIGN_BIT
            &&& is_negative(add_to_register(s, reg, v)->Ok_0.register(reg)) == (signed_value(
                s.register(reg),
            ) + signed_value(v) < 0)
            &&& add_to_register(s, reg, v)->Ok_0.overflow
        },
{
    let sum = signed_value(s.register(reg)) + signed_value(v);
    lemma_word_of(sum < 0, low_bytes(size_of(sum), 5));
}

} // verus!
