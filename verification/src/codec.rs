//! The word and field codec: the executable forms of the functions of
//! `word`, as associated functions of `MixMachine`.

use vstd::prelude::*;
use vstd::string::StringExecFns;
use crate::mix_machine::{agrees, ErrorKind, MixMachine, MixMachineErr};
use crate::text::push_decimal;
use crate::word::{
    drop_bytes, field_of, fits_narrow, is_word, lemma_field_of_is_word, lemma_with_field_fits,
    low_bytes, magnitude, narrowed, negated, raise_bytes, signed_value, valid_field, widened,
    with_field, word_from_signed, SIGN_BIT,
};

verus! {

/// What taking a field of a word gives: the field, or `InvalidFieldSpec`
/// where the specification is not valid.
pub open spec fn field_read(value: u32, field: u8) -> Result<u32, ErrorKind> {
    if valid_field(field) {
        Ok(field_of(value, field))
    } else {
        Err(ErrorKind::InvalidFieldSpec)
    }
}

/// What embedding into a field of a word gives: the changed word, or
/// `InvalidFieldSpec` where the specification is not valid.
pub open spec fn field_write(source: u32, dest: u32, field: u8) -> Result<u32, ErrorKind> {
    if valid_field(field) {
        Ok(with_field(source, dest, field))
    } else {
        Err(ErrorKind::InvalidFieldSpec)
    }
}

/// What packing a word into an index register gives: the packed form, or
/// `RegisterNarrowingError` where one of its first three bytes is not zero.
pub open spec fn narrow_result(wide: u32) -> Result<u16, ErrorKind> {
    if fits_narrow(wide) {
        Ok(narrowed(wide))
    } else {
        Err(ErrorKind::RegisterNarrowingError)
    }
}

/// A magnitude without its `n` rightmost bytes.
fn without_low_bytes(m: u32, n: u8) -> (r: u32)
    requires
        n <= 5,
        m < SIGN_BIT,
    ensures
        r == drop_bytes(m as nat, n as nat),
{
    if n == 0 {
        m
    } else if n == 1 {
        m / 0x40
    } else if n == 2 {
        m / 0x1000
    } else if n == 3 {
        m / 0x4_0000
    } else if n == 4 {
        m / 0x100_0000
    } else {
        m / 0x4000_0000
    }
}

/// The `n` rightmost bytes of a magnitude.
fn only_low_bytes(m: u32, n: u8) -> (r: u32)
    requires
        n <= 5,
        m < SIGN_BIT,
    ensures
        r == low_bytes(m as nat, n as nat),
{
    if n == 0 {
        0
    } else if n == 1 {
        m % 0x40
    } else if n == 2 {
        m % 0x1000
    } else if n == 3 {
        m % 0x4_0000
    } else if n == 4 {
        m % 0x100_0000
    } else {
        m % 0x4000_0000
    }
}

/// The bytes `m` with `n` zero bytes put to their right, where all of it
/// fits in five bytes.
fn with_low_zeros(m: u32, n: u8) -> (r: u32)
    requires
        n <= 5,
        raise_bytes(m as nat, n as nat) < SIGN_BIT,
    ensures
        r == raise_bytes(m as nat, n as nat),
{
    if n == 0 {
        m
    } else if n == 1 {
        m * 0x40
    } else if n == 2 {
        m * 0x1000
    } else if n == 3 {
        m * 0x4_0000
    } else if n == 4 {
        m * 0x100_0000
    } else {
        m * 0x4000_0000
    }
}

/// The error for a field specification that is not valid, saying which of
/// the three rules it breaks.
fn invalid_field(field: u8) -> (e: MixMachineErr)
    requires
        !valid_field(field),
    ensures
        e.kind == ErrorKind::InvalidFieldSpec,
{
    let left: u8 = field / 8;
    let right: u8 = field % 8;
    let mut message = String::from_str("Field specification ");
    push_decimal(&mut message, field as u32);
    if right > 5 {
        message.append(" has R=");
        push_decimal(&mut message, right as u32);
        message.append(". Must have R<=5.");
    } else if left > 5 {
        message.append(" has L=");
        push_decimal(&mut message, left as u32);
        message.append(". Must have L<=5.");
    } else {
        message.append(" has L=");
        push_decimal(&mut message, left as u32);
        message.append(", R=");
        push_decimal(&mut message, right as u32);
        message.append(". Must have L<=R.");
    }
    MixMachineErr { kind: ErrorKind::InvalidFieldSpec, message }
}

impl MixMachine {
    /// Flips the sign of a word.
    pub fn negate_value(value: u32) -> (r: u32)
        ensures
            r == negated(value),
    {
        let r: u32 = value ^ SIGN_BIT;
        assert(value ^ 0x4000_0000u32 == if (value / 0x4000_0000u32) % 2 == 1 {
            (value - 0x4000_0000u32) as u32
        } else {
            (value + 0x4000_0000u32) as u32
        }) by (bit_vector);
        r
    }

    /// The field `field` of `value`.
    pub fn truncate_to_field(value: u32, field: u8) -> (r: Result<u32, MixMachineErr>)
        ensures
            agrees(r, field_read(value, field)),
    {
        let left: u8 = field / 8;
        let right: u8 = field % 8;
        if right > 5 || left > 5 || left > right {
            Err(invalid_field(field))
        } else {
            proof {
                lemma_field_of_is_word(value, field);
            }
            let first: u8 = if left == 0 {
                1
            } else {
                left
            };
            let sign: u32 = if left == 0 && (value / SIGN_BIT) % 2 == 1 {
                SIGN_BIT
            } else {
                0
            };
            let bytes: u32 = only_low_bytes(
                without_low_bytes(value % SIGN_BIT, 5 - right),
                right + 1 - first,
            );
            Ok(sign + bytes)
        }
    }

    /// `value_to_overwrite` with its field `field` replaced by the rightmost
    /// bytes, and where the field takes it in the sign, of `value_to_write`.
    pub fn embed_from_field(value_to_write: u32, value_to_overwrite: u32, field: u8) -> (r: Result<
        u32,
        MixMachineErr,
    >)
        ensures
            agrees(r, field_write(value_to_write, value_to_overwrite, field)),
    {
        let left: u8 = field / 8;
        let right: u8 = field % 8;
        if right > 5 || left > 5 || left > right {
            Err(invalid_field(field))
        } else {
            let first: u8 = if left == 0 {
                1
            } else {
                left
            };
            let signed_from: u32 = if left == 0 {
                value_to_write
            } else {
                value_to_overwrite
            };
            let sign: u32 = if (signed_from / SIGN_BIT) % 2 == 1 {
                SIGN_BIT
            } else {
                0
            };
            let after: u8 = 5 - right;
            let count: u8 = right + 1 - first;
            let new_bytes: u32 = value_to_write % SIGN_BIT;
            let old_bytes: u32 = value_to_overwrite % SIGN_BIT;
            proof {
                lemma_with_field_fits(new_bytes as nat, old_bytes as nat, field);
            }
            let before: u32 = with_low_zeros(
                without_low_bytes(old_bytes, after + count),
                after + count,
            );
            let inside: u32 = with_low_zeros(only_low_bytes(new_bytes, count), after);
            let behind: u32 = only_low_bytes(old_bytes, after);
            Ok(sign + before + inside + behind)
        }
    }

    /// Packs a word into the thirteen bits of an index register.
    pub fn reg32_to_reg16(reg32: u32) -> (r: Result<u16, MixMachineErr>)
        ensures
            agrees(r, narrow_result(reg32)),
    {
        if (reg32 / 0x1000) % 0x4_0000 != 0 {
            Err(
                MixMachineErr {
                    kind: ErrorKind::RegisterNarrowingError,
                    message: String::from_str(
                        "Attempt to poke 16 bit register with 32-bit value were bytes 1, 2 and 3 are not all zero.",
                    ),
                },
            )
        } else {
            Ok((reg32 / 0x4_0000 + reg32 % 0x1000) as u16)
        }
    }

    /// The word that a packed index register stands for.
    pub fn reg16_to_reg32(reg16: u16) -> (r: u32)
        ensures
            r == widened(reg16),
    {
        let low: u32 = (reg16 % 0x1000) as u32;
        let sign: u32 = ((reg16 / 0x1000) % 2) as u32;
        low + sign * SIGN_BIT
    }

    /// The integer that a word stands for.
    pub fn reg32_to_i32(reg32: u32) -> (r: i32)
        ensures
            r == signed_value(reg32),
    {
        let size: i32 = (reg32 % SIGN_BIT) as i32;
        if (reg32 / SIGN_BIT) % 2 == 0 {
            size
        } else {
            -size
        }
    }

    /// The word for an integer.  A magnitude that thirty bits cannot hold
    /// runs over into the sign bit and beyond.
    pub fn i32_to_reg32(value: i32) -> (r: u32)
        ensures
            r == word_from_signed(value as int),
            -(SIGN_BIT as int) < value < SIGN_BIT as int ==> is_word(r) && signed_value(r)
                == value,
    {
        if value >= 0 {
            value as u32
        } else {
            let wide: i64 = value as i64;
            (SIGN_BIT as i64 - wide) as u32
        }
    }
}

} // verus!
