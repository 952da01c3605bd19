//! Registers set out for reading: the sign and each byte in decimal, as in
//! `[+|50|40|30|20|10]`.

use vstd::prelude::*;
use vstd::string::StringExecFns;
use crate::text::{decimal, push_decimal};
use crate::word::{byte_of, is_negative, magnitude, widened, SIGN_BIT};

verus! {

/// The character for a sign.
pub open spec fn sign_char(negative: bool) -> char {
    if negative {
        '-'
    } else {
        '+'
    }
}

/// A bar and the decimal form of a byte.
pub open spec fn displayed_byte(byte: nat) -> Seq<char> {
    seq!['|'] + decimal(byte)
}

/// A word set out for reading: an opening bracket, the sign, the five
/// bytes in decimal with a bar before each, a closing bracket.
pub open spec fn displayed_word(w: u32) -> Seq<char> {
    seq!['[', sign_char(is_negative(w))] + displayed_byte(byte_of(w, 1)) + displayed_byte(
        byte_of(w, 2),
    ) + displayed_byte(byte_of(w, 3)) + displayed_byte(byte_of(w, 4)) + displayed_byte(
        byte_of(w, 5),
    ) + seq![']']
}

/// A packed index register set out for reading: the sign and the two bytes
/// of the word it stands for.
pub open spec fn displayed_narrow(r: u16) -> Seq<char> {
    seq!['[', sign_char(is_negative(widened(r)))] + displayed_byte(byte_of(widened(r), 4))
        + displayed_byte(byte_of(widened(r), 5)) + seq![']']
}

/// Starts a display: the bracket and the sign.
fn opening(negative: bool) -> (s: String)
    ensures
        s@ == seq!['[', sign_char(negative)],
{
    proof {
        reveal_strlit("[-");
        reveal_strlit("[+");
    }
    let s = if negative {
        String::from_str("[-")
    } else {
        String::from_str("[+")
    };
    assert(s@ =~= seq!['[', sign_char(negative)]);
    s
}

/// Appends a bar and a byte in decimal.
fn push_byte(out: &mut String, byte: u32)
    ensures
        final(out)@ == old(out)@ + displayed_byte(byte as nat),
{
    proof {
        reveal_strlit("|");
    }
    out.append("|");
    push_decimal(out, byte);
    assert(old(out)@ + "|"@ + decimal(byte as nat) =~= old(out)@ + displayed_byte(byte as nat));
}

/// Ends a display with the closing bracket.
fn close(out: &mut String)
    ensures
        final(out)@ == old(out)@ + seq![']'],
{
    proof {
        reveal_strlit("]");
    }
    out.append("]");
    assert("]"@ =~= seq![']']);
}

/// Sets out a word for reading.
pub fn display_reg32(reg32: u32) -> (s: String)
    ensures
        s@ == displayed_word(reg32),
{
    let bytes: u32 = reg32 % SIGN_BIT;
    let mut s = opening((reg32 / SIGN_BIT) % 2 == 1);
    push_byte(&mut s, (bytes / 0x100_0000) % 0x40);
    push_byte(&mut s, (bytes / 0x4_0000) % 0x40);
    push_byte(&mut s, (bytes / 0x1000) % 0x40);
    push_byte(&mut s, (bytes / 0x40) % 0x40);
    push_byte(&mut s, bytes % 0x40);
    close(&mut s);
    s
}

/// The two bytes of a packed register are those of its twelve low bits.
proof fn lemma_packed_bytes(r: u16)
    by (bit_vector)
    ensures
        ((r % 0x1000) / 0x40) % 0x40 == (r / 0x40) % 0x40,
        (r % 0x1000) % 0x40 == r % 0x40,
        r % 0x1000 < 0x1000,
{
}

/// The sign and the two bytes of the word a packed register stands for,
/// read off the packed form.
proof fn lemma_narrow_bytes(r: u16)
    ensures
        is_negative(widened(r)) == ((r / 0x1000) % 2 == 1),
        byte_of(widened(r), 4) == (r / 0x40) % 0x40,
        byte_of(widened(r), 5) == r % 0x40,
{
    lemma_packed_bytes(r);
    let low: u16 = (r % 0x1000) as u16;
    let w: u32 = widened(r);
    let sign: int = (r as int / 0x1000) % 2;
    assert(w == low + sign * 0x4000_0000);
    assert(0 <= sign <= 1);
    assert(magnitude(w) == low) by {
        if sign == 1 {
            assert(w == low + 0x4000_0000);
        } else {
            assert(w == low);
        }
    }
    assert(is_negative(w) == (sign == 1)) by {
        if sign == 1 {
            assert(w == low + 0x4000_0000);
        } else {
            assert(w == low);
        }
    }
    assert(byte_of(w, 4) == (low as nat / 0x40) % 0x40);
    assert(byte_of(w, 5) == low as nat % 0x40);
}

/// Sets out a packed index register for reading.
pub fn display_reg16(reg16: u16) -> (s: String)
    ensures
        s@ == displayed_narrow(reg16),
{
    proof {
        lemma_narrow_bytes(reg16);
    }
    let mut s = opening((reg16 / 0x1000) % 2 == 1);
    push_byte(&mut s, ((reg16 / 0x40) % 0x40) as u32);
    push_byte(&mut s, (reg16 % 0x40) as u32);
    close(&mut s);
    s
}

} // verus!
