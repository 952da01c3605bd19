//! Shifts of `A`, and of `A` and `X` as one register of ten bytes.

use vstd::prelude::*;
use crate::address::effective_address;
use crate::mix_machine::{
    follows, ErrorKind, MachineState, MixMachine, MixMachineErr, Register,
};
use crate::mix_operations::ShiftOp;
use crate::word::{
    drop_bytes, is_negative, lemma_word_of, lemma_word_parts, low_bytes, magnitude, pair_of,
    raise_bytes, word_of, PAIR_LIMIT, SIGN_BIT,
};

verus! {

/// `value`, a number of `width` bytes, shifted left by `distance` bytes:
/// bytes leave on the left and zeros enter on the right.  A shift over the
/// whole width or more leaves nothing.
pub open spec fn shifted_left(value: nat, distance: nat, width: nat) -> nat
    recommends
        width <= 10,
{
    if distance >= width {
        0
    } else {
        low_bytes(raise_bytes(value, distance), width)
    }
}

/// `value`, a number of `width` bytes, shifted right by `distance` bytes:
/// bytes leave on the right and zeros enter on the left.  A shift over the
/// whole width or more leaves nothing.
pub open spec fn shifted_right(value: nat, distance: nat, width: nat) -> nat
    recommends
        width <= 10,
{
    if distance >= width {
        0
    } else {
        drop_bytes(value, distance)
    }
}

/// `value`, a number of ten bytes, rotated left by `distance` bytes, for a
/// distance below ten: the bytes that leave on the left enter on the right.
pub open spec fn rotated_left(value: nat, distance: nat) -> nat
    recommends
        distance < 10,
{
    shifted_left(value, distance, 10) + shifted_right(value, (10 - distance) as nat, 10)
}

/// The distance to the left that a circulating shift covers: the distance
/// modulo ten for a left shift, its complement to ten for a right shift.
pub open spec fn rotation(shift_left: bool, distance: nat) -> nat {
    if shift_left {
        distance % 10
    } else {
        ((10 - distance % 10) % 10) as nat
    }
}

/// The ten bytes of `A` and `X` after a shift over `distance` bytes that
/// takes in both.
pub open spec fn shifted_pair(op: ShiftOp, pair: nat, distance: nat) -> nat {
    if op.circulating_shift {
        rotated_left(pair, rotation(op.shift_left, distance))
    } else if op.shift_left {
        shifted_left(pair, distance, 10)
    } else {
        shifted_right(pair, distance, 10)
    }
}

/// The machine after a shift over `distance` bytes.  The signs of `A` and
/// `X` stay.  A shift that neither circulates nor uses `X` shifts the five
/// bytes of `A` and leaves `X` alone; any other shifts or rotates the ten
/// bytes of both.
pub open spec fn shifted(s: MachineState, op: ShiftOp, distance: nat) -> MachineState {
    if op.circulating_shift || op.use_reg_x {
        let pair = shifted_pair(op, pair_of(s.a, s.x), distance);
        MachineState {
            a: word_of(is_negative(s.a), drop_bytes(pair, 5)),
            x: word_of(is_negative(s.x), low_bytes(pair, 5)),
            ..s
        }
    } else {
        MachineState {
            a: word_of(
                is_negative(s.a),
                if op.shift_left {
                    shifted_left(magnitude(s.a), distance, 5)
                } else {
                    shifted_right(magnitude(s.a), distance, 5)
                },
            ),
            ..s
        }
    }
}

/// What a shift does: it shifts by the effective address, or fails where
/// that address is wrong.
pub open spec fn shift_model(s: MachineState, op: ShiftOp) -> Result<MachineState, ErrorKind> {
    match effective_address(s, op.address, op.index_spec) {
        Ok(distance) => Ok(shifted(s, op, distance as nat)),
        Err(kind) => Err(kind),
    }
}

/// The bound of a number of `width` bytes, for the two widths in use.
pub open spec fn limit_of(width: nat) -> nat {
    if width == 5 {
        SIGN_BIT as nat
    } else {
        PAIR_LIMIT as nat
    }
}

/// Shifts a number of five or ten bytes to the left.
fn shift_left(value: u64, distance: u16, width: u16) -> (r: u64)
    requires
        width == 5 || width == 10,
        value < limit_of(width as nat),
    ensures
        r == shifted_left(value as nat, distance as nat, width as nat),
        r < limit_of(width as nat),
{
    if distance >= width {
        return 0;
    }
    let wide: u128 = value as u128;
    let raised: u128 = if distance == 0 {
        wide
    } else if distance == 1 {
        wide * 0x40
    } else if distance == 2 {
        wide * 0x1000
    } else if distance == 3 {
        wide * 0x4_0000
    } else if distance == 4 {
        wide * 0x100_0000
    } else if distance == 5 {
        wide * 0x4000_0000
    } else if distance == 6 {
        wide * 0x10_0000_0000
    } else if distance == 7 {
        wide * 0x400_0000_0000
    } else if distance == 8 {
        wide * 0x1_0000_0000_0000
    } else {
        wide * 0x40_0000_0000_0000
    };
    if width == 5 {
        (raised % 0x4000_0000) as u64
    } else {
        (raised % 0x1000_0000_0000_0000) as u64
    }
}

/// Shifts a number of five or ten bytes to the right.
fn shift_right(value: u64, distance: u16, width: u16) -> (r: u64)
    requires
        width == 5 || width == 10,
        value < limit_of(width as nat),
    ensures
        r == shifted_right(value as nat, distance as nat, width as nat),
        r < limit_of(width as nat),
{
    if distance >= width {
        0
    } else if distance == 0 {
        value
    } else if distance == 1 {
        value / 0x40
    } else if distance == 2 {
        value / 0x1000
    } else if distance == 3 {
        value / 0x4_0000
    } else if distance == 4 {
        value / 0x100_0000
    } else if distance == 5 {
        value / 0x4000_0000
    } else if distance == 6 {
        value / 0x10_0000_0000
    } else if distance == 7 {
        value / 0x400_0000_0000
    } else if distance == 8 {
        value / 0x1_0000_0000_0000
    } else {
        value / 0x40_0000_0000_0000
    }
}

/// Where `left * right` is `64^10`, multiplying a number of ten bytes by
/// `left` and keeping ten bytes, then adding what dividing it by `right`
/// leaves, gives a number of ten bytes.
proof fn lemma_turned(pair: nat, left: nat, right: nat)
    requires
        pair < PAIR_LIMIT,
        left * right == PAIR_LIMIT,
        left > 0,
        right > 0,
    ensures
        (pair * left) % (PAIR_LIMIT as nat) + pair / right < PAIR_LIMIT,
{
    let p = left as int;
    let q = right as int;
    let hi = pair as int / q;
    let lo = pair as int % q;
    vstd::arithmetic::div_mod::lemma_fundamental_div_mod(pair as int, q);
    assert(hi < p) by (nonlinear_arith)
        requires
            pair < p * q,
            pair == q * hi + lo,
            0 <= lo,
            q > 0,
            p > 0,
    ;
    assert(pair * p == (p * q) * hi + lo * p) by (nonlinear_arith)
        requires
            pair == q * hi + lo,
    ;
    assert(0 <= lo * p <= p * q - p) by (nonlinear_arith)
        requires
            0 <= lo < q,
            p > 0,
    ;
    vstd::arithmetic::div_mod::lemma_fundamental_div_mod_converse(
        pair * p,
        p * q,
        hi,
        lo * p,
    );
}

/// A rotation of ten bytes is a number of ten bytes.
pub proof fn lemma_rotated_fits(pair: nat, turn: nat)
    requires
        pair < PAIR_LIMIT,
        turn < 10,
    ensures
        rotated_left(pair, turn) < PAIR_LIMIT,
{
    if turn == 1 {
        lemma_turned(pair, 0x40, 0x40_0000_0000_0000);
    } else if turn == 2 {
        lemma_turned(pair, 0x1000, 0x1_0000_0000_0000);
    } else if turn == 3 {
        lemma_turned(pair, 0x4_0000, 0x400_0000_0000);
    } else if turn == 4 {
        lemma_turned(pair, 0x100_0000, 0x10_0000_0000);
    } else if turn == 5 {
        lemma_turned(pair, 0x4000_0000, 0x4000_0000);
    } else if turn == 6 {
        lemma_turned(pair, 0x10_0000_0000, 0x100_0000);
    } else if turn == 7 {
        lemma_turned(pair, 0x400_0000_0000, 0x4_0000);
    } else if turn == 8 {
        lemma_turned(pair, 0x1_0000_0000_0000, 0x1000);
    } else if turn == 9 {
        lemma_turned(pair, 0x40_0000_0000_0000, 0x40);
    }
}

/// Shifts or rotates the ten bytes of `A` and `X`.
fn shift_pair(op: &ShiftOp, pair: u64, distance: u16) -> (moved: u64)
    requires
        pair < PAIR_LIMIT,
    ensures
        moved == shifted_pair(*op, pair as nat, distance as nat),
        moved < PAIR_LIMIT,
{
    if op.circulating_shift {
        let turn: u16 = if op.shift_left {
            distance % 10
        } else {
            (10 - distance % 10) % 10
        };
        proof {
            lemma_rotated_fits(pair as nat, turn as nat);
        }
        shift_left(pair, turn, 10) + shift_right(pair, 10 - turn, 10)
    } else if op.shift_left {
        shift_left(pair, distance, 10)
    } else {
        shift_right(pair, distance, 10)
    }
}

impl MixMachine {
    /// Carries out a shift.
    pub fn execute_shift_op(&mut self, op: &ShiftOp) -> (r: Result<(), MixMachineErr>)
        ensures
            old(self)@.wf(),
            final(self)@.wf(),
            follows(old(self)@, final(self)@, r, shift_model(old(self)@, *op)),
    {
        let distance: u16 = match self.compute_effective_address(op.address, op.index_spec) {
            Ok(distance) => distance,
            Err(e) => {
                return Err(e);
            },
        };
        let reg_a: u32 = self.register(Register::RegA);
        let reg_x: u32 = self.register(Register::RegX);
        proof {
            lemma_word_parts(reg_a);
            lemma_word_parts(reg_x);
        }
        let sign_a: u32 = reg_a - reg_a % SIGN_BIT;
        let sign_x: u32 = reg_x - reg_x % SIGN_BIT;
        let bytes_a: u64 = (reg_a % SIGN_BIT) as u64;
        let bytes_x: u64 = (reg_x % SIGN_BIT) as u64;
        if op.circulating_shift || op.use_reg_x {
            let moved: u64 = shift_pair(op, bytes_a * 0x4000_0000 + bytes_x, distance);
            let new_a: u32 = sign_a + (moved / 0x4000_0000) as u32;
            let new_x: u32 = sign_x + (moved % 0x4000_0000) as u32;
            proof {
                lemma_word_of(is_negative(reg_a), drop_bytes(moved as nat, 5));
                lemma_word_of(is_negative(reg_x), low_bytes(moved as nat, 5));
            }
            let _ = self.poke_register(Register::RegX, new_x);
            let _ = self.poke_register(Register::RegA, new_a);
        } else {
            let moved: u64 = if op.shift_left {
                shift_left(bytes_a, distance, 5)
            } else {
                shift_right(bytes_a, distance, 5)
            };
            let new_a: u32 = sign_a + moved as u32;
            proof {
                lemma_word_of(is_negative(reg_a), moved as nat);
            }
            let _ = self.poke_register(Register::RegA, new_a);
        }
        Ok(())
    }
}

/// Ten bytes rotated by five are their two halves in the other order, and
/// ten bytes rotated by nothing are themselves.
proof fn lemma_rotated_halves(a: nat, x: nat)
    requires
        a < SIGN_BIT,
        x < SIGN_BIT,
    ensures
        rotated_left(a * 0x4000_0000 + x, 5) == x * 0x4000_0000 + a,
        rotated_left(a * 0x4000_0000 + x, 0) == a * 0x4000_0000 + x,
        drop_bytes(a * 0x4000_0000 + x, 5) == a,
        low_bytes(a * 0x4000_0000 + x, 5) == x,
{
    let pair: nat = a * 0x4000_0000 + x;
    let raised: nat = pair * 0x4000_0000;
    assert(raised == a * 0x1000_0000_0000_0000 + x * 0x4000_0000);
    assert(raised % 0x1000_0000_0000_0000 == x * 0x4000_0000);
    assert(pair / 0x4000_0000 == a);
    assert(pair % 0x4000_0000 == x);
    assert(shifted_left(pair, 5, 10) == x * 0x4000_0000);
    assert(shifted_right(pair, 5, 10) == a);
    assert(shifted_left(pair, 0, 10) == pair);
    assert(shifted_right(pair, 10, 10) == 0);
}

/// A circulating shift, to the left or to the right, over a distance that
/// leaves five when divided by ten gives `A` the bytes of `X` and `X` the
/// bytes of `A`, each register keeping its own sign; one over a multiple of
/// ten leaves the machine as it was.
pub proof fn law_circulating_shift_by_five_and_ten(s: MachineState, op: ShiftOp)
    requires
        s.wf(),
        op.circulating_shift,
        effective_address(s, op.address, op.index_spec) is Ok,
    ensures
        effective_address(s, op.address, op.index_spec)->Ok_0 % 10 == 5 ==> shift_model(s, op)
            == Ok::<MachineState, ErrorKind>(
            MachineState {
                a: word_of(is_negative(s.a), magnitude(s.x)),
                x: word_of(is_negative(s.x), magnitude(s.a)),
                ..s
            },
        ),
        effective_address(s, op.address, op.index_spec)->Ok_0 % 10 == 0 ==> shift_model(s, op)
            == Ok::<MachineState, ErrorKind>(s),
{
    let distance = effective_address(s, op.address, op.index_spec)->Ok_0 as nat;
    lemma_word_parts(s.a);
    lemma_word_parts(s.x);
    let a = magnitude(s.a);
    let x = magnitude(s.x);
    let pair = pair_of(s.a, s.x);
    assert(pair == a * 0x4000_0000 + x);
    lemma_rotated_halves(a, x);
    lemma_rotated_halves(x, a);
    if distance % 10 == 5 {
        assert(rotation(op.shift_left, distance) == 5);
        assert(shifted_pair(op, pair, distance) == x * 0x4000_0000 + a);
    }
    if distance % 10 == 0 {
        assert(rotation(op.shift_left, distance) == 0);
        assert(shifted_pair(op, pair, distance) == pair);
    }
}

/// Of the distance of a circulating shift only what is left of it when
/// divided by ten counts.
pub proof fn law_circulating_distance_modulo_ten(s: MachineState, op: ShiftOp, distance: nat)
    requires
        op.circulating_shift,
    ensures
        shifted(s, op, distance) == shifted(s, op, distance % 10),
{
    let reduced = distance % 10;
    assert(reduced % 10 == reduced);
    assert(rotation(op.shift_left, distance) == rotation(op.shift_left, reduced));
}

/// A circulating shift to the right undoes one to the left over the same
/// distance, and one to the left undoes one to the right.
pub proof fn law_circulating_shifts_undo(s: MachineState, op: ShiftOp, back: ShiftOp, distance: nat)
    requires
        s.wf(),
        op.circulating_shift,
        back.circulating_shift,
        back.shift_left != op.shift_left,
    ensures
        shifted(shifted(s, op, distance), back, distance) == s,
{
    lemma_word_parts(s.a);
    lemma_word_parts(s.x);
    let pair = pair_of(s.a, s.x);
    let turn = rotation(op.shift_left, distance);
    let other = rotation(back.shift_left, distance);
    assert(other == (10 - turn) % 10);
    lemma_rotated_fits(pair, turn);
    let turned = rotated_left(pair, turn);
    lemma_word_of(is_negative(s.a), drop_bytes(turned, 5));
    lemma_word_of(is_negative(s.x), low_bytes(turned, 5));
    let mid = shifted(s, op, distance);
    assert(pair_of(mid.a, mid.x) == turned);
    lemma_rotation_undone(pair, turn);
    assert(rotated_left(turned, other) == pair);
}

/// Rotating ten bytes to the left and then by what is left to ten gives
/// them back.
proof fn lemma_rotation_undone(pair: nat, turn: nat)
    requires
        pair < PAIR_LIMIT,
        turn < 10,
    ensures
        rotated_left(rotated_left(pair, turn), ((10 - turn) % 10) as nat) == pair,
{
    if turn == 0 {
    } else if turn == 1 {
        lemma_turned_back(pair, 0x40, 0x40_0000_0000_0000);
    } else if turn == 2 {
        lemma_turned_back(pair, 0x1000, 0x1_0000_0000_0000);
    } else if turn == 3 {
        lemma_turned_back(pair, 0x4_0000, 0x400_0000_0000);
    } else if turn == 4 {
        lemma_turned_back(pair, 0x100_0000, 0x10_0000_0000);
    } else if turn == 5 {
        lemma_turned_back(pair, 0x4000_0000, 0x4000_0000);
    } else if turn == 6 {
        lemma_turned_back(pair, 0x10_0000_0000, 0x100_0000);
    } else if turn == 7 {
        lemma_turned_back(pair, 0x400_0000_0000, 0x4_0000);
    } else if turn == 8 {
        lemma_turned_back(pair, 0x1_0000_0000_0000, 0x1000);
    } else {
        lemma_turned_back(pair, 0x40_0000_0000_0000, 0x40);
    }
}

/// Where `left * right` is `64^10`: turning ten bytes by `left` and then by
/// `right` gives them back.
proof fn lemma_turned_back(pair: nat, left: nat, right: nat)
    requires
        pair < PAIR_LIMIT,
        left * right == PAIR_LIMIT,
        left > 0,
        right > 0,
    ensures
        ({
            let turned = (pair * left) % (PAIR_LIMIT as nat) + pair / right;
            (turned * right) % (PAIR_LIMIT as nat) + turned / left == pair
        }),
{
    let p = left as int;
    let q = right as int;
    let hi = pair as int / q;
    let lo = pair as int % q;
    vstd::arithmetic::div_mod::lemma_fundamental_div_mod(pair as int, q);
    assert(0 <= hi < p) by (nonlinear_arith)
        requires
            0 <= pair < p * q,
            pair == q * hi + lo,
            0 <= lo < q,
            q > 0,
            p > 0,
    ;
    assert(pair * p == (p * q) * hi + lo * p) by (nonlinear_arith)
        requires
            pair == q * hi + lo,
    ;
    assert(0 <= lo * p <= p * q - p) by (nonlinear_arith)
        requires
            0 <= lo < q,
            p > 0,
    ;
    vstd::arithmetic::div_mod::lemma_fundamental_div_mod_converse(
        pair * p,
        p * q,
        hi,
        lo * p,
    );
    let turned: int = lo * p + hi;
    assert((pair * left) % (PAIR_LIMIT as nat) + pair / right == turned);
    vstd::arithmetic::div_mod::lemma_fundamental_div_mod_converse(turned, p, lo, hi);
    assert(turned * q == (p * q) * lo + hi * q) by (nonlinear_arith)
        requires
            turned == lo * p + hi,
    ;
    assert(0 <= hi * q <= p * q - q) by (nonlinear_arith)
        requires
            0 <= hi < p,
            q > 0,
    ;
    vstd::arithmetic::div_mod::lemma_fundamental_div_mod_converse(
        turned * q,
        p * q,
        lo,
        hi * q,
    );
}

} // verus!
