//! The sign-and-magnitude word of the MIX computer as a mathematical object.
//!
//! A word is held in a `u32`: bit 30 is the sign, bits 0 to 29 hold five
//! six-bit bytes, byte 1 being the most significant.  The magnitude of a word
//! is the number those five bytes spell in base 64.  `+0` and `-0` are two
//! different words.
//!
//! Everything here is specification: the functions say what a field of a
//! word is, what it means to embed one, and how the thirteen-bit index
//! registers relate to full words.  The executable counterparts live on
//! `MixMachine`.

use vstd::prelude::*;

verus! {

/// The sign bit of a word: bit 30.  Also the number of magnitudes, `64^5`.
pub const SIGN_BIT: u32 = 0x4000_0000;

/// The largest value a word can hold: the sign and all thirty magnitude bits.
pub const MAX_WORD_VALUE: u32 = 0x7FFF_FFFF;

/// The largest value of a packed index register: sign and twelve bits.
pub const MAX_NARROW_VALUE: u16 = 0x1FFF;

/// The number of magnitudes that `A` and `X` hold together, `64^10`.
pub const PAIR_LIMIT: u64 = 0x1000_0000_0000_0000;

/// Whether `w` is a legal word.
pub open spec fn is_word(w: u32) -> bool {
    w <= MAX_WORD_VALUE
}

/// Whether the sign bit of `w` is set.
pub open spec fn is_negative(w: u32) -> bool {
    (w / SIGN_BIT) % 2 == 1
}

/// The number spelled by the five bytes of `w`.
pub open spec fn magnitude(w: u32) -> nat {
    (w % SIGN_BIT) as nat
}

/// The word with the given sign and magnitude.
pub open spec fn word_of(negative: bool, magnitude: nat) -> u32
    recommends
        magnitude < SIGN_BIT,
{
    if negative {
        (SIGN_BIT + magnitude) as u32
    } else {
        magnitude as u32
    }
}

/// The integer a word stands for.  Both zeros stand for `0`.
pub open spec fn signed_value(w: u32) -> int {
    if is_negative(w) {
        -(magnitude(w) as int)
    } else {
        magnitude(w) as int
    }
}

/// The word for an integer: a negative integer sets the sign bit above its
/// absolute value.  The integer `0` gives `+0`.
pub open spec fn word_from_signed(value: int) -> u32 {
    if value >= 0 {
        value as u32
    } else {
        (SIGN_BIT - value) as u32
    }
}

/// The word with the sign of `w` flipped and its bytes kept.
pub open spec fn negated(w: u32) -> u32 {
    if is_negative(w) {
        (w - SIGN_BIT) as u32
    } else {
        (w + SIGN_BIT) as u32
    }
}

/// `m` without its `n` rightmost bytes: `m / 64^n`.
pub open spec fn drop_bytes(m: nat, n: nat) -> nat
    recommends
        n <= 10,
{
    if n == 0 {
        m
    } else if n == 1 {
        m / 0x40
    } else if n == 2 {
        m / 0x1000
    } else if n == 3 {
        m / 0x4_0000
    } else if n == 4 {
        m / 0x100_0000
    } else if n == 5 {
        m / 0x4000_0000
    } else if n == 6 {
        m / 0x10_0000_0000
    } else if n == 7 {
        m / 0x400_0000_0000
    } else if n == 8 {
        m / 0x1_0000_0000_0000
    } else if n == 9 {
        m / 0x40_0000_0000_0000
    } else {
        m / 0x1000_0000_0000_0000
    }
}

/// The `n` rightmost bytes of `m`: `m % 64^n`.
pub open spec fn low_bytes(m: nat, n: nat) -> nat
    recommends
        n <= 10,
{
    if n == 0 {
        0
    } else if n == 1 {
        m % 0x40
    } else if n == 2 {
        m % 0x1000
    } else if n == 3 {
        m % 0x4_0000
    } else if n == 4 {
        m % 0x100_0000
    } else if n == 5 {
        m % 0x4000_0000
    } else if n == 6 {
        m % 0x10_0000_0000
    } else if n == 7 {
        m % 0x400_0000_0000
    } else if n == 8 {
        m % 0x1_0000_0000_0000
    } else if n == 9 {
        m % 0x40_0000_0000_0000
    } else {
        m % 0x1000_0000_0000_0000
    }
}

/// `m` with `n` zero bytes put to its right: `m * 64^n`.
pub open spec fn raise_bytes(m: nat, n: nat) -> nat
    recommends
        n <= 10,
{
    if n == 0 {
        m
    } else if n == 1 {
        m * 0x40
    } else if n == 2 {
        m * 0x1000
    } else if n == 3 {
        m * 0x4_0000
    } else if n == 4 {
        m * 0x100_0000
    } else if n == 5 {
        m * 0x4000_0000
    } else if n == 6 {
        m * 0x10_0000_0000
    } else if n == 7 {
        m * 0x400_0000_0000
    } else if n == 8 {
        m * 0x1_0000_0000_0000
    } else if n == 9 {
        m * 0x40_0000_0000_0000
    } else {
        m * 0x1000_0000_0000_0000
    }
}

/// The ten bytes of `a` and `x` as one number, those of `a` on the left.
pub open spec fn pair_of(a: u32, x: u32) -> nat {
    raise_bytes(magnitude(a), 5) + magnitude(x)
}

/// Byte `k` of `w`, for `k` from 1 (most significant) to 5.
pub open spec fn byte_of(w: u32, k: nat) -> nat
    recommends
        1 <= k <= 5,
{
    low_bytes(drop_bytes(magnitude(w), (5 - k) as nat), 1)
}

/// `L` of a field specification `8 * L + R`.
pub open spec fn field_left(field: u8) -> nat {
    (field / 8) as nat
}

/// `R` of a field specification `8 * L + R`.
pub open spec fn field_right(field: u8) -> nat {
    (field % 8) as nat
}

/// A field specification is valid when `0 <= L <= R <= 5`.
pub open spec fn valid_field(field: u8) -> bool {
    field_left(field) <= field_right(field) <= 5
}

/// Whether the field takes in the sign: `L` is `0`.
pub open spec fn field_has_sign(field: u8) -> bool {
    field_left(field) == 0
}

/// The first byte of the field: `L`, or `1` where `L` is the sign.
pub open spec fn field_first_byte(field: u8) -> nat {
    if field_left(field) == 0 {
        1
    } else {
        field_left(field)
    }
}

/// How many bytes the field holds; none for the field `(0:0)`.
pub open spec fn field_byte_count(field: u8) -> nat
    recommends
        valid_field(field),
{
    (field_right(field) + 1 - field_first_byte(field)) as nat
}

/// How many bytes of a word lie to the right of the field.
pub open spec fn field_bytes_after(field: u8) -> nat
    recommends
        valid_field(field),
{
    (5 - field_right(field)) as nat
}

/// The field `field` of `value`: its bytes `L..=R` right-justified, under the
/// sign of `value` where the field takes in the sign and under `+` otherwise.
pub open spec fn field_of(value: u32, field: u8) -> u32
    recommends
        valid_field(field),
{
    word_of(
        field_has_sign(field) && is_negative(value),
        low_bytes(
            drop_bytes(magnitude(value), field_bytes_after(field)),
            field_byte_count(field),
        ),
    )
}

/// `dest` with its field `field` replaced: bytes `L..=R` of the result are
/// the rightmost bytes of `source`, the other bytes are those of `dest`; the
/// sign is that of `source` where the field takes in the sign and that of
/// `dest` otherwise.
pub open spec fn with_field(source: u32, dest: u32, field: u8) -> u32
    recommends
        valid_field(field),
{
    let after = field_bytes_after(field);
    let count = field_byte_count(field);
    let before = raise_bytes(drop_bytes(magnitude(dest), after + count), after + count);
    let inside = raise_bytes(low_bytes(magnitude(source), count), after);
    let behind = low_bytes(magnitude(dest), after);
    word_of(
        if field_has_sign(field) {
            is_negative(source)
        } else {
            is_negative(dest)
        },
        before + inside + behind,
    )
}

/// Whether bytes 1 to 3 of `w` are zero, so that an index register can hold
/// it.
pub open spec fn fits_narrow(w: u32) -> bool {
    (w / 0x1000) % 0x4_0000 == 0
}

/// Whether `w` is a word that an index register can hold.
pub open spec fn is_narrow_word(w: u32) -> bool {
    is_word(w) && fits_narrow(w)
}

/// The packed form of a word whose bytes 1 to 3 are zero: the sign moves
/// from bit 30 to bit 12.
pub open spec fn narrowed(w: u32) -> u16
    recommends
        fits_narrow(w),
{
    (w / 0x4_0000 + w % 0x1000) as u16
}

/// The word that a packed index register stands for.
pub open spec fn widened(r: u16) -> u32 {
    (r % 0x1000 + ((r / 0x1000) % 2) * SIGN_BIT) as u32
}

/// Whether `r` is a packed index register value: nothing above bit 12.
pub open spec fn is_narrow(r: u16) -> bool {
    r <= MAX_NARROW_VALUE
}

/// A word is its sign bit plus its magnitude.
pub proof fn lemma_word_parts(w: u32)
    requires
        is_word(w),
    ensures
        magnitude(w) < SIGN_BIT,
        is_negative(w) <==> w >= SIGN_BIT,
        w == word_of(is_negative(w), magnitude(w)),
        -(SIGN_BIT as int) < signed_value(w) < SIGN_BIT as int,
{
}

/// `word_of` builds a word with the sign and magnitude it was given.
pub proof fn lemma_word_of(negative: bool, m: nat)
    requires
        m < SIGN_BIT,
    ensures
        is_word(word_of(negative, m)),
        is_negative(word_of(negative, m)) == negative,
        magnitude(word_of(negative, m)) == m,
{
}

/// The field of a word is a word, of the sign and the bytes that `field_of`
/// names.
pub proof fn lemma_field_of_is_word(value: u32, field: u8)
    requires
        valid_field(field),
    ensures
        is_word(field_of(value, field)),
        magnitude(field_of(value, field)) == low_bytes(
            drop_bytes(magnitude(value), field_bytes_after(field)),
            field_byte_count(field),
        ),
        is_negative(field_of(value, field)) == (field_has_sign(field) && is_negative(value)),
{
    let m = low_bytes(
        drop_bytes(magnitude(value), field_bytes_after(field)),
        field_byte_count(field),
    );
    assert(m < SIGN_BIT);
    lemma_word_of(field_has_sign(field) && is_negative(value), m);
}

/// `64^n`.
pub open spec fn pow64(n: nat) -> nat
    decreases n,
{
    if n == 0 {
        1
    } else {
        64 * pow64((n - 1) as nat)
    }
}

/// Powers of 64 multiply as their exponents add.
pub proof fn lemma_pow64_add(a: nat, b: nat)
    ensures
        pow64(a) * pow64(b) == pow64(a + b),
        0 < pow64(a),
    decreases a,
{
    if a == 0 {
        assert(pow64(0) == 1) by {
            reveal_with_fuel(pow64, 1);
        }
    } else {
        lemma_pow64_add((a - 1) as nat, b);
        assert(pow64(a) == 64 * pow64((a - 1) as nat));
        assert(pow64(a + b) == 64 * pow64((a + b - 1) as nat));
        assert((a - 1) as nat + b == (a + b - 1) as nat);
        assert(64 * pow64((a - 1) as nat) * pow64(b) == 64 * (pow64((a - 1) as nat) * pow64(b)))
            by (nonlinear_arith);
    }
}

/// The three operations on bytes are division, remainder and
/// multiplication by a power of 64.
pub proof fn lemma_bytes_as_powers(m: nat, n: nat)
    requires
        n <= 10,
    ensures
        drop_bytes(m, n) == m / pow64(n),
        low_bytes(m, n) == m % pow64(n),
        raise_bytes(m, n) == m * pow64(n),
        0 < pow64(n),
{
    reveal_with_fuel(pow64, 11);
    let p = pow64(n);
    if n == 0 {
        assert(m * p == m * 1) by (nonlinear_arith)
            requires
                p == 1,
        ;
    } else if n == 1 {
        assert(m * p == m * 0x40) by (nonlinear_arith)
            requires
                p == 0x40,
        ;
    } else if n == 2 {
        assert(m * p == m * 0x1000) by (nonlinear_arith)
            requires
                p == 0x1000,
        ;
    } else if n == 3 {
        assert(m * p == m * 0x4_0000) by (nonlinear_arith)
            requires
                p == 0x4_0000,
        ;
    } else if n == 4 {
        assert(m * p == m * 0x100_0000) by (nonlinear_arith)
            requires
                p == 0x100_0000,
        ;
    } else if n == 5 {
        assert(m * p == m * 0x4000_0000) by (nonlinear_arith)
            requires
                p == 0x4000_0000,
        ;
    } else if n == 6 {
        assert(m * p == m * 0x10_0000_0000) by (nonlinear_arith)
            requires
                p == 0x10_0000_0000,
        ;
    } else if n == 7 {
        assert(m * p == m * 0x400_0000_0000) by (nonlinear_arith)
            requires
                p == 0x400_0000_0000,
        ;
    } else if n == 8 {
        assert(m * p == m * 0x1_0000_0000_0000) by (nonlinear_arith)
            requires
                p == 0x1_0000_0000_0000,
        ;
    } else if n == 9 {
        assert(m * p == m * 0x40_0000_0000_0000) by (nonlinear_arith)
            requires
                p == 0x40_0000_0000_0000,
        ;
    } else {
        assert(m * p == m * 0x1000_0000_0000_0000) by (nonlinear_arith)
            requires
                p == 0x1000_0000_0000_0000,
        ;
    }
}

/// A number put together from the part of `d` above a window of `span`
/// units, a value inside the window and the part of `d` below it: it is
/// under the next multiple of the window above `d`, and it is `d` itself
/// where the value inside is the one that `d` has there.
proof fn lemma_window(d: nat, s: nat, unit: nat, span: nat)
    requires
        0 < unit,
        0 < span,
    ensures
        (d / (unit * span)) * (unit * span) + (s % span) * unit + d % unit < (d / (unit * span)
            + 1) * (unit * span),
        (d / (unit * span)) * (unit * span) + ((d / unit) % span) * unit + d % unit == d,
{
    let w = unit * span;
    assert(0 < w) by (nonlinear_arith)
        requires
            w == unit * span,
            0 < unit,
            0 < span,
    ;
    assert((s % span) * unit + d % unit < w) by (nonlinear_arith)
        requires
            w == unit * span,
            0 < unit,
            0 < span,
            s % span < span,
            d % unit < unit,
    ;
    assert((d / w + 1) * w == (d / w) * w + w) by (nonlinear_arith);
    let q = d as int / unit as int;
    vstd::arithmetic::div_mod::lemma_fundamental_div_mod(d as int, unit as int);
    vstd::arithmetic::div_mod::lemma_fundamental_div_mod(q, span as int);
    vstd::arithmetic::div_mod::lemma_div_denominator(d as int, unit as int, span as int);
    assert(d / w == q / span as int);
    assert((q / span as int) * w + (q % span as int) * unit == q * unit) by (nonlinear_arith)
        requires
            w == unit * span,
            q == span * (q / span as int) + q % span as int,
    ;
}

/// The magnitude that `with_field` builds fits in five bytes.
pub proof fn lemma_with_field_fits(source: nat, dest: nat, field: u8)
    requires
        valid_field(field),
        dest < SIGN_BIT,
    ensures
        raise_bytes(
            drop_bytes(dest, field_bytes_after(field) + field_byte_count(field)),
            field_bytes_after(field) + field_byte_count(field),
        ) + raise_bytes(low_bytes(source, field_byte_count(field)), field_bytes_after(field))
            + low_bytes(dest, field_bytes_after(field)) < SIGN_BIT,
{
    let after = field_bytes_after(field);
    let count = field_byte_count(field);
    let whole = after + count;
    let unit = pow64(after);
    let span = pow64(count);
    lemma_pow64_add(after, count);
    lemma_pow64_add(count, 0);
    lemma_bytes_as_powers(dest, whole);
    lemma_bytes_as_powers(dest / pow64(whole), whole);
    lemma_bytes_as_powers(source, count);
    lemma_bytes_as_powers(source % span, after);
    lemma_bytes_as_powers(dest, after);
    lemma_window(dest, source, unit, span);
    let w = unit * span;
    assert(w == pow64(whole));
    lemma_bytes_as_powers(1, whole);
    let above = dest / w;
    assert((above + 1) * w <= SIGN_BIT) by {
        reveal_with_fuel(pow64, 6);
        if whole == 0 {
            assert(above == dest / 1);
            assert((above + 1) * w == (above + 1) * 1) by (nonlinear_arith)
                requires
                    w == 1,
            ;
        } else if whole == 1 {
            assert(above == dest / 0x40);
            assert((above + 1) * w == (above + 1) * 0x40) by (nonlinear_arith)
                requires
                    w == 0x40,
            ;
        } else if whole == 2 {
            assert(above == dest / 0x1000);
            assert((above + 1) * w == (above + 1) * 0x1000) by (nonlinear_arith)
                requires
                    w == 0x1000,
            ;
        } else if whole == 3 {
            assert(above == dest / 0x4_0000);
            assert((above + 1) * w == (above + 1) * 0x4_0000) by (nonlinear_arith)
                requires
                    w == 0x4_0000,
            ;
        } else if whole == 4 {
            assert(above == dest / 0x100_0000);
            assert((above + 1) * w == (above + 1) * 0x100_0000) by (nonlinear_arith)
                requires
                    w == 0x100_0000,
            ;
        } else {
            assert(above == dest / 0x4000_0000);
            assert((above + 1) * w == (above + 1) * 0x4000_0000) by (nonlinear_arith)
                requires
                    w == 0x4000_0000,
            ;
        }
    }
}

/// Packing a word that an index register can hold and widening it again
/// gives the word back, and the packed form has nothing above its sign.
pub proof fn lemma_narrow_round_trip(wide: u32)
    requires
        is_narrow_word(wide),
    ensures
        is_narrow(narrowed(wide)),
        widened(narrowed(wide)) == wide,
{
}

/// Whatever a packed register holds, it stands for a word that an index
/// register can hold.
pub proof fn lemma_widened_is_narrow_word(r: u16)
    ensures
        is_narrow_word(widened(r)),
{
}

/// Widening the packed form of an index register and packing it again
/// gives the packed form back.
pub proof fn law_narrow_of_widened(r: u16)
    requires
        is_narrow(r),
    ensures
        fits_narrow(widened(r)),
        narrowed(widened(r)) == r,
{
}

/// Taking a field of a word and embedding it into the same field of the
/// same word gives the word back.
pub proof fn law_embed_of_field(w: u32, field: u8)
    requires
        is_word(w),
        valid_field(field),
    ensures
        with_field(field_of(w, field), w, field) == w,
{
    lemma_word_parts(w);
    lemma_field_of_is_word(w, field);
    let d = magnitude(w);
    let after = field_bytes_after(field);
    let count = field_byte_count(field);
    let whole = after + count;
    let unit = pow64(after);
    let span = pow64(count);
    let kept = magnitude(field_of(w, field));
    lemma_pow64_add(after, count);
    lemma_pow64_add(count, 0);
    lemma_bytes_as_powers(d, after);
    lemma_bytes_as_powers(d / unit, count);
    assert(kept == (d / unit) % span);
    lemma_bytes_as_powers(kept, count);
    assert(low_bytes(kept, count) == kept) by {
        vstd::arithmetic::div_mod::lemma_small_mod(kept, span);
    }
    lemma_bytes_as_powers(kept, after);
    lemma_bytes_as_powers(d, whole);
    lemma_bytes_as_powers(d / pow64(whole), whole);
    lemma_window(d, d, unit, span);
}

/// Negating a word negates the integer it stands for.  Negating either
/// zero gives the other zero, and both stand for `0`.
pub proof fn law_negated_value(w: u32)
    ensures
        signed_value(negated(w)) == -signed_value(w),
        magnitude(negated(w)) == magnitude(w),
        is_negative(negated(w)) == !is_negative(w),
{
}

} // verus!
