use vstd::prelude::*;

verus! {

/// The two's complement value of a 32-bit word.
pub open spec fn signed(x: u32) -> int {
    if x < 0x8000_0000 {
        x as int
    } else {
        x as int - 0x1_0000_0000
    }
}

/// The two's complement value of a 16-bit half word.
pub open spec fn signed16(x: u16) -> int {
    if x < 0x8000 {
        x as int
    } else {
        x as int - 0x1_0000
    }
}

/// A mathematical integer brought into 32 bits (modulo 2^32).
pub open spec fn wrap32(x: int) -> u32 {
    (x % 0x1_0000_0000) as u32
}

pub proof fn lemma_signed(x: u32)
    ensures
        (x as i32) as int == signed(x),
{
    assert((x as i32) as int == (if x < 0x8000_0000 { x as int } else { x as int - 0x1_0000_0000 })) by (bit_vector);
}

pub proof fn lemma_wrap(x: i32, y: int)
    requires x as int == y, 
    ensures
        x as u32 == wrap32(y),
{
    assert(x as u32 == ((x as int) % 0x1_0000_0000) as u32) by (bit_vector);
}


/// The fields of an instruction word.
pub open spec fn field_rs(ins: u32) -> usize {
    ((ins >> 21u32) & 0x1Fu32) as usize
}

pub open spec fn field_rt(ins: u32) -> usize {
    ((ins >> 16u32) & 0x1Fu32) as usize
}

pub open spec fn field_rd(ins: u32) -> usize {
    ((ins >> 11u32) & 0x1Fu32) as usize
}

pub open spec fn field_shamt(ins: u32) -> u32 {
    (ins >> 6u32) & 0x1Fu32
}

pub open spec fn field_funct(ins: u32) -> u32 {
    ins & 0x3Fu32
}

pub open spec fn field_imm(ins: u32) -> u32 {
    ins & 0xFFFFu32
}

pub open spec fn field_target(ins: u32) -> u32 {
    ins & 0x03FF_FFFFu32
}

/// The immediate field read as a signed 16-bit number.
pub open spec fn simm(ins: u32) -> int {
    signed16((ins & 0xFFFFu32) as u16)
}

/// The immediate field sign-extended to a word.
pub open spec fn sext_imm(ins: u32) -> u32 {
    wrap32(simm(ins))
}

pub proof fn lemma_fields(ins: u32)
    ensures
        (ins >> 21u32) & 0x1Fu32 < 32,
        (ins >> 16u32) & 0x1Fu32 < 32,
        (ins >> 11u32) & 0x1Fu32 < 32,
        (ins >> 6u32) & 0x1Fu32 < 32,
        ins & 0x3Fu32 < 64,
        ins & 0xFFFFu32 < 0x1_0000,
        ins >> 26u32 < 64,
{
    assert((ins >> 21u32) & 0x1Fu32 < 32 && (ins >> 16u32) & 0x1Fu32 < 32 && (ins >> 11u32)
        & 0x1Fu32 < 32 && (ins >> 6u32) & 0x1Fu32 < 32 && ins & 0x3Fu32 < 64 && ins & 0xFFFFu32
        < 0x1_0000 && ins >> 26u32 < 64) by (bit_vector);
}

/// Sign extension of a half word, as the machine does it.
pub proof fn lemma_sext16(h: u16)
    ensures
        (h as i16) as int == signed16(h),
        ((h as i16) as i32) as int == signed16(h),
        ((h as i16) as u32) == wrap32(signed16(h)),
        (((h as i16) as u32) << 2u32) == wrap32(4 * signed16(h)),
{
    assert((h as i16) as int == (if h < 0x8000 { h as int } else { h as int - 0x1_0000 })) by (bit_vector);
    assert(((h as i16) as i32) as int == (if h < 0x8000 { h as int } else { h as int - 0x1_0000 })) by (bit_vector);
    assert(((h as i16) as u32) == ((if h < 0x8000 { h as int } else { h as int - 0x1_0000 }) % 0x1_0000_0000) as u32) by (bit_vector);
    assert((((h as i16) as u32) << 2u32) == ((4 * (if h < 0x8000 { h as int } else { h as int - 0x1_0000 })) % 0x1_0000_0000) as u32) by (bit_vector);
}


/// A word that is 1 when the condition holds and 0 otherwise.
pub open spec fn bool_word(b: bool) -> u32 {
    if b {
        1
    } else {
        0
    }
}

/// The sum of two signed values when it fits in 32 bits, as a word.
pub open spec fn checked_sum(a: int, b: int) -> Option<u32> {
    if -0x8000_0000 <= a + b < 0x8000_0000 {
        Some(wrap32(a + b))
    } else {
        None
    }
}

/// HI and LO of a 64-bit product.
pub open spec fn hi_lo(p: int) -> (u32, u32) {
    (wrap32(p / 0x1_0000_0000), wrap32(p))
}

/// Quotient of a division that rounds toward zero.
pub open spec fn div_trunc(x: int, d: int) -> int {
    if x == 0 {
        0
    } else if x > 0 && d > 0 {
        x / d
    } else if x < 0 && d < 0 {
        (-x) / (-d)
    } else if x < 0 {
        -((-x) / d)
    } else {
        -(x / (-d))
    }
}

/// Remainder that goes with [`div_trunc`]: it has the sign of the dividend.
pub open spec fn rem_trunc(x: int, d: int) -> int {
    if x == 0 {
        0
    } else if x > 0 && d > 0 {
        x % d
    } else if x < 0 && d < 0 {
        -((-x) % (-d))
    } else if x < 0 {
        -((-x) % d)
    } else {
        x % (-d)
    }
}

/// The quotient and remainder of a 32-bit signed division fit in 32 bits,
/// except for -2^31 / -1.
pub proof fn lemma_div_trunc_fits(x: int, d: int)
    requires
        -0x8000_0000 <= x < 0x8000_0000,
        -0x8000_0000 <= d < 0x8000_0000,
        d != 0,
        !(x == -0x8000_0000 && d == -1),
    ensures
        -0x8000_0000 <= div_trunc(x, d) < 0x8000_0000,
        -0x8000_0000 <= rem_trunc(x, d) < 0x8000_0000,
{
    if x > 0 && d > 0 {
        assert(0 <= x / d <= x) by (nonlinear_arith) requires x > 0, d > 0;
        assert(0 <= x % d < d) by (nonlinear_arith) requires x > 0, d > 0;
    } else if x < 0 && d < 0 {
        assert(0 <= (-x) / (-d) <= -x) by (nonlinear_arith) requires x < 0, d < 0;
        assert(0 <= (-x) % (-d) < -d) by (nonlinear_arith) requires x < 0, d < 0;
        if -d == 1 {
            assert((-x) / (-d) == -x) by (nonlinear_arith) requires d == -1;
        } else {
            assert((-x) / (-d) < -x) by (nonlinear_arith) requires x < 0, d < -1;
        }
    } else if x < 0 {
        assert(0 <= (-x) / d <= -x) by (nonlinear_arith) requires x < 0, d > 0;
        assert(0 <= (-x) % d < d) by (nonlinear_arith) requires x < 0, d > 0;
    } else if x > 0 {
        assert(0 <= x / (-d) <= x) by (nonlinear_arith) requires x > 0, d < 0;
        assert(0 <= x % (-d) < -d) by (nonlinear_arith) requires x > 0, d < 0;
    }
}


/// The two halves of a 64-bit two's complement product.
pub proof fn lemma_split64_signed(p: i64)
    ensures
        (((p as u64) >> 32u64) as u32, (p as u64) as u32) == hi_lo(p as int),
{
    assert(((p as u64) >> 32u64) as u32 == ((p as int / 0x1_0000_0000) % 0x1_0000_0000) as u32
        && (p as u64) as u32 == ((p as int) % 0x1_0000_0000) as u32) by (bit_vector);
}

/// The two halves of a 64-bit unsigned product.
pub proof fn lemma_split64(p: u64)
    ensures
        ((p >> 32u64) as u32, p as u32) == hi_lo(p as int),
{
    assert((p >> 32u64) as u32 == ((p as int / 0x1_0000_0000) % 0x1_0000_0000) as u32 && p as u32
        == ((p as int) % 0x1_0000_0000) as u32) by (bit_vector);
}


/// Bounds of the masks used to pick small fields out of words.
pub proof fn lemma_masks(x: u32)
    ensures
        x & 0x1Fu32 < 32,
        x & 0x3u32 < 4,
        x & 0x1u32 < 2,
        x & 0x7u32 < 8,
        x & 0xFFu32 < 0x100,
        x & 0xFFFFu32 < 0x1_0000,
        x >> 24u32 < 0x100,
        x >> 29u32 < 8,
        x >> 16u32 < 0x1_0000,
{
    assert(x & 0x1Fu32 < 32 && x & 0x3u32 < 4 && x & 0x1u32 < 2 && x & 0x7u32 < 8 && x & 0xFFu32
        < 0x100 && x & 0xFFFFu32 < 0x1_0000 && x >> 24u32 < 0x100 && x >> 29u32 < 8 && x >> 16u32
        < 0x1_0000) by (bit_vector);
}


/// Adding a wrapped value wraps the sum.
pub proof fn lemma_wrapping_add(a: u32, b: int)
    requires
        -0x1_0000_0000 < b < 0x1_0000_0000,
    ensures
        a.wrapping_add(wrap32(b)) == wrap32(a + b),
{
    if b >= 0 {
        assert(wrap32(b) == b);
    } else {
        assert(wrap32(b) == b + 0x1_0000_0000);
    }
}


/// Wrapping addition and subtraction of words are sums and differences modulo 2^32.
pub proof fn lemma_wrapping(a: u32, b: u32)
    ensures
        a.wrapping_add(b) == wrap32(a + b),
        a.wrapping_sub(b) == wrap32(a - b),
{
    if a + b > u32::MAX {
        assert(wrap32(a + b) == a + b - 0x1_0000_0000);
    } else {
        assert(wrap32(a + b) == a + b);
    }
    if a - b < 0 {
        assert(wrap32(a - b) == a - b + 0x1_0000_0000);
    } else {
        assert(wrap32(a - b) == a - b);
    }
}


/// Bit `i` of a word.
pub open spec fn bit(x: u32, i: u32) -> bool {
    (x >> i) & 1u32 == 1u32
}

pub proof fn lemma_bit_logic(s: u32, t: u32, i: u32)
    requires
        i < 32,
    ensures
        bit(s & t, i) == (bit(s, i) && bit(t, i)),
        bit(s | t, i) == (bit(s, i) || bit(t, i)),
        bit(s ^ t, i) == (bit(s, i) != bit(t, i)),
        bit(!(s | t), i) == !(bit(s, i) || bit(t, i)),
{
    assert(((s & t) >> i) & 1u32 == 1u32 <==> ((s >> i) & 1u32 == 1u32 && (t >> i) & 1u32 == 1u32)) by (bit_vector)
        requires i < 32;
    assert(((s | t) >> i) & 1u32 == 1u32 <==> ((s >> i) & 1u32 == 1u32 || (t >> i) & 1u32 == 1u32)) by (bit_vector)
        requires i < 32;
    assert(((s ^ t) >> i) & 1u32 == 1u32 <==> ((s >> i) & 1u32 == 1u32) != ((t >> i) & 1u32 == 1u32)) by (bit_vector)
        requires i < 32;
    assert(((!(s | t)) >> i) & 1u32 == 1u32 <==> !((s >> i) & 1u32 == 1u32 || (t >> i) & 1u32 == 1u32)) by (bit_vector)
        requires i < 32;
}

/// Bits of the immediate field zero-extended: the low 16 bits of the word,
/// and 0 above.
pub proof fn lemma_bit_zimm(ins: u32, i: u32)
    requires
        i < 32,
    ensures
        bit(ins & 0xFFFFu32, i) == (i < 16 && bit(ins, i)),
{
    assert((((ins & 0xFFFFu32) >> i) & 1u32 == 1u32) <==> (i < 16 && (ins >> i) & 1u32 == 1u32)) by (bit_vector)
        requires i < 32;
}

pub proof fn lemma_bit_shifts(t: u32, sh: u32, i: u32)
    requires
        i < 32,
        sh < 32,
    ensures
        bit(t << sh, i) == (i >= sh && bit(t, (i - sh) as u32)),
        bit(t >> sh, i) == (i + sh < 32 && bit(t, (i + sh) as u32)),
        bit(((t as i32) >> sh) as u32, i) == (if i + sh < 32 { bit(t, (i + sh) as u32) } else { bit(t, 31) }),
{
    assert((((t << sh) >> i) & 1u32 == 1u32) <==> (i >= sh && ((t >> ((i - sh) as u32)) & 1u32 == 1u32))) by (bit_vector)
        requires i < 32, sh < 32;
    assert((((t >> sh) >> i) & 1u32 == 1u32) <==> (i + sh < 32 && ((t >> ((i + sh) as u32)) & 1u32 == 1u32))) by (bit_vector)
        requires i < 32, sh < 32;
    assert((((((t as i32) >> sh) as u32) >> i) & 1u32 == 1u32) <==> (if i + sh < 32 {
        (t >> ((i + sh) as u32)) & 1u32 == 1u32
    } else {
        (t >> 31u32) & 1u32 == 1u32
    })) by (bit_vector)
        requires i < 32, sh < 32;
}

/// A sum that fits in 32 bits, brought into 32 bits, reads back as itself.
pub proof fn lemma_signed_wrap(v: int)
    requires
        -0x8000_0000 <= v < 0x8000_0000,
    ensures
        signed(wrap32(v)) == v,
{
    if v < 0 {
        assert(wrap32(v) as int == v + 0x1_0000_0000);
    } else {
        assert(wrap32(v) as int == v);
    }
}

} // verus!
