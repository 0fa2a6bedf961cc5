//! Word-level helpers: 16-bit wraparound addition, sign extension of narrow
//! instruction fields, and byte swapping for the big-endian image format.
use vstd::prelude::*;

verus! {

/// 16-bit wraparound addition, the arithmetic of every address and register
/// computation of the machine.
pub open spec fn wadd(x: u16, y: u16) -> u16 {
    if x + y > 0xffff {
        (x + y - 0x10000) as u16
    } else {
        (x + y) as u16
    }
}

/// The low `n` bits of `v`, for `1 <= n <= 16`.
pub open spec fn low_bits(v: u16, n: u16) -> u16 {
    ((v as u32) & (((1u32 << (n as u32)) - 1) as u32)) as u16
}

/// Sign extension of an `n`-bit field already masked into the low bits of
/// `x`: if the field's top bit is set, the bits above it are filled with
/// ones; otherwise `x` is returned unchanged.
pub open spec fn sext(x: u16, n: u16) -> u16 {
    if n < 16 && (x >> ((n - 1) as u16)) & 1 == 1 {
        x | (0xffffu16 << n)
    } else {
        x
    }
}

/// The two's-complement value of the `n`-bit field in the low bits of `x`.
pub open spec fn to_signed(x: u16, n: u16) -> int {
    let m = low_bits(x, n) as int;
    if m >= (1u16 << ((n - 1) as u16)) as int {
        m - (1u32 << (n as u32)) as int
    } else {
        m
    }
}

/// Sign-extends the low `bit_count` bits of `x` to a full 16-bit word.
pub fn sign_extend(x: u16, bit_count: i32) -> (r: u16)
    requires
        1 <= bit_count <= 16,
    ensures
        r == sext(x, bit_count as u16),
{
    if bit_count < 16 && ((x >> ((bit_count - 1) as u16)) & 1) == 1 {
        x | (0xffffu16 << (bit_count as u16))
    } else {
        x
    }
}

/// Swaps the two bytes of a word, turning a big-endian load into a native
/// value and back.
pub fn swap16(x: u16) -> (r: u16)
    ensures
        r == ((x & 0xff) << 8) | (x >> 8),
        r & 0xff == x >> 8,
        r >> 8 == x & 0xff,
{
    proof {
        assert(((x << 8) | (x >> 8)) == (((x & 0xff) << 8) | (x >> 8))) by (bit_vector);
        assert((((x & 0xff) << 8) | (x >> 8)) & 0xff == x >> 8) by (bit_vector);
        assert((((x & 0xff) << 8) | (x >> 8)) >> 8 == x & 0xff) by (bit_vector);
    }
    x << 8 | x >> 8
}

/// Sign-extending a value masked to `n` bits reproduces its two's-complement
/// value when the result is read as a signed 16-bit word, and leaves the
/// masked value unchanged whenever the field's sign bit is clear.
pub proof fn lemma_sign_extend_correct(v: u16, n: u16)
    requires
        1 <= n <= 16,
    ensures
        ({
            let m = low_bits(v, n);
            &&& (m >> ((n - 1) as u16)) & 1 == 0 ==> sext(m, n) == m
            &&& to_signed(sext(m, n), 16) == to_signed(v, n)
        }),
{
    let m = low_bits(v, n);
    assert((m >> ((n - 1) as u16)) & 1 == 0 ==> sext(m, n) == m);
    assert(to_signed(sext(m, n), 16) == to_signed(v, n)) by (bit_vector)
        requires
            1 <= n <= 16 && m == low_bits(v, n),
    ;
}

} // verus!
