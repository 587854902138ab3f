//! Population count helpers exported to the C runtime.
use vstd::prelude::*;

verus! {

/// Number of one bits among the `n` lowest bits of `x`.
pub open spec fn ones_below(x: u64, n: nat) -> nat
    decreases n,
{
    if n == 0 {
        0
    } else {
        ones_below(x, (n - 1) as nat) + ((x >> ((n - 1) as u64)) & 1u64) as nat
    }
}

/// Counts the one bits of the 32-bit pattern of `a`.
pub fn __popcountsi2(a: i32) -> (r: i32)
    ensures
        r == ones_below((#[verifier::truncate] (a as u32)) as u64, 32),
{
    let x0: u32 = #[verifier::truncate] (a as u32);
    assert(x0 >= ((x0 >> 1u32) & 0x55555555u32)) by (bit_vector);
    let x1: u32 = x0 - ((x0 >> 1u32) & 0x55555555u32);
    assert(((x1 >> 2u32) & 0x33333333u32) + (x1 & 0x33333333u32) <= u32::MAX) by (bit_vector);
    let x2: u32 = ((x1 >> 2u32) & 0x33333333u32) + (x1 & 0x33333333u32);
    assert(x2 + (x2 >> 4u32) <= u32::MAX) by (bit_vector)
        requires
            x1 == (x0 - ((x0 >> 1u32) & 0x55555555u32)) as u32,
            x2 == (((x1 >> 2u32) & 0x33333333u32) + (x1 & 0x33333333u32)) as u32,
    ;
    let x3: u32 = (x2 + (x2 >> 4u32)) & 0x0F0F0F0Fu32;
    assert(x3 + (x3 >> 16u32) <= u32::MAX && (x3 + (x3 >> 16u32)) + ((x3 + (x3 >> 16u32)) as u32 >> 8u32) <= u32::MAX) by (bit_vector)
        requires
            x3 == ((x2 + (x2 >> 4u32)) as u32) & 0x0F0F0F0Fu32,
    ;
    let x4: u32 = x3 + (x3 >> 16u32);
    let x5: u32 = (x4 + (x4 >> 8u32)) & 0x3Fu32;
    assert(x5 <= 0x3Fu32) by (bit_vector)
        requires
            x5 == ((x4 + (x4 >> 8u32)) as u32) & 0x3Fu32,
    ;
    proof {
        lemma_popcount32(x0, x1, x2, x3, x4, x5);
    }
    x5 as i32
}

proof fn lemma_popcount32(x0: u32, x1: u32, x2: u32, x3: u32, x4: u32, x5: u32)
    requires
        x1 == (x0 - ((x0 >> 1u32) & 0x55555555u32)) as u32,
        x2 == (((x1 >> 2u32) & 0x33333333u32) + (x1 & 0x33333333u32)) as u32,
        x3 == ((x2 + (x2 >> 4u32)) as u32) & 0x0F0F0F0Fu32,
        x4 == (x3 + (x3 >> 16u32)) as u32,
        x5 == ((x4 + (x4 >> 8u32)) as u32) & 0x3Fu32,
    ensures
        x5 == ones_below(x0 as u64, 32),
{
    let y: u64 = x0 as u64;
    assert(x5 as u64 == ((y >> 0u64) & 1u64) + ((y >> 1u64) & 1u64) + ((y >> 2u64) & 1u64) + ((y >> 3u64) & 1u64)
        + ((y >> 4u64) & 1u64) + ((y >> 5u64) & 1u64) + ((y >> 6u64) & 1u64) + ((y >> 7u64) & 1u64)
        + ((y >> 8u64) & 1u64) + ((y >> 9u64) & 1u64) + ((y >> 10u64) & 1u64) + ((y >> 11u64) & 1u64)
        + ((y >> 12u64) & 1u64) + ((y >> 13u64) & 1u64) + ((y >> 14u64) & 1u64) + ((y >> 15u64) & 1u64)
        + ((y >> 16u64) & 1u64) + ((y >> 17u64) & 1u64) + ((y >> 18u64) & 1u64) + ((y >> 19u64) & 1u64)
        + ((y >> 20u64) & 1u64) + ((y >> 21u64) & 1u64) + ((y >> 22u64) & 1u64) + ((y >> 23u64) & 1u64)
        + ((y >> 24u64) & 1u64) + ((y >> 25u64) & 1u64) + ((y >> 26u64) & 1u64) + ((y >> 27u64) & 1u64)
        + ((y >> 28u64) & 1u64) + ((y >> 29u64) & 1u64) + ((y >> 30u64) & 1u64) + ((y >> 31u64) & 1u64))
        by (bit_vector)
        requires
            y == x0 as u64,
            x1 == (x0 - ((x0 >> 1u32) & 0x55555555u32)) as u32,
            x2 == (((x1 >> 2u32) & 0x33333333u32) + (x1 & 0x33333333u32)) as u32,
            x3 == ((x2 + (x2 >> 4u32)) as u32) & 0x0F0F0F0Fu32,
            x4 == (x3 + (x3 >> 16u32)) as u32,
            x5 == ((x4 + (x4 >> 8u32)) as u32) & 0x3Fu32,
    ;
    assert(ones_below(y, 32) == ((y >> 0u64) & 1u64) + ((y >> 1u64) & 1u64) + ((y >> 2u64) & 1u64) + ((y >> 3u64) & 1u64)
        + ((y >> 4u64) & 1u64) + ((y >> 5u64) & 1u64) + ((y >> 6u64) & 1u64) + ((y >> 7u64) & 1u64)
        + ((y >> 8u64) & 1u64) + ((y >> 9u64) & 1u64) + ((y >> 10u64) & 1u64) + ((y >> 11u64) & 1u64)
        + ((y >> 12u64) & 1u64) + ((y >> 13u64) & 1u64) + ((y >> 14u64) & 1u64) + ((y >> 15u64) & 1u64)
        + ((y >> 16u64) & 1u64) + ((y >> 17u64) & 1u64) + ((y >> 18u64) & 1u64) + ((y >> 19u64) & 1u64)
        + ((y >> 20u64) & 1u64) + ((y >> 21u64) & 1u64) + ((y >> 22u64) & 1u64) + ((y >> 23u64) & 1u64)
        + ((y >> 24u64) & 1u64) + ((y >> 25u64) & 1u64) + ((y >> 26u64) & 1u64) + ((y >> 27u64) & 1u64)
        + ((y >> 28u64) & 1u64) + ((y >> 29u64) & 1u64) + ((y >> 30u64) & 1u64) + ((y >> 31u64) & 1u64))
        by {
        reveal_with_fuel(ones_below, 33);
    }
}


/// Counts the one bits of the 64-bit pattern of `a`.
pub fn __popcountdi2(a: i64) -> (r: i64)
    ensures
        r == ones_below(#[verifier::truncate] (a as u64), 64),
{
    let x0: u64 = #[verifier::truncate] (a as u64);
    assert(x0 >= ((x0 >> 1u64) & 0x5555555555555555u64)) by (bit_vector);
    let x1: u64 = x0 - ((x0 >> 1u64) & 0x5555555555555555u64);
    assert(((x1 >> 2u64) & 0x3333333333333333u64) + (x1 & 0x3333333333333333u64) <= u64::MAX) by (bit_vector);
    let x2: u64 = ((x1 >> 2u64) & 0x3333333333333333u64) + (x1 & 0x3333333333333333u64);
    assert(x2 + (x2 >> 4u64) <= u64::MAX) by (bit_vector)
        requires
            x1 == (x0 - ((x0 >> 1u64) & 0x5555555555555555u64)) as u64,
            x2 == (((x1 >> 2u64) & 0x3333333333333333u64) + (x1 & 0x3333333333333333u64)) as u64,
    ;
    let x3: u64 = (x2 + (x2 >> 4u64)) & 0x0F0F0F0F0F0F0F0Fu64;
    assert(x3 + (x3 >> 32u64) <= u64::MAX) by (bit_vector)
        requires
            x3 == ((x2 + (x2 >> 4u64)) as u64) & 0x0F0F0F0F0F0F0F0Fu64,
    ;
    let x4: u64 = x3 + (x3 >> 32u64);
    assert(x4 + (x4 >> 16u64) <= u64::MAX) by (bit_vector)
        requires
            x3 == ((x2 + (x2 >> 4u64)) as u64) & 0x0F0F0F0F0F0F0F0Fu64,
            x4 == (x3 + (x3 >> 32u64)) as u64,
    ;
    let x5: u64 = x4 + (x4 >> 16u64);
    assert(x5 + (x5 >> 8u64) <= u64::MAX) by (bit_vector)
        requires
            x3 == ((x2 + (x2 >> 4u64)) as u64) & 0x0F0F0F0F0F0F0F0Fu64,
            x4 == (x3 + (x3 >> 32u64)) as u64,
            x5 == (x4 + (x4 >> 16u64)) as u64,
    ;
    let x6: u64 = (x5 + (x5 >> 8u64)) & 0x7Fu64;
    assert(x6 <= 0x7Fu64) by (bit_vector)
        requires
            x6 == ((x5 + (x5 >> 8u64)) as u64) & 0x7Fu64,
    ;
    proof {
        lemma_popcount64(x0, x1, x2, x3, x4, x5, x6);
    }
    x6 as i64
}

proof fn lemma_popcount64(x0: u64, x1: u64, x2: u64, x3: u64, x4: u64, x5: u64, x6: u64)
    requires
        x1 == (x0 - ((x0 >> 1u64) & 0x5555555555555555u64)) as u64,
        x2 == (((x1 >> 2u64) & 0x3333333333333333u64) + (x1 & 0x3333333333333333u64)) as u64,
        x3 == ((x2 + (x2 >> 4u64)) as u64) & 0x0F0F0F0F0F0F0F0Fu64,
        x4 == (x3 + (x3 >> 32u64)) as u64,
        x5 == (x4 + (x4 >> 16u64)) as u64,
        x6 == ((x5 + (x5 >> 8u64)) as u64) & 0x7Fu64,
    ensures
        x6 == ones_below(x0, 64),
{
    assert((x3 >> 0u64) & 0xFFu64 == ((x0 >> 0u64) & 1u64) + ((x0 >> 1u64) & 1u64) + ((x0 >> 2u64) & 1u64) + ((x0 >> 3u64) & 1u64) + ((x0 >> 4u64) & 1u64) + ((x0 >> 5u64) & 1u64) + ((x0 >> 6u64) & 1u64) + ((x0 >> 7u64) & 1u64)) by (bit_vector)
        requires
            x1 == (x0 - ((x0 >> 1u64) & 0x5555555555555555u64)) as u64,
            x2 == (((x1 >> 2u64) & 0x3333333333333333u64) + (x1 & 0x3333333333333333u64)) as u64,
            x3 == ((x2 + (x2 >> 4u64)) as u64) & 0x0F0F0F0F0F0F0F0Fu64,
    ;
    assert((x3 >> 8u64) & 0xFFu64 == ((x0 >> 8u64) & 1u64) + ((x0 >> 9u64) & 1u64) + ((x0 >> 10u64) & 1u64) + ((x0 >> 11u64) & 1u64) + ((x0 >> 12u64) & 1u64) + ((x0 >> 13u64) & 1u64) + ((x0 >> 14u64) & 1u64) + ((x0 >> 15u64) & 1u64)) by (bit_vector)
        requires
            x1 == (x0 - ((x0 >> 1u64) & 0x5555555555555555u64)) as u64,
            x2 == (((x1 >> 2u64) & 0x3333333333333333u64) + (x1 & 0x3333333333333333u64)) as u64,
            x3 == ((x2 + (x2 >> 4u64)) as u64) & 0x0F0F0F0F0F0F0F0Fu64,
    ;
    assert((x3 >> 16u64) & 0xFFu64 == ((x0 >> 16u64) & 1u64) + ((x0 >> 17u64) & 1u64) + ((x0 >> 18u64) & 1u64) + ((x0 >> 19u64) & 1u64) + ((x0 >> 20u64) & 1u64) + ((x0 >> 21u64) & 1u64) + ((x0 >> 22u64) & 1u64) + ((x0 >> 23u64) & 1u64)) by (bit_vector)
        requires
            x1 == (x0 - ((x0 >> 1u64) & 0x5555555555555555u64)) as u64,
            x2 == (((x1 >> 2u64) & 0x3333333333333333u64) + (x1 & 0x3333333333333333u64)) as u64,
            x3 == ((x2 + (x2 >> 4u64)) as u64) & 0x0F0F0F0F0F0F0F0Fu64,
    ;
    assert((x3 >> 24u64) & 0xFFu64 == ((x0 >> 24u64) & 1u64) + ((x0 >> 25u64) & 1u64) + ((x0 >> 26u64) & 1u64) + ((x0 >> 27u64) & 1u64) + ((x0 >> 28u64) & 1u64) + ((x0 >> 29u64) & 1u64) + ((x0 >> 30u64) & 1u64) + ((x0 >> 31u64) & 1u64)) by (bit_vector)
        requires
            x1 == (x0 - ((x0 >> 1u64) & 0x5555555555555555u64)) as u64,
            x2 == (((x1 >> 2u64) & 0x3333333333333333u64) + (x1 & 0x3333333333333333u64)) as u64,
            x3 == ((x2 + (x2 >> 4u64)) as u64) & 0x0F0F0F0F0F0F0F0Fu64,
    ;
    assert((x3 >> 32u64) & 0xFFu64 == ((x0 >> 32u64) & 1u64) + ((x0 >> 33u64) & 1u64) + ((x0 >> 34u64) & 1u64) + ((x0 >> 35u64) & 1u64) + ((x0 >> 36u64) & 1u64) + ((x0 >> 37u64) & 1u64) + ((x0 >> 38u64) & 1u64) + ((x0 >> 39u64) & 1u64)) by (bit_vector)
        requires
            x1 == (x0 - ((x0 >> 1u64) & 0x5555555555555555u64)) as u64,
            x2 == (((x1 >> 2u64) & 0x3333333333333333u64) + (x1 & 0x3333333333333333u64)) as u64,
            x3 == ((x2 + (x2 >> 4u64)) as u64) & 0x0F0F0F0F0F0F0F0Fu64,
    ;
    assert((x3 >> 40u64) & 0xFFu64 == ((x0 >> 40u64) & 1u64) + ((x0 >> 41u64) & 1u64) + ((x0 >> 42u64) & 1u64) + ((x0 >> 43u64) & 1u64) + ((x0 >> 44u64) & 1u64) + ((x0 >> 45u64) & 1u64) + ((x0 >> 46u64) & 1u64) + ((x0 >> 47u64) & 1u64)) by (bit_vector)
        requires
            x1 == (x0 - ((x0 >> 1u64) & 0x5555555555555555u64)) as u64,
            x2 == (((x1 >> 2u64) & 0x3333333333333333u64) + (x1 & 0x3333333333333333u64)) as u64,
            x3 == ((x2 + (x2 >> 4u64)) as u64) & 0x0F0F0F0F0F0F0F0Fu64,
    ;
    assert((x3 >> 48u64) & 0xFFu64 == ((x0 >> 48u64) & 1u64) + ((x0 >> 49u64) & 1u64) + ((x0 >> 50u64) & 1u64) + ((x0 >> 51u64) & 1u64) + ((x0 >> 52u64) & 1u64) + ((x0 >> 53u64) & 1u64) + ((x0 >> 54u64) & 1u64) + ((x0 >> 55u64) & 1u64)) by (bit_vector)
        requires
            x1 == (x0 - ((x0 >> 1u64) & 0x5555555555555555u64)) as u64,
            x2 == (((x1 >> 2u64) & 0x3333333333333333u64) + (x1 & 0x3333333333333333u64)) as u64,
            x3 == ((x2 + (x2 >> 4u64)) as u64) & 0x0F0F0F0F0F0F0F0Fu64,
    ;
    assert((x3 >> 56u64) & 0xFFu64 == ((x0 >> 56u64) & 1u64) + ((x0 >> 57u64) & 1u64) + ((x0 >> 58u64) & 1u64) + ((x0 >> 59u64) & 1u64) + ((x0 >> 60u64) & 1u64) + ((x0 >> 61u64) & 1u64) + ((x0 >> 62u64) & 1u64) + ((x0 >> 63u64) & 1u64)) by (bit_vector)
        requires
            x1 == (x0 - ((x0 >> 1u64) & 0x5555555555555555u64)) as u64,
            x2 == (((x1 >> 2u64) & 0x3333333333333333u64) + (x1 & 0x3333333333333333u64)) as u64,
            x3 == ((x2 + (x2 >> 4u64)) as u64) & 0x0F0F0F0F0F0F0F0Fu64,
    ;
    assert(x3 & 0xF0F0F0F0F0F0F0F0u64 == 0u64) by (bit_vector)
        requires
            x3 == ((x2 + (x2 >> 4u64)) as u64) & 0x0F0F0F0F0F0F0F0Fu64,
    ;
    assert(x4 & 0xFFu64 == ((x3 >> 0u64) & 0xFFu64) + ((x3 >> 32u64) & 0xFFu64)
        && (x4 >> 8u64) & 0xFFu64 == ((x3 >> 8u64) & 0xFFu64) + ((x3 >> 40u64) & 0xFFu64)
        && (x4 >> 16u64) & 0xFFu64 == ((x3 >> 16u64) & 0xFFu64) + ((x3 >> 48u64) & 0xFFu64)
        && (x4 >> 24u64) & 0xFFu64 == ((x3 >> 24u64) & 0xFFu64) + ((x3 >> 56u64) & 0xFFu64)
        && x4 & 0xE0E0E0E0u64 == 0u64) by (bit_vector)
        requires
            x3 & 0xF0F0F0F0F0F0F0F0u64 == 0u64,
            x4 == (x3 + (x3 >> 32u64)) as u64,
    ;
    assert(x5 & 0xFFu64 == (x4 & 0xFFu64) + ((x4 >> 16u64) & 0xFFu64)
        && (x5 >> 8u64) & 0xFFu64 == ((x4 >> 8u64) & 0xFFu64) + ((x4 >> 24u64) & 0xFFu64)
        && x5 & 0xC0C0u64 == 0u64) by (bit_vector)
        requires
            x4 & 0xE0E0E0E0u64 == 0u64,
            x5 == (x4 + (x4 >> 16u64)) as u64,
    ;
    assert(x6 == (x5 & 0xFFu64) + ((x5 >> 8u64) & 0xFFu64)) by (bit_vector)
        requires
            x5 & 0xC0C0u64 == 0u64,
            x6 == ((x5 + (x5 >> 8u64)) as u64) & 0x7Fu64,
    ;
    assert(ones_below(x0, 64) == ((x0 >> 0u64) & 1u64) + ((x0 >> 1u64) & 1u64) + ((x0 >> 2u64) & 1u64) + ((x0 >> 3u64) & 1u64)
        + ((x0 >> 4u64) & 1u64) + ((x0 >> 5u64) & 1u64) + ((x0 >> 6u64) & 1u64) + ((x0 >> 7u64) & 1u64)
        + ((x0 >> 8u64) & 1u64) + ((x0 >> 9u64) & 1u64) + ((x0 >> 10u64) & 1u64) + ((x0 >> 11u64) & 1u64)
        + ((x0 >> 12u64) & 1u64) + ((x0 >> 13u64) & 1u64) + ((x0 >> 14u64) & 1u64) + ((x0 >> 15u64) & 1u64)
        + ((x0 >> 16u64) & 1u64) + ((x0 >> 17u64) & 1u64) + ((x0 >> 18u64) & 1u64) + ((x0 >> 19u64) & 1u64)
        + ((x0 >> 20u64) & 1u64) + ((x0 >> 21u64) & 1u64) + ((x0 >> 22u64) & 1u64) + ((x0 >> 23u64) & 1u64)
        + ((x0 >> 24u64) & 1u64) + ((x0 >> 25u64) & 1u64) + ((x0 >> 26u64) & 1u64) + ((x0 >> 27u64) & 1u64)
        + ((x0 >> 28u64) & 1u64) + ((x0 >> 29u64) & 1u64) + ((x0 >> 30u64) & 1u64) + ((x0 >> 31u64) & 1u64)
        + ((x0 >> 32u64) & 1u64) + ((x0 >> 33u64) & 1u64) + ((x0 >> 34u64) & 1u64) + ((x0 >> 35u64) & 1u64)
        + ((x0 >> 36u64) & 1u64) + ((x0 >> 37u64) & 1u64) + ((x0 >> 38u64) & 1u64) + ((x0 >> 39u64) & 1u64)
        + ((x0 >> 40u64) & 1u64) + ((x0 >> 41u64) & 1u64) + ((x0 >> 42u64) & 1u64) + ((x0 >> 43u64) & 1u64)
        + ((x0 >> 44u64) & 1u64) + ((x0 >> 45u64) & 1u64) + ((x0 >> 46u64) & 1u64) + ((x0 >> 47u64) & 1u64)
        + ((x0 >> 48u64) & 1u64) + ((x0 >> 49u64) & 1u64) + ((x0 >> 50u64) & 1u64) + ((x0 >> 51u64) & 1u64)
        + ((x0 >> 52u64) & 1u64) + ((x0 >> 53u64) & 1u64) + ((x0 >> 54u64) & 1u64) + ((x0 >> 55u64) & 1u64)
        + ((x0 >> 56u64) & 1u64) + ((x0 >> 57u64) & 1u64) + ((x0 >> 58u64) & 1u64) + ((x0 >> 59u64) & 1u64)
        + ((x0 >> 60u64) & 1u64) + ((x0 >> 61u64) & 1u64) + ((x0 >> 62u64) & 1u64) + ((x0 >> 63u64) & 1u64))
        by {
        reveal_with_fuel(ones_below, 65);
    }
}

} // verus!
