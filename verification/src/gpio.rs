//! Words for the bit set/reset register of the GPIO port that drives the LEDs.
use vstd::prelude::*;
use vstd::arithmetic::power2::pow2;

verus! {

/// Address of the bit set/reset register (BSRR) of GPIO port E, which
/// drives the LEDs of the ring.
pub const GPIOE_BSRR: u32 = 0x4800_1018;

/// Pin of port E that drives the north LED (red).
pub const NORTH_LED_PIN: u32 = 9;

/// Pin of port E that drives the east LED (green).
pub const EAST_LED_PIN: u32 = 11;

/// Number of pins of a GPIO port.
pub const PORT_PINS: u32 = 16;

/// The BSRR word that drives `pin` high: the bit of the pin in the low
/// half of the register.
pub fn bsrr_set(pin: u32) -> (word: u32)
    requires
        pin < PORT_PINS,
    ensures
        word == 1u32 << pin,
        word == pow2(pin as nat),
{
    proof {
        vstd::bits::lemma_u32_pow2_no_overflow(pin as nat);
        vstd::bits::lemma_u32_shl_is_mul(1, pin);
    }
    1u32 << pin
}

/// The BSRR word that drives `pin` low: the bit of the pin in the high
/// half of the register.
pub fn bsrr_reset(pin: u32) -> (word: u32)
    requires
        pin < PORT_PINS,
    ensures
        word == 1u32 << (pin + PORT_PINS),
        word == pow2((pin + PORT_PINS) as nat),
{
    proof {
        vstd::bits::lemma_u32_pow2_no_overflow((pin + 16) as nat);
        vstd::bits::lemma_u32_shl_is_mul(1, (pin + 16) as u32);
    }
    1u32 << (pin + PORT_PINS)
}

/// A set word and a reset word never share a bit, and the reset word of
/// a pin is its set word moved up by the sixteen pins of the port.
pub proof fn lemma_set_reset_disjoint(p: u32, q: u32)
    requires
        p < PORT_PINS,
        q < PORT_PINS,
    ensures
        (1u32 << p) & (1u32 << (q + PORT_PINS)) == 0,
        (1u32 << (p + PORT_PINS)) == (1u32 << p) * 0x10000,
{
    assert((1u32 << p) & (1u32 << (q + 16)) == 0) by (bit_vector)
        requires p < 16, q < 16;
    assert((1u32 << (p + 16)) == (1u32 << p) * 0x10000) by (bit_vector)
        requires p < 16;
}

/// Distinct pins have distinct set words.
pub proof fn lemma_set_words_distinct(p: u32, q: u32)
    requires
        p < PORT_PINS,
        q < PORT_PINS,
        p != q,
    ensures
        (1u32 << p) & (1u32 << q) == 0,
{
    assert((1u32 << p) & (1u32 << q) == 0) by (bit_vector)
        requires p < 16, q < 16, p != q;
}

} // verus!
