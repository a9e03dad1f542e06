//! The reload value of the periodic timer.

use vstd::prelude::*;

verus! {

/// The rate, in Hz, at which the timer's input counts.
pub const PIT_INPUT_HZ: u32 = 1193180;

/// The number of input counts between two ticks at `frequency_hz`.
pub open spec fn pit_divisor(frequency_hz: u32) -> int {
    PIT_INPUT_HZ as int / frequency_hz as int
}

/// The two bytes that program the timer to tick at `frequency_hz`: the low
/// byte of the divisor, then the next byte up. What lies above the second
/// byte does not reach the timer.
pub fn pit_reload_bytes(frequency_hz: u32) -> (bytes: (u8, u8))
    requires
        frequency_hz > 0,
    ensures
        bytes.0 == pit_divisor(frequency_hz) % 256,
        bytes.1 == (pit_divisor(frequency_hz) / 256) % 256,
{
    let divisor: u32 = PIT_INPUT_HZ / frequency_hz;
    let low: u32 = divisor & 0xFF;
    let high: u32 = (divisor >> 8) & 0xFF;
    assert(low == divisor % 256) by (bit_vector)
        requires
            low == divisor & 0xFF,
    ;
    assert(high == (divisor / 256) % 256) by (bit_vector)
        requires
            high == (divisor >> 8) & 0xFF,
    ;
    (low as u8, high as u8)
}

} // verus!
