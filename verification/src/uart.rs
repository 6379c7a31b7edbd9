//! Baud-rate divisor arithmetic shared with the serial UART collaborator.
//!
//! The UART itself (FIFO handling, interrupt plumbing, register pokes) is a
//! collaborator outside this crate; only its divisor computation is logic
//! worth stating, and it is deterministic in its inputs.

use vstd::prelude::*;

verus! {

/// Splits a clock frequency into the integer and fractional baud-rate
/// divisors for a 16x oversampling UART.
///
/// The integer part is `clock / (16 * baud)`; the fractional part is the
/// remainder scaled to 64 steps, rounded to nearest (half a divisor step is
/// added before truncating).
pub fn get_ti_tf(clock_hz: u32, baude_rate: u32) -> (r: (u32, u32))
    requires
        1 <= baude_rate <= 0x20_0000,
    ensures
        r.0 == clock_hz as int / (16 * baude_rate as int),
        r.1 == ((clock_hz as int % (16 * baude_rate as int)) * 64 + (16 * baude_rate as int)
            / 2) / (16 * baude_rate as int),
{
    let baude_rate_16: u32 = 16 * baude_rate;
    let ti: u32 = clock_hz / baude_rate_16;
    let tf: u32 = clock_hz % baude_rate_16;
    proof {
        assert(clock_hz % baude_rate_16 < baude_rate_16) by (nonlinear_arith)
            requires
                baude_rate_16 >= 1,
        ;
        let b: u32 = baude_rate_16;
        assert(b >> 1 == b / 2) by (bit_vector);
    }
    let tf: u32 = (tf * 64 + (baude_rate_16 >> 1)) / baude_rate_16;
    (ti, tf)
}

} // verus!
