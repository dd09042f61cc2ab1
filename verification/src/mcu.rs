//! Settings that the firmware hands to the microcontroller's peripherals.

use vstd::prelude::*;

verus! {

/// Bits per second on the serial link between the halves.
pub const UART_BAUD: u32 = 38_400;

/// Length of one scheduling tick, in microseconds.
pub const TICK_MICROS: u32 = 1_000;

/// Time within which the watchdog must be fed, in microseconds.
pub const WATCHDOG_MICROS: u32 = 10_000;

/// How the serial link is set up.
#[derive(Clone, Copy, Debug, PartialEq, Eq, Structural)]
pub struct UartSettings {
    /// Bits per second.
    pub baud: u32,
    /// Data bits in a character.
    pub data_bits: u8,
    /// Whether a parity bit follows the data bits.
    pub parity: bool,
    /// Stop bits behind a character.
    pub stop_bits: u8,
}

/// The settings of the link between the halves: 38 400 baud, eight data
/// bits, no parity, one stop bit.
pub fn init_uart() -> (s: UartSettings)
    ensures
        s == (UartSettings { baud: UART_BAUD, data_bits: 8, parity: false, stop_bits: 1 }),
{
    UartSettings { baud: UART_BAUD, data_bits: 8, parity: false, stop_bits: 1 }
}

} // verus!
