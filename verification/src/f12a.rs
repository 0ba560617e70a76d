//! Ring of twelve WS2812 RGB LEDs: colours and frames.
use vstd::prelude::*;

use crate::sim::DigitalPin;

verus! {

pub const LED_N: usize = 12;

/// A 24-bit colour.
#[derive(Copy, Clone, PartialEq, Eq, Structural, Debug)]
pub struct Rgb8 {
    pub r: u8,
    pub g: u8,
    pub b: u8,
}

pub open spec fn spec_off() -> Rgb8 {
    Rgb8 { r: 0, g: 0, b: 0 }
}

/// Black.
pub fn off() -> (r: Rgb8)
    ensures
        r == spec_off(),
{
    Rgb8 { r: 0, g: 0, b: 0 }
}

/// All LEDs dark.
pub fn blank_frame() -> (r: [Rgb8; LED_N])
    ensures
        forall|i: int| 0 <= i < LED_N ==> #[trigger] r@[i] == spec_off(),
{
    [off(); LED_N]
}

/// The ring's data line: D51, bit 2 of port B, watched by the simulator
/// cases.
pub fn led_data_pin() -> (r: DigitalPin)
    ensures
        r.spec_port() == 'B',
        r.spec_pin() == 2,
{
    DigitalPin::new('B', 2)
}

} // verus!
