//! Verified core of a set of Arduino Mega 2560 programs: button debouncing,
//! LED animation state machines, an ultrasonic parking assistant with an OLED
//! dashboard, buzzer tone planning and the bookkeeping of a simulator harness.
use vstd::prelude::*;

pub mod e1;
pub mod e2;
pub mod f02a;
pub mod f03a;
pub mod f12a;
pub mod key4b;
pub mod module_scan;
pub mod sim;
pub mod sr04;
pub mod ws2812;
pub mod ssd1315;

verus! {

} // verus!
