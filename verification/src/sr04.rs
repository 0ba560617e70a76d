//! HC-SR04 ultrasonic ranging: echo timing and its conversion to distance.
use vstd::prelude::*;

verus! {

pub const TRIGGER_PULSE_US: u16 = 10;
pub const DEFAULT_TIMEOUT_US: u32 = 200_000;
pub const TIMER1_TICK_US: u16 = 4;

/// Why a measurement produced no echo.
#[derive(Copy, Clone, PartialEq, Eq, Structural, Debug)]
pub enum Sr04Error {
    /// The echo line never went high before the timeout.
    NoPulseStart,
    /// The echo line stayed high past the timeout.
    NoPulseEnd,
}

/// One echo, as the number of 4 us timer ticks it lasted.
#[derive(Copy, Clone, PartialEq, Eq, Structural, Debug)]
pub struct Sr04Reading {
    echo_ticks: u16,
}

pub open spec fn spec_echo_us(echo_ticks: u16) -> int {
    echo_ticks * TIMER1_TICK_US
}

/// Sound travels 1 cm out and back in 58 us; millimetres round to nearest.
pub open spec fn spec_distance_mm(echo_ticks: u16) -> int {
    (spec_echo_us(echo_ticks) * 10 + 29) / 58
}

pub open spec fn spec_distance_cm(echo_ticks: u16) -> int {
    (spec_distance_mm(echo_ticks) + 5) / 10
}

impl Sr04Reading {
    pub closed spec fn ticks(self) -> u16 {
        self.echo_ticks
    }

    pub fn from_echo_ticks(echo_ticks: u16) -> (r: Self)
        ensures
            r.ticks() == echo_ticks,
    {
        Sr04Reading { echo_ticks }
    }

    /// Echo length in microseconds.
    pub fn echo_us(self) -> (r: u32)
        ensures
            r == spec_echo_us(self.ticks()),
    {
        proof {
            assert(self.echo_ticks * 4 <= 262140) by (nonlinear_arith)
                requires
                    self.echo_ticks <= 65535,
            ;
        }
        self.echo_ticks as u32 * TIMER1_TICK_US as u32
    }

    /// Distance to the obstacle in millimetres, rounded to nearest.
    pub fn distance_mm(self) -> (r: u16)
        ensures
            r == spec_distance_mm(self.ticks()),
    {
        let us = self.echo_us();
        proof {
            assert(us * 10 + 29 <= 2621429) by (nonlinear_arith)
                requires
                    us <= 262140,
            ;
        }
        ((us * 10 + 29) / 58) as u16
    }

    /// Distance to the obstacle in centimetres, rounded to nearest.
    pub fn distance_cm(self) -> (r: u16)
        ensures
            r == spec_distance_cm(self.ticks()),
    {
        (self.distance_mm() + 5) / 10
    }
}

/// Timer ticks covering `micros`, rounded up and capped at `u16::MAX`.
pub open spec fn spec_micros_to_ticks(micros: u32) -> int {
    let sum = if micros + 3 > u32::MAX { u32::MAX as int } else { micros + 3 };
    let rounded_up = sum / 4;
    if rounded_up > u16::MAX { u16::MAX as int } else { rounded_up }
}

/// Converts a timeout in microseconds to timer ticks.
pub fn micros_to_ticks(micros: u32) -> (r: u16)
    ensures
        r == spec_micros_to_ticks(micros),
{
    let tick_us = TIMER1_TICK_US as u32;
    let rounded_up = micros.saturating_add(tick_us - 1) / tick_us;
    if rounded_up > u16::MAX as u32 {
        u16::MAX
    } else {
        rounded_up as u16
    }
}

} // verus!

verus! {

/// The tick timeout covers the requested time: it is never shorter, unless
/// the request exceeds what 16 bits of 4 us ticks can count.
pub proof fn lemma_ticks_cover_timeout(micros: u32)
    ensures
        micros <= 4 * 65535 ==> 4 * spec_micros_to_ticks(micros) >= micros,
        micros <= 4 * 65535 ==> 4 * spec_micros_to_ticks(micros) < micros + 4,
        micros > 4 * 65535 ==> spec_micros_to_ticks(micros) == 65535,
{
}

/// A longer echo never reads as a shorter distance.
pub proof fn lemma_distance_monotone(shorter_ticks: u16, longer_ticks: u16)
    requires
        shorter_ticks <= longer_ticks,
    ensures
        spec_distance_mm(shorter_ticks) <= spec_distance_mm(longer_ticks),
        spec_distance_cm(shorter_ticks) <= spec_distance_cm(longer_ticks),
{
    let a = spec_echo_us(shorter_ticks) * 10 + 29;
    let b = spec_echo_us(longer_ticks) * 10 + 29;
    assert(a <= b);
    assert(a / 58 <= b / 58) by (nonlinear_arith)
        requires
            0 <= a <= b,
    ;
    let c = spec_distance_mm(shorter_ticks) + 5;
    let d = spec_distance_mm(longer_ticks) + 5;
    assert(c / 10 <= d / 10) by (nonlinear_arith)
        requires
            0 <= c <= d,
    ;
}

} // verus!
