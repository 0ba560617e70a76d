//! Passive buzzer driven by timer 2 in CTC mode: tone planning and the
//! schedule that stops a tone.
use vstd::prelude::*;

verus! {

pub const CPU_FREQ_HZ: u32 = 16_000_000;

/// Clock dividers of timer 2, tried from the finest to the coarsest.
#[derive(Copy, Clone, PartialEq, Eq, Structural, Debug)]
pub enum Timer2Prescaler {
    Direct,
    Prescale8,
    Prescale32,
    Prescale64,
    Prescale128,
    Prescale256,
    Prescale1024,
}

/// Timer 2 settings that toggle the pin at twice the tone frequency.
#[derive(Copy, Clone, PartialEq, Eq, Structural, Debug)]
pub struct ToneConfig {
    pub compare: u8,
    pub prescaler: Timer2Prescaler,
}

pub open spec fn spec_divisor(p: Timer2Prescaler) -> int {
    match p {
        Timer2Prescaler::Direct => 1,
        Timer2Prescaler::Prescale8 => 8,
        Timer2Prescaler::Prescale32 => 32,
        Timer2Prescaler::Prescale64 => 64,
        Timer2Prescaler::Prescale128 => 128,
        Timer2Prescaler::Prescale256 => 256,
        Timer2Prescaler::Prescale1024 => 1024,
    }
}

/// The prescalers in the order they are tried.
pub open spec fn spec_prescaler_at(index: int) -> Timer2Prescaler {
    if index == 0 {
        Timer2Prescaler::Direct
    } else if index == 1 {
        Timer2Prescaler::Prescale8
    } else if index == 2 {
        Timer2Prescaler::Prescale32
    } else if index == 3 {
        Timer2Prescaler::Prescale64
    } else if index == 4 {
        Timer2Prescaler::Prescale128
    } else if index == 5 {
        Timer2Prescaler::Prescale256
    } else {
        Timer2Prescaler::Prescale1024
    }
}

/// Timer counts per half period of `frequency_hz` under prescaler `p`,
/// rounded to nearest.
pub open spec fn tone_cycles(p: Timer2Prescaler, frequency_hz: int) -> int {
    let divisor = spec_divisor(p) * frequency_hz * 2;
    (CPU_FREQ_HZ + divisor / 2) / divisor
}

/// The first prescaler, from position `index` on, whose count fits the 8-bit
/// compare register (1 to 256 counts), with that count.
pub open spec fn spec_tone_config_from(frequency_hz: int, index: nat) -> Option<ToneConfig>
    decreases 7 - index,
{
    if index >= 7 {
        None
    } else {
        let p = spec_prescaler_at(index as int);
        let cycles = tone_cycles(p, frequency_hz);
        if cycles == 0 || cycles > 256 {
            spec_tone_config_from(frequency_hz, index + 1)
        } else {
            Some(ToneConfig { compare: (cycles - 1) as u8, prescaler: p })
        }
    }
}

pub open spec fn spec_tone_config(frequency_hz: int) -> Option<ToneConfig> {
    spec_tone_config_from(frequency_hz, 0)
}

impl Timer2Prescaler {
    /// How many CPU cycles make one timer count.
    pub fn divisor(self) -> (r: u32)
        ensures
            r == spec_divisor(self),
    {
        match self {
            Timer2Prescaler::Direct => 1,
            Timer2Prescaler::Prescale8 => 8,
            Timer2Prescaler::Prescale32 => 32,
            Timer2Prescaler::Prescale64 => 64,
            Timer2Prescaler::Prescale128 => 128,
            Timer2Prescaler::Prescale256 => 256,
            Timer2Prescaler::Prescale1024 => 1024,
        }
    }
}

/// Prescaler number `index` in trial order.
pub fn prescaler_at(index: usize) -> (r: Timer2Prescaler)
    requires
        index < 7,
    ensures
        r == spec_prescaler_at(index as int),
{
    if index == 0 {
        Timer2Prescaler::Direct
    } else if index == 1 {
        Timer2Prescaler::Prescale8
    } else if index == 2 {
        Timer2Prescaler::Prescale32
    } else if index == 3 {
        Timer2Prescaler::Prescale64
    } else if index == 4 {
        Timer2Prescaler::Prescale128
    } else if index == 5 {
        Timer2Prescaler::Prescale256
    } else {
        Timer2Prescaler::Prescale1024
    }
}

/// Timer settings for a tone of `frequency_hz`: the finest prescaler whose
/// rounded half-period count fits the 8-bit compare register; `None` when
/// none does.
pub fn tone_config(frequency_hz: u16) -> (r: Option<ToneConfig>)
    requires
        frequency_hz > 0,
    ensures
        r == spec_tone_config(frequency_hz as int),
        r matches Some(c) ==> ({
            let divisor = spec_divisor(c.prescaler) * frequency_hz * 2;
            &&& 1 <= c.compare + 1 <= 256
            &&& CPU_FREQ_HZ - divisor / 2 <= divisor * (c.compare + 1) <= CPU_FREQ_HZ + divisor / 2
        }),
{
    let freq = frequency_hz as u32;
    let mut index: usize = 0;
    while index < 7
        invariant
            0 <= index <= 7,
            1 <= freq <= 65535,
            freq == frequency_hz,
            spec_tone_config(freq as int) == spec_tone_config_from(freq as int, index as nat),
        decreases 7 - index,
    {
        let prescaler = prescaler_at(index);
        let d = prescaler.divisor();
        proof {
            assert(d * freq * 2 <= 1024 * 65535 * 2) by (nonlinear_arith)
                requires
                    1 <= d <= 1024,
                    1 <= freq <= 65535,
            freq == frequency_hz,
            ;
            assert(d * freq * 2 >= 2) by (nonlinear_arith)
                requires
                    1 <= d,
                    1 <= freq,
            ;
        }
        let divisor = d * freq * 2;
        let cycles = (CPU_FREQ_HZ + divisor / 2) / divisor;
        assert(cycles == tone_cycles(prescaler, freq as int));

        if cycles == 0 || cycles > u8::MAX as u32 + 1 {
            index = index + 1;
        } else {
            proof {
                let n: int = CPU_FREQ_HZ + divisor / 2;
                let dv: int = divisor as int;
                assert(dv * cycles <= n < dv * cycles + dv) by (nonlinear_arith)
                    requires
                        cycles == n / dv,
                        dv > 0,
                ;
            }
            return Some(ToneConfig { compare: (cycles - 1) as u8, prescaler });
        }
    }
    None
}

/// `now_ms` is at or past `target_ms` on the wrapping millisecond clock
/// (less than half the clock range after it).
pub open spec fn spec_time_reached(now_ms: u32, target_ms: u32) -> bool {
    (now_ms - target_ms) % 0x1_0000_0000 < 0x8000_0000
}

pub fn time_reached(now_ms: u32, target_ms: u32) -> (r: bool)
    ensures
        r == spec_time_reached(now_ms, target_ms),
{
    assert(1u32 << 31 == 0x8000_0000) by (bit_vector);
    now_ms.wrapping_sub(target_ms) < (1u32 << 31)
}

/// What the buzzer hardware has to do next.
#[derive(Copy, Clone, PartialEq, Eq, Structural, Debug)]
pub enum BuzzerAction {
    /// Stop timer 2 and drive the pin low.
    Silence,
    /// Reprogram timer 2 with this configuration and start it.
    Start(ToneConfig),
}

/// When the current tone has to stop.
pub struct ToneSchedule {
    stop_at_ms: Option<u32>,
}

impl ToneSchedule {
    pub closed spec fn stop_at(&self) -> Option<u32> {
        self.stop_at_ms
    }

    /// Silent, nothing scheduled.
    pub fn new() -> (r: Self)
        ensures
            r.stop_at() == None::<u32>,
    {
        ToneSchedule { stop_at_ms: None }
    }

    /// Plans a tone of `frequency_hz` for `duration_ms` starting at `now_ms`:
    /// a zero duration or frequency, or a frequency timer 2 cannot make,
    /// silences the buzzer instead.
    pub fn play_tone(&mut self, frequency_hz: u16, duration_ms: u32, now_ms: u32) -> (r: BuzzerAction)
        ensures
            if duration_ms == 0 || frequency_hz == 0 || spec_tone_config(frequency_hz as int) is None {
                &&& r == BuzzerAction::Silence
                &&& final(self).stop_at() == None::<u32>
            } else {
                &&& r == BuzzerAction::Start(spec_tone_config(frequency_hz as int)->0)
                &&& final(self).stop_at() == Some(((now_ms + duration_ms) % 0x1_0000_0000) as u32)
            },
    {
        if duration_ms == 0 || frequency_hz == 0 {
            self.silence();
            return BuzzerAction::Silence;
        }
        match tone_config(frequency_hz) {
            Some(config) => {
                self.stop_at_ms = Some(now_ms.wrapping_add(duration_ms));
                BuzzerAction::Start(config)
            },
            None => {
                self.silence();
                BuzzerAction::Silence
            },
        }
    }

    /// At `now_ms`: whether a scheduled stop has been reached, in which case
    /// the buzzer is to be silenced and the schedule is cleared.
    pub fn poll(&mut self, now_ms: u32) -> (r: bool)
        ensures
            r == (old(self).stop_at() matches Some(t) && spec_time_reached(now_ms, t)),
            final(self).stop_at() == if r { None } else { old(self).stop_at() },
    {
        if let Some(stop_at_ms) = self.stop_at_ms {
            if time_reached(now_ms, stop_at_ms) {
                self.silence();
                return true;
            }
        }
        false
    }

    /// Forgets any scheduled stop (the buzzer is silent).
    pub fn silence(&mut self)
        ensures
            final(self).stop_at() == None::<u32>,
    {
        self.stop_at_ms = None;
    }
}

} // verus!

verus! {

/// A stop time set `duration_ms` ahead (with wrap-around) is reached at the
/// moment it was set for, and not before, as long as the duration is under
/// half the clock range.
pub proof fn lemma_stop_time_reached(now_ms: u32, duration_ms: u32)
    requires
        0 < duration_ms < 0x8000_0000,
    ensures
        spec_time_reached(((now_ms + duration_ms) % 0x1_0000_0000) as u32, ((now_ms + duration_ms) % 0x1_0000_0000) as u32),
        !spec_time_reached(now_ms, ((now_ms + duration_ms) % 0x1_0000_0000) as u32),
{
}

} // verus!
