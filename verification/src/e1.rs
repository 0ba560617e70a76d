//! "Lantern": a WS2812 ring animated to a tapped rhythm, driven by four keys.
use vstd::prelude::*;

use crate::f03a::xorshift_step;
use crate::f12a::{off, spec_off, Rgb8, LED_N};
use crate::key4b::{ButtonEvent, KEY_N, SW1, SW2, SW3, SW4};

verus! {

pub const LEARN_STEPS: usize = 4;
pub const BRIGHTNESS_LEVEL_N: usize = 3;
pub const LEARN_MIN_GAP_MS: u32 = 90;
pub const LEARN_MAX_GAP_MS: u32 = 900;
pub const LEARN_BLINK_MS: u32 = 180;
pub const RNG_FALLBACK_SEED: u32 = 0xC0DE_2560;

/// The three brightness levels, dimmest first.
pub open spec fn spec_brightness_level(index: int) -> u8 {
    if index == 0 {
        96
    } else if index == 1 {
        160
    } else {
        255
    }
}

/// Brightness level `index`.
pub fn brightness_level(index: usize) -> (r: u8)
    requires
        index < BRIGHTNESS_LEVEL_N,
    ensures
        r == spec_brightness_level(index as int),
{
    if index == 0 {
        96
    } else if index == 1 {
        160
    } else {
        255
    }
}

/// The rhythm played until one is learned.
pub open spec fn spec_default_gaps() -> Seq<u16> {
    seq![220u16, 150u16, 260u16, 340u16]
}

/// Gaps between beats of the default rhythm, in milliseconds.
pub fn default_gaps_ms() -> (r: [u16; LEARN_STEPS])
    ensures
        r@ == spec_default_gaps(),
{
    let r = [220, 150, 260, 340];
    assert(r@ =~= spec_default_gaps());
    r
}

/// The animation drawn while performing.
#[derive(Copy, Clone, PartialEq, Eq, Structural, Debug)]
pub enum Effect {
    Orbit,
    Tide,
}

impl Effect {
    /// The other effect.
    pub fn next(self) -> (r: Self)
        ensures
            r != self,
    {
        match self {
            Effect::Orbit => Effect::Tide,
            Effect::Tide => Effect::Orbit,
        }
    }
}

/// Which way the animation runs round the ring.
#[derive(Copy, Clone, PartialEq, Eq, Structural, Debug)]
pub enum Direction {
    Forward,
    Reverse,
}

impl Direction {
    /// The opposite direction.
    pub fn toggled(self) -> (r: Self)
        ensures
            r != self,
    {
        match self {
            Direction::Forward => Direction::Reverse,
            Direction::Reverse => Direction::Forward,
        }
    }
}

/// Four beats: the gap before each and the key colour that accents it.
#[derive(Copy, Clone, Debug)]
pub struct RhythmPattern {
    pub gaps_ms: [u16; LEARN_STEPS],
    pub accents: [u8; LEARN_STEPS],
}

pub open spec fn spec_default_accents() -> Seq<u8> {
    seq![SW1 as u8, SW2 as u8, SW3 as u8, SW4 as u8]
}

impl RhythmPattern {
    /// The default rhythm, each beat accented by the next key in turn.
    pub fn default() -> (r: Self)
        ensures
            r.gaps_ms@ == spec_default_gaps(),
            r.accents@ == spec_default_accents(),
    {
        let accents = [SW1 as u8, SW2 as u8, SW3 as u8, SW4 as u8];
        assert(accents@ =~= spec_default_accents());
        RhythmPattern { gaps_ms: default_gaps_ms(), accents }
    }
}

/// Taps recorded so far while learning a rhythm.
#[derive(Copy, Clone, Debug)]
pub struct LearnCapture {
    pub count: usize,
    pub last_tap_ms: u32,
    pub gaps_ms: [u16; LEARN_STEPS],
    pub accents: [u8; LEARN_STEPS],
}

impl LearnCapture {
    /// Nothing tapped yet; the first gap is measured from `now_ms`.
    pub fn new(now_ms: u32) -> (r: Self)
        ensures
            r.count == 0,
            r.last_tap_ms == now_ms,
            r.gaps_ms@ == spec_default_gaps(),
            r.accents@ == spec_default_accents(),
    {
        LearnCapture {
            count: 0,
            last_tap_ms: now_ms,
            gaps_ms: default_gaps_ms(),
            accents: RhythmPattern::default().accents,
        }
    }
}

/// Performing the current rhythm, or learning a new one.
#[derive(Copy, Clone, Debug)]
pub enum SceneMode {
    Perform,
    Learn(LearnCapture),
}

/// The generator that picks palettes.
pub struct XorShift32 {
    state: u32,
}

impl XorShift32 {
    pub closed spec fn state(&self) -> u32 {
        self.state
    }

    /// Seeds the generator; a zero seed is replaced by the fallback seed.
    pub fn new(seed: u32) -> (r: Self)
        ensures
            r.state() == if seed == 0 { RNG_FALLBACK_SEED } else { seed },
    {
        let state = if seed == 0 { RNG_FALLBACK_SEED } else { seed };
        XorShift32 { state }
    }

    /// Advances the generator (xorshift32 with a non-zero fallback) and
    /// returns its new state.
    pub fn next_u32(&mut self) -> (r: u32)
        ensures
            r == xorshift_step(old(self).state(), RNG_FALLBACK_SEED),
            final(self).state() == r,
            r != 0,
    {
        let mut x = self.state;
        x ^= x << 13u32;
        x ^= x >> 17u32;
        x ^= x << 5u32;

        if x == 0 {
            x = RNG_FALLBACK_SEED;
        }

        self.state = x;
        x
    }
}

/// The generator seed from a free-running timer count.
pub fn seed_from_timer(timer_count: u8) -> (r: u32)
    ensures
        r == (timer_count as u32 ^ RNG_FALLBACK_SEED),
{
    timer_count as u32 ^ RNG_FALLBACK_SEED
}

/// Position on the ring of step `index` of an animation running `direction`.
pub open spec fn spec_map_index(index: int, direction: Direction) -> int {
    match direction {
        Direction::Forward => index,
        Direction::Reverse => LED_N - 1 - index,
    }
}

pub fn map_index(index: usize, direction: Direction) -> (r: usize)
    requires
        index < LED_N,
    ensures
        r == spec_map_index(index as int, direction),
        r < LED_N,
{
    match direction {
        Direction::Forward => index,
        Direction::Reverse => LED_N - 1 - index,
    }
}

pub open spec fn spec_clamp_gap(value_ms: u32) -> u32 {
    if value_ms < LEARN_MIN_GAP_MS {
        LEARN_MIN_GAP_MS
    } else if value_ms > LEARN_MAX_GAP_MS {
        LEARN_MAX_GAP_MS
    } else {
        value_ms
    }
}

/// A tapped gap, kept between 90 ms and 900 ms.
pub fn clamp_gap(value_ms: u32) -> (r: u32)
    ensures
        r == spec_clamp_gap(value_ms),
        LEARN_MIN_GAP_MS <= r <= LEARN_MAX_GAP_MS,
{
    if value_ms < LEARN_MIN_GAP_MS {
        LEARN_MIN_GAP_MS
    } else if value_ms > LEARN_MAX_GAP_MS {
        LEARN_MAX_GAP_MS
    } else {
        value_ms
    }
}

pub open spec fn spec_scale_rgb(color: Rgb8, level: u8) -> Rgb8 {
    Rgb8 {
        r: (color.r * level / 255) as u8,
        g: (color.g * level / 255) as u8,
        b: (color.b * level / 255) as u8,
    }
}

proof fn lemma_scale_channel(c: u8, level: u8)
    ensures
        0 <= c * level <= 65025,
        c * level / 255 <= c,
{
    assert(0 <= c * level <= 255 * 255) by (nonlinear_arith)
        requires
            0 <= c <= 255,
            0 <= level <= 255,
    ;
    assert(c * level <= c * 255) by (nonlinear_arith)
        requires
            0 <= c,
            0 <= level <= 255,
    ;
}

/// Dims `color` to `level`/255 of its intensity (rounding down).
pub fn scale_rgb(color: Rgb8, level: u8) -> (r: Rgb8)
    ensures
        r == spec_scale_rgb(color, level),
        r.r <= color.r && r.g <= color.g && r.b <= color.b,
{
    proof {
        lemma_scale_channel(color.r, level);
        lemma_scale_channel(color.g, level);
        lemma_scale_channel(color.b, level);
    }
    Rgb8 {
        r: ((color.r as u16 * level as u16) / 255) as u8,
        g: ((color.g as u16 * level as u16) / 255) as u8,
        b: ((color.b as u16 * level as u16) / 255) as u8,
    }
}

} // verus!

verus! {

pub open spec fn spec_effect_next(e: Effect) -> Effect {
    match e {
        Effect::Orbit => Effect::Tide,
        Effect::Tide => Effect::Orbit,
    }
}

pub open spec fn spec_toggled(d: Direction) -> Direction {
    match d {
        Direction::Forward => Direction::Reverse,
        Direction::Reverse => Direction::Forward,
    }
}

/// The whole state of the lantern.
pub struct LanternController {
    pub effect: Effect,
    pub direction: Direction,
    pub rhythm: RhythmPattern,
    pub key_colors: [Rgb8; KEY_N],
    pub brightness_index: usize,
    pub mode: SceneMode,
    pub beat_index: usize,
    pub animation_step: usize,
    pub next_step_ms: u32,
    pub learn_blink_phase: u32,
}

/// The colour of key `accent`, at the current brightness.
pub open spec fn spec_bright_color(c: LanternController, accent: int) -> Rgb8 {
    spec_scale_rgb(c.key_colors@[accent % (KEY_N as int)], spec_brightness_level(c.brightness_index as int))
}

/// The colour of beat `beat` of the rhythm.
pub open spec fn beat_color(c: LanternController, beat: int) -> Rgb8 {
    spec_bright_color(c, c.rhythm.accents@[beat % (LEARN_STEPS as int)] as int)
}

/// Orbit: four comets a third of the ring apart, each a head in its beat's
/// colour with a dimmed tail one step behind; step `u` of the ring.
pub open spec fn orbit_pixel(c: LanternController, u: int) -> Rgb8 {
    let d = (u - c.animation_step as int) % (LED_N as int);
    if d % 3 == 0 {
        beat_color(c, c.beat_index + d / 3)
    } else if d % 3 == 2 {
        spec_scale_rgb(beat_color(c, c.beat_index + (d + 1) / 3), 96)
    } else {
        spec_off()
    }
}

/// How many LEDs the tide has filled: it rises by one per animation step
/// up to the full ring, then falls back.
pub open spec fn tide_fill(c: LanternController) -> int {
    let phase = (c.animation_step as int) % (2 * LED_N as int);
    if phase < LED_N { phase + 1 } else { 2 * LED_N - phase - 1 }
}

/// Tide: the filled steps in successive beat colours, then a dim guide
/// pixel in the current beat's colour.
pub open spec fn tide_pixel(c: LanternController, u: int) -> Rgb8 {
    let fill_n = tide_fill(c);
    if u < fill_n {
        beat_color(c, c.beat_index + u)
    } else if u == fill_n {
        spec_scale_rgb(beat_color(c, c.beat_index as int), 72)
    } else {
        spec_off()
    }
}

/// Learning: one group of three LEDs per beat; recorded taps show their key
/// colour, the next one blinks grey, the rest show a faint blue dot.
pub open spec fn learning_pixel(c: LanternController, capture: LearnCapture, now_ms: u32, p: int) -> Rgb8 {
    let slot = p / 3;
    let center = p % 3 == 1;
    if slot < capture.count {
        let color = spec_bright_color(c, capture.accents@[slot] as int);
        if center { color } else { spec_scale_rgb(color, 96) }
    } else if slot == capture.count && (now_ms / LEARN_BLINK_MS) % 2 == 0 {
        if center {
            spec_scale_rgb(Rgb8 { r: 64, g: 64, b: 64 }, spec_brightness_level(c.brightness_index as int))
        } else {
            spec_off()
        }
    } else {
        if center { Rgb8 { r: 0, g: 0, b: 4 } } else { spec_off() }
    }
}

/// The frame shown at `now_ms`: LED `j` of the ring.
pub open spec fn frame_pixel(c: LanternController, now_ms: u32, j: int) -> Rgb8 {
    match c.mode {
        SceneMode::Perform => match c.effect {
            Effect::Orbit => orbit_pixel(c, spec_map_index(j, c.direction)),
            Effect::Tide => tide_pixel(c, spec_map_index(j, c.direction)),
        },
        SceneMode::Learn(capture) => learning_pixel(c, capture, now_ms, j),
    }
}

impl LanternController {
    /// Indices stay in range: a brightness level, a beat, a tap slot.
    pub open spec fn wf(&self) -> bool {
        &&& self.brightness_index < BRIGHTNESS_LEVEL_N
        &&& self.beat_index < LEARN_STEPS
        &&& (self.mode matches SceneMode::Learn(c) ==> c.count < LEARN_STEPS)
    }

    /// Performs the orbit with the default rhythm and the given key colours,
    /// at the middle brightness; the first beat falls 220 ms after `now_ms`.
    pub fn new(key_colors: [Rgb8; KEY_N], now_ms: u32) -> (r: Self)
        requires
            now_ms + 220 <= u32::MAX,
        ensures
            r.wf(),
            r.effect == Effect::Orbit,
            r.direction == Direction::Forward,
            r.rhythm.gaps_ms@ == spec_default_gaps(),
            r.rhythm.accents@ == spec_default_accents(),
            r.key_colors == key_colors,
            r.brightness_index == 1,
            r.mode is Perform,
            r.beat_index == 0,
            r.animation_step == 0,
            r.next_step_ms == now_ms + 220,
            r.learn_blink_phase == now_ms / LEARN_BLINK_MS,
    {
        let rhythm = RhythmPattern::default();
        LanternController {
            effect: Effect::Orbit,
            direction: Direction::Forward,
            rhythm,
            key_colors,
            brightness_index: 1,
            mode: SceneMode::Perform,
            beat_index: 0,
            animation_step: 0,
            next_step_ms: now_ms + rhythm.gaps_ms[0] as u32,
            learn_blink_phase: now_ms / LEARN_BLINK_MS,
        }
    }

    /// Replaces the key colours (after a new palette was generated).
    pub fn set_key_colors(&mut self, key_colors: [Rgb8; KEY_N])
        ensures
            *final(self) == (LanternController { key_colors, ..*old(self) }),
    {
        self.key_colors = key_colors;
    }

    /// Restarts the rhythm at its first beat, which falls one gap after
    /// `now_ms`.
    pub fn reset_transport(&mut self, now_ms: u32)
        requires
            now_ms + old(self).rhythm.gaps_ms@[0] <= u32::MAX,
        ensures
            *final(self) == (LanternController {
                beat_index: 0,
                animation_step: 0,
                next_step_ms: (now_ms + old(self).rhythm.gaps_ms@[0]) as u32,
                learn_blink_phase: now_ms / LEARN_BLINK_MS,
                ..*old(self)
            }),
    {
        self.beat_index = 0;
        self.animation_step = 0;
        self.next_step_ms = now_ms + self.rhythm.gaps_ms[0] as u32;
        self.learn_blink_phase = now_ms / LEARN_BLINK_MS;
    }

    /// The colour of key `accent` at the current brightness.
    pub fn bright_color(&self, accent: usize) -> (r: Rgb8)
        requires
            self.wf(),
        ensures
            r == spec_bright_color(*self, accent as int),
    {
        scale_rgb(self.key_colors[accent % KEY_N], brightness_level(self.brightness_index))
    }
}

} // verus!

verus! {

/// A tap at `now_ms` can be recorded without the clock arithmetic
/// overflowing: it is not before the previous tap, and the tap that
/// completes the rhythm leaves room for the first gap.
pub open spec fn tap_time_ok(c: LanternController, now_ms: u32) -> bool {
    c.mode matches SceneMode::Learn(capture) ==> {
        &&& now_ms >= capture.last_tap_ms
        &&& capture.count + 1 >= LEARN_STEPS ==> now_ms + (if capture.count == 0 {
            spec_clamp_gap((now_ms - capture.last_tap_ms) as u32) as int
        } else {
            capture.gaps_ms@[0] as int
        }) <= u32::MAX
    }
}

/// The capture after a tap of `key` at `now_ms`.
pub open spec fn spec_record_tap(capture: LearnCapture, key: usize, now_ms: u32, after: LearnCapture) -> bool {
    &&& after.count == capture.count + 1
    &&& after.last_tap_ms == now_ms
    &&& after.gaps_ms@ == capture.gaps_ms@.update(
        capture.count as int,
        spec_clamp_gap((now_ms - capture.last_tap_ms) as u32) as u16,
    )
    &&& after.accents@ == capture.accents@.update(capture.count as int, key as u8)
}

/// What a short press of `key` at `now_ms` does to the lantern `c` (now
/// `fin`) and to the generator's state `rng0` (now `rng1`), with the draw
/// `r` it hands out for a new palette.
pub open spec fn short_press_done(
    c: LanternController,
    rng0: u32,
    key: usize,
    now_ms: u32,
    fin: LanternController,
    rng1: u32,
    r: Option<u32>,
) -> bool {
    match c.mode {
        SceneMode::Perform => {
            &&& r == if key == SW2 {
                Some(xorshift_step(rng0, RNG_FALLBACK_SEED))
            } else {
                None::<u32>
            }
            &&& rng1 == if key == SW2 {
                xorshift_step(rng0, RNG_FALLBACK_SEED)
            } else {
                rng0
            }
            &&& fin == if key == SW1 {
                LanternController { effect: spec_effect_next(c.effect), ..c }
            } else if key == SW3 {
                LanternController { direction: spec_toggled(c.direction), ..c }
            } else if key == SW4 {
                LanternController {
                    brightness_index: ((c.brightness_index + 1) % (BRIGHTNESS_LEVEL_N as int)) as usize,
                    ..c
                }
            } else {
                c
            }
        },
        SceneMode::Learn(capture) => {
            &&& r == None::<u32>
            &&& rng1 == rng0
            &&& exists|after: LearnCapture|
                #[trigger] spec_record_tap(capture, key, now_ms, after) && if after.count >= LEARN_STEPS {
                    fin == LanternController {
                        rhythm: RhythmPattern { gaps_ms: after.gaps_ms, accents: after.accents },
                        mode: SceneMode::Perform,
                        beat_index: 0,
                        animation_step: 0,
                        next_step_ms: (now_ms + after.gaps_ms@[0]) as u32,
                        learn_blink_phase: now_ms / LEARN_BLINK_MS,
                        ..c
                    }
                } else {
                    fin == LanternController { mode: SceneMode::Learn(after), ..c }
                }
        },
    }
}

/// A long press of `key` at `now_ms` keeps the clock arithmetic in range:
/// restarting the rhythm leaves room for its first gap.
pub open spec fn long_press_time_ok(c: LanternController, key: usize, now_ms: u32) -> bool {
    &&& now_ms + 220 <= u32::MAX || !(c.mode is Perform && key == SW4)
    &&& now_ms + c.rhythm.gaps_ms@[0] <= u32::MAX || !(c.mode is Learn && key == SW1)
}

/// What a long press of `key` at `now_ms` does to the lantern `c` (now
/// `fin`).
pub open spec fn long_press_done(c: LanternController, key: usize, now_ms: u32, fin: LanternController) -> bool {
    match c.mode {
        SceneMode::Perform => if key == SW1 {
            &&& fin.mode matches SceneMode::Learn(cap) && cap.count == 0 && cap.last_tap_ms == now_ms
                && cap.gaps_ms@ == spec_default_gaps() && cap.accents@ == spec_default_accents()
            &&& fin == LanternController {
                mode: fin.mode,
                learn_blink_phase: now_ms / LEARN_BLINK_MS,
                ..c
            }
        } else if key == SW4 {
            &&& fin.rhythm.gaps_ms@ == spec_default_gaps()
            &&& fin.rhythm.accents@ == spec_default_accents()
            &&& fin == LanternController {
                rhythm: fin.rhythm,
                mode: SceneMode::Perform,
                beat_index: 0,
                animation_step: 0,
                next_step_ms: (now_ms + 220) as u32,
                learn_blink_phase: now_ms / LEARN_BLINK_MS,
                ..c
            }
        } else {
            fin == c
        },
        SceneMode::Learn(_) => if key == SW1 {
            fin == LanternController {
                mode: SceneMode::Perform,
                beat_index: 0,
                animation_step: 0,
                next_step_ms: (now_ms + c.rhythm.gaps_ms@[0]) as u32,
                learn_blink_phase: now_ms / LEARN_BLINK_MS,
                ..c
            }
        } else {
            fin == c
        },
    }
}

impl LanternController {
    /// A short press of `key` at `now_ms`. While performing: SW1 switches
    /// the effect, SW3 reverses the direction, SW4 cycles the brightness and
    /// SW2 draws a number from `rng` and returns it, for a new palette to be
    /// made from it (see `set_key_colors`). While learning: the press is a
    /// tap; its gap (clamped to 90..900 ms) and key are recorded, and the
    /// fourth tap makes the new rhythm current and restarts it.
    pub fn handle_short_press(&mut self, key: usize, now_ms: u32, rng: &mut XorShift32) -> (r: Option<u32>)
        requires
            old(self).wf(),
            tap_time_ok(*old(self), now_ms),
        ensures
            final(self).wf(),
            short_press_done(*old(self), old(rng).state(), key, now_ms, *final(self), final(rng).state(), r),
    {
        match self.mode {
            SceneMode::Perform => {
                if key == SW1 {
                    self.effect = self.effect.next();
                } else if key == SW2 {
                    return Some(rng.next_u32());
                } else if key == SW3 {
                    self.direction = self.direction.toggled();
                } else if key == SW4 {
                    self.brightness_index = (self.brightness_index + 1) % BRIGHTNESS_LEVEL_N;
                }
                None
            },
            SceneMode::Learn(mut capture) => {
                let ghost before = capture;
                let gap_ms = clamp_gap(now_ms - capture.last_tap_ms);
                capture.gaps_ms[capture.count] = gap_ms as u16;
                capture.accents[capture.count] = key as u8;
                capture.last_tap_ms = now_ms;
                capture.count += 1;
                assert(spec_record_tap(before, key, now_ms, capture));

                if capture.count >= LEARN_STEPS {
                    self.rhythm = RhythmPattern { gaps_ms: capture.gaps_ms, accents: capture.accents };
                    self.mode = SceneMode::Perform;
                    self.reset_transport(now_ms);
                } else {
                    self.mode = SceneMode::Learn(capture);
                }
                None
            },
        }
    }

    /// Applies one drained key event at `now_ms`: a short or long press is
    /// handled as above and marks the frame for redrawing; no event changes
    /// nothing. Returns whether to redraw, and the draw for a new palette.
    pub fn apply_event(&mut self, key: usize, event: ButtonEvent, now_ms: u32, rng: &mut XorShift32) -> (r: (
        bool,
        Option<u32>,
    ))
        requires
            old(self).wf(),
            event == ButtonEvent::Short ==> tap_time_ok(*old(self), now_ms),
            event == ButtonEvent::Long ==> long_press_time_ok(*old(self), key, now_ms),
        ensures
            final(self).wf(),
            match event {
                ButtonEvent::Idle => {
                    &&& r == (false, None::<u32>)
                    &&& *final(self) == *old(self)
                    &&& final(rng).state() == old(rng).state()
                },
                ButtonEvent::Short => {
                    &&& r.0
                    &&& short_press_done(*old(self), old(rng).state(), key, now_ms, *final(self), final(rng).state(), r.1)
                },
                ButtonEvent::Long => {
                    &&& r == (true, None::<u32>)
                    &&& long_press_done(*old(self), key, now_ms, *final(self))
                    &&& final(rng).state() == old(rng).state()
                },
            },
    {
        match event {
            ButtonEvent::Short => (true, self.handle_short_press(key, now_ms, rng)),
            ButtonEvent::Long => {
                self.handle_long_press(key, now_ms);
                (true, None)
            },
            ButtonEvent::Idle => (false, None),
        }
    }

    /// A long press of `key` at `now_ms`. While performing, SW1 starts
    /// learning a rhythm and SW4 restores the default rhythm (restarting it);
    /// while learning, SW1 abandons the capture and resumes performing.
    pub fn handle_long_press(&mut self, key: usize, now_ms: u32)
        requires
            old(self).wf(),
            long_press_time_ok(*old(self), key, now_ms),
        ensures
            final(self).wf(),
            long_press_done(*old(self), key, now_ms, *final(self)),
    {
        match self.mode {
            SceneMode::Perform => {
                if key == SW1 {
                    self.mode = SceneMode::Learn(LearnCapture::new(now_ms));
                    self.learn_blink_phase = now_ms / LEARN_BLINK_MS;
                } else if key == SW4 {
                    self.rhythm = RhythmPattern::default();
                    self.mode = SceneMode::Perform;
                    self.reset_transport(now_ms);
                }
            },
            SceneMode::Learn(_) => {
                if key == SW1 {
                    self.mode = SceneMode::Perform;
                    self.reset_transport(now_ms);
                }
            },
        }
    }

    /// Advances the animation at `now_ms`; returns whether the frame
    /// changed. Performing, a beat is due once `now_ms` reaches the next
    /// step time; the next beat's gap then sets the following one. Learning,
    /// the frame changes whenever the 180 ms blink phase does.
    pub fn tick(&mut self, now_ms: u32) -> (r: bool)
        requires
            old(self).wf(),
            old(self).mode is Perform && now_ms >= old(self).next_step_ms ==> now_ms
                + old(self).rhythm.gaps_ms@[(old(self).beat_index + 1) % (LEARN_STEPS as int)] <= u32::MAX,
        ensures
            final(self).wf(),
            match old(self).mode {
                SceneMode::Perform => if now_ms < old(self).next_step_ms {
                    !r && *final(self) == *old(self)
                } else {
                    let beat = (old(self).beat_index + 1) % (LEARN_STEPS as int);
                    &&& r
                    &&& *final(self) == LanternController {
                        animation_step: if old(self).animation_step == usize::MAX {
                            0
                        } else {
                            (old(self).animation_step + 1) as usize
                        },
                        beat_index: beat as usize,
                        next_step_ms: (now_ms + old(self).rhythm.gaps_ms@[beat]) as u32,
                        ..*old(self)
                    }
                },
                SceneMode::Learn(_) => if now_ms / LEARN_BLINK_MS == old(self).learn_blink_phase {
                    !r && *final(self) == *old(self)
                } else {
                    r && *final(self) == LanternController { learn_blink_phase: now_ms / LEARN_BLINK_MS, ..*old(self) }
                },
            },
    {
        match self.mode {
            SceneMode::Perform => {
                if now_ms < self.next_step_ms {
                    return false;
                }
                self.animation_step = self.animation_step.wrapping_add(1);
                self.beat_index = (self.beat_index + 1) % LEARN_STEPS;
                self.next_step_ms = now_ms + self.rhythm.gaps_ms[self.beat_index] as u32;
                true
            },
            SceneMode::Learn(_) => {
                let phase = now_ms / LEARN_BLINK_MS;
                if phase == self.learn_blink_phase {
                    return false;
                }
                self.learn_blink_phase = phase;
                true
            },
        }
    }
}

} // verus!

verus! {

/// Orbit after the comets of the first `n` slots have been drawn.
pub open spec fn orbit_partial(c: LanternController, u: int, n: int) -> Rgb8 {
    let d = (u - c.animation_step as int) % (LED_N as int);
    if d % 3 == 0 && d / 3 < n {
        beat_color(c, c.beat_index + d / 3)
    } else if d % 3 == 2 && ((d + 1) / 3) % 4 < n {
        spec_scale_rgb(beat_color(c, c.beat_index + (d + 1) / 3), 96)
    } else {
        spec_off()
    }
}

/// On a ring of twelve, `u` is `k` steps after `anim` exactly when it is
/// the position `(anim + k) % 12`.
proof fn lemma_ring_offset(u: int, anim: int, k: int)
    requires
        0 <= u < 12,
        anim >= 0,
        0 <= k < 12,
    ensures
        ((u - anim) % 12 == k) == (u == (anim + k) % 12),
{
    let q = anim / 12;
    let r = anim % 12;
    assert(anim == 12 * q + r);
    assert((u - anim) % 12 == (u - r) % 12) by {
        assert(u - anim == (u - r) + 12 * (-q));
        vstd::arithmetic::div_mod::lemma_mod_multiples_vanish(-q, u - r, 12);
    }
    assert((anim + k) % 12 == (r + k) % 12) by {
        assert(anim + k == (r + k) + 12 * q);
        vstd::arithmetic::div_mod::lemma_mod_multiples_vanish(q, r + k, 12);
    }
}

#[verifier::spinoff_prover]
#[verifier::rlimit(40)]
proof fn lemma_orbit_slot(c: LanternController, slot: int, base: int, before: Seq<Rgb8>, after: Seq<Rgb8>)
    requires
        0 <= slot < 4,
        base == (c.animation_step as int + slot * 3) % 12,
        before.len() == LED_N,
        forall|j: int| 0 <= j < LED_N ==> #[trigger] before[j] == orbit_partial(c, spec_map_index(j, c.direction), slot),
        after == before.update(spec_map_index(base, c.direction), beat_color(c, c.beat_index + slot)).update(
            spec_map_index((base + 11) % 12, c.direction),
            spec_scale_rgb(beat_color(c, c.beat_index + slot), 96),
        ),
    ensures
        forall|j: int| 0 <= j < LED_N ==> #[trigger] after[j] == orbit_partial(c, spec_map_index(j, c.direction), slot + 1),
{
    let anim = c.animation_step as int;
    let tail_k = (slot * 3 + 11) % 12;
    assert((base + 11) % 12 == (anim + tail_k) % 12);
    assert forall|j: int| 0 <= j < LED_N implies #[trigger] after[j] == orbit_partial(c, spec_map_index(j, c.direction), slot + 1) by {
        let u = spec_map_index(j, c.direction);
        assert(spec_map_index(u, c.direction) == j);
        lemma_ring_offset(u, anim, slot * 3);
        lemma_ring_offset(u, anim, tail_k);
        let d = (u - anim) % 12;
        if u == base {
            assert(d == slot * 3);
        } else if u == (base + 11) % 12 {
            assert(d == tail_k);
            assert(d % 3 == 2);
            assert(((d + 1) / 3) % 4 == slot);
        } else {
            assert(d != slot * 3);
            assert(d != tail_k);
            assert(after[j] == before[j]);
        }
    }
}

impl LanternController {
    /// Draws the orbit effect.
    pub fn render_orbit(&self, frame: &mut [Rgb8; LED_N])
        requires
            self.wf(),
            self.animation_step + 9 <= usize::MAX,
        ensures
            forall|j: int| 0 <= j < LED_N ==> #[trigger] final(frame)@[j] == orbit_pixel(*self, spec_map_index(j, self.direction)),
    {
        let mut i: usize = 0;
        while i < LED_N
            invariant
                0 <= i <= LED_N,
                forall|j: int| 0 <= j < i ==> #[trigger] frame@[j] == spec_off(),
            decreases LED_N - i,
        {
            frame[i] = off();
            i = i + 1;
        }
        let mut slot: usize = 0;
        while slot < LEARN_STEPS
            invariant
                0 <= slot <= LEARN_STEPS,
                self.wf(),
                self.animation_step + 9 <= usize::MAX,
                forall|j: int|
                    0 <= j < LED_N ==> #[trigger] frame@[j] == orbit_partial(*self, spec_map_index(j, self.direction), slot as int),
            decreases LEARN_STEPS - slot,
        {
            let base = (self.animation_step + slot * 3) % LED_N;
            let head = map_index(base, self.direction);
            let tail = map_index((base + LED_N - 1) % LED_N, self.direction);
            let accent = self.rhythm.accents[(self.beat_index + slot) % LEARN_STEPS] as usize;
            let color = self.bright_color(accent);
            let ghost before = frame@;
            frame[head] = color;
            frame[tail] = scale_rgb(color, 96);
            proof {
                assert(color == beat_color(*self, self.beat_index + slot));
                assert(frame@ == before.update(head as int, color).update(tail as int, spec_scale_rgb(color, 96)));
                lemma_orbit_slot(*self, slot as int, base as int, before, frame@);
            }
            slot = slot + 1;
        }
    }

    /// Draws the tide effect.
    pub fn render_tide(&self, frame: &mut [Rgb8; LED_N])
        requires
            self.wf(),
        ensures
            forall|j: int| 0 <= j < LED_N ==> #[trigger] final(frame)@[j] == tide_pixel(*self, spec_map_index(j, self.direction)),
    {
        let mut i: usize = 0;
        while i < LED_N
            invariant
                0 <= i <= LED_N,
                forall|j: int| 0 <= j < i ==> #[trigger] frame@[j] == spec_off(),
            decreases LED_N - i,
        {
            frame[i] = off();
            i = i + 1;
        }
        let cycle = LED_N * 2;
        let phase = self.animation_step % cycle;
        let fill_n = if phase < LED_N {
            phase + 1
        } else {
            cycle - phase - 1
        };
        assert(fill_n == tide_fill(*self));
        let mut index: usize = 0;
        while index < fill_n
            invariant
                0 <= index <= fill_n,
                fill_n <= LED_N,
                fill_n == tide_fill(*self),
                self.wf(),
                forall|j: int|
                    0 <= j < LED_N ==> #[trigger] frame@[j] == (if spec_map_index(j, self.direction) < index {
                        tide_pixel(*self, spec_map_index(j, self.direction))
                    } else {
                        spec_off()
                    }),
            decreases fill_n - index,
        {
            let pos = map_index(index, self.direction);
            let accent = self.rhythm.accents[(self.beat_index + index) % LEARN_STEPS] as usize;
            frame[pos] = self.bright_color(accent);
            proof {
                assert(spec_map_index(pos as int, self.direction) == index);
            }
            index = index + 1;
        }
        if fill_n < LED_N {
            let guide = map_index(fill_n, self.direction);
            let accent = self.rhythm.accents[self.beat_index] as usize;
            frame[guide] = scale_rgb(self.bright_color(accent), 72);
            proof {
                assert(spec_map_index(guide as int, self.direction) == fill_n);
            }
        }
    }

    /// Draws the learning view for `capture` at `now_ms`.
    pub fn render_learning(&self, frame: &mut [Rgb8; LED_N], capture: &LearnCapture, now_ms: u32)
        requires
            self.wf(),
        ensures
            forall|j: int| 0 <= j < LED_N ==> #[trigger] final(frame)@[j] == learning_pixel(*self, *capture, now_ms, j),
    {
        let mut i: usize = 0;
        while i < LED_N
            invariant
                0 <= i <= LED_N,
                forall|j: int| 0 <= j < i ==> #[trigger] frame@[j] == spec_off(),
            decreases LED_N - i,
        {
            frame[i] = Rgb8 { r: 0, g: 0, b: 0 };
            i = i + 1;
        }
        let mut slot: usize = 0;
        while slot < LEARN_STEPS
            invariant
                0 <= slot <= LEARN_STEPS,
                self.wf(),
                forall|j: int|
                    0 <= j < LED_N ==> #[trigger] frame@[j] == (if j / 3 < slot {
                        learning_pixel(*self, *capture, now_ms, j)
                    } else {
                        spec_off()
                    }),
            decreases LEARN_STEPS - slot,
        {
            let start = slot * 3;
            let center = start + 1;
            if slot < capture.count {
                let color = self.bright_color(capture.accents[slot] as usize);
                frame[start] = scale_rgb(color, 96);
                frame[center] = color;
                frame[start + 2] = scale_rgb(color, 96);
            } else if slot == capture.count && (now_ms / LEARN_BLINK_MS) % 2 == 0 {
                frame[center] = scale_rgb(Rgb8 { r: 64, g: 64, b: 64 }, brightness_level(self.brightness_index));
            } else {
                frame[center] = Rgb8 { r: 0, g: 0, b: 4 };
            }
            slot = slot + 1;
        }
    }

    /// Draws the frame for the current mode and effect at `now_ms`.
    pub fn render(&self, frame: &mut [Rgb8; LED_N], now_ms: u32)
        requires
            self.wf(),
            self.mode is Perform && self.effect == Effect::Orbit ==> self.animation_step + 9 <= usize::MAX,
        ensures
            forall|j: int| 0 <= j < LED_N ==> #[trigger] final(frame)@[j] == frame_pixel(*self, now_ms, j),
    {
        match &self.mode {
            SceneMode::Perform => match self.effect {
                Effect::Orbit => self.render_orbit(frame),
                Effect::Tide => self.render_tide(frame),
            },
            SceneMode::Learn(capture) => self.render_learning(frame, capture, now_ms),
        }
    }
}

} // verus!

verus! {

/// Three brightness presses come back to the starting level.
pub proof fn lemma_brightness_cycles(b: int)
    requires
        0 <= b < BRIGHTNESS_LEVEL_N,
    ensures
        (((b + 1) % 3 + 1) % 3 + 1) % 3 == b,
        forall|n: int| 0 <= n < 3 ==> #[trigger] spec_brightness_level(n) >= 96,
{
}

/// Switching the effect or the direction twice changes nothing.
pub proof fn lemma_toggles_are_involutions(e: Effect, d: Direction)
    ensures
        spec_effect_next(spec_effect_next(e)) == e,
        spec_effect_next(e) != e,
        spec_toggled(spec_toggled(d)) == d,
        spec_toggled(d) != d,
{
}

/// Running an animation in reverse mirrors it: the ring index of step `u`
/// and the step at ring index `j` undo each other.
pub proof fn lemma_map_index_involution(u: int, d: Direction)
    requires
        0 <= u < LED_N,
    ensures
        0 <= spec_map_index(u, d) < LED_N,
        spec_map_index(spec_map_index(u, d), d) == u,
{
}

/// Every gap a tap records lies between 90 ms and 900 ms.
pub proof fn lemma_tapped_gaps_in_range(capture: LearnCapture, key: usize, now_ms: u32, after: LearnCapture)
    requires
        capture.count < LEARN_STEPS,
        spec_record_tap(capture, key, now_ms, after),
    ensures
        LEARN_MIN_GAP_MS <= after.gaps_ms@[capture.count as int] <= LEARN_MAX_GAP_MS,
{
}

/// The tide rises and falls: over a cycle of 24 animation steps it fills
/// 1, 2, ..., 12 LEDs and then 11, 10, ..., 0, so the fill is symmetric
/// about the full ring (steps `p` and `22 - p` of the cycle fill alike), and
/// every step changes it by exactly one LED: up while rising (and from the
/// empty ring back to one LED), down while falling.
pub proof fn lemma_tide_rises_and_falls(c: LanternController, d: LanternController)
    ensures
        ({
            let p = (c.animation_step as int) % 24;
            tide_fill(c) == if p < 12 { p + 1 } else { 23 - p }
        }),
        (c.animation_step as int) % 24 + (d.animation_step as int) % 24 == 22 ==> tide_fill(c) == tide_fill(d),
        (d.animation_step as int) == c.animation_step + 1 ==> ({
            let p = (c.animation_step as int) % 24;
            &&& (p < 11 || p == 23 ==> tide_fill(d) == tide_fill(c) + 1)
            &&& (11 <= p < 23 ==> tide_fill(d) == tide_fill(c) - 1)
        }),
{
    let pc = (c.animation_step as int) % 24;
    let pd = (d.animation_step as int) % 24;
    assert(0 <= pc < 24 && 0 <= pd < 24);
    if (d.animation_step as int) == c.animation_step + 1 {
        let x = c.animation_step as int;
        assert(pd == if pc == 23 { 0 } else { pc + 1 }) by (nonlinear_arith)
            requires
                x >= 0,
                pc == x % 24,
                pd == (x + 1) % 24,
        ;
    }
}

} // verus!
