//! Bookkeeping of the simulator harness that runs the firmware in tests:
//! pins, case settings, simulated time, timeouts and pin-level recording.
use vstd::prelude::*;

use std::path::PathBuf;

verus! {

#[verifier::external_type_specification]
#[verifier::external_body]
pub struct ExPathBuf(PathBuf);

/// `PathBuf::clone` from std, which returns a copy of the path: the copy is
/// claimed to be the same path value (as vstd claims of `String::clone`).
pub assume_specification[ <PathBuf as Clone>::clone ](p: &PathBuf) -> (r: PathBuf)
    ensures
        r == *p,
;

pub const DEFAULT_MCU: &'static str = "atmega2560";
pub const DEFAULT_CLOCK_HZ: u32 = 16_000_000;

/// A digital pin of the simulated MCU: port letter and bit.
#[derive(Copy, Clone, Debug, PartialEq, Eq, Hash, Structural)]
pub struct DigitalPin {
    port: char,
    pin: u8,
}

impl DigitalPin {
    pub closed spec fn spec_port(self) -> char {
        self.port
    }

    pub closed spec fn spec_pin(self) -> u8 {
        self.pin
    }

    pub fn new(port: char, pin: u8) -> (r: Self)
        ensures
            r.spec_port() == port,
            r.spec_pin() == pin,
    {
        DigitalPin { port, pin }
    }

    pub fn port(self) -> (r: char)
        ensures
            r == self.spec_port(),
    {
        self.port
    }

    pub fn pin(self) -> (r: u8)
        ensures
            r == self.spec_pin(),
    {
        self.pin
    }
}

/// A change of level seen on a pin, with the simulated time it was seen at.
#[derive(Copy, Clone, Debug, PartialEq, Eq, Structural)]
pub struct PinTransition {
    pub elapsed_cycles: u64,
    pub level: bool,
}

/// How one simulated test case runs.
#[derive(Copy, Clone, Debug, PartialEq, Eq, Structural)]
pub struct CaseConfig {
    /// The case fails once simulated time passes this many milliseconds.
    pub timeout_ms: u64,
    /// Simulated time to let pass when booting.
    pub boot_ms: u64,
    /// Start from a freshly loaded firmware.
    pub reset: bool,
}

impl CaseConfig {
    pub const DEFAULT_TIMEOUT_MS: u64 = 1_000;
    pub const DEFAULT_BOOT_MS: u64 = 0;
    pub const DEFAULT_RESET: bool = true;
}

impl Default for CaseConfig {
    fn default() -> (r: Self)
        ensures
            r.timeout_ms == 1_000,
            r.boot_ms == 0,
            r.reset == true,
    {
        CaseConfig {
            timeout_ms: CaseConfig::DEFAULT_TIMEOUT_MS,
            boot_ms: CaseConfig::DEFAULT_BOOT_MS,
            reset: CaseConfig::DEFAULT_RESET,
        }
    }
}

/// Which case runs, where its firmware is, and how it runs.
#[derive(Clone, Debug)]
pub struct CaseMetadata {
    entry: &'static str,
    case_name: &'static str,
    project_dir: PathBuf,
    elf_path: PathBuf,
    config: CaseConfig,
}

impl CaseMetadata {
    pub closed spec fn spec_entry(&self) -> &'static str {
        self.entry
    }

    pub closed spec fn spec_case_name(&self) -> &'static str {
        self.case_name
    }

    pub closed spec fn spec_project_dir(&self) -> PathBuf {
        self.project_dir
    }

    pub closed spec fn spec_elf_path(&self) -> PathBuf {
        self.elf_path
    }

    pub closed spec fn spec_config(&self) -> CaseConfig {
        self.config
    }

    pub fn new(
        entry: &'static str,
        case_name: &'static str,
        config: CaseConfig,
        project_dir: PathBuf,
        elf_path: PathBuf,
    ) -> (r: Self)
        ensures
            r.spec_entry() == entry,
            r.spec_case_name() == case_name,
            r.spec_config() == config,
            r.spec_project_dir() == project_dir,
            r.spec_elf_path() == elf_path,
    {
        CaseMetadata { entry, case_name, project_dir, elf_path, config }
    }

    /// The firmware module the case belongs to.
    pub fn entry(&self) -> (r: &'static str)
        ensures
            r == self.spec_entry(),
    {
        self.entry
    }

    pub fn case_name(&self) -> (r: &'static str)
        ensures
            r == self.spec_case_name(),
    {
        self.case_name
    }

    pub fn project_dir(&self) -> (r: &PathBuf)
        ensures
            *r == self.spec_project_dir(),
    {
        &self.project_dir
    }

    pub fn elf_path(&self) -> (r: &PathBuf)
        ensures
            *r == self.spec_elf_path(),
    {
        &self.elf_path
    }

    pub fn config(&self) -> (r: CaseConfig)
        ensures
            r == self.spec_config(),
    {
        self.config
    }

    /// The simulated MCU.
    pub fn mcu(&self) -> (r: &'static str)
        ensures
            r@ == DEFAULT_MCU@,
    {
        DEFAULT_MCU
    }

    /// The simulated clock, in hertz.
    pub fn clock_hz(&self) -> (r: u32)
        ensures
            r == DEFAULT_CLOCK_HZ,
    {
        DEFAULT_CLOCK_HZ
    }
}

/// `value * numerator / denominator`, rounded down, saturating at
/// `u64::MAX`.
pub open spec fn spec_scale(value: u64, numerator: u64, denominator: u64) -> u64 {
    let q = value * numerator / (denominator as int);
    if q > u64::MAX { u64::MAX } else { q as u64 }
}

proof fn lemma_u128_product(value: u64, numerator: u64)
    ensures
        value * numerator <= u128::MAX,
{
    assert(value * numerator <= u64::MAX * u64::MAX) by (nonlinear_arith)
        requires
            value <= u64::MAX,
            numerator <= u64::MAX,
    ;
}

/// Converts between time units without overflow.
pub fn scale_mul_div(value: u64, numerator: u64, denominator: u64) -> (r: u64)
    requires
        denominator > 0,
    ensures
        r == spec_scale(value, numerator, denominator),
{
    proof {
        lemma_u128_product(value, numerator);
    }
    let q = (value as u128 * numerator as u128) / denominator as u128;
    if q > u64::MAX as u128 {
        u64::MAX
    } else {
        q as u64
    }
}

/// Converts simulated cycles to a coarser unit.
pub fn scale_div(value: u64, numerator: u64, denominator: u64) -> (r: u64)
    requires
        denominator > 0,
    ensures
        r == spec_scale(value, numerator, denominator),
{
    proof {
        lemma_u128_product(value, numerator);
    }
    let q = (value as u128 * numerator as u128) / denominator as u128;
    if q > u64::MAX as u128 {
        u64::MAX
    } else {
        q as u64
    }
}

} // verus!

verus! {

/// Run state the simulated CPU reports after a step.
#[derive(Copy, Clone, Debug, PartialEq, Eq, Structural)]
pub enum AvrRunState {
    Limbo,
    Stopped,
    Running,
    Sleeping,
    Step,
    StepDone,
    Done,
    Crashed,
}

/// Why a simulated case has to stop.
#[derive(Copy, Clone, Debug, PartialEq, Eq, Structural)]
pub enum SimFault {
    /// The CPU crashed after this many cycles.
    Crashed { elapsed_cycles: u64 },
    /// The firmware stopped after this many cycles.
    Stopped { elapsed_cycles: u64 },
    /// The CPU reported a state a running case never should.
    UnexpectedState { state: AvrRunState, elapsed_cycles: u64 },
    /// Simulated time went past the case's limit.
    TimedOut { elapsed_ms: u64, limit_ms: u64 },
}

/// Cycles of simulated time allowed before a case times out.
pub open spec fn timeout_cycles(config: CaseConfig) -> u64 {
    spec_scale(config.timeout_ms, DEFAULT_CLOCK_HZ as u64, 1_000)
}

/// `a + b`, saturating at `u64::MAX`.
pub open spec fn sat_add(a: u64, b: u64) -> u64 {
    if a + b > u64::MAX { u64::MAX } else { (a + b) as u64 }
}

/// The verdict on a step that brought simulated time to `elapsed` with the
/// CPU in `state`: time out first, then judge the state.
pub open spec fn step_verdict(config: CaseConfig, elapsed: u64, state: AvrRunState) -> Result<(), SimFault> {
    if elapsed > timeout_cycles(config) {
        Err(
            SimFault::TimedOut {
                elapsed_ms: spec_scale(elapsed, 1_000, DEFAULT_CLOCK_HZ as u64),
                limit_ms: config.timeout_ms,
            },
        )
    } else {
        match state {
            AvrRunState::Running | AvrRunState::Sleeping | AvrRunState::Step | AvrRunState::StepDone => Ok(()),
            AvrRunState::Crashed => Err(SimFault::Crashed { elapsed_cycles: elapsed }),
            AvrRunState::Done => Err(SimFault::Stopped { elapsed_cycles: elapsed }),
            _ => Err(SimFault::UnexpectedState { state, elapsed_cycles: elapsed }),
        }
    }
}

/// Simulated time and boot state of one case; the simulator itself is
/// driven by the caller, which reports every step here.
pub struct SimSession {
    metadata: CaseMetadata,
    elapsed_cycles: u64,
    booted: bool,
    last_state: Option<AvrRunState>,
}

impl SimSession {
    pub closed spec fn spec_metadata(&self) -> CaseMetadata {
        self.metadata
    }

    pub closed spec fn spec_elapsed_cycles(&self) -> u64 {
        self.elapsed_cycles
    }

    pub closed spec fn spec_booted(&self) -> bool {
        self.booted
    }

    pub closed spec fn spec_last_state(&self) -> Option<AvrRunState> {
        self.last_state
    }

    /// A case that has not run yet.
    pub fn new(metadata: CaseMetadata) -> (r: Self)
        ensures
            r.spec_metadata() == metadata,
            r.spec_elapsed_cycles() == 0,
            !r.spec_booted(),
            r.spec_last_state() == None::<AvrRunState>,
    {
        SimSession { metadata, elapsed_cycles: 0, booted: false, last_state: None }
    }

    pub fn metadata(&self) -> (r: &CaseMetadata)
        ensures
            *r == self.spec_metadata(),
    {
        &self.metadata
    }

    pub fn config(&self) -> (r: CaseConfig)
        ensures
            r == self.spec_metadata().spec_config(),
    {
        self.metadata.config()
    }

    pub fn entry(&self) -> (r: &'static str)
        ensures
            r == self.spec_metadata().spec_entry(),
    {
        self.metadata.entry()
    }

    pub fn case_name(&self) -> (r: &'static str)
        ensures
            r == self.spec_metadata().spec_case_name(),
    {
        self.metadata.case_name()
    }

    pub fn project_dir(&self) -> (r: &PathBuf)
        ensures
            *r == self.spec_metadata().spec_project_dir(),
    {
        self.metadata.project_dir()
    }

    pub fn elf_path(&self) -> (r: &PathBuf)
        ensures
            *r == self.spec_metadata().spec_elf_path(),
    {
        self.metadata.elf_path()
    }

    pub fn elapsed_cycles(&self) -> (r: u64)
        ensures
            r == self.spec_elapsed_cycles(),
    {
        self.elapsed_cycles
    }

    /// Simulated time in microseconds, rounded down.
    pub fn elapsed_us(&self) -> (r: u64)
        ensures
            r == spec_scale(self.spec_elapsed_cycles(), 1_000_000, DEFAULT_CLOCK_HZ as u64),
    {
        scale_div(self.elapsed_cycles, 1_000_000, self.metadata.clock_hz() as u64)
    }

    /// Simulated time in milliseconds, rounded down.
    pub fn elapsed_ms(&self) -> (r: u64)
        ensures
            r == spec_scale(self.spec_elapsed_cycles(), 1_000, DEFAULT_CLOCK_HZ as u64),
    {
        scale_div(self.elapsed_cycles, 1_000, self.metadata.clock_hz() as u64)
    }

    pub fn is_booted(&self) -> (r: bool)
        ensures
            r == self.spec_booted(),
    {
        self.booted
    }

    /// Cycles in `millis` milliseconds of simulated time.
    pub fn cycles_from_millis(&self, millis: u64) -> (r: u64)
        ensures
            r == spec_scale(millis, DEFAULT_CLOCK_HZ as u64, 1_000),
    {
        scale_mul_div(millis, self.metadata.clock_hz() as u64, 1_000)
    }

    /// Cycles in `micros` microseconds of simulated time.
    pub fn cycles_from_micros(&self, micros: u64) -> (r: u64)
        ensures
            r == spec_scale(micros, DEFAULT_CLOCK_HZ as u64, 1_000_000),
    {
        scale_mul_div(micros, self.metadata.clock_hz() as u64, 1_000_000)
    }

    /// The simulated time at which running `delta_cycles` more cycles ends
    /// (saturating).
    pub fn deadline_after(&self, delta_cycles: u64) -> (r: u64)
        ensures
            r == sat_add(self.spec_elapsed_cycles(), delta_cycles),
    {
        self.elapsed_cycles.saturating_add(delta_cycles)
    }

    /// Marks the case booted; the first time, returns the cycles to run for
    /// the configured boot time, afterwards `None`.
    pub fn boot(&mut self) -> (r: Option<u64>)
        ensures
            final(self).spec_booted(),
            final(self).spec_metadata() == old(self).spec_metadata(),
            final(self).spec_elapsed_cycles() == old(self).spec_elapsed_cycles(),
            final(self).spec_last_state() == old(self).spec_last_state(),
            r == if old(self).spec_booted() {
                None::<u64>
            } else {
                Some(spec_scale(old(self).spec_metadata().spec_config().boot_ms, DEFAULT_CLOCK_HZ as u64, 1_000))
            },
    {
        if self.booted {
            return None;
        }
        self.booted = true;
        Some(self.cycles_from_millis(self.metadata.config().boot_ms))
    }

    /// Records one simulator step of `step_cycles` cycles that left the CPU
    /// in `state`, and judges it: the case fails when it ran out of time, or
    /// when the CPU crashed, stopped or is in a state a running case never
    /// reports.
    pub fn record_step(&mut self, step_cycles: u64, state: AvrRunState) -> (r: Result<(), SimFault>)
        ensures
            final(self).spec_elapsed_cycles() == sat_add(old(self).spec_elapsed_cycles(), step_cycles),
            final(self).spec_last_state() == Some(state),
            final(self).spec_metadata() == old(self).spec_metadata(),
            final(self).spec_booted() == old(self).spec_booted(),
            r == step_verdict(old(self).spec_metadata().spec_config(), final(self).spec_elapsed_cycles(), state),
    {
        self.elapsed_cycles = self.elapsed_cycles.saturating_add(step_cycles);
        self.last_state = Some(state);
        let limit = scale_mul_div(self.metadata.config().timeout_ms, self.metadata.clock_hz() as u64, 1_000);
        if self.elapsed_cycles > limit {
            return Err(
                SimFault::TimedOut { elapsed_ms: self.elapsed_ms(), limit_ms: self.metadata.config().timeout_ms },
            );
        }
        match state {
            AvrRunState::Running | AvrRunState::Sleeping | AvrRunState::Step | AvrRunState::StepDone => Ok(()),
            AvrRunState::Crashed => Err(SimFault::Crashed { elapsed_cycles: self.elapsed_cycles }),
            AvrRunState::Done => Err(SimFault::Stopped { elapsed_cycles: self.elapsed_cycles }),
            _ => Err(SimFault::UnexpectedState { state, elapsed_cycles: self.elapsed_cycles }),
        }
    }

    /// Back to the start (the caller loads the firmware afresh).
    pub fn reset(&mut self)
        ensures
            final(self).spec_metadata() == old(self).spec_metadata(),
            final(self).spec_elapsed_cycles() == 0,
            !final(self).spec_booted(),
            final(self).spec_last_state() == None::<AvrRunState>,
    {
        self.elapsed_cycles = 0;
        self.booted = false;
        self.last_state = None;
    }
}

/// Counts level changes of a pin as it is sampled.
pub struct EdgeCounter {
    previous: bool,
    edges: usize,
}

impl EdgeCounter {
    pub closed spec fn spec_previous(&self) -> bool {
        self.previous
    }

    pub closed spec fn spec_edges(&self) -> usize {
        self.edges
    }

    /// Starts from the level `initial`, no edges yet.
    pub fn new(initial: bool) -> (r: Self)
        ensures
            r.spec_previous() == initial,
            r.spec_edges() == 0,
    {
        EdgeCounter { previous: initial, edges: 0 }
    }

    /// Takes a new sample of the level.
    pub fn observe(&mut self, current: bool)
        requires
            old(self).spec_edges() < usize::MAX,
        ensures
            final(self).spec_previous() == current,
            final(self).spec_edges() == old(self).spec_edges() + if current != old(self).spec_previous() {
                1int
            } else {
                0int
            },
    {
        if current != self.previous {
            self.edges += 1;
            self.previous = current;
        }
    }

    pub fn edges(&self) -> (r: usize)
        ensures
            r == self.spec_edges(),
    {
        self.edges
    }
}

/// Records the level changes of a pin, up to a maximum count.
pub struct TransitionRecorder {
    previous: bool,
    transitions: Vec<PinTransition>,
    max_transitions: usize,
}

impl TransitionRecorder {
    pub closed spec fn spec_previous(&self) -> bool {
        self.previous
    }

    pub closed spec fn spec_transitions(&self) -> Seq<PinTransition> {
        self.transitions@
    }

    pub closed spec fn spec_max(&self) -> usize {
        self.max_transitions
    }

    /// Starts from the level `initial`, nothing recorded.
    pub fn new(initial: bool, max_transitions: usize) -> (r: Self)
        ensures
            r.spec_previous() == initial,
            r.spec_transitions() == Seq::<PinTransition>::empty(),
            r.spec_max() == max_transitions,
    {
        TransitionRecorder { previous: initial, transitions: Vec::new(), max_transitions }
    }

    /// Takes a new sample of the level at `elapsed_cycles`; a change is
    /// recorded. Returns whether the recording is full (then sampling stops).
    pub fn observe(&mut self, current: bool, elapsed_cycles: u64) -> (r: bool)
        ensures
            final(self).spec_max() == old(self).spec_max(),
            final(self).spec_previous() == current,
            if current != old(self).spec_previous() {
                &&& final(self).spec_transitions() == old(self).spec_transitions().push(
                    PinTransition { elapsed_cycles, level: current },
                )
                &&& r == (final(self).spec_transitions().len() >= old(self).spec_max())
            } else {
                &&& final(self).spec_transitions() == old(self).spec_transitions()
                &&& !r
            },
    {
        if current != self.previous {
            self.transitions.push(PinTransition { elapsed_cycles, level: current });
            self.previous = current;
            return self.transitions.len() >= self.max_transitions;
        }
        false
    }

    /// The recorded changes, in order.
    pub fn into_transitions(self) -> (r: Vec<PinTransition>)
        ensures
            r@ == self.spec_transitions(),
    {
        self.transitions
    }
}

} // verus!

verus! {

/// Simulated time never runs backwards, and a step of at least one cycle
/// moves it forward until it saturates.
pub proof fn lemma_time_only_advances(elapsed: u64, step_cycles: u64)
    ensures
        sat_add(elapsed, step_cycles) >= elapsed,
        step_cycles > 0 && elapsed < u64::MAX ==> sat_add(elapsed, step_cycles) > elapsed,
{
}

/// Converting milliseconds of simulated time to cycles and back gives the
/// same milliseconds, as long as the cycle count does not saturate.
pub proof fn lemma_millis_round_trip(millis: u64)
    requires
        millis * (DEFAULT_CLOCK_HZ as int) / 1_000 <= u64::MAX,
    ensures
        spec_scale(spec_scale(millis, DEFAULT_CLOCK_HZ as u64, 1_000), 1_000, DEFAULT_CLOCK_HZ as u64) == millis,
{
    let cycles = millis * 16_000_000int / 1_000;
    assert(cycles == millis * 16_000) by (nonlinear_arith)
        requires
            cycles == millis * 16_000_000int / 1_000,
    ;
    assert(cycles * 1_000 / 16_000_000int == millis) by (nonlinear_arith)
        requires
            cycles == millis * 16_000,
    ;
}

/// Two pins are the same pin exactly when they have the same port letter
/// and the same bit; with the contract of `DigitalPin::new`, pins built
/// from equal arguments are equal and pins built from different ones
/// differ.
pub proof fn lemma_pin_identity(p: DigitalPin, q: DigitalPin)
    ensures
        (p == q) <==> (p.spec_port() == q.spec_port() && p.spec_pin() == q.spec_pin()),
{
}

} // verus!
