use std::path::PathBuf;

use es::sim::{
    scale_div, scale_mul_div, AvrRunState, CaseConfig, CaseMetadata, DigitalPin, EdgeCounter, PinTransition, SimFault, SimSession,
    TransitionRecorder,
};

#[test]
fn digital_pin_keeps_port_and_pin() {
    let pin = DigitalPin::new('B', 2);
    assert_eq!(pin.port(), 'B');
    assert_eq!(pin.pin(), 2);
}

#[test]
fn case_config_default_values() {
    let config = CaseConfig::default();
    assert_eq!(config.timeout_ms, 1_000);
    assert_eq!(config.boot_ms, 0);
    assert!(config.reset);
}

#[test]
fn case_metadata_accessors() {
    let config = CaseConfig { timeout_ms: 50, boot_ms: 3, reset: false };
    let meta = CaseMetadata::new("e1", "case", config, PathBuf::from("/p"), PathBuf::from("/p/es.elf"));
    assert_eq!(meta.entry(), "e1");
    assert_eq!(meta.case_name(), "case");
    assert_eq!(meta.config(), config);
    assert_eq!(meta.project_dir(), &PathBuf::from("/p"));
    assert_eq!(meta.elf_path(), &PathBuf::from("/p/es.elf"));
    assert_eq!(meta.mcu(), "atmega2560");
    assert_eq!(meta.clock_hz(), 16_000_000);
}

fn session(timeout_ms: u64, boot_ms: u64) -> SimSession {
    let config = CaseConfig { timeout_ms, boot_ms, reset: true };
    SimSession::new(CaseMetadata::new("e2", "radar", config, PathBuf::from("/p"), PathBuf::from("/p/es.elf")))
}

#[test]
fn scaling_between_units() {
    assert_eq!(scale_mul_div(1_000, 16_000_000, 1_000), 16_000_000);
    assert_eq!(scale_div(16_000_000, 1_000, 16_000_000), 1_000);
    assert_eq!(scale_div(15_999, 1_000, 16_000_000), 0);
    assert_eq!(scale_mul_div(7, 3, 2), 10);
}

#[test]
fn scaling_saturates_instead_of_overflowing() {
    assert_eq!(scale_mul_div(u64::MAX, 2, 1), u64::MAX);
    assert_eq!(scale_mul_div(u64::MAX, 16_000_000, 1_000), u64::MAX);
    assert_eq!(scale_mul_div(u64::MAX, 1_000, 16_000_000), u64::MAX / 16_000);
}

#[test]
fn session_time_conversions() {
    let mut s = session(1_000, 0);
    assert_eq!(s.entry(), "e2");
    assert_eq!(s.case_name(), "radar");
    assert_eq!(s.project_dir(), &PathBuf::from("/p"));
    assert_eq!(s.elf_path(), &PathBuf::from("/p/es.elf"));
    assert_eq!(s.cycles_from_millis(2), 32_000);
    assert_eq!(s.cycles_from_micros(10), 160);
    assert_eq!(s.record_step(48_000, AvrRunState::Running), Ok(()));
    assert_eq!(s.elapsed_cycles(), 48_000);
    assert_eq!(s.elapsed_us(), 3_000);
    assert_eq!(s.elapsed_ms(), 3);
    assert_eq!(s.deadline_after(2), 48_002);
    assert_eq!(s.deadline_after(u64::MAX), u64::MAX);
}

#[test]
fn boot_runs_once() {
    let mut s = session(1_000, 5);
    assert!(!s.is_booted());
    assert_eq!(s.boot(), Some(80_000));
    assert!(s.is_booted());
    assert_eq!(s.boot(), None);
    s.reset();
    assert!(!s.is_booted());
    assert_eq!(s.elapsed_cycles(), 0);
    assert_eq!(s.boot(), Some(80_000));
}

#[test]
fn step_verdicts_by_state() {
    let mut s = session(1_000, 0);
    assert_eq!(s.record_step(10, AvrRunState::Sleeping), Ok(()));
    assert_eq!(s.record_step(10, AvrRunState::Step), Ok(()));
    assert_eq!(s.record_step(10, AvrRunState::StepDone), Ok(()));
    assert_eq!(s.record_step(10, AvrRunState::Crashed), Err(SimFault::Crashed { elapsed_cycles: 40 }));
    assert_eq!(s.record_step(10, AvrRunState::Done), Err(SimFault::Stopped { elapsed_cycles: 50 }));
    assert_eq!(
        s.record_step(10, AvrRunState::Limbo),
        Err(SimFault::UnexpectedState { state: AvrRunState::Limbo, elapsed_cycles: 60 })
    );
    assert_eq!(
        s.record_step(0, AvrRunState::Stopped),
        Err(SimFault::UnexpectedState { state: AvrRunState::Stopped, elapsed_cycles: 60 })
    );
}

#[test]
fn step_past_limit_times_out_first() {
    let mut s = session(2, 0);
    assert_eq!(s.record_step(32_000, AvrRunState::Running), Ok(()));
    assert_eq!(
        s.record_step(16_000, AvrRunState::Crashed),
        Err(SimFault::TimedOut { elapsed_ms: 3, limit_ms: 2 })
    );
}

#[test]
fn elapsed_time_saturates() {
    let mut s = session(u64::MAX, 0);
    assert_eq!(s.record_step(u64::MAX - 1, AvrRunState::Running), Ok(()));
    assert_eq!(s.record_step(5, AvrRunState::Running), Ok(()));
    assert_eq!(s.elapsed_cycles(), u64::MAX);
}

#[test]
fn edge_counter_counts_changes_only() {
    let mut counter = EdgeCounter::new(false);
    for level in [false, true, true, false, true, true, true, false] {
        counter.observe(level);
    }
    assert_eq!(counter.edges(), 4);
}

#[test]
fn transition_recorder_keeps_changes_in_order() {
    let mut recorder = TransitionRecorder::new(true, 3);
    assert!(!recorder.observe(true, 5));
    assert!(!recorder.observe(false, 10));
    assert!(!recorder.observe(false, 11));
    assert!(!recorder.observe(true, 20));
    assert!(recorder.observe(false, 30));
    let transitions = recorder.into_transitions();
    assert_eq!(
        transitions,
        vec![
            PinTransition { elapsed_cycles: 10, level: false },
            PinTransition { elapsed_cycles: 20, level: true },
            PinTransition { elapsed_cycles: 30, level: false },
        ]
    );
}

#[test]
fn millis_to_cycles_and_back() {
    for millis in [0u64, 1, 7, 1_000, 123_456] {
        let mut s = session(u64::MAX, 0);
        let cycles = s.cycles_from_millis(millis);
        assert_eq!(cycles, millis * 16_000);
        assert_eq!(s.record_step(cycles, AvrRunState::Running), Ok(()));
        assert_eq!(s.elapsed_ms(), millis);
    }
}

#[test]
fn pins_equal_exactly_when_port_and_bit_agree() {
    assert_eq!(DigitalPin::new('B', 2), DigitalPin::new('B', 2));
    assert_ne!(DigitalPin::new('B', 2), DigitalPin::new('B', 3));
    assert_ne!(DigitalPin::new('B', 2), DigitalPin::new('D', 2));
}
