use es::f02a::{prescaler_at, time_reached, tone_config, BuzzerAction, Timer2Prescaler, ToneConfig, ToneSchedule};

#[test]
fn tone_config_picks_finest_fitting_prescaler() {
    assert_eq!(tone_config(1500), Some(ToneConfig { compare: 166, prescaler: Timer2Prescaler::Prescale32 }));
    assert_eq!(tone_config(1850), Some(ToneConfig { compare: 134, prescaler: Timer2Prescaler::Prescale32 }));
    assert_eq!(tone_config(2250), Some(ToneConfig { compare: 110, prescaler: Timer2Prescaler::Prescale32 }));
}

#[test]
fn tone_config_high_tone_uses_direct_clock() {
    // 16 MHz / (2 * 40 kHz) = 200 counts, fits without prescaling.
    assert_eq!(tone_config(40_000), Some(ToneConfig { compare: 199, prescaler: Timer2Prescaler::Direct }));
}

#[test]
fn tone_config_too_low_is_none() {
    assert_eq!(tone_config(1), None);
    assert_eq!(tone_config(30), None);
}

#[test]
fn tone_config_lowest_reachable_uses_1024() {
    // 16 MHz / (2 * 1024 * 31) = 252.0 counts.
    assert_eq!(tone_config(31), Some(ToneConfig { compare: 251, prescaler: Timer2Prescaler::Prescale1024 }));
}

#[test]
fn prescaler_order_and_divisors() {
    let expected = [1u32, 8, 32, 64, 128, 256, 1024];
    for (i, d) in expected.iter().enumerate() {
        assert_eq!(prescaler_at(i).divisor(), *d);
    }
}

#[test]
fn time_reached_wraps() {
    assert!(time_reached(100, 100));
    assert!(time_reached(101, 100));
    assert!(!time_reached(99, 100));
    assert!(time_reached(5, u32::MAX - 5));
    assert!(!time_reached(u32::MAX - 5, 5));
}

#[test]
fn tone_plays_then_stops_at_deadline() {
    let mut schedule = ToneSchedule::new();
    let action = schedule.play_tone(1500, 100, 1_000);
    assert_eq!(action, BuzzerAction::Start(ToneConfig { compare: 166, prescaler: Timer2Prescaler::Prescale32 }));
    assert!(!schedule.poll(1_099));
    assert!(schedule.poll(1_100));
    assert!(!schedule.poll(1_200));
}

#[test]
fn zero_duration_or_frequency_silences() {
    let mut schedule = ToneSchedule::new();
    assert_eq!(schedule.play_tone(1500, 0, 10), BuzzerAction::Silence);
    assert_eq!(schedule.play_tone(0, 100, 10), BuzzerAction::Silence);
    assert_eq!(schedule.play_tone(1, 100, 10), BuzzerAction::Silence);
    assert!(!schedule.poll(1_000_000));
}

#[test]
fn stop_time_wraps_around_clock() {
    let mut schedule = ToneSchedule::new();
    let start = u32::MAX - 10;
    assert!(matches!(schedule.play_tone(2250, 20, start), BuzzerAction::Start(_)));
    assert!(!schedule.poll(u32::MAX));
    assert!(!schedule.poll(8));
    assert!(schedule.poll(9));
}

#[test]
fn silence_cancels_scheduled_stop() {
    let mut schedule = ToneSchedule::new();
    schedule.play_tone(1850, 50, 0);
    schedule.silence();
    assert!(!schedule.poll(50));
}
