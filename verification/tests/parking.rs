use es::e2::{
    distance_from_measurement, smooth_distance, AlertBand, Cadence, DistanceTracker, ParkingAssist, RenderState,
};
use es::sr04::{micros_to_ticks, Sr04Error, Sr04Reading};

#[test]
fn bands_by_distance() {
    assert_eq!(AlertBand::from_distance(None), AlertBand::Clear);
    assert_eq!(AlertBand::from_distance(Some(25)), AlertBand::Stop);
    assert_eq!(AlertBand::from_distance(Some(26)), AlertBand::Caution);
    assert_eq!(AlertBand::from_distance(Some(50)), AlertBand::Caution);
    assert_eq!(AlertBand::from_distance(Some(80)), AlertBand::Notice);
    assert_eq!(AlertBand::from_distance(Some(81)), AlertBand::Clear);
    assert_eq!(AlertBand::Stop.active_layer(), 3);
    assert_eq!(AlertBand::Clear.active_layer(), 0);
}

#[test]
fn cadences_and_blinking() {
    assert_eq!(AlertBand::Clear.cadence(), None);
    assert_eq!(AlertBand::Notice.cadence(), Some(Cadence { on_ms: 100, off_ms: 500, tone_hz: 1_500 }));
    assert!(AlertBand::Clear.blink_on(12345));
    assert!(AlertBand::Stop.blink_on(99));
    assert!(!AlertBand::Stop.blink_on(100));
    assert!(AlertBand::Stop.blink_on(200));
    let c = Cadence { on_ms: 100, off_ms: 250, tone_hz: 1_850 };
    assert_eq!(c.cycle_ms(), 350);
    assert!(c.phase_on(349 + 1));
    assert!(!c.phase_on(349));
}

#[test]
fn smoothing_values() {
    assert_eq!(smooth_distance(100, 50), 50);
    assert_eq!(smooth_distance(100, 90), 97);
    assert_eq!(smooth_distance(90, 100), 93);
    assert_eq!(smooth_distance(40, 40), 40);
    assert_eq!(smooth_distance(40, 57), 46);
}

#[test]
fn tracker_holds_then_forgets() {
    let mut t = DistanceTracker::new();
    assert_eq!(t.current(), None);
    t.update(Some(60), 1_000);
    assert_eq!(t.current(), Some(60));
    t.update(Some(66), 1_050);
    assert_eq!(t.current(), Some(62));
    t.update(None, 1_350);
    assert_eq!(t.current(), Some(62));
    t.update(None, 1_351);
    assert_eq!(t.current(), None);
}

#[test]
fn tracker_hold_wraps_around() {
    let mut t = DistanceTracker::new();
    t.update(Some(30), u32::MAX - 10);
    t.update(None, 100);
    assert_eq!(t.current(), Some(30));
    t.update(None, 400);
    assert_eq!(t.current(), None);
}

#[test]
fn sensor_readings() {
    let r = Sr04Reading::from_echo_ticks(145);
    assert_eq!(r.echo_us(), 580);
    assert_eq!(r.distance_mm(), 100);
    assert_eq!(r.distance_cm(), 10);
    assert_eq!(Sr04Reading::from_echo_ticks(u16::MAX).distance_mm(), 45197);
    assert_eq!(micros_to_ticks(15_000), 3_750);
    assert_eq!(micros_to_ticks(200_000), 50_000);
    assert_eq!(micros_to_ticks(1), 1);
    assert_eq!(micros_to_ticks(0), 0);
    assert_eq!(micros_to_ticks(u32::MAX), u16::MAX);
}

#[test]
fn measurement_filter() {
    assert_eq!(distance_from_measurement(Err(Sr04Error::NoPulseStart)), None);
    assert_eq!(distance_from_measurement(Err(Sr04Error::NoPulseEnd)), None);
    assert_eq!(distance_from_measurement(Ok(Sr04Reading::from_echo_ticks(145))), Some(10));
    assert_eq!(distance_from_measurement(Ok(Sr04Reading::from_echo_ticks(10))), None);
    assert_eq!(distance_from_measurement(Ok(Sr04Reading::from_echo_ticks(3_000))), None);
}

#[test]
fn main_loop_plans() {
    let mut assist = ParkingAssist::new();
    assert!(!assist.measurement_due(10));
    assert!(assist.measurement_due(50));
    let first = assist.plan_frame(0);
    assert_eq!(first.redraw, Some(RenderState { band: AlertBand::Clear, blink_on: true, display_cm: None }));
    assert_eq!(first.tone_hz, None);
    assert_eq!(assist.plan_frame(1).redraw, None);
    assist.record_measurement(Some(20), 50);
    assert!(!assist.measurement_due(60));
    let near = assist.plan_frame(50);
    assert_eq!(near.redraw, Some(RenderState { band: AlertBand::Stop, blink_on: true, display_cm: Some(20) }));
    assert_eq!(near.tone_hz, Some(2_250));
    let dark = assist.plan_frame(150);
    assert_eq!(dark.redraw, Some(RenderState { band: AlertBand::Stop, blink_on: false, display_cm: Some(20) }));
    assert_eq!(dark.tone_hz, None);
}

#[test]
fn display_distance_is_capped() {
    let mut assist = ParkingAssist::new();
    assist.record_measurement(Some(500), 0);
    let plan = assist.plan_frame(0);
    assert_eq!(plan.redraw.unwrap().display_cm, Some(199));
}

#[test]
fn longer_echo_never_reads_shorter() {
    let mut previous = (0, 0);
    for ticks in (0..=u16::MAX).step_by(7) {
        let reading = Sr04Reading::from_echo_ticks(ticks);
        let now = (reading.distance_mm(), reading.distance_cm());
        assert!(now.0 >= previous.0 && now.1 >= previous.1);
        previous = now;
    }
}
