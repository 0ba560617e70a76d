use es::e1::{
    clamp_gap, map_index, scale_rgb, seed_from_timer, Direction, Effect, LanternController, LearnCapture, SceneMode,
    XorShift32,
};
use es::f12a::{blank_frame, Rgb8};
use es::key4b::{ButtonEvent, SW1, SW2, SW3, SW4};

fn colors() -> [Rgb8; 4] {
    [
        Rgb8 { r: 255, g: 0, b: 0 },
        Rgb8 { r: 0, g: 255, b: 0 },
        Rgb8 { r: 0, g: 0, b: 255 },
        Rgb8 { r: 255, g: 255, b: 255 },
    ]
}

fn scaled(c: Rgb8, level: u16) -> Rgb8 {
    Rgb8 { r: (c.r as u16 * level / 255) as u8, g: (c.g as u16 * level / 255) as u8, b: (c.b as u16 * level / 255) as u8 }
}

#[test]
fn helpers() {
    assert_eq!(clamp_gap(10), 90);
    assert_eq!(clamp_gap(500), 500);
    assert_eq!(clamp_gap(5_000), 900);
    assert_eq!(map_index(0, Direction::Reverse), 11);
    assert_eq!(map_index(4, Direction::Forward), 4);
    assert_eq!(scale_rgb(Rgb8 { r: 255, g: 128, b: 0 }, 96), Rgb8 { r: 96, g: 48, b: 0 });
    assert_eq!(Effect::Orbit.next(), Effect::Tide);
    assert_eq!(Direction::Forward.toggled(), Direction::Reverse);
    assert_eq!(seed_from_timer(0), 0xC0DE_2560);
}

#[test]
fn xorshift_known_values() {
    let mut rng = XorShift32::new(1);
    assert_eq!(rng.next_u32(), 270_369);
    let mut zero = XorShift32::new(0);
    let a = zero.next_u32();
    let mut fallback = XorShift32::new(0xC0DE_2560);
    assert_eq!(a, fallback.next_u32());
    assert_ne!(a, 0);
}

#[test]
fn new_controller_and_first_beat() {
    let mut c = LanternController::new(colors(), 1_000);
    assert_eq!(c.next_step_ms, 1_220);
    assert_eq!(c.brightness_index, 1);
    assert!(!c.tick(1_219));
    assert!(c.tick(1_220));
    assert_eq!(c.beat_index, 1);
    assert_eq!(c.animation_step, 1);
    assert_eq!(c.next_step_ms, 1_220 + 150);
}

#[test]
fn short_presses_while_performing() {
    let mut c = LanternController::new(colors(), 0);
    let mut rng = XorShift32::new(1);
    assert_eq!(c.handle_short_press(SW1, 5, &mut rng), None);
    assert_eq!(c.effect, Effect::Tide);
    assert_eq!(c.handle_short_press(SW3, 5, &mut rng), None);
    assert_eq!(c.direction, Direction::Reverse);
    c.handle_short_press(SW4, 5, &mut rng);
    assert_eq!(c.brightness_index, 2);
    c.handle_short_press(SW4, 5, &mut rng);
    assert_eq!(c.brightness_index, 0);
    assert_eq!(c.handle_short_press(SW2, 5, &mut rng), Some(270_369));
}

#[test]
fn learning_a_rhythm() {
    let mut c = LanternController::new(colors(), 0);
    let mut rng = XorShift32::new(7);
    c.handle_long_press(SW1, 1_000);
    assert!(matches!(c.mode, SceneMode::Learn(_)));
    c.handle_short_press(SW3, 1_050, &mut rng);
    c.handle_short_press(SW2, 1_500, &mut rng);
    c.handle_short_press(SW1, 3_000, &mut rng);
    match c.mode {
        SceneMode::Learn(capture) => {
            assert_eq!(capture.count, 3);
            assert_eq!(capture.gaps_ms[..3], [90, 450, 900]);
            assert_eq!(capture.accents[..3], [SW3 as u8, SW2 as u8, SW1 as u8]);
        }
        SceneMode::Perform => panic!("still learning"),
    }
    c.handle_short_press(SW4, 3_200, &mut rng);
    assert!(matches!(c.mode, SceneMode::Perform));
    assert_eq!(c.rhythm.gaps_ms, [90, 450, 900, 200]);
    assert_eq!(c.rhythm.accents, [2, 1, 0, 3]);
    assert_eq!(c.next_step_ms, 3_290);
    assert_eq!(c.beat_index, 0);
}

#[test]
fn long_presses() {
    let mut c = LanternController::new(colors(), 0);
    c.handle_long_press(SW2, 10);
    assert!(matches!(c.mode, SceneMode::Perform));
    c.handle_long_press(SW1, 10);
    c.handle_long_press(SW4, 20);
    assert!(matches!(c.mode, SceneMode::Learn(_)));
    c.handle_long_press(SW1, 30);
    assert!(matches!(c.mode, SceneMode::Perform));
    assert_eq!(c.next_step_ms, 250);
    c.rhythm.gaps_ms = [1, 2, 3, 4];
    c.handle_long_press(SW4, 40);
    assert_eq!(c.rhythm.gaps_ms, [220, 150, 260, 340]);
    assert_eq!(c.next_step_ms, 260);
}

#[test]
fn learning_blink_ticks() {
    let mut c = LanternController::new(colors(), 0);
    c.handle_long_press(SW1, 100);
    assert!(!c.tick(179));
    assert!(c.tick(180));
    assert!(!c.tick(200));
}

#[test]
fn orbit_frame() {
    let c = LanternController::new(colors(), 0);
    let mut frame = blank_frame();
    c.render(&mut frame, 0);
    let bright = |i: usize| scaled(colors()[i], 160);
    // Heads at 0, 3, 6, 9 in beat colours; tails one behind, dimmed.
    assert_eq!(frame[0], bright(0));
    assert_eq!(frame[3], bright(1));
    assert_eq!(frame[6], bright(2));
    assert_eq!(frame[9], bright(3));
    assert_eq!(frame[11], scaled(bright(0), 96));
    assert_eq!(frame[2], scaled(bright(1), 96));
    assert_eq!(frame[1], Rgb8 { r: 0, g: 0, b: 0 });
}

#[test]
fn tide_frame_reversed() {
    let mut c = LanternController::new(colors(), 0);
    let mut rng = XorShift32::new(1);
    c.handle_short_press(SW1, 0, &mut rng);
    c.handle_short_press(SW3, 0, &mut rng);
    c.animation_step = 2;
    let mut frame = blank_frame();
    c.render(&mut frame, 0);
    let bright = |i: usize| scaled(colors()[i], 160);
    assert_eq!(frame[11], bright(0));
    assert_eq!(frame[10], bright(1));
    assert_eq!(frame[9], bright(2));
    assert_eq!(frame[8], scaled(bright(0), 72));
    assert_eq!(frame[0], Rgb8 { r: 0, g: 0, b: 0 });
}

#[test]
fn learning_frame() {
    let mut c = LanternController::new(colors(), 0);
    let mut rng = XorShift32::new(1);
    c.handle_long_press(SW1, 0);
    c.handle_short_press(SW2, 100, &mut rng);
    let mut frame = blank_frame();
    c.render(&mut frame, 0);
    let green = scaled(colors()[1], 160);
    assert_eq!(frame[1], green);
    assert_eq!(frame[0], scaled(green, 96));
    assert_eq!(frame[2], scaled(green, 96));
    assert_eq!(frame[4], scaled(Rgb8 { r: 64, g: 64, b: 64 }, 160));
    assert_eq!(frame[7], Rgb8 { r: 0, g: 0, b: 4 });
    let mut odd = blank_frame();
    c.render(&mut odd, 180);
    assert_eq!(odd[4], Rgb8 { r: 0, g: 0, b: 4 });
}

#[test]
fn learning_frame_with_every_slot_tapped() {
    let c = LanternController::new(colors(), 0);
    let mut capture = LearnCapture::new(0);
    capture.count = 4;
    capture.accents = [3, 2, 1, 0];
    let mut frame = blank_frame();
    c.render_learning(&mut frame, &capture, 0);
    for slot in 0..4 {
        let color = scaled(colors()[3 - slot], 160);
        assert_eq!(frame[3 * slot + 1], color);
        assert_eq!(frame[3 * slot], scaled(color, 96));
        assert_eq!(frame[3 * slot + 2], scaled(color, 96));
    }
}

#[test]
fn applying_key_events() {
    let mut c = LanternController::new(colors(), 0);
    let mut rng = XorShift32::new(1);
    assert_eq!(c.apply_event(SW3, ButtonEvent::Idle, 10, &mut rng), (false, None));
    assert_eq!(c.direction, Direction::Forward);
    assert_eq!(c.apply_event(SW3, ButtonEvent::Short, 10, &mut rng), (true, None));
    assert_eq!(c.direction, Direction::Reverse);
    assert_eq!(c.apply_event(SW2, ButtonEvent::Short, 20, &mut rng), (true, Some(270_369)));
    assert_eq!(c.apply_event(SW1, ButtonEvent::Long, 30, &mut rng), (true, None));
    assert!(matches!(c.mode, SceneMode::Learn(_)));
}
