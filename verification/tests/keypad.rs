use es::key4b::{
    blank_state, button_mask_from_ports, pressed_mask, register_bit, register_is_low, ButtonEvent, ButtonMask,
    ButtonRuntime, DEBOUNCE_MS, LONG_PRESS_MS, SW1, SW2, SW3, SW4,
};

fn mask_of(keys: &[usize]) -> ButtonMask {
    let mut m = ButtonMask::none();
    for &k in keys {
        m.insert(k);
    }
    m
}

#[test]
fn mask_operations() {
    let mut m = ButtonMask::none();
    assert!(!m.contains(SW3));
    m.insert(SW3);
    assert!(m.contains(SW3));
    assert_eq!(m.0, 0b100);
    m.insert(SW1);
    m.remove(SW3);
    assert!(!m.contains(SW3));
    assert!(m.contains(SW1));
    let taken = m.take();
    assert_eq!(taken.0, 1);
    assert_eq!(m.0, 0);
    assert_eq!(ButtonMask::from_key(3).0, 8);
}

#[test]
fn register_helpers() {
    assert_eq!(register_bit(4), 16);
    assert!(register_is_low(0b1110_1111, 16));
    assert!(!register_is_low(0xFF, 16));
    assert_eq!(blank_state(), [false; 4]);
}

#[test]
fn ports_to_mask() {
    // Everything pulled up: nothing pressed.
    assert_eq!(button_mask_from_ports(0xFF, 0xFF).0, 0);
    // PE4 low is SW1, PD2 low is SW4.
    let m = button_mask_from_ports(0xFF & !4, 0xFF & !16);
    assert!(m.contains(SW1) && m.contains(SW4) && !m.contains(SW2) && !m.contains(SW3));
    assert_eq!(button_mask_from_ports(0, 0).0, 0b1111);
    assert_eq!(pressed_mask(&[true, false, true, false]), 0b0101);
}

#[test]
fn quick_press_gives_short() {
    let mut rt = ButtonRuntime::new();
    rt.schedule_debounce(SW2, 100);
    rt.tick(mask_of(&[SW2]), 100 + DEBOUNCE_MS - 1);
    assert!(!rt.stable_mask.contains(SW2));
    rt.tick(mask_of(&[SW2]), 100 + DEBOUNCE_MS);
    assert!(rt.stable_mask.contains(SW2));
    assert_eq!(rt.pressed_ms[SW2], 130);
    rt.schedule_debounce(SW2, 200);
    rt.tick(mask_of(&[]), 230);
    let events = rt.drain_events();
    assert_eq!(events, [ButtonEvent::Idle, ButtonEvent::Short, ButtonEvent::Idle, ButtonEvent::Idle]);
    assert_eq!(rt.drain_events(), [ButtonEvent::Idle; 4]);
}

#[test]
fn held_press_gives_long_and_no_short() {
    let mut rt = ButtonRuntime::new();
    rt.schedule_debounce(SW1, 0);
    rt.tick(mask_of(&[SW1]), 30);
    rt.tick(mask_of(&[SW1]), 30 + LONG_PRESS_MS - 1);
    assert_eq!(rt.drain_events(), [ButtonEvent::Idle; 4]);
    rt.tick(mask_of(&[SW1]), 30 + LONG_PRESS_MS);
    assert_eq!(rt.drain_events()[SW1], ButtonEvent::Long);
    rt.tick(mask_of(&[SW1]), 2_000);
    assert_eq!(rt.drain_events()[SW1], ButtonEvent::Idle);
    rt.schedule_debounce(SW1, 2_000);
    rt.tick(mask_of(&[]), 2_030);
    assert_eq!(rt.drain_events(), [ButtonEvent::Idle; 4]);
    assert!(!rt.stable_mask.contains(SW1));
}

#[test]
fn bounce_back_to_same_level_is_ignored() {
    let mut rt = ButtonRuntime::with_stable_mask(mask_of(&[SW3]));
    rt.schedule_debounce(SW3, 10);
    rt.tick(mask_of(&[SW3]), 40);
    assert!(rt.stable_mask.contains(SW3));
    assert_eq!(rt.drain_events(), [ButtonEvent::Idle; 4]);
}

#[test]
fn long_takes_precedence_in_drain() {
    let mut rt = ButtonRuntime::new();
    rt.short_event_mask.insert(SW4);
    rt.long_event_mask.insert(SW4);
    rt.short_event_mask.insert(SW2);
    assert_eq!(rt.drain_events(), [ButtonEvent::Idle, ButtonEvent::Short, ButtonEvent::Idle, ButtonEvent::Long]);
}

#[test]
fn release_settles_even_when_press_time_is_ahead() {
    let mut rt = ButtonRuntime::with_stable_mask(mask_of(&[SW1]));
    rt.pressed_ms[SW1] = 5_000;
    rt.schedule_debounce(SW1, 100);
    rt.tick(ButtonMask::none(), 200);
    let events = rt.drain_events();
    assert_eq!(events[SW1], ButtonEvent::Short);
    assert!(!rt.stable_mask.contains(SW1));
}
