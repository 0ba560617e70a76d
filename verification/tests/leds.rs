use es::f03a::{blank_frame, pick_distinct_leds, render_phase, seed_from_timer, XorShift32, LED_N, RNG_FALLBACK_SEED};
use es::f12a::{self, Rgb8};
use es::ws2812::wire_bytes;

#[test]
fn xorshift_known_outputs() {
    let mut rng = XorShift32::new(1);
    assert_eq!(rng.next_u32(), 270_369);
    let mut fallback = XorShift32::new(0);
    assert_eq!(fallback.next_u32(), 391_588_341);
}

#[test]
fn zero_seed_behaves_like_fallback_seed() {
    let mut a = XorShift32::new(0);
    let mut b = XorShift32::new(RNG_FALLBACK_SEED);
    for _ in 0..16 {
        assert_eq!(a.next_u32(), b.next_u32());
    }
}

#[test]
fn next_index_stays_below_upper() {
    let mut rng = XorShift32::new(7);
    for upper in 1..40usize {
        assert!(rng.next_index(upper) < upper);
    }
}

#[test]
fn next_index_is_output_modulo_upper() {
    let mut rng = XorShift32::new(1);
    assert_eq!(rng.next_index(12), 270_369 % 12);
}

#[test]
fn timer_seed_mixes_in_fallback() {
    assert_eq!(seed_from_timer(0x12), 0xC0DE_0318);
    assert_eq!(seed_from_timer(0), RNG_FALLBACK_SEED);
}

#[test]
fn blank_frame_is_dark() {
    assert!(blank_frame().iter().all(|lit| !lit));
    assert!(f12a::blank_frame().iter().all(|p| *p == f12a::off()));
}

#[test]
fn pick_four_distinct_leds() {
    let mut rng = XorShift32::new(1);
    let mut active = [99usize; 4];
    pick_distinct_leds(&mut rng, &mut active);
    assert_eq!(active, [9, 2, 3, 11]);
    assert_eq!(rng.next_u32(), {
        let mut probe = XorShift32::new(307_599_695);
        probe.next_u32()
    });
}

#[test]
fn pick_more_slots_than_leds_fills_a_permutation() {
    let mut rng = XorShift32::new(1);
    let mut active = [99usize; 14];
    pick_distinct_leds(&mut rng, &mut active);
    assert_eq!(&active[..12], &[9, 2, 3, 11, 5, 10, 4, 7, 0, 6, 1, 8]);
    assert_eq!(&active[12..], &[99, 99]);
    let mut seen = [false; LED_N];
    for led in &active[..12] {
        assert!(!seen[*led]);
        seen[*led] = true;
    }
}

#[test]
fn pick_distinct_leds_many_seeds() {
    for seed in 0..200u32 {
        let mut rng = XorShift32::new(seed);
        let mut active = [0usize; 6];
        pick_distinct_leds(&mut rng, &mut active);
        for i in 0..6 {
            assert!(active[i] < LED_N);
            for j in (i + 1)..6 {
                assert_ne!(active[i], active[j]);
            }
        }
    }
}

#[test]
fn render_phase_lights_matching_parity() {
    let mut frame = [true; LED_N];
    let active = [3usize, 5, 7, 9];
    render_phase(&mut frame, &active, 0);
    let lit: Vec<usize> = (0..LED_N).filter(|i| frame[*i]).collect();
    assert_eq!(lit, vec![3, 7]);
    render_phase(&mut frame, &active, 1);
    let lit: Vec<usize> = (0..LED_N).filter(|i| frame[*i]).collect();
    assert_eq!(lit, vec![5, 9]);
    render_phase(&mut frame, &active, 2);
    let lit: Vec<usize> = (0..LED_N).filter(|i| frame[*i]).collect();
    assert_eq!(lit, vec![3, 7]);
}

#[test]
fn render_phase_without_leds_is_dark() {
    let mut frame = [true; LED_N];
    render_phase(&mut frame, &[], 0);
    assert!(frame.iter().all(|lit| !lit));
}

#[test]
fn wire_bytes_are_green_red_blue() {
    let pixels = [Rgb8 { r: 1, g: 2, b: 3 }, Rgb8 { r: 4, g: 5, b: 6 }];
    assert_eq!(wire_bytes(&pixels), vec![2, 1, 3, 5, 4, 6]);
    assert!(wire_bytes(&[]).is_empty());
}

#[test]
fn ring_data_line_is_d51() {
    let pin = f12a::led_data_pin();
    assert_eq!(pin.port(), 'B');
    assert_eq!(pin.pin(), 2);
}
