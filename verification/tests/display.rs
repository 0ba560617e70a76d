use es::e2::{
    distance_to_digits, draw_dashed_line, draw_glyph, draw_hline, draw_rect, draw_seven_segment_digit,
    draw_vline, fill_rect, glyph_c, render_dashboard, set_pixel, AlertBand, Point, RenderState,
};
use es::ssd1315::{buffer_index, full_window_commands, init_sequence, packets, FrameBuffer, BUFFER_N};

fn lit(fb: &FrameBuffer, x: usize, y: usize) -> bool {
    fb.as_bytes()[x + (y / 8) * 128] & (1 << (y % 8)) != 0
}

fn count_lit(fb: &FrameBuffer) -> usize {
    fb.as_bytes().iter().map(|b| b.count_ones() as usize).sum()
}

#[test]
fn new_buffer_is_dark() {
    let fb = FrameBuffer::new();
    assert_eq!(count_lit(&fb), 0);
    assert_eq!(fb.as_bytes().len(), BUFFER_N);
}

#[test]
fn set_and_clear_one_pixel() {
    let mut fb = FrameBuffer::new();
    fb.set_pixel(5, 9, true);
    assert!(lit(&fb, 5, 9));
    assert_eq!(fb.as_bytes()[5 + 128], 0b10);
    assert_eq!(count_lit(&fb), 1);
    fb.set_pixel(5, 9, false);
    assert_eq!(count_lit(&fb), 0);
}

#[test]
fn off_screen_pixels_are_ignored() {
    let mut fb = FrameBuffer::new();
    fb.set_pixel(128, 0, true);
    fb.set_pixel(0, 64, true);
    set_pixel(&mut fb, -1, 3, true);
    set_pixel(&mut fb, 3, -1, true);
    assert_eq!(count_lit(&fb), 0);
}

#[test]
fn buffer_index_pages() {
    assert_eq!(buffer_index(0, 0), 0);
    assert_eq!(buffer_index(127, 7), 127);
    assert_eq!(buffer_index(3, 8), 131);
    assert_eq!(buffer_index(127, 63), 1023);
}

#[test]
fn lines_and_rectangles() {
    let mut fb = FrameBuffer::new();
    draw_hline(&mut fb, 10, 4, 2, true);
    assert_eq!(count_lit(&fb), 7);
    assert!(lit(&fb, 4, 2) && lit(&fb, 10, 2));
    let mut fb = FrameBuffer::new();
    draw_vline(&mut fb, 1, 5, 3, true);
    assert_eq!(count_lit(&fb), 3);
    let mut fb = FrameBuffer::new();
    draw_rect(&mut fb, 28, 47, 21, 11, true);
    assert_eq!(count_lit(&fb), 2 * 21 + 2 * 11 - 4);
    assert!(!lit(&fb, 30, 50));
    let mut fb = FrameBuffer::new();
    fill_rect(&mut fb, 35, 45, 7, 2, true);
    assert_eq!(count_lit(&fb), 14);
    draw_rect(&mut fb, 0, 0, 0, 5, true);
    fill_rect(&mut fb, 0, 0, 5, -1, true);
    assert_eq!(count_lit(&fb), 14);
}

#[test]
fn solid_diagonal_line() {
    let mut fb = FrameBuffer::new();
    draw_dashed_line(&mut fb, Point { x: 0, y: 0 }, Point { x: 5, y: 5 }, 1, 0, true);
    for i in 0..6 {
        assert!(lit(&fb, i, i));
    }
    assert_eq!(count_lit(&fb), 6);
}

#[test]
fn dashed_horizontal_line() {
    let mut fb = FrameBuffer::new();
    draw_dashed_line(&mut fb, Point { x: 10, y: 11 }, Point { x: 69, y: 11 }, 7, 4, true);
    // 60 pixels in runs of 7 lit, 4 dark: five full runs and a partial one of 5.
    assert_eq!(count_lit(&fb), 5 * 7 + 5);
    assert!(lit(&fb, 10, 11) && lit(&fb, 16, 11) && !lit(&fb, 17, 11) && lit(&fb, 21, 11));
}

#[test]
fn steep_line_reaches_its_end() {
    let mut fb = FrameBuffer::new();
    draw_dashed_line(&mut fb, Point { x: 10, y: 11 }, Point { x: 2, y: 33 }, 0, 0, true);
    assert!(lit(&fb, 10, 11));
    assert!(lit(&fb, 2, 33));
    assert_eq!(count_lit(&fb), 23);
}

#[test]
fn seven_segment_eight_and_one() {
    let mut fb = FrameBuffer::new();
    draw_seven_segment_digit(&mut fb, 88, 12, 1);
    assert_eq!(count_lit(&fb), 2 * 16);
    let mut fb = FrameBuffer::new();
    draw_seven_segment_digit(&mut fb, 88, 12, 8);
    assert_eq!(count_lit(&fb), 3 * 14 + 4 * 16);
}

#[test]
fn glyph_c_pixels() {
    let mut fb = FrameBuffer::new();
    let c = glyph_c();
    draw_glyph(&mut fb, 102, 46, &c);
    let expected: usize = c.iter().map(|b| b.count_ones() as usize).sum();
    assert_eq!(count_lit(&fb), expected);
    // Column 0 is 0b0011110: rows 2..=5 from the top.
    assert!(!lit(&fb, 102, 47) && lit(&fb, 102, 48) && lit(&fb, 102, 51) && !lit(&fb, 102, 52));
}

#[test]
fn digits_of_distances() {
    assert_eq!(distance_to_digits(None), [None, None, None]);
    assert_eq!(distance_to_digits(Some(7)), [None, None, Some(7)]);
    assert_eq!(distance_to_digits(Some(42)), [None, Some(4), Some(2)]);
    assert_eq!(distance_to_digits(Some(105)), [Some(1), Some(0), Some(5)]);
    assert_eq!(distance_to_digits(Some(0)), [None, None, Some(0)]);
}

#[test]
fn dashboard_draws_divider_and_clears_old_pixels() {
    let mut fb = FrameBuffer::new();
    fb.set_pixel(127, 0, true);
    let state = RenderState { band: AlertBand::Clear, blink_on: true, display_cm: None };
    render_dashboard(&mut fb, state);
    assert!(!lit(&fb, 127, 0));
    for y in 6..=58 {
        assert!(lit(&fb, 82, y));
    }
    assert!(!lit(&fb, 82, 5) && !lit(&fb, 82, 59));
}

#[test]
fn dashboard_stop_band_shows_more() {
    let mut clear = FrameBuffer::new();
    render_dashboard(&mut clear, RenderState { band: AlertBand::Clear, blink_on: true, display_cm: None });
    let mut stop = FrameBuffer::new();
    render_dashboard(&mut stop, RenderState { band: AlertBand::Stop, blink_on: true, display_cm: Some(12) });
    assert!(count_lit(&stop) > count_lit(&clear));
    // The "!!" glyph at (123, 54) only shows at Stop.
    assert!(lit(&stop, 123, 54));
    assert!(!lit(&clear, 123, 54));
}

#[test]
fn command_and_data_packets() {
    let init = init_sequence();
    assert_eq!(init[0], 0xAE);
    assert_eq!(init[25], 0xAF);
    let p = packets(0x00, &init);
    assert_eq!(p.len(), 2);
    assert_eq!(p[0].len(), 17);
    assert_eq!(p[0][0], 0x00);
    assert_eq!(&p[0][1..], &init[..16]);
    assert_eq!(p[1].len(), 11);
    assert_eq!(&p[1][1..], &init[16..]);
    assert_eq!(full_window_commands(), [0x21, 0x00, 127, 0x22, 0x00, 7]);
    let mut fb = FrameBuffer::new();
    fb.set_pixel(17, 0, true);
    let data = fb.data_packets();
    assert_eq!(data.len(), 64);
    assert!(data.iter().all(|d| d.len() == 17 && d[0] == 0x40));
    assert_eq!(data[1][2], 1);
    assert!(packets(0x40, &[]).is_empty());
}

#[test]
fn packets_reassemble_to_payload() {
    let payload: Vec<u8> = (0u8..40).collect();
    let p = packets(0x40, &payload);
    assert_eq!(p.len(), 3);
    let mut joined = Vec::new();
    for packet in &p {
        assert_eq!(packet[0], 0x40);
        joined.extend_from_slice(&packet[1..]);
    }
    assert_eq!(joined, payload);
    assert_eq!(p[37 / 16][1 + 37 % 16], 37);
}

#[test]
fn long_lines_past_the_screen() {
    let mut fb = FrameBuffer::new();
    draw_dashed_line(&mut fb, Point { x: 0, y: 5 }, Point { x: 9_000, y: 5 }, 0, 0, true);
    assert!((0..128).all(|x| lit(&fb, x, 5)));
    assert_eq!(count_lit(&fb), 128);

    let mut fb = FrameBuffer::new();
    draw_dashed_line(&mut fb, Point { x: 0, y: 0 }, Point { x: 20_000, y: 20_000 }, 0, 0, true);
    assert!((0..64).all(|i| lit(&fb, i, i)));
    assert_eq!(count_lit(&fb), 64);
}
