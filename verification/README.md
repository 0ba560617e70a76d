# es

Firmware logic for an Arduino Mega 2560 course project, written in Verus:
each module states its behaviour in `requires`/`ensures` contracts over
mathematical models, and Verus proves the code against them.

- `src/` is the verified library:
  - `f02a`: timer 2 tone planning for the passive buzzer and the schedule
    that stops a tone;
  - `f03a`: twelve LEDs, the xorshift generator, the partial shuffle that
    picks distinct LEDs and the per-beat frame;
  - `f12a`, `ws2812`: RGB pixels and the WS2812 wire order;
  - `key4b`: the four-key debouncer and short/long press classifier;
  - `sr04`: ultrasonic echo timing and distances;
  - `ssd1315`: the OLED frame buffer, its command sequences and I2C packets;
  - `e1`: the rhythm lantern (effects, learning a rhythm, rendering);
  - `e2`: the parking assistant (drawing primitives with a Bresenham line,
    seven-segment digits, alert bands, smoothing, the dashboard and the main
    loop's decisions);
  - `module_scan`: which modules a module's source text reaches through
    `crate::` paths (lexed with `proc_macro2`, then scanned, names in
    ascending order), and the depth-first walk from an entry module through
    every module it reaches;
  - `sim`: simulated time, step verdicts and pin recording for simulator
    cases.
- `tests/` runs the library on concrete values.
- `app/` is the unverified shell: register and pin access, interrupts and
  the run loops of the firmware, the floating-point palette, the simulator
  runner around simavr and the `syn`-based code generation.
