//! Frame buffer of the SSD1315 128x64 monochrome OLED and the packets that
//! carry it over I2C.
use vstd::prelude::*;

verus! {

pub const WIDTH: usize = 128;
pub const HEIGHT: usize = 64;
pub const PAGE_N: usize = 8;
pub const BUFFER_N: usize = 1024;
pub const DEFAULT_ADDRESS: u8 = 0x3C;

/// Whether `(x, y)` lies on the 128x64 screen.
pub open spec fn on_screen(x: int, y: int) -> bool {
    0 <= x < WIDTH && 0 <= y < HEIGHT
}

/// Byte of the buffer that holds pixel `(x, y)`: pages of eight rows, one
/// byte per column.
pub open spec fn spec_buffer_index(x: int, y: int) -> int {
    x + (y / 8) * (WIDTH as int)
}

/// Whether bit `bit` of `byte` is set.
pub open spec fn bit_set(byte: u8, bit: int) -> bool {
    ((byte >> (bit as u8)) & 1u8) == 1u8
}

/// Whether pixel `(x, y)` is lit in the raw buffer `buf`.
pub open spec fn buffer_lit(buf: Seq<u8>, x: int, y: int) -> bool {
    on_screen(x, y) && bit_set(buf[spec_buffer_index(x, y)], y % 8)
}

proof fn lemma_index_in_range(x: int, y: int)
    requires
        on_screen(x, y),
    ensures
        0 <= spec_buffer_index(x, y) < BUFFER_N,
{
    assert(0 <= y / 8 < 8);
    assert(0 <= (y / 8) * 128 <= 7 * 128) by (nonlinear_arith)
        requires
            0 <= y / 8 < 8,
    ;
}

proof fn lemma_index_injective(x1: int, y1: int, x2: int, y2: int)
    requires
        on_screen(x1, y1),
        on_screen(x2, y2),
        spec_buffer_index(x1, y1) == spec_buffer_index(x2, y2),
    ensures
        x1 == x2,
        y1 / 8 == y2 / 8,
{
    let p1 = y1 / 8;
    let p2 = y2 / 8;
    assert(x1 + p1 * 128 == x2 + p2 * 128);
    assert(p1 == p2) by (nonlinear_arith)
        requires
            x1 + p1 * 128 == x2 + p2 * 128,
            0 <= x1 < 128,
            0 <= x2 < 128,
    ;
}

proof fn lemma_set_bit(b: u8, k: u8, j: u8)
    requires
        k < 8,
        j < 8,
    ensures
        bit_set(b | (1u8 << k), j as int) == (j == k || bit_set(b, j as int)),
        bit_set(b & !(1u8 << k), j as int) == (j != k && bit_set(b, j as int)),
{
    assert((((b | (1u8 << k)) >> j) & 1u8 == 1u8) == (j == k || ((b >> j) & 1u8) == 1u8))
        by (bit_vector)
        requires
            k < 8,
            j < 8,
    ;
    assert((((b & !(1u8 << k)) >> j) & 1u8 == 1u8) == (j != k && ((b >> j) & 1u8) == 1u8))
        by (bit_vector)
        requires
            k < 8,
            j < 8,
    ;
}

/// Index of the buffer byte that holds pixel `(x, y)`.
pub fn buffer_index(x: usize, y: usize) -> (r: usize)
    requires
        x < WIDTH,
        y < HEIGHT,
    ensures
        r == spec_buffer_index(x as int, y as int),
        r < BUFFER_N,
{
    proof {
        lemma_index_in_range(x as int, y as int);
    }
    x + (y / 8) * WIDTH
}

/// The in-memory picture of the display: one bit per pixel.
pub struct FrameBuffer {
    buffer: [u8; BUFFER_N],
}

impl FrameBuffer {
    /// The raw bytes, in the order the display receives them.
    pub closed spec fn bytes(&self) -> Seq<u8> {
        self.buffer@
    }

    /// Whether pixel `(x, y)` is lit; pixels off the screen never are.
    pub open spec fn lit(&self, x: int, y: int) -> bool {
        buffer_lit(self.bytes(), x, y)
    }

    pub closed spec fn wf(&self) -> bool {
        self.buffer@.len() == BUFFER_N
    }

    /// A buffer with every pixel dark.
    pub fn new() -> (r: Self)
        ensures
            r.bytes() == Seq::new(BUFFER_N as nat, |i: int| 0u8),
            forall|x: int, y: int| !#[trigger] r.lit(x, y),
    {
        let r = FrameBuffer { buffer: [0u8; BUFFER_N] };
        assert(r.bytes() =~= Seq::new(BUFFER_N as nat, |i: int| 0u8));
        assert forall|x: int, y: int| !#[trigger] r.lit(x, y) by {
            if on_screen(x, y) {
                lemma_index_in_range(x, y);
                let s = (y % 8) as u8;
                assert((0u8 >> s) & 1u8 == 0u8) by (bit_vector);
            }
        }
        r
    }

    /// Darkens every pixel.
    pub fn clear(&mut self)
        ensures
            final(self).bytes() == Seq::new(BUFFER_N as nat, |i: int| 0u8),
            forall|x: int, y: int| !#[trigger] final(self).lit(x, y),
    {
        *self = FrameBuffer::new();
    }

    /// Lights (`enabled`) or darkens pixel `(x, y)`; does nothing off the
    /// screen.
    pub fn set_pixel(&mut self, x: usize, y: usize, enabled: bool)
        ensures
            paints(*old(self), *final(self), point_region(x as int, y as int), enabled),
    {
        if x >= WIDTH || y >= HEIGHT {
            return;
        }
        let index = buffer_index(x, y);
        let shift = (y & 0x07) as u8;
        assert(y & 0x07 == y % 8) by (bit_vector);
        let mask = 1u8 << shift;
        let ghost before = self.buffer@;
        if enabled {
            self.buffer[index] = self.buffer[index] | mask;
        } else {
            self.buffer[index] = self.buffer[index] & !mask;
        }
        assert forall|px: int, py: int|
            #[trigger] self.lit(px, py) == if on_screen(px, py) && point_region(x as int, y as int)(px, py) {
                enabled
            } else {
                buffer_lit(before, px, py)
            } by {
            if on_screen(px, py) {
                lemma_index_in_range(px, py);
                let j = (py % 8) as u8;
                if spec_buffer_index(px, py) == index {
                    lemma_index_injective(px, py, x as int, y as int);
                    lemma_set_bit(before[index as int], shift, j);
                }
            }
        }
    }
}

} // verus!

verus! {

/// The pixels of a region of the plane, as a predicate.
pub type Region = spec_fn(int, int) -> bool;

/// `after` is `before` with every on-screen pixel of `region` set to `on`
/// and every other pixel unchanged.
pub open spec fn paints(before: FrameBuffer, after: FrameBuffer, region: Region, on: bool) -> bool {
    forall|x: int, y: int| #[trigger]
        after.lit(x, y) == if on_screen(x, y) && region(x, y) {
            on
        } else {
            before.lit(x, y)
        }
}

pub open spec fn empty_region() -> Region {
    |x: int, y: int| false
}

pub open spec fn point_region(px: int, py: int) -> Region {
    |x: int, y: int| x == px && y == py
}

pub open spec fn union_region(r1: Region, r2: Region) -> Region {
    |x: int, y: int| r1(x, y) || r2(x, y)
}

/// Painting nothing leaves the buffer as it was.
pub proof fn lemma_paints_nothing(a: FrameBuffer, r: Region, on: bool)
    requires
        forall|x: int, y: int| !#[trigger] r(x, y),
    ensures
        paints(a, a, r, on),
{
}

/// Painting two regions in turn with the same value paints their union.
pub proof fn lemma_paints_compose(
    a: FrameBuffer,
    b: FrameBuffer,
    c: FrameBuffer,
    r1: Region,
    r2: Region,
    on: bool,
)
    requires
        paints(a, b, r1, on),
        paints(b, c, r2, on),
    ensures
        paints(a, c, union_region(r1, r2), on),
{
    assert forall|x: int, y: int| #[trigger]
        c.lit(x, y) == if on_screen(x, y) && union_region(r1, r2)(x, y) {
            on
        } else {
            a.lit(x, y)
        } by {
        assert(c.lit(x, y) == if on_screen(x, y) && r2(x, y) { on } else { b.lit(x, y) });
        assert(b.lit(x, y) == if on_screen(x, y) && r1(x, y) { on } else { a.lit(x, y) });
    }
}

/// Painting is insensitive to how the region is written down.
pub proof fn lemma_paints_same_region(a: FrameBuffer, b: FrameBuffer, r1: Region, r2: Region, on: bool)
    requires
        paints(a, b, r1, on),
        forall|x: int, y: int| on_screen(x, y) ==> #[trigger] r1(x, y) == r2(x, y),
    ensures
        paints(a, b, r2, on),
{
    assert forall|x: int, y: int| #[trigger]
        b.lit(x, y) == if on_screen(x, y) && r2(x, y) { on } else { a.lit(x, y) } by {
        assert(b.lit(x, y) == if on_screen(x, y) && r1(x, y) { on } else { a.lit(x, y) });
    }
}

} // verus!

verus! {

pub const CONTROL_COMMAND: u8 = 0x00;
pub const CONTROL_DATA: u8 = 0x40;
pub const DATA_CHUNK_N: usize = 16;

pub open spec fn spec_init_sequence() -> Seq<u8> {
    seq![
        0xAEu8, 0xD5u8, 0x80u8, 0xA8u8, 0x3Fu8, 0xD3u8, 0x00u8, 0x40u8, 0x8Du8, 0x14u8, 0x20u8, 0x00u8, 0xA1u8,
        0xC8u8, 0xDAu8, 0x12u8, 0x81u8, 0x7Fu8, 0xD9u8, 0xF1u8, 0xDBu8, 0x40u8, 0xA4u8, 0xA6u8, 0x2Eu8, 0xAFu8,
    ]
}

/// Power-up commands: display off, clock, 64-row multiplex, no offset,
/// start line 0, charge pump on, horizontal addressing, flipped segment
/// and COM order, COM pins, contrast, precharge, VCOMH, resume from RAM,
/// normal (not inverted), no scrolling, display on.
pub fn init_sequence() -> (r: [u8; 26])
    ensures
        r@ == spec_init_sequence(),
{
    let r = [
        0xAE, 0xD5, 0x80, 0xA8, 0x3F, 0xD3, 0x00, 0x40, 0x8D, 0x14, 0x20, 0x00, 0xA1, 0xC8, 0xDA, 0x12, 0x81,
        0x7F, 0xD9, 0xF1, 0xDB, 0x40, 0xA4, 0xA6, 0x2E, 0xAF,
    ];
    assert(r@ =~= spec_init_sequence());
    r
}

/// Commands that select the whole screen (columns 0..127, pages 0..7)
/// before its data is sent.
pub fn full_window_commands() -> (r: [u8; 6])
    ensures
        r@ == seq![0x21u8, 0x00u8, (WIDTH - 1) as u8, 0x22u8, 0x00u8, (PAGE_N - 1) as u8],
{
    let r = [0x21, 0x00, (WIDTH - 1) as u8, 0x22, 0x00, (PAGE_N - 1) as u8];
    assert(r@ =~= seq![0x21u8, 0x00u8, (WIDTH - 1) as u8, 0x22u8, 0x00u8, (PAGE_N - 1) as u8]);
    r
}

/// Number of I2C packets for `n` payload bytes.
pub open spec fn packet_count(n: int) -> int {
    (n + DATA_CHUNK_N - 1) / (DATA_CHUNK_N as int)
}

/// Packet `k`: the control byte, then the `k`-th run of up to 16 payload
/// bytes.
pub open spec fn spec_packet(control: u8, payload: Seq<u8>, k: int) -> Seq<u8> {
    let start = k * DATA_CHUNK_N;
    let end = if start + DATA_CHUNK_N < payload.len() { start + DATA_CHUNK_N } else { payload.len() as int };
    seq![control] + payload.subrange(start, end)
}

/// Splits `payload` into I2C packets of at most 16 bytes, each led by
/// `control` (0x00 for commands, 0x40 for display data).
pub fn packets(control: u8, payload: &[u8]) -> (r: Vec<Vec<u8>>)
    ensures
        r@.len() == packet_count(payload@.len() as int),
        forall|k: int| 0 <= k < r@.len() ==> #[trigger] r@[k]@ == spec_packet(control, payload@, k),
{
    let mut out: Vec<Vec<u8>> = Vec::new();
    let mut start: usize = 0;
    while start < payload.len()
        invariant
            0 <= start <= payload@.len(),
            start == if out@.len() * DATA_CHUNK_N < payload@.len() {
                out@.len() * DATA_CHUNK_N
            } else {
                payload@.len() as int
            },
            start < payload@.len() ==> out@.len() < packet_count(payload@.len() as int),
            start == payload@.len() ==> out@.len() == packet_count(payload@.len() as int),
            forall|k: int| 0 <= k < out@.len() ==> #[trigger] out@[k]@ == spec_packet(control, payload@, k),
        decreases payload@.len() - start,
    {
        let end = if payload.len() - start > DATA_CHUNK_N { start + DATA_CHUNK_N } else { payload.len() };
        let mut packet: Vec<u8> = Vec::new();
        packet.push(control);
        let mut i = start;
        while i < end
            invariant
                start <= i <= end,
                end <= payload@.len(),
                packet@ == seq![control] + payload@.subrange(start as int, i as int),
            decreases end - i,
        {
            packet.push(payload[i]);
            assert(payload@.subrange(start as int, i + 1) =~= payload@.subrange(start as int, i as int).push(payload@[i as int]));
            i = i + 1;
        }
        assert(packet@ =~= spec_packet(control, payload@, out@.len() as int));
        out.push(packet);
        start = end;
    }
    out
}

/// The number of packets for `n` payload bytes.
pub fn packet_total(n: usize) -> (r: usize)
    ensures
        r == packet_count(n as int),
{
    let whole = n / DATA_CHUNK_N;
    if n % DATA_CHUNK_N == 0 {
        whole
    } else {
        whole + 1
    }
}

/// Writes packet `k` of `payload` into `out` (the control byte, then up to
/// 16 payload bytes) and returns its length; `out` past that length is
/// left as it was.
pub fn packet_into(control: u8, payload: &[u8], k: usize, out: &mut [u8; 17]) -> (len: usize)
    requires
        k < packet_count(payload@.len() as int),
    ensures
        len == spec_packet(control, payload@, k as int).len(),
        final(out)@.subrange(0, len as int) == spec_packet(control, payload@, k as int),
{
    let n = payload.len();
    proof {
        assert(k * 16 < n) by (nonlinear_arith)
            requires
                k < (n + 15) / 16,
        ;
    }
    let start = k * DATA_CHUNK_N;
    let end = if n - start > DATA_CHUNK_N { start + DATA_CHUNK_N } else { n };
    out[0] = control;
    let mut i = start;
    while i < end
        invariant
            start <= i <= end,
            end <= n,
            n == payload@.len(),
            end - start <= DATA_CHUNK_N,
            out@[0] == control,
            forall|j: int| 0 <= j < i - start ==> #[trigger] out@[1 + j] == payload@[start + j],
        decreases end - i,
    {
        out[1 + i - start] = payload[i];
        i = i + 1;
    }
    proof {
        let sp = spec_packet(control, payload@, k as int);
        let got = out@.subrange(0, (end - start + 1) as int);
        assert(start as int == k as int * DATA_CHUNK_N);
        assert(sp.len() == got.len());
        assert forall|j: int| 0 <= j < got.len() implies got[j] == sp[j] by {
            if j > 0 {
                assert(got[j] == out@[1 + (j - 1)]);
                assert(sp[j] == payload@.subrange(start as int, end as int)[j - 1]);
            }
        }
        assert(got =~= sp);
    }
    end - start + 1
}

impl FrameBuffer {
    /// The raw bytes, page by page.
    pub fn as_bytes(&self) -> (r: &[u8; BUFFER_N])
        ensures
            r@ == self.bytes(),
    {
        &self.buffer
    }

    /// The display-data packets that carry the whole buffer.
    pub fn data_packets(&self) -> (r: Vec<Vec<u8>>)
        ensures
            r@.len() == BUFFER_N / DATA_CHUNK_N,
            forall|k: int| 0 <= k < r@.len() ==> #[trigger] r@[k]@ == spec_packet(CONTROL_DATA, self.bytes(), k),
    {
        packets(CONTROL_DATA, self.buffer.as_slice())
    }

    /// Writes display-data packet `k` of the buffer into `out` and returns
    /// its length (always 17: the control byte and 16 data bytes).
    pub fn data_packet_into(&self, k: usize, out: &mut [u8; 17]) -> (len: usize)
        requires
            k < BUFFER_N / DATA_CHUNK_N,
        ensures
            len == 17,
            final(out)@.subrange(0, len as int) == spec_packet(CONTROL_DATA, self.bytes(), k as int),
    {
        packet_into(CONTROL_DATA, self.buffer.as_slice(), k, out)
    }
}

/// Every payload byte travels in exactly one place: byte `i` is byte
/// `1 + i % 16` of packet `i / 16`, after the control byte that leads
/// every packet.
pub proof fn lemma_packets_carry_payload(control: u8, payload: Seq<u8>, i: int)
    requires
        0 <= i < payload.len(),
    ensures
        0 <= i / (DATA_CHUNK_N as int) < packet_count(payload.len() as int),
        spec_packet(control, payload, i / (DATA_CHUNK_N as int))[0] == control,
        spec_packet(control, payload, i / (DATA_CHUNK_N as int)).len() > 1 + i % (DATA_CHUNK_N as int),
        spec_packet(control, payload, i / (DATA_CHUNK_N as int))[1 + i % (DATA_CHUNK_N as int)] == payload[i],
{
    let k = i / (DATA_CHUNK_N as int);
    let n = payload.len() as int;
    assert(k * 16 <= i < k * 16 + 16) by (nonlinear_arith)
        requires
            k == i / 16,
            0 <= i,
    ;
    assert(i % 16 == i - k * 16);
    assert(k < (n + 15) / 16) by (nonlinear_arith)
        requires
            k * 16 <= i < n,
    ;
}

} // verus!
