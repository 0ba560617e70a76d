//! Twelve single-colour LEDs blinking in random pairs of groups.
use vstd::prelude::*;

verus! {

pub const LED_N: usize = 12;
pub const OFF: bool = false;
pub const ON: bool = true;
pub const RNG_FALLBACK_SEED: u32 = 0xC0DE_030A;

/// All LEDs dark.
pub fn blank_frame() -> (r: [bool; LED_N])
    ensures
        forall|i: int| 0 <= i < LED_N ==> r@[i] == OFF,
{
    [OFF; LED_N]
}

/// One xorshift32 step (shifts 13, 17, 5); a zero result is replaced by
/// `fallback`, so the generator never gets stuck at zero.
pub open spec fn xorshift_step(x: u32, fallback: u32) -> u32 {
    let a = x ^ (x << 13u32);
    let b = a ^ (a >> 17u32);
    let c = b ^ (b << 5u32);
    if c == 0 { fallback } else { c }
}

/// `n` steps of the generator from `x`.
pub open spec fn xorshift_iter(x: u32, fallback: u32, n: nat) -> u32
    decreases n,
{
    if n == 0 {
        x
    } else {
        xorshift_step(xorshift_iter(x, fallback, (n - 1) as nat), fallback)
    }
}

/// A small pseudo-random generator.
pub struct XorShift32 {
    state: u32,
}

impl XorShift32 {
    pub closed spec fn state(&self) -> u32 {
        self.state
    }

    /// Seeds the generator; a zero seed is replaced by the fallback seed.
    pub fn new(seed: u32) -> (r: Self)
        ensures
            r.state() == if seed == 0 { RNG_FALLBACK_SEED } else { seed },
    {
        let state = if seed == 0 { RNG_FALLBACK_SEED } else { seed };
        XorShift32 { state }
    }

    /// Advances the generator and returns its new state.
    pub fn next_u32(&mut self) -> (r: u32)
        ensures
            r == xorshift_step(old(self).state(), RNG_FALLBACK_SEED),
            final(self).state() == r,
            r != 0,
    {
        let mut x = self.state;
        x ^= x << 13u32;
        x ^= x >> 17u32;
        x ^= x << 5u32;

        if x == 0 {
            x = RNG_FALLBACK_SEED;
        }

        self.state = x;
        x
    }

    /// A number below `upper` taken from the next output.
    pub fn next_index(&mut self, upper: usize) -> (r: usize)
        requires
            upper > 0,
        ensures
            r == xorshift_step(old(self).state(), RNG_FALLBACK_SEED) as int % upper as int,
            r < upper,
            final(self).state() == xorshift_step(old(self).state(), RNG_FALLBACK_SEED),
    {
        (self.next_u32() as usize) % upper
    }
}

/// The generator seed from a free-running timer count.
pub fn seed_from_timer(timer_count: u8) -> (r: u32)
    ensures
        r == (timer_count as u32 ^ RNG_FALLBACK_SEED),
{
    timer_count as u32 ^ RNG_FALLBACK_SEED
}

/// `s` with entries `i` and `j` exchanged.
pub open spec fn swapped(s: Seq<usize>, i: int, j: int) -> Seq<usize> {
    s.update(i, s[j]).update(j, s[i])
}

pub open spec fn identity_leds() -> Seq<usize> {
    Seq::new(LED_N as nat, |i: int| i as usize)
}

/// The partial shuffle after `k` rounds, with the generator state: round
/// `s` swaps entry `s` with a random entry at or after it.
pub open spec fn shuffle_after(state: u32, k: nat) -> (Seq<usize>, u32)
    decreases k,
{
    if k == 0 {
        (identity_leds(), state)
    } else {
        let prev = shuffle_after(state, (k - 1) as nat);
        let s = k - 1;
        let next_state = xorshift_step(prev.1, RNG_FALLBACK_SEED);
        let pick = s + next_state as int % (LED_N - s);
        (swapped(prev.0, s, pick), next_state)
    }
}

/// Every entry is an LED index and no two are equal.
pub open spec fn distinct_leds(s: Seq<usize>) -> bool {
    &&& forall|i: int| 0 <= i < s.len() ==> #[trigger] s[i] < LED_N
    &&& forall|i: int, j: int| 0 <= i < j < s.len() ==> #[trigger] s[i] != #[trigger] s[j]
}

proof fn lemma_shuffle_stays_permutation(state: u32, k: nat)
    requires
        k <= LED_N,
    ensures
        shuffle_after(state, k).0.len() == LED_N,
        distinct_leds(shuffle_after(state, k).0),
    decreases k,
{
    if k > 0 {
        lemma_shuffle_stays_permutation(state, (k - 1) as nat);
        let prev = shuffle_after(state, (k - 1) as nat);
        let s = k - 1;
        let next_state = xorshift_step(prev.1, RNG_FALLBACK_SEED);
        let pick = s + next_state as int % (LED_N - s);
        let cur = swapped(prev.0, s, pick);
        assert forall|i: int, j: int| 0 <= i < j < cur.len() implies #[trigger] cur[i] != #[trigger] cur[j] by {
            let pi = if i == s { pick } else if i == pick { s } else { i };
            let pj = if j == s { pick } else if j == pick { s } else { j };
            assert(cur[i] == prev.0[pi]);
            assert(cur[j] == prev.0[pj]);
            if pi < pj {
                assert(prev.0[pi] != prev.0[pj]);
            } else {
                assert(prev.0[pj] != prev.0[pi]);
            }
        }
    }
}

/// Picks `min(N, 12)` distinct LEDs at random into `active_leds` (a partial
/// Fisher-Yates shuffle of the twelve LEDs); slots past twelve are left as
/// they were.
pub fn pick_distinct_leds<const N: usize>(rng: &mut XorShift32, active_leds: &mut [usize; N])
    ensures
        ({
            let count = if N < LED_N { N as nat } else { LED_N as nat };
            &&& final(rng).state() == shuffle_after(old(rng).state(), count).1
            &&& forall|s: int| 0 <= s < count ==> #[trigger] final(active_leds)@[s] == shuffle_after(
                old(rng).state(),
                count,
            ).0[s]
            &&& forall|s: int| count <= s < N ==> #[trigger] final(active_leds)@[s] == old(active_leds)@[s]
            &&& distinct_leds(final(active_leds)@.take(count as int))
        }),
{
    let ghost seed = rng.state();
    let mut candidate_leds: [usize; LED_N] = [0, 1, 2, 3, 4, 5, 6, 7, 8, 9, 10, 11];
    assert(candidate_leds@ =~= identity_leds());
    let count = if N < LED_N { N } else { LED_N };
    let mut slot: usize = 0;
    while slot < count
        invariant
            0 <= slot <= count,
            count <= LED_N,
            count <= N,
            candidate_leds@ == shuffle_after(seed, slot as nat).0,
            rng.state() == shuffle_after(seed, slot as nat).1,
            forall|s: int| 0 <= s < slot ==> #[trigger] active_leds@[s] == shuffle_after(seed, slot as nat).0[s],
            forall|s: int| slot <= s < N ==> #[trigger] active_leds@[s] == old(active_leds)@[s],
        decreases count - slot,
    {
        proof {
            lemma_shuffle_stays_permutation(seed, slot as nat);
        }
        let pick = slot + rng.next_index(LED_N - slot);
        let tmp = candidate_leds[slot];
        candidate_leds[slot] = candidate_leds[pick];
        candidate_leds[pick] = tmp;
        active_leds[slot] = candidate_leds[slot];
        proof {
            assert(candidate_leds@ =~= shuffle_after(seed, (slot + 1) as nat).0);
            assert forall|s: int| 0 <= s < slot + 1 implies #[trigger] active_leds@[s] == shuffle_after(seed, (slot + 1) as nat).0[s] by {
                if s < slot {
                    assert(shuffle_after(seed, (slot + 1) as nat).0[s] == shuffle_after(seed, slot as nat).0[s]);
                }
            }
        }
        slot = slot + 1;
    }
    proof {
        lemma_shuffle_stays_permutation(seed, count as nat);
        let fin = shuffle_after(seed, count as nat).0;
        let taken = active_leds@.take(count as int);
        assert forall|i: int, j: int| 0 <= i < j < taken.len() implies #[trigger] taken[i] != #[trigger] taken[j] by {
            assert(taken[i] == fin[i]);
            assert(taken[j] == fin[j]);
        }
        assert forall|i: int| 0 <= i < taken.len() implies #[trigger] taken[i] < LED_N by {
            assert(taken[i] == fin[i]);
        }
    }
}

/// LED `led` is lit in phase `phase`: some slot of the same parity as the
/// phase holds it.
pub open spec fn lit_in_phase(active_leds: Seq<usize>, phase: int, led: int) -> bool {
    exists|s: int| 0 <= s < active_leds.len() && s % 2 == phase % 2 && #[trigger] active_leds[s] == led
}

/// Lights the active LEDs in the slots whose parity matches `phase`.
pub fn render_phase(frame: &mut [bool; LED_N], active_leds: &[usize], phase: usize)
    requires
        forall|s: int| 0 <= s < active_leds@.len() ==> #[trigger] active_leds@[s] < LED_N,
    ensures
        forall|i: int| 0 <= i < LED_N ==> #[trigger] final(frame)@[i] == lit_in_phase(active_leds@, phase as int, i),
{
    let mut i: usize = 0;
    while i < LED_N
        invariant
            0 <= i <= LED_N,
            forall|j: int| 0 <= j < i ==> #[trigger] frame@[j] == OFF,
        decreases LED_N - i,
    {
        frame[i] = OFF;
        i = i + 1;
    }
    let mut slot: usize = 0;
    while slot < active_leds.len()
        invariant
            0 <= slot <= active_leds@.len(),
            forall|s: int| 0 <= s < active_leds@.len() ==> #[trigger] active_leds@[s] < LED_N,
            forall|j: int| 0 <= j < LED_N ==> #[trigger] frame@[j] == lit_in_phase(active_leds@.take(slot as int), phase as int, j),
        decreases active_leds@.len() - slot,
    {
        let led = active_leds[slot];
        let ghost prefix = active_leds@.take(slot as int);
        let ghost next = active_leds@.take(slot + 1);
        if slot % 2 == phase % 2 {
            frame[led] = ON;
        }
        proof {
            assert forall|j: int| 0 <= j < LED_N implies #[trigger] frame@[j] == lit_in_phase(next, phase as int, j) by {
                if lit_in_phase(prefix, phase as int, j) {
                    let s = choose|s: int| 0 <= s < prefix.len() && s % 2 == phase % 2 && #[trigger] prefix[s] == j;
                    assert(next[s] == j);
                }
                if lit_in_phase(next, phase as int, j) {
                    let s = choose|s: int| 0 <= s < next.len() && s % 2 == phase % 2 && #[trigger] next[s] == j;
                    if s < slot {
                        assert(prefix[s] == j);
                    }
                }
                if slot % 2 == phase % 2 && j == led {
                    assert(next[slot as int] == j);
                }
            }
        }
        slot = slot + 1;
    }
    assert(active_leds@.take(active_leds@.len() as int) =~= active_leds@);
}

} // verus!
