//! Four-key keypad: debouncing, long-press detection and the events handed
//! to the application.
use vstd::prelude::*;

verus! {

pub const KEY_N: usize = 4;
pub const RELEASED: bool = false;
pub const PRESSED: bool = true;

pub const SW1: usize = 0;
pub const SW2: usize = 1;
pub const SW3: usize = 2;
pub const SW4: usize = 3;

pub const DEBOUNCE_MS: u32 = 30;
pub const LONG_PRESS_MS: u32 = 650;
pub const SW1_PINE_BIT: u8 = 16;
pub const SW2_PINE_BIT: u8 = 32;
pub const SW3_PIND_BIT: u8 = 8;
pub const SW4_PIND_BIT: u8 = 4;

/// What happened to one key since the events were last drained.
#[derive(Copy, Clone, PartialEq, Eq, Structural, Debug)]
pub enum ButtonEvent {
    /// Nothing happened.
    Idle,
    Short,
    Long,
}

/// Bit `key` of `mask` is set.
pub open spec fn has_key(mask: u8, key: int) -> bool {
    (mask & (1u8 << (key as u8))) != 0
}

/// A set of keys, one bit per key.
#[derive(Copy, Clone, PartialEq, Eq, Structural, Debug)]
pub struct ButtonMask(pub u8);

proof fn lemma_bits(m: u8, key: u8, k: u8)
    requires
        key < 8,
        k < 8,
    ensures
        ((m | (1u8 << key)) & (1u8 << k) != 0) == (k == key || (m & (1u8 << k)) != 0),
        ((m & !(1u8 << key)) & (1u8 << k) != 0) == (k != key && (m & (1u8 << k)) != 0),
        (0u8 & (1u8 << k)) == 0,
{
    assert(((m | (1u8 << key)) & (1u8 << k) != 0) == (k == key || (m & (1u8 << k)) != 0)) by (bit_vector)
        requires
            key < 8,
            k < 8,
    ;
    assert(((m & !(1u8 << key)) & (1u8 << k) != 0) == (k != key && (m & (1u8 << k)) != 0)) by (bit_vector)
        requires
            key < 8,
            k < 8,
    ;
    assert((0u8 & (1u8 << k)) == 0) by (bit_vector);
}

impl ButtonMask {
    #[verifier::inline]
    pub open spec fn has(self, key: int) -> bool {
        has_key(self.0, key)
    }

    /// The empty set.
    pub fn none() -> (r: Self)
        ensures
            r.0 == 0,
            forall|k: int| 0 <= k < 8 ==> !#[trigger] r.has(k),
    {
        proof {
            assert forall|k: int| 0 <= k < 8 implies !#[trigger] ButtonMask(0).has(k) by {
                lemma_bits(0, 0, k as u8);
            }
        }
        ButtonMask(0)
    }

    /// The set holding only `key`.
    pub fn from_key(key: usize) -> (r: Self)
        requires
            key < 8,
        ensures
            r.0 == 1u8 << (key as u8),
            forall|k: int| 0 <= k < 8 ==> #[trigger] r.has(k) == (k == key),
    {
        proof {
            assert forall|k: int| 0 <= k < 8 implies #[trigger] ButtonMask(1u8 << (key as u8)).has(k) == (k == key) by {
                lemma_bits(0, key as u8, k as u8);
                assert((0u8 | (1u8 << (key as u8))) == (1u8 << (key as u8))) by (bit_vector);
            }
        }
        ButtonMask(1u8 << key as u8)
    }

    /// Whether `key` is in the set.
    pub fn contains(self, key: usize) -> (r: bool)
        requires
            key < 8,
        ensures
            r == self.has(key as int),
    {
        self.0 & ButtonMask::from_key(key).0 != 0
    }

    /// Adds `key`.
    pub fn insert(&mut self, key: usize)
        requires
            key < 8,
        ensures
            final(self).0 == old(self).0 | (1u8 << (key as u8)),
            forall|k: int| 0 <= k < 8 ==> #[trigger] final(self).has(k) == (k == key || old(self).has(k)),
    {
        let ghost m = self.0;
        self.0 = self.0 | ButtonMask::from_key(key).0;
        proof {
            assert forall|k: int| 0 <= k < 8 implies #[trigger] self.has(k) == (k == key || has_key(m, k)) by {
                lemma_bits(m, key as u8, k as u8);
            }
        }
    }

    /// Removes `key`.
    pub fn remove(&mut self, key: usize)
        requires
            key < 8,
        ensures
            final(self).0 == old(self).0 & !(1u8 << (key as u8)),
            forall|k: int| 0 <= k < 8 ==> #[trigger] final(self).has(k) == (k != key && old(self).has(k)),
    {
        let ghost m = self.0;
        self.0 = self.0 & !ButtonMask::from_key(key).0;
        proof {
            assert forall|k: int| 0 <= k < 8 implies #[trigger] self.has(k) == (k != key && has_key(m, k)) by {
                lemma_bits(m, key as u8, k as u8);
            }
        }
    }

    /// Empties the set and returns what it held.
    pub fn take(&mut self) -> (r: Self)
        ensures
            r == *old(self),
            final(self).0 == 0,
    {
        let mask = *self;
        *self = ButtonMask(0);
        mask
    }
}

/// Shifts a single `1` bit into position `bit` of a register byte.
pub fn register_bit(bit: u8) -> (r: u8)
    requires
        bit < 8,
    ensures
        r == 1u8 << bit,
{
    1u8 << bit
}

/// An active-low input reads low when its bit is clear.
pub fn register_is_low(register_value: u8, bit: u8) -> (r: bool)
    ensures
        r == ((register_value & bit) == 0),
{
    register_value & bit == 0
}

/// All keys released.
pub fn blank_state() -> (r: [bool; KEY_N])
    ensures
        forall|k: int| 0 <= k < KEY_N ==> r@[k] == RELEASED,
{
    [RELEASED; KEY_N]
}

/// The keys held down, from the PIND and PINE input registers (the keys pull
/// their pins low): SW1 on PE4, SW2 on PE5, SW3 on PD3, SW4 on PD2.
pub fn button_mask_from_ports(pind: u8, pine: u8) -> (r: ButtonMask)
    ensures
        r.has(SW1 as int) == ((pine & SW1_PINE_BIT) == 0),
        r.has(SW2 as int) == ((pine & SW2_PINE_BIT) == 0),
        r.has(SW3 as int) == ((pind & SW3_PIND_BIT) == 0),
        r.has(SW4 as int) == ((pind & SW4_PIND_BIT) == 0),
        forall|k: int| KEY_N <= k < 8 ==> !#[trigger] r.has(k),
{
    let mut mask = ButtonMask::none();
    if register_is_low(pine, SW1_PINE_BIT) {
        mask.insert(SW1);
    }
    if register_is_low(pine, SW2_PINE_BIT) {
        mask.insert(SW2);
    }
    if register_is_low(pind, SW3_PIND_BIT) {
        mask.insert(SW3);
    }
    if register_is_low(pind, SW4_PIND_BIT) {
        mask.insert(SW4);
    }
    mask
}

/// The keys whose input reads low, as a bit mask.
pub fn pressed_mask(levels_low: &[bool; KEY_N]) -> (r: u8)
    ensures
        forall|k: int| 0 <= k < KEY_N ==> #[trigger] has_key(r, k) == levels_low@[k],
        forall|k: int| KEY_N <= k < 8 ==> !#[trigger] has_key(r, k),
{
    let mut mask = ButtonMask::none();
    let mut index: usize = 0;
    while index < KEY_N
        invariant
            0 <= index <= KEY_N,
            forall|k: int| 0 <= k < index ==> #[trigger] has_key(mask.0, k) == levels_low@[k],
            forall|k: int| index <= k < 8 ==> !#[trigger] has_key(mask.0, k),
        decreases KEY_N - index,
    {
        let ghost m0 = mask;
        if levels_low[index] {
            mask.insert(index);
        }
        assert forall|k: int| 0 <= k < 8 implies #[trigger] has_key(mask.0, k) == ((k == index && levels_low@[k])
            || has_key(m0.0, k)) by {
            if levels_low@[index as int] {
                assert(mask.has(k) == (k == index || m0.has(k)));
            }
        }
        index = index + 1;
    }
    mask.0
}

} // verus!

verus! {

/// Everything the keypad state machine knows about one key.
pub struct KeyView {
    /// The debounced level: held down.
    pub stable: bool,
    /// An edge was seen and is waiting for the debounce delay.
    pub pending: bool,
    /// A long press was already reported for the current press.
    pub long_sent: bool,
    /// A short press waits to be drained.
    pub short_event: bool,
    /// A long press waits to be drained.
    pub long_event: bool,
    /// When the pending edge may be settled.
    pub due_ms: u32,
    /// When the current press began.
    pub pressed_ms: u32,
}

/// Debouncer and press classifier for the four keys.
#[derive(Copy, Clone)]
pub struct ButtonRuntime {
    pub stable_mask: ButtonMask,
    pub debounce_pending_mask: ButtonMask,
    pub long_sent_mask: ButtonMask,
    pub short_event_mask: ButtonMask,
    pub long_event_mask: ButtonMask,
    pub debounce_due_ms: [u32; KEY_N],
    pub pressed_ms: [u32; KEY_N],
}

/// The view of key `key` (below `KEY_N`).
pub open spec fn key_view(rt: ButtonRuntime, key: int) -> KeyView {
    KeyView {
        stable: rt.stable_mask.has(key),
        pending: rt.debounce_pending_mask.has(key),
        long_sent: rt.long_sent_mask.has(key),
        short_event: rt.short_event_mask.has(key),
        long_event: rt.long_event_mask.has(key),
        due_ms: if 0 <= key < KEY_N { rt.debounce_due_ms@[key] } else { 0 },
        pressed_ms: if 0 <= key < KEY_N { rt.pressed_ms@[key] } else { 0 },
    }
}

/// `a` and `b` agree on every key but `key`, and on the unused mask bits.
pub open spec fn same_except(a: ButtonRuntime, b: ButtonRuntime, key: int) -> bool {
    &&& forall|k: int| 0 <= k < KEY_N && k != key ==> #[trigger] key_view(a, k) == key_view(b, k)
    &&& forall|k: int| KEY_N <= k < 8 ==> #[trigger] key_view(a, k) == key_view(b, k)
}

/// A debounced edge: pressing starts a press; releasing ends it and yields a
/// short press unless a long press was already reported for it.
pub open spec fn settled(v: KeyView, raw_pressed: bool, now_ms: u32) -> KeyView {
    if raw_pressed == v.stable {
        v
    } else if raw_pressed {
        KeyView { stable: true, pressed_ms: now_ms, long_sent: false, ..v }
    } else {
        KeyView { stable: false, short_event: v.short_event || !v.long_sent, long_sent: false, ..v }
    }
}

/// A press held for 650 ms yields one long press.
pub open spec fn after_long_check(v: KeyView, now_ms: u32) -> KeyView {
    if v.stable && !v.long_sent && now_ms - v.pressed_ms >= LONG_PRESS_MS {
        KeyView { long_sent: true, long_event: true, ..v }
    } else {
        v
    }
}

/// One timer tick for one key: settle a due edge, then check for a long
/// press.
pub open spec fn ticked(v: KeyView, raw_pressed: bool, now_ms: u32) -> KeyView {
    let v1 = if v.pending && now_ms >= v.due_ms {
        settled(KeyView { pending: false, ..v }, raw_pressed, now_ms)
    } else {
        v
    };
    after_long_check(v1, now_ms)
}

/// The debounce due at `now_ms` releases key `k` (its raw level is up).
pub open spec fn released_now(rt: ButtonRuntime, raw_mask: ButtonMask, now_ms: u32, k: int) -> bool {
    rt.debounce_pending_mask.has(k) && now_ms >= rt.debounce_due_ms@[k] && !raw_mask.has(k)
}

/// A tick at `now_ms` with raw levels `raw_mask` cannot see a press that
/// began later: every key still held after the tick's debounce, and not
/// yet reported long, was pressed at or before `now_ms`.
pub open spec fn tick_time_ok(rt: ButtonRuntime, raw_mask: ButtonMask, now_ms: u32) -> bool {
    forall|k: int|
        0 <= k < KEY_N ==> (#[trigger] rt.stable_mask.has(k) && !rt.long_sent_mask.has(k) && !released_now(
            rt,
            raw_mask,
            now_ms,
            k,
        )) ==> now_ms >= rt.pressed_ms@[k]
}

impl ButtonRuntime {
    /// All keys released, nothing pending.
    pub fn new() -> (r: Self)
        ensures
            forall|k: int| 0 <= k < 8 ==> !#[trigger] r.stable_mask.has(k),
            forall|k: int| 0 <= k < 8 ==> !#[trigger] r.debounce_pending_mask.has(k),
            forall|k: int| 0 <= k < 8 ==> !#[trigger] r.long_sent_mask.has(k),
            forall|k: int| 0 <= k < 8 ==> !#[trigger] r.short_event_mask.has(k),
            forall|k: int| 0 <= k < 8 ==> !#[trigger] r.long_event_mask.has(k),
            forall|k: int| 0 <= k < KEY_N ==> #[trigger] r.debounce_due_ms@[k] == 0 && r.pressed_ms@[k] == 0,
    {
        ButtonRuntime::with_stable_mask(ButtonMask::none())
    }

    /// Starts from the keys currently held (`stable_mask`), nothing pending.
    pub fn with_stable_mask(stable_mask: ButtonMask) -> (r: Self)
        ensures
            r.stable_mask == stable_mask,
            forall|k: int| 0 <= k < 8 ==> !#[trigger] r.debounce_pending_mask.has(k),
            forall|k: int| 0 <= k < 8 ==> !#[trigger] r.long_sent_mask.has(k),
            forall|k: int| 0 <= k < 8 ==> !#[trigger] r.short_event_mask.has(k),
            forall|k: int| 0 <= k < 8 ==> !#[trigger] r.long_event_mask.has(k),
            forall|k: int| 0 <= k < KEY_N ==> #[trigger] r.debounce_due_ms@[k] == 0 && r.pressed_ms@[k] == 0,
    {
        ButtonRuntime {
            stable_mask,
            debounce_pending_mask: ButtonMask::none(),
            long_sent_mask: ButtonMask::none(),
            short_event_mask: ButtonMask::none(),
            long_event_mask: ButtonMask::none(),
            debounce_due_ms: [0; KEY_N],
            pressed_ms: [0; KEY_N],
        }
    }

    /// An edge on `key` at `now_ms`: settle it 30 ms later.
    pub fn schedule_debounce(&mut self, key: usize, now_ms: u32)
        requires
            key < KEY_N,
            now_ms + DEBOUNCE_MS <= u32::MAX,
        ensures
            key_view(*final(self), key as int) == (KeyView {
                pending: true,
                due_ms: (now_ms + DEBOUNCE_MS) as u32,
                ..key_view(*old(self), key as int)
            }),
            same_except(*old(self), *final(self), key as int),
    {
        self.debounce_pending_mask.insert(key);
        self.debounce_due_ms[key] = now_ms + DEBOUNCE_MS;
    }

    /// Takes the debounced level of `key` from `raw_mask`.
    pub fn settle_key(&mut self, key: usize, raw_mask: ButtonMask, now_ms: u32)
        requires
            key < KEY_N,
        ensures
            key_view(*final(self), key as int) == settled(key_view(*old(self), key as int), raw_mask.has(key as int), now_ms),
            same_except(*old(self), *final(self), key as int),
    {
        let is_pressed = raw_mask.contains(key);
        let was_pressed = self.stable_mask.contains(key);

        if is_pressed == was_pressed {
            return;
        }

        if is_pressed {
            self.stable_mask.insert(key);
            self.pressed_ms[key] = now_ms;
            self.long_sent_mask.remove(key);
        } else {
            self.stable_mask.remove(key);

            if !self.long_sent_mask.contains(key) {
                self.short_event_mask.insert(key);
            }

            self.long_sent_mask.remove(key);
        }
    }

    /// Reports a long press of `key` once it has been held for 650 ms.
    pub fn update_long_press(&mut self, key: usize, now_ms: u32)
        requires
            key < KEY_N,
            (old(self).stable_mask.has(key as int) && !old(self).long_sent_mask.has(key as int)) ==> now_ms
                >= old(self).pressed_ms@[key as int],
        ensures
            key_view(*final(self), key as int) == after_long_check(key_view(*old(self), key as int), now_ms),
            same_except(*old(self), *final(self), key as int),
    {
        if !self.stable_mask.contains(key) || self.long_sent_mask.contains(key) {
            return;
        }

        if now_ms - self.pressed_ms[key] >= LONG_PRESS_MS {
            self.long_sent_mask.insert(key);
            self.long_event_mask.insert(key);
        }
    }

    /// One millisecond tick with the raw key levels `raw_mask`: every key
    /// whose debounce delay has passed takes its raw level, then every held
    /// key is checked for a long press.
    pub fn tick(&mut self, raw_mask: ButtonMask, now_ms: u32)
        requires
            tick_time_ok(*old(self), raw_mask, now_ms),
        ensures
            forall|k: int|
                0 <= k < KEY_N ==> #[trigger] key_view(*final(self), k) == ticked(
                    key_view(*old(self), k),
                    raw_mask.has(k),
                    now_ms,
                ),
            forall|k: int| KEY_N <= k < 8 ==> #[trigger] key_view(*final(self), k) == key_view(*old(self), k),
    {
        let ghost start = *self;
        let mut index: usize = 0;
        while index < KEY_N
            invariant
                0 <= index <= KEY_N,
                tick_time_ok(start, raw_mask, now_ms),
                forall|k: int|
                    0 <= k < index ==> #[trigger] key_view(*self, k) == (if key_view(start, k).pending && now_ms
                        >= key_view(start, k).due_ms {
                        settled(KeyView { pending: false, ..key_view(start, k) }, raw_mask.has(k), now_ms)
                    } else {
                        key_view(start, k)
                    }),
                forall|k: int| index <= k < 8 ==> #[trigger] key_view(*self, k) == key_view(start, k),
            decreases KEY_N - index,
        {
            let ghost before = *self;
            if self.debounce_pending_mask.contains(index) && now_ms >= self.debounce_due_ms[index] {
                self.debounce_pending_mask.remove(index);
                let ghost cleared = *self;
                assert(key_view(cleared, index as int) == (KeyView { pending: false, ..key_view(before, index as int) }));
                assert(same_except(before, cleared, index as int));
                self.settle_key(index, raw_mask, now_ms);
                assert forall|k: int| 0 <= k < 8 && k != index implies #[trigger] key_view(*self, k) == key_view(before, k) by {
                    assert(key_view(*self, k) == key_view(cleared, k));
                    assert(key_view(cleared, k) == key_view(before, k));
                }
            }
            assert(key_view(before, index as int) == key_view(start, index as int));
            index = index + 1;
        }
        let ghost settled_state = *self;
        let mut index: usize = 0;
        while index < KEY_N
            invariant
                0 <= index <= KEY_N,
                tick_time_ok(start, raw_mask, now_ms),
                forall|k: int|
                    0 <= k < KEY_N ==> #[trigger] key_view(settled_state, k) == (if key_view(start, k).pending
                        && now_ms >= key_view(start, k).due_ms {
                        settled(KeyView { pending: false, ..key_view(start, k) }, raw_mask.has(k), now_ms)
                    } else {
                        key_view(start, k)
                    }),
                forall|k: int| 0 <= k < index ==> #[trigger] key_view(*self, k) == after_long_check(key_view(settled_state, k), now_ms),
                forall|k: int| index <= k < 8 ==> #[trigger] key_view(*self, k) == key_view(settled_state, k),
            decreases KEY_N - index,
        {
            assert(key_view(*self, index as int) == key_view(settled_state, index as int));
            assert(key_view(settled_state, index as int).stable && !key_view(settled_state, index as int).long_sent ==> now_ms
                >= key_view(settled_state, index as int).pressed_ms) by {
                let k = index as int;
                assert(start.stable_mask.has(k) && !start.long_sent_mask.has(k) && !released_now(start, raw_mask, now_ms, k)
                    ==> now_ms >= start.pressed_ms@[k]);
            }
            let ghost before = *self;
            self.update_long_press(index, now_ms);
            assert forall|k: int| 0 <= k < 8 && k != index implies #[trigger] key_view(*self, k) == key_view(before, k) by {
                assert(same_except(before, *self, index as int));
            }
            index = index + 1;
        }
    }

    /// Hands out the pending events, long presses taking precedence, and
    /// clears them.
    pub fn drain_events(&mut self) -> (r: [ButtonEvent; KEY_N])
        ensures
            forall|k: int|
                0 <= k < KEY_N ==> #[trigger] r@[k] == if old(self).long_event_mask.has(k) {
                    ButtonEvent::Long
                } else if old(self).short_event_mask.has(k) {
                    ButtonEvent::Short
                } else {
                    ButtonEvent::Idle
                },
            final(self).short_event_mask.0 == 0,
            final(self).long_event_mask.0 == 0,
            final(self).stable_mask == old(self).stable_mask,
            final(self).debounce_pending_mask == old(self).debounce_pending_mask,
            final(self).long_sent_mask == old(self).long_sent_mask,
            final(self).debounce_due_ms == old(self).debounce_due_ms,
            final(self).pressed_ms == old(self).pressed_ms,
    {
        let short_mask = self.short_event_mask.take();
        let long_mask = self.long_event_mask.take();
        let mut events = [ButtonEvent::Idle; KEY_N];
        let mut index: usize = 0;
        while index < KEY_N
            invariant
                0 <= index <= KEY_N,
                forall|k: int|
                    0 <= k < index ==> #[trigger] events@[k] == if long_mask.has(k) {
                        ButtonEvent::Long
                    } else if short_mask.has(k) {
                        ButtonEvent::Short
                    } else {
                        ButtonEvent::Idle
                    },
            decreases KEY_N - index,
        {
            events[index] = if long_mask.contains(index) {
                ButtonEvent::Long
            } else if short_mask.contains(index) {
                ButtonEvent::Short
            } else {
                ButtonEvent::Idle
            };
            index = index + 1;
        }
        events
    }
}

} // verus!

verus! {

/// Releasing a key whose press was already reported as long yields no
/// short press, and ends the press.
pub proof fn lemma_long_press_suppresses_short(v: KeyView, now_ms: u32)
    requires
        v.stable,
        v.long_sent,
    ensures
        settled(v, false, now_ms).short_event == v.short_event,
        !settled(v, false, now_ms).stable,
        !settled(v, false, now_ms).long_sent,
{
}

/// Releasing a key before a long press was reported yields a short press.
pub proof fn lemma_quick_release_is_short(v: KeyView, now_ms: u32)
    requires
        v.stable,
        !v.long_sent,
    ensures
        settled(v, false, now_ms).short_event,
        !settled(v, false, now_ms).stable,
{
}

/// A key held 650 ms yields a long press, and only once per press.
pub proof fn lemma_long_press_once(v: KeyView, now_ms: u32, later_ms: u32)
    requires
        v.stable,
        !v.long_sent,
        now_ms >= v.pressed_ms,
        now_ms - v.pressed_ms >= LONG_PRESS_MS,
    ensures
        after_long_check(v, now_ms).long_event,
        after_long_check(v, now_ms).long_sent,
        after_long_check(after_long_check(v, now_ms), later_ms) == after_long_check(v, now_ms),
{
}

/// A press shorter than 650 ms yields no long press.
pub proof fn lemma_short_hold_is_not_long(v: KeyView, now_ms: u32)
    requires
        v.stable,
        !v.long_sent,
        now_ms >= v.pressed_ms,
        now_ms - v.pressed_ms < LONG_PRESS_MS,
    ensures
        after_long_check(v, now_ms) == v,
{
}

/// A pressed edge starts a press at the time it settles.
pub proof fn lemma_press_starts_at_settle(v: KeyView, now_ms: u32)
    requires
        !v.stable,
    ensures
        settled(v, true, now_ms).stable,
        settled(v, true, now_ms).pressed_ms == now_ms,
        !settled(v, true, now_ms).long_sent,
        settled(v, true, now_ms).short_event == v.short_event,
{
}

/// Once drained, the events are gone: draining again reports nothing.
pub proof fn lemma_drained_runtime_is_quiet(rt: ButtonRuntime)
    requires
        rt.short_event_mask.0 == 0,
        rt.long_event_mask.0 == 0,
    ensures
        forall|k: int| 0 <= k < 8 ==> !#[trigger] rt.short_event_mask.has(k) && !rt.long_event_mask.has(k),
{
    assert forall|k: int| 0 <= k < 8 implies !#[trigger] rt.short_event_mask.has(k) && !rt.long_event_mask.has(k) by {
        lemma_bits(0, 0, k as u8);
    }
}

} // verus!
