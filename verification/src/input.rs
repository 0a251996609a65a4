//! Gamepad input pipeline. Mobile clients send Web Gamepad API state; it is
//! projected onto the ten GBA buttons (Up/Down/Left/Right/A/B/L/R/Start/Select)
//! and turned into keyboard key events using a per-slot virtual-key table.
//! The host side injects those events; this module decides which ones.

use vstd::prelude::*;

verus! {

/// Number of GBA buttons.
pub const GBA_KEYS: usize = 10;

/// Index of each GBA button in a key state.
pub const KEY_UP: usize = 0;
pub const KEY_DOWN: usize = 1;
pub const KEY_LEFT: usize = 2;
pub const KEY_RIGHT: usize = 3;
pub const KEY_A: usize = 4;
pub const KEY_B: usize = 5;
pub const KEY_L: usize = 6;
pub const KEY_R: usize = 7;
pub const KEY_START: usize = 8;
pub const KEY_SELECT: usize = 9;

/// Web Gamepad API "standard" mapping button indices.
pub const GP_A: usize = 0;
pub const GP_B: usize = 1;
pub const GP_L1: usize = 4;
pub const GP_R1: usize = 5;
pub const GP_SELECT: usize = 8;
pub const GP_START: usize = 9;
pub const GP_DPAD_UP: usize = 12;
pub const GP_DPAD_DOWN: usize = 13;
pub const GP_DPAD_LEFT: usize = 14;
pub const GP_DPAD_RIGHT: usize = 15;

/// Length of the compact binary payload: 4 little-endian `f32` axes + 16 button bytes.
pub const PAYLOAD_LEN: usize = 32;

/// Gamepad state sent by a browser: stick axes and button states (0/1).
///
/// Each axis is kept as the IEEE-754 single-precision bit pattern of the
/// value the browser sent (`f32::to_bits`); the stick dead zone is decided
/// on that bit pattern exactly as a float comparison with ±0.5 would be.
/// Missing entries read as 0 (a centred stick, a released button).
#[derive(Debug, Clone)]
pub struct GamepadInput {
    pub axes: Vec<u32>,
    pub buttons: Vec<u8>,
}

/// Bit pattern of `0.5f32`.
pub const HALF_BITS: u32 = 0x3F00_0000;
/// Bit pattern of `f32::INFINITY`.
pub const INF_BITS: u32 = 0x7F80_0000;
/// Sign bit of an `f32`.
pub const SIGN_BIT: u32 = 0x8000_0000;

/// The float with bit pattern `bits` is greater than 0.5 (false for NaN).
pub open spec fn above_half(bits: u32) -> bool {
    HALF_BITS < bits <= INF_BITS
}

/// The float with bit pattern `bits` is less than -0.5 (false for NaN).
pub open spec fn below_minus_half(bits: u32) -> bool {
    bits >= SIGN_BIT && HALF_BITS < bits - SIGN_BIT <= INF_BITS
}

/// Button `i` reads as pressed (absent buttons read as released).
pub open spec fn button_down(buttons: Seq<u8>, i: int) -> bool {
    0 <= i < buttons.len() && buttons[i] != 0
}

/// Axis `i`, absent axes reading as the bit pattern of 0.0.
pub open spec fn axis_bits(axes: Seq<u32>, i: int) -> u32 {
    if 0 <= i < axes.len() { axes[i] } else { 0 }
}

/// The GBA button state that a gamepad state stands for. The left stick
/// (axes 0 and 1) doubles the d-pad beyond a dead zone of 0.5.
pub open spec fn gba_keys(axes: Seq<u32>, buttons: Seq<u8>) -> Seq<bool> {
    let lx = axis_bits(axes, 0);
    let ly = axis_bits(axes, 1);
    seq![
        button_down(buttons, GP_DPAD_UP as int) || below_minus_half(ly),
        button_down(buttons, GP_DPAD_DOWN as int) || above_half(ly),
        button_down(buttons, GP_DPAD_LEFT as int) || below_minus_half(lx),
        button_down(buttons, GP_DPAD_RIGHT as int) || above_half(lx),
        button_down(buttons, GP_A as int),
        button_down(buttons, GP_B as int),
        button_down(buttons, GP_L1 as int),
        button_down(buttons, GP_R1 as int),
        button_down(buttons, GP_START as int),
        button_down(buttons, GP_SELECT as int),
    ]
}

/// The little-endian `u32` stored in `data[at..at + 4]`.
pub open spec fn le_u32(data: Seq<u8>, at: int) -> u32 {
    (data[at] + data[at + 1] * 0x100 + data[at + 2] * 0x1_0000 + data[at + 3] * 0x100_0000) as u32
}

fn read_le_u32(data: &[u8], at: usize) -> (v: u32)
    requires
        at + 4 <= data@.len(),
    ensures
        v == le_u32(data@, at as int),
{
    let b0 = data[at] as u32;
    let b1 = data[at + 1] as u32;
    let b2 = data[at + 2] as u32;
    let b3 = data[at + 3] as u32;
    b0 + b1 * 0x100 + b2 * 0x1_0000 + b3 * 0x100_0000
}

fn button_at(buttons: &Vec<u8>, i: usize) -> (b: bool)
    ensures
        b == button_down(buttons@, i as int),
{
    i < buttons.len() && buttons[i] != 0
}

fn axis_at(axes: &Vec<u32>, i: usize) -> (a: u32)
    ensures
        a == axis_bits(axes@, i as int),
{
    if i < axes.len() { axes[i] } else { 0 }
}

fn is_above_half(bits: u32) -> (r: bool)
    ensures
        r == above_half(bits),
{
    HALF_BITS < bits && bits <= INF_BITS
}

fn is_below_minus_half(bits: u32) -> (r: bool)
    ensures
        r == below_minus_half(bits),
{
    bits >= SIGN_BIT && HALF_BITS < bits - SIGN_BIT && bits - SIGN_BIT <= INF_BITS
}

impl GamepadInput {
    /// Parses the compact binary payload: 4 little-endian `f32` axes followed
    /// by 16 button bytes (32 bytes). Shorter payloads are rejected; bytes past
    /// the 32nd are ignored.
    pub fn from_bytes(data: &[u8]) -> (r: Option<GamepadInput>)
        ensures
            r is None <==> data@.len() < PAYLOAD_LEN,
            r matches Some(g) ==> {
                &&& g.axes@ == seq![
                    le_u32(data@, 0),
                    le_u32(data@, 4),
                    le_u32(data@, 8),
                    le_u32(data@, 12),
                ]
                &&& g.buttons@ == data@.subrange(16, 32)
            },
    {
        if data.len() < PAYLOAD_LEN {
            return None;
        }
        let mut axes: Vec<u32> = Vec::new();
        axes.push(read_le_u32(data, 0));
        axes.push(read_le_u32(data, 4));
        axes.push(read_le_u32(data, 8));
        axes.push(read_le_u32(data, 12));
        let mut buttons: Vec<u8> = Vec::new();
        for i in 16..32
            invariant
                data@.len() >= 32,
                buttons@ == data@.subrange(16, i as int),
        {
            buttons.push(data[i]);
            assert(data@.subrange(16, i + 1) =~= data@.subrange(16, i as int).push(data@[i as int]));
        }
        Some(GamepadInput { axes, buttons })
    }

    /// The GBA button state this gamepad state stands for.
    pub fn to_gba_keys(&self) -> (k: [bool; GBA_KEYS])
        ensures
            k@ == gba_keys(self.axes@, self.buttons@),
    {
        let lx = axis_at(&self.axes, 0);
        let ly = axis_at(&self.axes, 1);
        let k = [
            button_at(&self.buttons, GP_DPAD_UP) || is_below_minus_half(ly),
            button_at(&self.buttons, GP_DPAD_DOWN) || is_above_half(ly),
            button_at(&self.buttons, GP_DPAD_LEFT) || is_below_minus_half(lx),
            button_at(&self.buttons, GP_DPAD_RIGHT) || is_above_half(lx),
            button_at(&self.buttons, GP_A),
            button_at(&self.buttons, GP_B),
            button_at(&self.buttons, GP_L1),
            button_at(&self.buttons, GP_R1),
            button_at(&self.buttons, GP_START),
            button_at(&self.buttons, GP_SELECT),
        ];
        assert(k@ =~= gba_keys(self.axes@, self.buttons@));
        k
    }
}

/// Virtual-key code per (slot, GBA button); slots are 1 to 4, and a row's
/// order follows `KEY_UP`..`KEY_SELECT`.
/// Slot 1: arrows + Z X C V Enter Backspace; slot 2: WASD + E Q R T F G;
/// slot 3: IJKL + P O U Y H N; slot 4: numpad 8 5 4 6 1 2 3 0 9 and '.'.
pub open spec fn vk_row(slot: int) -> Seq<u16> {
    if slot == 1 {
        seq![0x26u16, 0x28, 0x25, 0x27, 0x5A, 0x58, 0x43, 0x56, 0x0D, 0x08]
    } else if slot == 2 {
        seq![0x57u16, 0x53, 0x41, 0x44, 0x45, 0x51, 0x52, 0x54, 0x46, 0x47]
    } else if slot == 3 {
        seq![0x49u16, 0x4B, 0x4A, 0x4C, 0x50, 0x4F, 0x55, 0x59, 0x48, 0x4E]
    } else if slot == 4 {
        seq![0x68u16, 0x65, 0x64, 0x66, 0x61, 0x62, 0x63, 0x60, 0x69, 0x6E]
    } else {
        seq![0u16, 0, 0, 0, 0, 0, 0, 0, 0, 0]
    }
}

/// The virtual-key row of a slot (all zero outside 1 to 4).
pub fn slot_vk_row(slot: u8) -> (row: [u16; GBA_KEYS])
    ensures
        row@ == vk_row(slot as int),
{
    let row: [u16; GBA_KEYS] = if slot == 1 {
        [0x26, 0x28, 0x25, 0x27, 0x5A, 0x58, 0x43, 0x56, 0x0D, 0x08]
    } else if slot == 2 {
        [0x57, 0x53, 0x41, 0x44, 0x45, 0x51, 0x52, 0x54, 0x46, 0x47]
    } else if slot == 3 {
        [0x49, 0x4B, 0x4A, 0x4C, 0x50, 0x4F, 0x55, 0x59, 0x48, 0x4E]
    } else if slot == 4 {
        [0x68, 0x65, 0x64, 0x66, 0x61, 0x62, 0x63, 0x60, 0x69, 0x6E]
    } else {
        [0, 0, 0, 0, 0, 0, 0, 0, 0, 0]
    };
    assert(row@ =~= vk_row(slot as int));
    row
}

/// Keys of the tables that need `KEYEVENTF_EXTENDEDKEY`: only the arrows of
/// slot 1. Numpad digits and the decimal key are not extended, and 0x0D here
/// is the main Enter key.
pub open spec fn extended_vk(vk: u16) -> bool {
    vk == 0x25 || vk == 0x26 || vk == 0x27 || vk == 0x28
}

/// Whether a virtual key is sent with the extended-key flag.
pub fn is_extended_vk(vk: u16) -> (r: bool)
    ensures
        r == extended_vk(vk),
{
    vk == 0x25 || vk == 0x26 || vk == 0x27 || vk == 0x28
}

/// One synthesized keyboard event (scancode-based on the host).
#[derive(Debug, Clone, Copy, PartialEq, Eq, Structural)]
pub struct KeyEvent {
    /// Virtual-key code; the host maps it to a scancode.
    pub vk: u16,
    /// Sent with the extended-key flag.
    pub extended: bool,
    /// A release (otherwise a press).
    pub key_up: bool,
}

/// The event for button `i` of `slot` changing to `down`.
pub open spec fn key_event(slot: int, i: int, down: bool) -> KeyEvent {
    let vk = vk_row(slot)[i];
    KeyEvent { vk, extended: extended_vk(vk), key_up: !down }
}

/// Slots that have a key table.
pub open spec fn valid_slot(slot: int) -> bool {
    1 <= slot <= 4
}

/// Events for the buttons `0..n` that differ between `prev` and `next`, in
/// button order.
pub open spec fn diff_upto(slot: int, prev: Seq<bool>, next: Seq<bool>, n: nat) -> Seq<KeyEvent>
    decreases n,
{
    if n == 0 {
        Seq::empty()
    } else {
        let before = diff_upto(slot, prev, next, (n - 1) as nat);
        if prev[n - 1] != next[n - 1] {
            before.push(key_event(slot, n - 1, next[n - 1]))
        } else {
            before
        }
    }
}

/// The events that take the host from button state `prev` to `next` for a
/// slot: one press or release per changed button, in button order; none for
/// a slot without a key table.
pub open spec fn diff_events(slot: int, prev: Seq<bool>, next: Seq<bool>) -> Seq<KeyEvent> {
    if valid_slot(slot) {
        diff_upto(slot, prev, next, GBA_KEYS as nat)
    } else {
        Seq::empty()
    }
}

/// The key events to inject so that a slot goes from button state `prev` to
/// `next`.
pub fn send_diff(slot: u8, prev: &[bool; GBA_KEYS], next: &[bool; GBA_KEYS]) -> (events: Vec<KeyEvent>)
    ensures
        events@ == diff_events(slot as int, prev@, next@),
{
    let mut events: Vec<KeyEvent> = Vec::new();
    if slot < 1 || slot > 4 {
        return events;
    }
    let table = slot_vk_row(slot);
    for i in 0..GBA_KEYS
        invariant
            valid_slot(slot as int),
            table@ == vk_row(slot as int),
            events@ == diff_upto(slot as int, prev@, next@, i as nat),
    {
        if prev[i] != next[i] {
            let vk = table[i];
            events.push(KeyEvent { vk, extended: is_extended_vk(vk), key_up: !next[i] });
        }
    }
    events
}

/// Tracks which GBA buttons are held down for one client session of a slot.
pub struct SlotKeyState {
    slot: u8,
    pressed: [bool; GBA_KEYS],
}

/// No button held.
pub open spec fn all_released() -> Seq<bool> {
    Seq::new(GBA_KEYS as nat, |i: int| false)
}

impl SlotKeyState {
    /// The slot this state belongs to.
    pub closed spec fn slot_of(&self) -> u8 {
        self.slot
    }

    /// The buttons currently held.
    pub closed spec fn held(&self) -> Seq<bool> {
        self.pressed@
    }

    /// A key state records every one of the ten GBA buttons.
    pub proof fn lemma_held_len(&self)
        ensures
            self.held().len() == GBA_KEYS,
    {
    }

    /// A fresh state for a slot, nothing held.
    pub fn new(slot: u8) -> (s: SlotKeyState)
        ensures
            s.slot_of() == slot,
            s.held() == all_released(),
    {
        let s = SlotKeyState { slot, pressed: [false; GBA_KEYS] };
        assert(s.pressed@ =~= all_released());
        s
    }

    /// Applies a new gamepad state: returns the events to inject and records
    /// the new held set.
    pub fn apply(&mut self, input: &GamepadInput) -> (events: Vec<KeyEvent>)
        ensures
            final(self).slot_of() == old(self).slot_of(),
            final(self).held() == gba_keys(input.axes@, input.buttons@),
            events@ == diff_events(old(self).slot_of() as int, old(self).held(), gba_keys(input.axes@, input.buttons@)),
    {
        let target = input.to_gba_keys();
        let events = send_diff(self.slot, &self.pressed, &target);
        self.pressed = target;
        events
    }

    /// Handles a binary controller message: a well-formed payload is applied
    /// (events to inject are returned); a short one is ignored (`None`, state
    /// unchanged).
    pub fn on_payload(&mut self, data: &[u8]) -> (events: Option<Vec<KeyEvent>>)
        ensures
            final(self).slot_of() == old(self).slot_of(),
            data@.len() < PAYLOAD_LEN ==> events is None && final(self).held() == old(self).held(),
            data@.len() >= PAYLOAD_LEN ==> {
                let axes = seq![le_u32(data@, 0), le_u32(data@, 4), le_u32(data@, 8), le_u32(data@, 12)];
                let buttons = data@.subrange(16, 32);
                &&& final(self).held() == gba_keys(axes, buttons)
                &&& events matches Some(ev) && ev@ == diff_events(
                    old(self).slot_of() as int,
                    old(self).held(),
                    gba_keys(axes, buttons),
                )
            },
    {
        match GamepadInput::from_bytes(data) {
            Some(input) => Some(self.apply(&input)),
            None => None,
        }
    }

    /// Releases every button still held (what happens when a client goes
    /// away): returns the events to inject; afterwards nothing is held.
    pub fn release_all(&mut self) -> (events: Vec<KeyEvent>)
        ensures
            final(self).slot_of() == old(self).slot_of(),
            final(self).held() == all_released(),
            events@ == diff_events(old(self).slot_of() as int, old(self).held(), all_released()),
    {
        let target = [false; GBA_KEYS];
        assert(target@ =~= all_released());
        let events = send_diff(self.slot, &self.pressed, &target);
        self.pressed = target;
        events
    }
}

/// The held set after the host processes one event: every button of the
/// slot whose virtual key is the event's goes down (press) or up (release).
pub open spec fn apply_event(slot: int, keys: Seq<bool>, ev: KeyEvent) -> Seq<bool> {
    Seq::new(
        keys.len(),
        |i: int| if 0 <= i < GBA_KEYS && vk_row(slot)[i] == ev.vk { !ev.key_up } else { keys[i] },
    )
}

/// The held set after the host processes a list of events in order.
pub open spec fn replay(slot: int, keys: Seq<bool>, events: Seq<KeyEvent>) -> Seq<bool>
    decreases events.len(),
{
    if events.len() == 0 {
        keys
    } else {
        apply_event(slot, replay(slot, keys, events.drop_last()), events.last())
    }
}

proof fn lemma_row_distinct(slot: int)
    requires
        valid_slot(slot),
    ensures
        vk_row(slot).len() == GBA_KEYS,
        forall|i: int, j: int|
            0 <= i < GBA_KEYS && 0 <= j < GBA_KEYS && i != j ==> vk_row(slot)[i] != vk_row(slot)[j],
{
}

proof fn lemma_diff_upto_replay(slot: int, prev: Seq<bool>, next: Seq<bool>, n: nat)
    requires
        valid_slot(slot),
        prev.len() == GBA_KEYS,
        next.len() == GBA_KEYS,
        n <= GBA_KEYS,
    ensures
        replay(slot, prev, diff_upto(slot, prev, next, n)) == Seq::new(
            GBA_KEYS as nat,
            |i: int| if i < n { next[i] } else { prev[i] },
        ),
        forall|k: int| 0 <= k < diff_upto(slot, prev, next, n).len() ==>
            exists|i: int| 0 <= i < n && prev[i] != next[i]
                && #[trigger] diff_upto(slot, prev, next, n)[k] == key_event(slot, i, next[i]),
    decreases n,
{
    let target = Seq::new(GBA_KEYS as nat, |i: int| if i < n { next[i] } else { prev[i] });
    if n == 0 {
        assert(replay(slot, prev, diff_upto(slot, prev, next, n)) =~= target);
    } else {
        let m = (n - 1) as nat;
        lemma_diff_upto_replay(slot, prev, next, m);
        lemma_row_distinct(slot);
        let before = diff_upto(slot, prev, next, m);
        let mid = Seq::new(GBA_KEYS as nat, |i: int| if i < m { next[i] } else { prev[i] });
        if prev[m as int] != next[m as int] {
            let ev = key_event(slot, m as int, next[m as int]);
            let evs = before.push(ev);
            assert(evs.drop_last() =~= before);
            assert(replay(slot, prev, evs) =~= target);
            assert forall|k: int| 0 <= k < evs.len() implies exists|i: int|
                0 <= i < n && prev[i] != next[i] && #[trigger] evs[k] == key_event(slot, i, next[i]) by {
                if k < before.len() {
                    assert(evs[k] == before[k]);
                } else {
                    assert(evs[k] == key_event(slot, m as int, next[m as int]));
                }
            }
        } else {
            assert(mid =~= target);
        }
    }
}

/// Replaying the events of a diff on the host turns the old held set into
/// the new one, and every event stands for a button that changed.
pub proof fn lemma_diff_replays(slot: int, prev: Seq<bool>, next: Seq<bool>)
    requires
        valid_slot(slot),
        prev.len() == GBA_KEYS,
        next.len() == GBA_KEYS,
    ensures
        replay(slot, prev, diff_events(slot, prev, next)) == next,
        forall|k: int| 0 <= k < diff_events(slot, prev, next).len() ==>
            exists|i: int| 0 <= i < GBA_KEYS && prev[i] != next[i]
                && #[trigger] diff_events(slot, prev, next)[k] == key_event(slot, i, next[i]),
{
    lemma_diff_upto_replay(slot, prev, next, GBA_KEYS as nat);
    assert(Seq::new(GBA_KEYS as nat, |i: int| if i < GBA_KEYS { next[i] } else { prev[i] }) =~= next);
}

/// Only the arrow keys (virtual keys 0x25 to 0x28: Left, Up, Right, Down)
/// travel with the extended-key flag, which scancode injection needs to tell
/// them from the numeric keypad: in every diff of a slot with a key table,
/// an event is extended exactly when its key is an arrow.
pub proof fn lemma_arrows_sent_extended(slot: int, prev: Seq<bool>, next: Seq<bool>)
    requires
        valid_slot(slot),
        prev.len() == GBA_KEYS,
        next.len() == GBA_KEYS,
    ensures
        forall|k: int| 0 <= k < diff_events(slot, prev, next).len() ==> (#[trigger] diff_events(
            slot,
            prev,
            next,
        )[k]).extended == (0x25 <= diff_events(slot, prev, next)[k].vk <= 0x28),
{
    lemma_diff_replays(slot, prev, next);
}

proof fn lemma_no_change_upto(slot: int, keys: Seq<bool>, n: nat)
    requires
        n <= keys.len(),
    ensures
        diff_upto(slot, keys, keys, n) == Seq::<KeyEvent>::empty(),
    decreases n,
{
    if n > 0 {
        lemma_no_change_upto(slot, keys, (n - 1) as nat);
    }
}

/// Applying the same state twice injects nothing the second time: an
/// unchanged held set produces no events.
pub proof fn lemma_no_change_no_events(slot: int, keys: Seq<bool>)
    requires
        keys.len() == GBA_KEYS,
    ensures
        diff_events(slot, keys, keys) == Seq::<KeyEvent>::empty(),
{
    lemma_no_change_upto(slot, keys, GBA_KEYS as nat);
}

/// Releasing everything leaves no key stuck on the host: replaying the
/// release events of any held set gives the all-released state.
pub proof fn lemma_release_unsticks(slot: int, held: Seq<bool>)
    requires
        valid_slot(slot),
        held.len() == GBA_KEYS,
    ensures
        replay(slot, held, diff_events(slot, held, all_released())) == all_released(),
{
    lemma_diff_replays(slot, held, all_released());
}

/// Whatever a slot's key state holds, the events of `release_all` leave
/// the host with no key down.
pub proof fn lemma_state_release_unsticks(st: SlotKeyState)
    requires
        valid_slot(st.slot_of() as int),
    ensures
        replay(st.slot_of() as int, st.held(), diff_events(st.slot_of() as int, st.held(), all_released()))
            == all_released(),
{
    st.lemma_held_len();
    lemma_release_unsticks(st.slot_of() as int, st.held());
}

/// An empty gamepad state: no axes and no buttons, so every GBA button
/// reads as released.
impl Default for GamepadInput {
    fn default() -> (g: GamepadInput)
        ensures
            g.axes@ == Seq::<u32>::empty(),
            g.buttons@ == Seq::<u8>::empty(),
    {
        GamepadInput { axes: Vec::new(), buttons: Vec::new() }
    }
}

} // verus!
