use gba_orca::input::{
    send_diff, slot_vk_row, is_extended_vk, GamepadInput, KeyEvent, SlotKeyState, GBA_KEYS, KEY_A, KEY_DOWN,
    KEY_LEFT, KEY_RIGHT, KEY_SELECT, KEY_START, KEY_UP,
};

fn payload(axes: [f32; 4], buttons: [u8; 16]) -> Vec<u8> {
    let mut v = Vec::new();
    for a in axes.iter() {
        v.extend_from_slice(&a.to_le_bytes());
    }
    v.extend_from_slice(&buttons);
    v
}

fn input(axes: [f32; 4], pressed: &[usize]) -> GamepadInput {
    let mut buttons = vec![0u8; 16];
    for &i in pressed {
        buttons[i] = 1;
    }
    GamepadInput { axes: axes.iter().map(|a| a.to_bits()).collect(), buttons }
}

#[test]
fn from_bytes_rejects_short_payload() {
    assert!(GamepadInput::from_bytes(&[0u8; 31]).is_none());
    assert!(GamepadInput::from_bytes(&[]).is_none());
}

#[test]
fn from_bytes_reads_axes_and_buttons() {
    let mut buttons = [0u8; 16];
    buttons[0] = 1;
    buttons[15] = 1;
    let data = payload([0.0, -1.0, 0.25, 0.75], buttons);
    let g = GamepadInput::from_bytes(&data).unwrap();
    assert_eq!(g.axes, vec![0.0f32.to_bits(), (-1.0f32).to_bits(), 0.25f32.to_bits(), 0.75f32.to_bits()]);
    assert_eq!(g.buttons, buttons.to_vec());
}

#[test]
fn from_bytes_ignores_trailing_bytes() {
    let mut data = payload([0.5, 0.0, 0.0, 0.0], [1u8; 16]);
    data.push(9);
    let g = GamepadInput::from_bytes(&data).unwrap();
    assert_eq!(g.axes.len(), 4);
    assert_eq!(g.buttons.len(), 16);
    assert_eq!(g.axes[0], 0x3F00_0000);
}

#[test]
fn buttons_map_to_gba_keys() {
    // A, B, L1, R1, Select(8), Start(9), d-pad up/down/left/right (12..15)
    let k = input([0.0; 4], &[0, 9, 12, 15]).to_gba_keys();
    let mut want = [false; GBA_KEYS];
    want[KEY_A] = true;
    want[KEY_START] = true;
    want[KEY_UP] = true;
    want[KEY_RIGHT] = true;
    assert_eq!(k, want);
    let k = input([0.0; 4], &[1, 4, 5, 8, 13, 14]).to_gba_keys();
    assert_eq!(k, [false, true, true, false, false, true, true, true, false, true]);
    assert!(k[KEY_SELECT] && k[KEY_DOWN] && k[KEY_LEFT]);
}

#[test]
fn stick_dead_zone() {
    assert!(input([0.0, -0.6, 0.0, 0.0], &[]).to_gba_keys()[KEY_UP]);
    assert!(!input([0.0, -0.5, 0.0, 0.0], &[]).to_gba_keys()[KEY_UP]);
    assert!(input([0.0, 0.51, 0.0, 0.0], &[]).to_gba_keys()[KEY_DOWN]);
    assert!(!input([0.0, 0.5, 0.0, 0.0], &[]).to_gba_keys()[KEY_DOWN]);
    assert!(input([-1.0, 0.0, 0.0, 0.0], &[]).to_gba_keys()[KEY_LEFT]);
    assert!(input([f32::INFINITY, 0.0, 0.0, 0.0], &[]).to_gba_keys()[KEY_RIGHT]);
    assert!(input([f32::NEG_INFINITY, 0.0, 0.0, 0.0], &[]).to_gba_keys()[KEY_LEFT]);
    let nan = input([f32::NAN, -f32::NAN, 0.0, 0.0], &[]).to_gba_keys();
    assert_eq!(nan, [false; GBA_KEYS]);
    // the right stick does not move the d-pad
    assert_eq!(input([0.0, 0.0, 1.0, -1.0], &[]).to_gba_keys(), [false; GBA_KEYS]);
    // missing axes and buttons read as centred / released
    let empty = GamepadInput { axes: vec![], buttons: vec![] };
    assert_eq!(empty.to_gba_keys(), [false; GBA_KEYS]);
}

#[test]
fn vk_tables() {
    assert_eq!(slot_vk_row(1), [0x26, 0x28, 0x25, 0x27, 0x5A, 0x58, 0x43, 0x56, 0x0D, 0x08]);
    assert_eq!(slot_vk_row(4), [0x68, 0x65, 0x64, 0x66, 0x61, 0x62, 0x63, 0x60, 0x69, 0x6E]);
    assert_eq!(slot_vk_row(0), [0; GBA_KEYS]);
    assert!(is_extended_vk(0x25) && is_extended_vk(0x28));
    assert!(!is_extended_vk(0x0D) && !is_extended_vk(0x68));
}

#[test]
fn send_diff_emits_one_event_per_change() {
    let prev = [false; GBA_KEYS];
    let mut next = [false; GBA_KEYS];
    next[KEY_UP] = true;
    next[KEY_A] = true;
    let ev = send_diff(1, &prev, &next);
    assert_eq!(
        ev,
        vec![
            KeyEvent { vk: 0x26, extended: true, key_up: false },
            KeyEvent { vk: 0x5A, extended: false, key_up: false },
        ]
    );
    let back = send_diff(2, &next, &prev);
    assert_eq!(
        back,
        vec![
            KeyEvent { vk: 0x57, extended: false, key_up: true },
            KeyEvent { vk: 0x45, extended: false, key_up: true },
        ]
    );
}

#[test]
fn send_diff_ignores_slots_without_table() {
    let next = [true; GBA_KEYS];
    assert!(send_diff(0, &[false; GBA_KEYS], &next).is_empty());
    assert!(send_diff(5, &[false; GBA_KEYS], &next).is_empty());
}

#[test]
fn apply_twice_injects_nothing_the_second_time() {
    let mut s = SlotKeyState::new(3);
    let g = input([0.0; 4], &[0]);
    let first = s.apply(&g);
    assert_eq!(first, vec![KeyEvent { vk: 0x50, extended: false, key_up: false }]);
    assert!(s.apply(&g).is_empty());
}

#[test]
fn release_all_lets_go_of_held_keys() {
    let mut s = SlotKeyState::new(1);
    s.apply(&input([0.0; 4], &[12, 9]));
    let ev = s.release_all();
    assert_eq!(
        ev,
        vec![
            KeyEvent { vk: 0x26, extended: true, key_up: true },
            KeyEvent { vk: 0x0D, extended: false, key_up: true },
        ]
    );
    assert!(s.release_all().is_empty());
}

#[test]
fn replaying_events_reaches_the_new_state() {
    // host-side model: a key is down after its last event was a press
    let mut s = SlotKeyState::new(4);
    let mut host = std::collections::HashMap::new();
    let states: [&[usize]; 3] = [&[0, 12], &[1, 13, 9], &[]];
    for st in states.iter() {
        let g = input([0.0; 4], st);
        for e in s.apply(&g) {
            host.insert(e.vk, !e.key_up);
        }
        let target = g.to_gba_keys();
        let row = slot_vk_row(4);
        for i in 0..GBA_KEYS {
            assert_eq!(*host.get(&row[i]).unwrap_or(&false), target[i]);
        }
    }
}

#[test]
fn on_payload_ignores_bad_messages() {
    let mut s = SlotKeyState::new(1);
    assert!(s.on_payload(&[1, 2, 3]).is_none());
    let mut buttons = [0u8; 16];
    buttons[1] = 1;
    let ev = s.on_payload(&payload([0.0; 4], buttons)).unwrap();
    assert_eq!(ev, vec![KeyEvent { vk: 0x58, extended: false, key_up: false }]);
    assert!(s.on_payload(&[0u8; 10]).is_none());
    assert_eq!(s.release_all(), vec![KeyEvent { vk: 0x58, extended: false, key_up: true }]);
}

#[test]
fn default_gamepad_is_all_released() {
    let g = GamepadInput::default();
    assert!(g.axes.is_empty());
    assert!(g.buttons.is_empty());
    assert_eq!(g.to_gba_keys(), [false; GBA_KEYS]);
}

#[test]
fn release_all_after_input_returns_to_all_released() {
    let mut st = SlotKeyState::new(2);
    let pressed = st.apply(&input([0.0, -1.0, 0.0, 0.0], &[0, 9]));
    assert_eq!(pressed.len(), 3);
    let released = st.release_all();
    assert_eq!(released.len(), 3);
    assert!(released.iter().all(|e| e.key_up));
    assert!(st.release_all().is_empty());
}
