use gba_orca::key_pool::KeyPool;

#[test]
fn first_keys_are_letters_in_order() {
    let mut p = KeyPool::new();
    assert_eq!(p.request_key(1), Some((0, 0x41)));
    assert_eq!(p.request_key(2), Some((0, 0x42)));
    assert_eq!(p.request_key(1), Some((1, 0x43)));
    assert_eq!(p.get_vk(1, 0), Some(0x41));
    assert_eq!(p.get_vk(1, 1), Some(0x43));
    assert_eq!(p.get_vk(2, 0), Some(0x42));
    assert_eq!(p.get_vk(2, 1), None);
    assert_eq!(p.get_vk(3, 0), None);
    assert_eq!(p.slot_assigned(1), Some(&vec![0x41, 0x43]));
    assert_eq!(p.slot_assigned(3), None);
}

#[test]
fn invalid_slots_get_nothing() {
    let mut p = KeyPool::new();
    assert_eq!(p.request_key(0), None);
    assert_eq!(p.request_key(5), None);
    assert_eq!(p.slot_assigned(0), None);
    assert_eq!(p.slot_assigned(5), None);
    // the pool is untouched
    assert_eq!(p.request_key(4), Some((0, 0x41)));
}

#[test]
fn a_slot_holds_at_most_18_keys() {
    let mut p = KeyPool::new();
    for i in 0..18 {
        assert_eq!(p.request_key(3).map(|(idx, _)| idx), Some(i));
    }
    assert_eq!(p.request_key(3), None);
    assert_eq!(p.slot_assigned(3).unwrap().len(), 18);
    // the next key still goes to another slot, in pool order
    assert_eq!(p.request_key(1), Some((0, 0x41 + 18)));
}

#[test]
fn all_72_keys_are_distinct_and_then_exhausted() {
    let mut p = KeyPool::default();
    let mut seen = Vec::new();
    for slot in 1..=4u8 {
        for _ in 0..18 {
            let (_, vk) = p.request_key(slot).unwrap();
            assert!(!seen.contains(&vk));
            seen.push(vk);
        }
    }
    assert_eq!(seen.len(), 72);
    for slot in 1..=4u8 {
        assert_eq!(p.request_key(slot), None);
    }
    assert_eq!(&seen[26..36], &[0x30, 0x31, 0x32, 0x33, 0x34, 0x35, 0x36, 0x37, 0x38, 0x39]);
    assert_eq!(seen[46], 0x7B);
    assert_eq!(&seen[58..62], &[0x26, 0x28, 0x25, 0x27]);
    assert_eq!(&seen[68..72], &[0x6A, 0x6F, 0x6B, 0x6D]);
}
