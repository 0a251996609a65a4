use gba_orca::wayland::{eq_ignore_ascii_case, is_wayland_session, WaylandData};

#[test]
fn session_detection() {
    assert!(is_wayland_session(true, None));
    assert!(is_wayland_session(false, Some("wayland")));
    assert!(is_wayland_session(false, Some("WayLand")));
    assert!(!is_wayland_session(false, Some("x11")));
    assert!(!is_wayland_session(false, None));
    assert!(eq_ignore_ascii_case("ABC", "abc"));
    assert!(!eq_ignore_ascii_case("ab", "abc"));
}

#[test]
fn selections_get_fresh_ids() {
    let mut d = WaylandData::new();
    // the portal lists the last-picked window first
    let out = d.replace_sources(&[57, 61]);
    assert_eq!(out.len(), 2);
    assert_eq!((out[0].id, out[0].node_id, out[0].label.as_str(), out[0].gba_slot), (1, 61, "Source #61", Some(1)));
    assert_eq!((out[1].id, out[1].node_id, out[1].label.as_str(), out[1].gba_slot), (2, 57, "Source #57", Some(2)));
    assert_eq!(d.lookup(2), Some((57, "Source #57".to_string())));
    let again = d.replace_sources(&[70]);
    assert_eq!((again[0].id, again[0].gba_slot), (3, Some(1)));
    assert_eq!(d.lookup(1), None);
    assert_eq!(d.lookup(2), None);
    assert_eq!(d.list().len(), 1);
}

#[test]
fn assigning_slots() {
    let mut d = WaylandData::default();
    let v = d.replace_sources(&[10, 11, 12]);
    assert_eq!(v.iter().map(|s| (s.node_id, s.gba_slot)).collect::<Vec<_>>(), vec![(12, Some(1)), (11, Some(2)), (10, Some(3))]);
    // the slot moves to another source
    let v = d.assign_slot(3, Some(2)).unwrap();
    assert_eq!(v.iter().map(|s| s.gba_slot).collect::<Vec<_>>(), vec![Some(1), None, Some(2)]);
    let v = d.assign_slot(2, Some(4)).unwrap();
    assert_eq!(v[1].gba_slot, Some(4));
    let v = d.assign_slot(2, None).unwrap();
    assert_eq!(v[1].gba_slot, None);
    assert_eq!(v[2].gba_slot, Some(2));
    let v = d.assign_slot(1, None).unwrap();
    assert_eq!(v[0].gba_slot, None);
}

#[test]
fn assignment_errors() {
    let mut d = WaylandData::new();
    d.replace_sources(&[10]);
    assert_eq!(d.list()[0].gba_slot, Some(1));
    d.assign_slot(1, Some(3)).unwrap();
    assert_eq!(d.assign_slot(1, Some(5)).unwrap_err(), "Slot non valido: 5");
    assert_eq!(d.assign_slot(1, Some(0)).unwrap_err(), "Slot non valido: 0");
    assert_eq!(d.list()[0].gba_slot, Some(3));
    // an unknown source still frees the slot first
    assert_eq!(d.assign_slot(9, Some(3)).unwrap_err(), "Source 9 non trovato");
    assert_eq!(d.list()[0].gba_slot, None);
}

#[test]
fn only_four_sources_get_slots() {
    let mut d = WaylandData::new();
    let v = d.replace_sources(&[1, 2, 3, 4, 5, 6]);
    let slots: Vec<Option<u8>> = v.iter().map(|s| s.gba_slot).collect();
    assert_eq!(slots, vec![Some(1), Some(2), Some(3), Some(4), None, None]);
    assert_eq!(v.iter().map(|s| s.node_id).collect::<Vec<_>>(), vec![6, 5, 4, 3, 2, 1]);
    assert_eq!(v.iter().map(|s| s.id).collect::<Vec<_>>(), vec![1, 2, 3, 4, 5, 6]);
}
