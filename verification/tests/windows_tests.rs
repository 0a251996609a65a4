use gba_orca::windows::{detect_gba_slot, filter_gba_windows, window_from_rect, x11_is_minimized, WindowInfo};

#[test]
fn slots_from_titles() {
    assert_eq!(detect_gba_slot("Dolphin | GBA2 | Pokemon"), Some(2));
    assert_eq!(detect_gba_slot("GBA4"), Some(4));
    assert_eq!(detect_gba_slot("GBA12"), Some(1));
    assert_eq!(detect_gba_slot("GBA3 GBA1"), Some(1));
    assert_eq!(detect_gba_slot("gba1"), None);
    assert_eq!(detect_gba_slot(""), None);
}

#[test]
fn windows_from_rects() {
    let w = window_from_rect(42, "GBA3".to_string(), 7, 10, 20, 250, 180);
    assert_eq!((w.hwnd, w.pid, w.x, w.y, w.width, w.height, w.gba_slot), (42, 7, 10, 20, 240, 160, Some(3)));
    assert_eq!(w.title, "GBA3");
}

fn win(title: &str) -> WindowInfo {
    window_from_rect(1, title.to_string(), 1, 0, 0, 1, 1)
}

#[test]
fn only_gba_windows_are_kept() {
    let out = filter_gba_windows(vec![win("Editor"), win("GBA2"), win("Dolphin"), win("GBA1 x")]);
    assert_eq!(out.iter().map(|w| w.title.as_str()).collect::<Vec<_>>(), vec!["GBA2", "GBA1 x"]);
    assert!(filter_gba_windows(vec![]).is_empty());
}

#[test]
fn x11_minimized_states() {
    assert!(x11_is_minimized(Some(3), None, 99));
    assert!(!x11_is_minimized(Some(1), None, 99));
    assert!(x11_is_minimized(Some(1), Some(&[5, 99]), 99));
    assert!(!x11_is_minimized(None, Some(&[5, 6]), 99));
    assert!(!x11_is_minimized(None, None, 99));
}
