//! Desktop windows as listed to the frontend, and the decisions made on
//! the data the window system reports about them.

use vstd::prelude::*;
use crate::text::{chars_of, contains, contains_seq};

verus! {

/// A top-level window.
#[derive(Clone, Debug)]
pub struct WindowInfo {
    /// Native handle (HWND on Windows, XID on X11).
    pub hwnd: isize,
    pub title: String,
    pub pid: u32,
    pub x: i32,
    pub y: i32,
    pub width: i32,
    pub height: i32,
    /// GBA slot told by the title ("GBA1" to "GBA4").
    pub gba_slot: Option<u8>,
}

/// The GBA slot a window title names: the first of "GBA1".."GBA4" that
/// occurs in it.
pub open spec fn gba_slot_of(title: Seq<char>) -> Option<u8> {
    if contains_seq(title, "GBA1"@) {
        Some(1)
    } else if contains_seq(title, "GBA2"@) {
        Some(2)
    } else if contains_seq(title, "GBA3"@) {
        Some(3)
    } else if contains_seq(title, "GBA4"@) {
        Some(4)
    } else {
        None
    }
}

/// The GBA slot a window title names, if any.
pub fn detect_gba_slot(title: &str) -> (slot: Option<u8>)
    ensures
        slot == gba_slot_of(title@),
{
    let t = chars_of(title);
    if contains(t.as_slice(), chars_of("GBA1").as_slice()) {
        Some(1)
    } else if contains(t.as_slice(), chars_of("GBA2").as_slice()) {
        Some(2)
    } else if contains(t.as_slice(), chars_of("GBA3").as_slice()) {
        Some(3)
    } else if contains(t.as_slice(), chars_of("GBA4").as_slice()) {
        Some(4)
    } else {
        None
    }
}

/// The window described by its handle, title, owner process and bounding
/// rectangle (left, top, right, bottom).
pub fn window_from_rect(hwnd: isize, title: String, pid: u32, left: i32, top: i32, right: i32, bottom: i32) -> (w: WindowInfo)
    requires
        i32::MIN <= right - left <= i32::MAX,
        i32::MIN <= bottom - top <= i32::MAX,
    ensures
        w.hwnd == hwnd,
        w.title == title,
        w.pid == pid,
        w.x == left,
        w.y == top,
        w.width == right - left,
        w.height == bottom - top,
        w.gba_slot == gba_slot_of(title@),
{
    let gba_slot = detect_gba_slot(title.as_str());
    WindowInfo { hwnd, title, pid, x: left, y: top, width: right - left, height: bottom - top, gba_slot }
}

/// The windows, in order, whose title names a GBA slot.
pub open spec fn gba_only(ws: Seq<WindowInfo>) -> Seq<WindowInfo>
    decreases ws.len(),
{
    if ws.len() == 0 {
        Seq::empty()
    } else {
        let before = gba_only(ws.drop_last());
        if ws.last().gba_slot is Some { before.push(ws.last()) } else { before }
    }
}

/// Keeps the windows that belong to a GBA slot, in order.
pub fn filter_gba_windows(windows: Vec<WindowInfo>) -> (out: Vec<WindowInfo>)
    ensures
        out@ == gba_only(windows@),
{
    let ghost src = windows@;
    let mut rest = windows;
    let mut out: Vec<WindowInfo> = Vec::new();
    let ghost mut taken: int = 0;
    while rest.len() > 0
        invariant
            0 <= taken <= src.len(),
            rest@ == src.skip(taken),
            out@ == gba_only(src.take(taken)),
        decreases rest@.len(),
    {
        let w = rest.remove(0);
        proof {
            assert(src.take(taken + 1).drop_last() =~= src.take(taken));
            assert(src.take(taken + 1).last() == w);
            assert(rest@ =~= src.skip(taken + 1));
            taken = taken + 1;
        }
        if w.gba_slot.is_some() {
            out.push(w);
        }
    }
    proof {
        assert(src.take(taken) =~= src);
    }
    out
}

/// X11: the window is minimized when its ICCCM `WM_STATE` is IconicState
/// (3), or its EWMH `_NET_WM_STATE` holds `_NET_WM_STATE_HIDDEN` (some window
/// managers set only the latter). Absent properties count as not minimized.
pub open spec fn x11_minimized(wm_state: Option<u32>, net_wm_state: Option<Seq<u32>>, hidden_atom: u32) -> bool {
    wm_state == Some(3u32) || match net_wm_state {
        Some(states) => states.contains(hidden_atom),
        None => false,
    }
}

/// Decides from the X11 properties whether a window is minimized.
pub fn x11_is_minimized(wm_state: Option<u32>, net_wm_state: Option<&[u32]>, hidden_atom: u32) -> (r: bool)
    ensures
        r == x11_minimized(wm_state, match net_wm_state {
            Some(v) => Some(v@),
            None => None,
        }, hidden_atom),
{
    if let Some(3u32) = wm_state {
        return true;
    }
    match net_wm_state {
        Some(states) => {
            for i in 0..states.len()
                invariant
                    net_wm_state == Some(states),
                    wm_state != Some(3u32),
                    forall|j: int| 0 <= j < i ==> states@[j] != hidden_atom,
            {
                if states[i] == hidden_atom {
                    assert(states@.contains(hidden_atom));
                    return true;
                }
            }
            assert(!states@.contains(hidden_atom));
            false
        },
        None => false,
    }
}

} // verus!
