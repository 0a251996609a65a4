use gba_orca::stream::StreamMode;
use gba_orca::viewer::{controller_request, mjpeg_feed_request, viewer_page};

#[test]
fn mjpeg_page_without_controller() {
    let page = viewer_page(3, Some(StreamMode::Mjpeg), 0);
    assert!(page.contains(r#"<img src="/stream/3" alt="GBA3">"#));
    assert!(page.contains("<title>GBA3</title>"));
    assert!(!page.contains('{') || !page.contains("{gp_"));
    assert!(!page.contains("{slot}"));
    assert!(!page.contains("WebSocket"));
}

#[test]
fn page_without_stream_is_the_mjpeg_one() {
    assert_eq!(viewer_page(1, None, 0), viewer_page(1, Some(StreamMode::Mjpeg), 0));
}

#[test]
fn webrtc_page_points_at_the_player() {
    let page = viewer_page(2, Some(StreamMode::WebrtcPlus), 0);
    assert!(page.contains("':8889/slot2'"));
    assert!(page.contains(r#"<iframe id="player"></iframe>"#));
    assert!(!page.contains("{webrtc_port}"));
}

#[test]
fn gamepad_fragments_get_the_slot() {
    let page = viewer_page(4, Some(StreamMode::Mjpeg), 1);
    assert!(page.contains("const SLOT=4;"));
    assert!(page.contains("gp-toast"));
    assert!(!page.contains("{slot}"));
    let page = viewer_page(4, Some(StreamMode::Webrtc), 2);
    assert!(page.contains("virtual-controller"));
    assert!(page.contains("const SLOT=4;"));
    assert!(!page.contains("gp-toast"));
}

#[test]
fn feed_and_controller_requests() {
    assert_eq!(mjpeg_feed_request(None), Err("No active stream"));
    assert_eq!(mjpeg_feed_request(Some(StreamMode::WebrtcVp9)), Err("Stream is WebRTC-only"));
    assert_eq!(mjpeg_feed_request(Some(StreamMode::Mjpeg)), Ok(()));
    assert_eq!(controller_request(0), Err("Invalid slot"));
    assert_eq!(controller_request(5), Err("Invalid slot"));
    assert_eq!(controller_request(4), Ok(()));
}

#[test]
fn no_placeholder_is_left_in_any_page() {
    let modes = [
        None,
        Some(StreamMode::Mjpeg),
        Some(StreamMode::Webrtc),
        Some(StreamMode::WebrtcPlus),
        Some(StreamMode::WebrtcVp9),
    ];
    for mode in modes {
        for rc in 0u8..=3 {
            for slot in [1u8, 4, 255] {
                let page = viewer_page(slot, mode, rc);
                for p in ["{slot}", "{gp_css}", "{gp_html}", "{gp_js}", "{webrtc_port}"] {
                    assert!(!page.contains(p), "{} left in page for {:?}, rc {}", p, mode, rc);
                }
            }
        }
    }
}
