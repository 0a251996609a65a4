use gba_orca::pipewire::VideoFormatInfo;
use gba_orca::stream::{
    build_ffmpeg_args, build_wayland_ffmpeg_args, ingest_port_for_slot, plan_stream, stream_url, SessionTable, StreamMode, StreamSession,
};

fn s(v: &[&str]) -> Vec<String> {
    v.iter().map(|x| x.to_string()).collect()
}

#[test]
fn ingest_ports() {
    assert_eq!(ingest_port_for_slot(1), 9001);
    assert_eq!(ingest_port_for_slot(4), 9004);
    assert_eq!(ingest_port_for_slot(255), 9255);
}

#[test]
fn parse_modes() {
    assert_eq!(StreamMode::parse("mjpeg"), Ok(StreamMode::Mjpeg));
    assert_eq!(StreamMode::parse("webrtc"), Ok(StreamMode::Webrtc));
    assert_eq!(StreamMode::parse("webrtc++"), Ok(StreamMode::WebrtcPlus));
    assert_eq!(StreamMode::parse("webrtc-vp9"), Ok(StreamMode::WebrtcVp9));
    assert_eq!(StreamMode::parse("MJPEG"), Err("Modalità non valida: MJPEG".to_string()));
    assert_eq!(StreamMode::parse(""), Err("Modalità non valida: ".to_string()));
}

#[test]
fn webrtc_modes() {
    assert!(!StreamMode::Mjpeg.is_webrtc());
    assert!(StreamMode::Webrtc.is_webrtc());
    assert!(StreamMode::WebrtcPlus.is_webrtc());
    assert!(StreamMode::WebrtcVp9.is_webrtc());
}

#[test]
fn viewer_urls() {
    assert_eq!(stream_url(2, &StreamMode::Webrtc), "http://127.0.0.1:8889/slot2");
    assert_eq!(stream_url(3, &StreamMode::Mjpeg), "http://127.0.0.1:8080/v/3");
}

#[test]
fn mjpeg_command_line() {
    let args = build_ffmpeg_args(&StreamMode::Mjpeg, "title=GBA1", "tcp://127.0.0.1:9001");
    assert_eq!(
        args,
        s(&[
            "-hide_banner", "-loglevel", "info", "-nostats", "-probesize", "32", "-analyzeduration", "0", "-f",
            "gdigrab", "-framerate", "30", "-i", "title=GBA1", "-vf", "mpdecimate=max=30", "-fps_mode", "vfr",
            "-c:v", "mjpeg", "-q:v", "5", "-flush_packets", "1", "-f", "mpjpeg", "tcp://127.0.0.1:9001",
        ])
    );
}

#[test]
fn vp9_command_line() {
    let args = build_ffmpeg_args(&StreamMode::WebrtcVp9, "title=x", "out");
    assert_eq!(
        &args[14..],
        &s(&[
            "-vf", "scale=2*iw:2*ih:flags=neighbor", "-c:v", "libvpx-vp9", "-crf", "18", "-b:v", "0",
            "-pix_fmt", "yuv444p", "-g", "30", "-tune-content", "screen", "-f", "flv", "out",
        ])[..]
    );
}

#[test]
fn plans() {
    let p = plan_stream(1, StreamMode::Webrtc, "Dolphin GBA1");
    assert!(p.needs_mediamtx);
    assert_eq!(p.ingest_port, None);
    assert_eq!(p.args[13], "title=Dolphin GBA1");
    assert_eq!(p.args.last().unwrap(), "rtmp://127.0.0.1:1935/slot1");
    assert_eq!(p.args[15], "scale=trunc(iw/2)*2:trunc(ih/2)*2");
    assert_eq!(p.info.url, "http://127.0.0.1:8889/slot1");
    assert_eq!(p.info.title, "Dolphin GBA1");
    let q = plan_stream(2, StreamMode::Mjpeg, "w");
    assert!(!q.needs_mediamtx);
    assert_eq!(q.ingest_port, Some(9002));
    assert_eq!(q.args.last().unwrap(), "tcp://127.0.0.1:9002");
    assert_eq!(q.info.url, "http://127.0.0.1:8080/v/2");
    assert_eq!(q.info.slot, 2);
}

fn session(mode: StreamMode, h: u32) -> StreamSession<u32> {
    StreamSession { title: format!("GBA{}", h), mode, handles: h }
}

#[test]
fn start_checks() {
    let mut t: SessionTable<u32> = SessionTable::new();
    assert_eq!(t.check_start(0, "mjpeg"), Err("Slot non valido: 0".to_string()));
    assert_eq!(t.check_start(5, "bogus"), Err("Slot non valido: 5".to_string()));
    assert_eq!(t.check_start(1, "bogus"), Err("Modalità non valida: bogus".to_string()));
    assert_eq!(t.check_start(1, "webrtc"), Ok(StreamMode::Webrtc));
    assert!(t.insert(1, session(StreamMode::Mjpeg, 1)).is_none());
    assert_eq!(t.check_start(1, "webrtc"), Err("Slot 1 già in stream".to_string()));
    assert_eq!(t.check_start(1, "x"), Err("Modalità non valida: x".to_string()));
}

#[test]
fn stopping_streams() {
    let mut t: SessionTable<u32> = SessionTable::new();
    t.insert(2, session(StreamMode::Webrtc, 20));
    t.insert(3, session(StreamMode::WebrtcPlus, 30));
    t.insert(1, session(StreamMode::Mjpeg, 10));
    assert!(t.any_webrtc_active());
    assert_eq!(t.mode_of(3), Some(StreamMode::WebrtcPlus));
    assert_eq!(t.mode_of(4), None);
    assert_eq!(t.stop_stream(4), Err("Nessuno stream attivo per slot 4".to_string()));
    // another WebRTC stream remains: MediaMTX keeps running
    assert_eq!(t.stop_stream(2), Ok((20, false)));
    // the MJPEG stream never stops MediaMTX
    assert_eq!(t.remove_and_cleanup(1), Some((10, false)));
    // the last WebRTC stream stops it
    assert_eq!(t.remove_and_cleanup(3), Some((30, true)));
    assert!(!t.any_webrtc_active());
    assert_eq!(t.remove_and_cleanup(3), None);
}

#[test]
fn listing_and_draining() {
    let mut t: SessionTable<u32> = SessionTable::new();
    t.insert(4, session(StreamMode::WebrtcVp9, 4));
    t.insert(1, session(StreamMode::Mjpeg, 1));
    t.insert(2, session(StreamMode::Webrtc, 2));
    let list = t.list_streams();
    assert_eq!(list.iter().map(|i| i.slot).collect::<Vec<_>>(), vec![1, 2, 4]);
    assert_eq!(list[0].url, "http://127.0.0.1:8080/v/1");
    assert_eq!(list[2].url, "http://127.0.0.1:8889/slot4");
    assert_eq!(list[1].title, "GBA2");
    assert_eq!(list[2].mode, StreamMode::WebrtcVp9);
    assert_eq!(t.take_webrtc(), vec![2, 4]);
    assert!(!t.any_webrtc_active());
    assert!(t.contains(1));
    assert_eq!(t.drain(), vec![1]);
    assert!(t.list_streams().is_empty());
}

#[test]
fn wayland_ffmpeg_args_read_raw_frames_from_stdin() {
    let fmt = VideoFormatInfo { pix_fmt: "bgr0", width: 3840, height: 2160 };
    let args = build_wayland_ffmpeg_args(&StreamMode::Mjpeg, &fmt, "tcp://127.0.0.1:9001");
    assert_eq!(
        args,
        s(&[
            "-hide_banner", "-loglevel", "info", "-nostats", "-fflags", "nobuffer", "-probesize", "32",
            "-analyzeduration", "0", "-thread_queue_size", "512", "-f", "rawvideo", "-pix_fmt", "bgr0",
            "-video_size", "3840x2160", "-i", "pipe:0", "-vf",
            "fps=30,scale=1280:-2:flags=fast_bilinear,mpdecimate=max=30", "-fps_mode", "vfr", "-c:v",
            "mjpeg", "-q:v", "5", "-flush_packets", "1", "-f", "mpjpeg", "tcp://127.0.0.1:9001",
        ])
    );
}

#[test]
fn wayland_ffmpeg_args_prefilter_every_mode() {
    let fmt = VideoFormatInfo { pix_fmt: "rgba", width: 240, height: 160 };
    for (mode, vf) in [
        (StreamMode::Webrtc, "scale=trunc(iw/2)*2:trunc(ih/2)*2"),
        (StreamMode::WebrtcPlus, "scale=2*iw:2*ih:flags=neighbor"),
        (StreamMode::WebrtcVp9, "scale=2*iw:2*ih:flags=neighbor"),
    ] {
        let args = build_wayland_ffmpeg_args(&mode, &fmt, "rtmp://127.0.0.1:1935/slot2");
        assert_eq!(args[15], "rgba");
        assert_eq!(args[17], "240x160");
        assert_eq!(args[20], "-vf");
        assert_eq!(args[21], format!("fps=30,scale=1280:-2:flags=fast_bilinear,{}", vf));
        let window = build_ffmpeg_args(&mode, "title=GBA1", "rtmp://127.0.0.1:1935/slot2");
        // after the filter, the mode's arguments are those of the window-capture path
        assert_eq!(args[22..], window[16..]);
    }
}
