use gba_orca::error::AppError;
use gba_orca::mediamtx::{ready_step, MediamtxState, ReadyStep, READY_ATTEMPTS};
use gba_orca::pipewire::{frame_range, parse_video_format, spa_fmt_to_ffmpeg, SpaVideoFormat};
use gba_orca::remote_controller::RemoteController;
use gba_orca::text::{chars_of, contains, decimal_string, replace, string_of};

#[test]
fn error_messages() {
    assert_eq!(AppError::InvalidSlot(7).message(), "Slot non valido: 7");
    assert_eq!(AppError::SlotInUse(2).message(), "Slot 2 già in stream");
    assert_eq!(AppError::NoStream(3).message(), "Nessuno stream attivo per slot 3");
    assert_eq!(AppError::Ffmpeg("x".into()).message(), "FFmpeg: x");
    assert_eq!(AppError::MediaMtx("y".into()).message(), "MediaMTX: y");
    assert_eq!(AppError::Portal("z".into()).message(), "Portal Wayland: z");
    assert_eq!(AppError::Pipewire("w".into()).message(), "PipeWire: w");
    assert_eq!(AppError::from("plain".to_string()).message(), "plain");
    assert_eq!(AppError::from("text").message(), "text");
    let io = std::io::Error::new(std::io::ErrorKind::Other, "boom");
    assert_eq!(AppError::from(io).message(), "I/O: boom");
}

#[test]
fn controller_codes() {
    for rc in [RemoteController::Off, RemoteController::Usb, RemoteController::Virtual] {
        assert_eq!(RemoteController::from_code(rc.code()), rc);
    }
    assert_eq!(RemoteController::from_code(9), RemoteController::Off);
    assert_eq!(RemoteController::default(), RemoteController::Off);
}

#[test]
fn pixel_formats() {
    assert_eq!(spa_fmt_to_ffmpeg(SpaVideoFormat::BGRx), Some("bgr0"));
    assert_eq!(spa_fmt_to_ffmpeg(SpaVideoFormat::RGBA), Some("rgba"));
    assert_eq!(spa_fmt_to_ffmpeg(SpaVideoFormat::Other), None);
    let info = parse_video_format(true, SpaVideoFormat::RGBx, "RGBx", 240, 160).unwrap();
    assert_eq!((info.pix_fmt, info.width, info.height), ("rgb0", 240, 160));
    assert_eq!(parse_video_format(false, SpaVideoFormat::RGBx, "RGBx", 1, 1).unwrap_err(), "unexpected media type");
    assert_eq!(
        parse_video_format(true, SpaVideoFormat::Other, "NV12", 1, 1).unwrap_err(),
        "unsupported pixel format NV12"
    );
}

#[test]
fn frame_ranges() {
    assert_eq!(frame_range(0, 100, 1000), (0, 100));
    assert_eq!(frame_range(10, 100, 50), (10, 50));
    assert_eq!(frame_range(50, 0, 50), (50, 50));
}

#[test]
fn readiness_probing() {
    assert_eq!(ready_step(0, true), ReadyStep::Ready);
    assert_eq!(ready_step(0, false), ReadyStep::Retry);
    assert_eq!(ready_step(18, false), ReadyStep::Retry);
    assert_eq!(ready_step(READY_ATTEMPTS - 1, false), ReadyStep::GiveUp);
    assert_eq!(ready_step(READY_ATTEMPTS - 1, true), ReadyStep::Ready);
}

#[test]
fn mediamtx_shutdown_is_idempotent() {
    let mut m: MediamtxState<u8, u16> = MediamtxState::new();
    assert!(!m.is_running());
    m.child = Some(1);
    m.event_task = Some(2);
    assert!(m.is_running());
    assert_eq!(m.shutdown(), (Some(1), Some(2)));
    assert_eq!(m.shutdown(), (None, None));
    assert!(!m.is_running());
}

#[test]
fn text_helpers() {
    assert_eq!(decimal_string(0), "0");
    assert_eq!(decimal_string(8889), "8889");
    assert_eq!(decimal_string(u64::MAX), u64::MAX.to_string());
    let hay = chars_of("héllo wörld");
    assert!(contains(&hay, &chars_of("wö")));
    assert!(contains(&hay, &chars_of("")));
    assert!(!contains(&hay, &chars_of("wo")));
    let r = replace(&chars_of("aaa{x}b{x}{x"), &chars_of("{x}"), &chars_of("é"));
    assert_eq!(string_of(&r), "aaaébé{x");
    let r = replace(&chars_of("aaaa"), &chars_of("aa"), &chars_of("b"));
    assert_eq!(string_of(&r), "bb");
    assert_eq!(string_of(&replace(&chars_of(""), &chars_of("a"), &chars_of("b"))), "");
}
