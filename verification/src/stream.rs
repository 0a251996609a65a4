//! Streaming modes, FFmpeg command lines and the per-slot session table.

use std::collections::HashMap;
use vstd::prelude::*;
use crate::network::{HTTP_PORT, MEDIAMTX_RTMP_PORT, MEDIAMTX_WEBRTC_PORT};
use crate::text::{concat, decimal, decimal_string};
use crate::pipewire::VideoFormatInfo;

verus! {

broadcast use vstd::std_specs::hash::group_hash_axioms;

/// Local TCP port on which FFmpeg delivers the MJPEG stream of a slot.
pub fn ingest_port_for_slot(slot: u8) -> (port: u16)
    ensures
        port == 9000 + slot,
{
    9000 + slot as u16
}

/// How a slot is streamed to viewers.
#[derive(Clone, Copy, Debug, PartialEq, Eq, Structural)]
pub enum StreamMode {
    /// MJPEG over the local HTTP server.
    Mjpeg,
    /// H.264 through MediaMTX's WebRTC.
    Webrtc,
    /// H.264 upscaled 2x (nearest neighbour) through WebRTC.
    WebrtcPlus,
    /// VP9 with full chroma through WebRTC.
    WebrtcVp9,
}

/// The name the frontend uses for each mode.
pub open spec fn mode_name(m: StreamMode) -> Seq<char> {
    match m {
        StreamMode::Mjpeg => "mjpeg"@,
        StreamMode::Webrtc => "webrtc"@,
        StreamMode::WebrtcPlus => "webrtc++"@,
        StreamMode::WebrtcVp9 => "webrtc-vp9"@,
    }
}

/// The mode a name stands for, if any.
pub open spec fn mode_of_name(s: Seq<char>) -> Option<StreamMode> {
    if s == "mjpeg"@ {
        Some(StreamMode::Mjpeg)
    } else if s == "webrtc"@ {
        Some(StreamMode::Webrtc)
    } else if s == "webrtc++"@ {
        Some(StreamMode::WebrtcPlus)
    } else if s == "webrtc-vp9"@ {
        Some(StreamMode::WebrtcVp9)
    } else {
        None
    }
}

/// Every mode except MJPEG goes through MediaMTX (WebRTC).
pub open spec fn webrtc_mode(m: StreamMode) -> bool {
    !(m is Mjpeg)
}

/// Message for an unknown mode name.
pub open spec fn invalid_mode_message(s: Seq<char>) -> Seq<char> {
    "Modalità non valida: "@ + s
}

fn same_text(a: &str, b: &str) -> (r: bool)
    ensures
        r == (a@ == b@),
{
    let x = String::from_str(a);
    let y = String::from_str(b);
    x == y
}

impl StreamMode {
    /// Parses a mode name sent by the frontend.
    pub fn parse(s: &str) -> (r: Result<StreamMode, String>)
        ensures
            r matches Ok(m) ==> mode_of_name(s@) == Some(m),
            r matches Err(e) ==> mode_of_name(s@) is None && e@ == invalid_mode_message(s@),
            r is Ok <==> mode_of_name(s@) is Some,
    {
        if same_text(s, "mjpeg") {
            Ok(StreamMode::Mjpeg)
        } else if same_text(s, "webrtc") {
            Ok(StreamMode::Webrtc)
        } else if same_text(s, "webrtc++") {
            Ok(StreamMode::WebrtcPlus)
        } else if same_text(s, "webrtc-vp9") {
            Ok(StreamMode::WebrtcVp9)
        } else {
            Err(concat("Modalità non valida: ", s))
        }
    }

    /// Whether the mode streams through MediaMTX (WebRTC).
    pub fn is_webrtc(&self) -> (r: bool)
        ensures
            r == webrtc_mode(*self),
    {
        match self {
            StreamMode::Mjpeg => false,
            _ => true,
        }
    }
}

/// Every mode name parses back to its mode, and the four names are distinct.
pub proof fn lemma_mode_names_parse(m: StreamMode)
    ensures
        mode_of_name(mode_name(m)) == Some(m),
{
    reveal_strlit("mjpeg");
    reveal_strlit("webrtc");
    reveal_strlit("webrtc++");
    reveal_strlit("webrtc-vp9");
    assert("mjpeg"@.len() == 5);
    assert("webrtc"@.len() == 6);
    assert("webrtc++"@.len() == 8);
    assert("webrtc-vp9"@.len() == 10);
}

/// The texts of a list of strings.
pub open spec fn texts(v: Seq<String>) -> Seq<Seq<char>> {
    v.map_values(|x: String| x@)
}

/// Where viewers watch a slot: MediaMTX's WebRTC player for WebRTC modes,
/// the local viewer page otherwise.
pub open spec fn stream_url_text(slot: u8, mode: StreamMode) -> Seq<char> {
    if webrtc_mode(mode) {
        "http://127.0.0.1:"@ + decimal(MEDIAMTX_WEBRTC_PORT as nat) + "/slot"@ + decimal(slot as nat)
    } else {
        "http://127.0.0.1:"@ + decimal(HTTP_PORT as nat) + "/v/"@ + decimal(slot as nat)
    }
}

/// The viewer URL of a slot streamed in a mode.
pub fn stream_url(slot: u8, mode: &StreamMode) -> (url: String)
    ensures
        url@ == stream_url_text(slot, *mode),
{
    let (port, path) = if mode.is_webrtc() {
        (MEDIAMTX_WEBRTC_PORT, "/slot")
    } else {
        (HTTP_PORT, "/v/")
    };
    let a = concat("http://127.0.0.1:", decimal_string(port as u64).as_str());
    let b = concat(a.as_str(), path);
    concat(b.as_str(), decimal_string(slot as u64).as_str())
}

/// FFmpeg arguments shared by all modes: quiet logging, minimal probing,
/// GDI window capture at 30 fps of the window named by `title_arg`.
pub open spec fn common_args(title_arg: Seq<char>) -> Seq<Seq<char>> {
    seq![
        "-hide_banner"@, "-loglevel"@, "info"@, "-nostats"@, "-probesize"@, "32"@,
        "-analyzeduration"@, "0"@, "-f"@, "gdigrab"@, "-framerate"@, "30"@, "-i"@, title_arg,
    ]
}

/// Per-mode FFmpeg arguments: video filter, codec, pixel format and muxer.
pub open spec fn mode_args(m: StreamMode) -> Seq<Seq<char>> {
    match m {
        StreamMode::Mjpeg => seq![
            "-vf"@, "mpdecimate=max=30"@, "-fps_mode"@, "vfr"@, "-c:v"@, "mjpeg"@, "-q:v"@, "5"@,
            "-flush_packets"@, "1"@, "-f"@, "mpjpeg"@,
        ],
        StreamMode::Webrtc => seq![
            "-vf"@, "scale=trunc(iw/2)*2:trunc(ih/2)*2"@, "-c:v"@, "libx264"@, "-preset"@,
            "ultrafast"@, "-tune"@, "zerolatency"@, "-g"@, "30"@, "-b:v"@, "2M"@, "-pix_fmt"@,
            "yuv420p"@, "-f"@, "flv"@,
        ],
        StreamMode::WebrtcPlus => seq![
            "-vf"@, "scale=2*iw:2*ih:flags=neighbor"@, "-c:v"@, "libx264"@, "-preset"@, "fast"@,
            "-tune"@, "zerolatency"@, "-crf"@, "18"@, "-pix_fmt"@, "yuv420p"@, "-g"@, "30"@, "-f"@,
            "flv"@,
        ],
        StreamMode::WebrtcVp9 => seq![
            "-vf"@, "scale=2*iw:2*ih:flags=neighbor"@, "-c:v"@, "libvpx-vp9"@, "-crf"@, "18"@,
            "-b:v"@, "0"@, "-pix_fmt"@, "yuv444p"@, "-g"@, "30"@, "-tune-content"@, "screen"@,
            "-f"@, "flv"@,
        ],
    }
}

/// The full FFmpeg command line: common arguments, the mode's arguments,
/// then the output URL.
pub open spec fn ffmpeg_args(m: StreamMode, title_arg: Seq<char>, output_url: Seq<char>) -> Seq<Seq<char>> {
    common_args(title_arg) + mode_args(m) + seq![output_url]
}

fn push_all(v: &mut Vec<String>, items: &[&str])
    ensures
        texts(final(v)@) == texts(old(v)@) + items@.map_values(|x: &str| x@),
{
    let ghost start = texts(old(v)@);
    for i in 0..items.len()
        invariant
            texts(v@) == start + items@.map_values(|x: &str| x@).take(i as int),
    {
        let ghost before = v@;
        v.push(String::from_str(items[i]));
        assert(texts(v@) =~= texts(before).push(items@[i as int]@));
        assert(items@.map_values(|x: &str| x@).take(i + 1) =~= items@.map_values(|x: &str| x@).take(
            i as int,
        ).push(items@[i as int]@));
    }
    assert(items@.map_values(|x: &str| x@).take(items@.len() as int) =~= items@.map_values(
        |x: &str| x@,
    ));
}

/// Builds the FFmpeg argument list for a mode, a `title=` capture argument
/// and an output URL.
pub fn build_ffmpeg_args(mode: &StreamMode, title_arg: &str, output_url: &str) -> (args: Vec<String>)
    ensures
        texts(args@) == ffmpeg_args(*mode, title_arg@, output_url@),
{
    let mut args: Vec<String> = Vec::new();
    push_all(&mut args, &["-hide_banner", "-loglevel", "info", "-nostats", "-probesize", "32",
        "-analyzeduration", "0", "-f", "gdigrab", "-framerate", "30", "-i", title_arg]);
    match mode {
        StreamMode::Mjpeg => push_all(&mut args, &["-vf", "mpdecimate=max=30", "-fps_mode", "vfr",
            "-c:v", "mjpeg", "-q:v", "5", "-flush_packets", "1", "-f", "mpjpeg"]),
        StreamMode::Webrtc => push_all(&mut args, &["-vf", "scale=trunc(iw/2)*2:trunc(ih/2)*2",
            "-c:v", "libx264", "-preset", "ultrafast", "-tune", "zerolatency", "-g", "30", "-b:v",
            "2M", "-pix_fmt", "yuv420p", "-f", "flv"]),
        StreamMode::WebrtcPlus => push_all(&mut args, &["-vf", "scale=2*iw:2*ih:flags=neighbor",
            "-c:v", "libx264", "-preset", "fast", "-tune", "zerolatency", "-crf", "18", "-pix_fmt",
            "yuv420p", "-g", "30", "-f", "flv"]),
        StreamMode::WebrtcVp9 => push_all(&mut args, &["-vf", "scale=2*iw:2*ih:flags=neighbor",
            "-c:v", "libvpx-vp9", "-crf", "18", "-b:v", "0", "-pix_fmt", "yuv444p", "-g", "30",
            "-tune-content", "screen", "-f", "flv"]),
    }
    push_all(&mut args, &[output_url]);
    assert(texts(args@) =~= ffmpeg_args(*mode, title_arg@, output_url@));
    args
}

/// Filter run first on Wayland, before the mode's own filter: the portal can
/// hand over 4K/8K frames, so they are brought to 30 fps and 1280 pixels wide
/// with the cheapest scaler before any encoder sees them.
pub open spec fn wayland_prefilter() -> Seq<char> {
    "fps=30,scale=1280:-2:flags=fast_bilinear,"@
}

/// FFmpeg input arguments on Wayland: low-latency probing and raw frames of
/// the negotiated format read from standard input.
pub open spec fn wayland_input_args(pix_fmt: Seq<char>, width: u32, height: u32) -> Seq<Seq<char>> {
    seq![
        "-hide_banner"@, "-loglevel"@, "info"@, "-nostats"@, "-fflags"@, "nobuffer"@,
        "-probesize"@, "32"@, "-analyzeduration"@, "0"@, "-thread_queue_size"@, "512"@, "-f"@,
        "rawvideo"@, "-pix_fmt"@, pix_fmt, "-video_size"@,
        decimal(width as nat) + "x"@ + decimal(height as nat), "-i"@, "pipe:0"@,
    ]
}

/// A mode's arguments on Wayland: the same as elsewhere, with the
/// downscaling prefilter put in front of the mode's video filter.
pub open spec fn wayland_mode_args(m: StreamMode) -> Seq<Seq<char>> {
    mode_args(m).update(1, wayland_prefilter() + mode_args(m)[1])
}

/// The full FFmpeg command line on Wayland.
pub open spec fn wayland_ffmpeg_args(
    m: StreamMode,
    pix_fmt: Seq<char>,
    width: u32,
    height: u32,
    output_url: Seq<char>,
) -> Seq<Seq<char>> {
    wayland_input_args(pix_fmt, width, height) + wayland_mode_args(m) + seq![output_url]
}

/// Builds the FFmpeg argument list for a Wayland capture: raw frames of the
/// negotiated format arrive on standard input, are downscaled first, then
/// encoded as the mode asks and sent to `output_url`.
pub fn build_wayland_ffmpeg_args(mode: &StreamMode, format: &VideoFormatInfo, output_url: &str) -> (args: Vec<String>)
    ensures
        texts(args@) == wayland_ffmpeg_args(*mode, format.pix_fmt@, format.width, format.height, output_url@),
{
    let w = decimal_string(format.width as u64);
    let h = decimal_string(format.height as u64);
    let wx = concat(w.as_str(), "x");
    let size = concat(wx.as_str(), h.as_str());
    let mut args: Vec<String> = Vec::new();
    push_all(&mut args, &["-hide_banner", "-loglevel", "info", "-nostats", "-fflags", "nobuffer",
        "-probesize", "32", "-analyzeduration", "0", "-thread_queue_size", "512", "-f", "rawvideo",
        "-pix_fmt", format.pix_fmt, "-video_size", size.as_str(), "-i", "pipe:0"]);
    let pre = "fps=30,scale=1280:-2:flags=fast_bilinear,";
    match mode {
        StreamMode::Mjpeg => {
            let vf = concat(pre, "mpdecimate=max=30");
            push_all(&mut args, &["-vf", vf.as_str(), "-fps_mode", "vfr", "-c:v", "mjpeg", "-q:v",
                "5", "-flush_packets", "1", "-f", "mpjpeg"]);
        },
        StreamMode::Webrtc => {
            let vf = concat(pre, "scale=trunc(iw/2)*2:trunc(ih/2)*2");
            push_all(&mut args, &["-vf", vf.as_str(), "-c:v", "libx264", "-preset", "ultrafast",
                "-tune", "zerolatency", "-g", "30", "-b:v", "2M", "-pix_fmt", "yuv420p", "-f",
                "flv"]);
        },
        StreamMode::WebrtcPlus => {
            let vf = concat(pre, "scale=2*iw:2*ih:flags=neighbor");
            push_all(&mut args, &["-vf", vf.as_str(), "-c:v", "libx264", "-preset", "fast",
                "-tune", "zerolatency", "-crf", "18", "-pix_fmt", "yuv420p", "-g", "30", "-f",
                "flv"]);
        },
        StreamMode::WebrtcVp9 => {
            let vf = concat(pre, "scale=2*iw:2*ih:flags=neighbor");
            push_all(&mut args, &["-vf", vf.as_str(), "-c:v", "libvpx-vp9", "-crf", "18", "-b:v",
                "0", "-pix_fmt", "yuv444p", "-g", "30", "-tune-content", "screen", "-f", "flv"]);
        },
    }
    push_all(&mut args, &[output_url]);
    assert(texts(args@) =~= wayland_ffmpeg_args(
        *mode,
        format.pix_fmt@,
        format.width,
        format.height,
        output_url@,
    ));
    args
}

/// The encoder settings of each mode, argument by argument after the
/// capture input. The two H.264 modes send 4:2:0 chroma (`yuv420p`), the
/// only layout browsers' WebRTC H.264 decoders play, through FLV to
/// MediaMTX; VP9 keeps full chroma (`yuv444p`); MJPEG drops repeated frames
/// and writes multipart JPEG. The window is captured with GDI at 30 fps.
pub proof fn lemma_ffmpeg_mode_settings(m: StreamMode, title_arg: Seq<char>, output_url: Seq<char>)
    ensures
        ffmpeg_args(m, title_arg, output_url).take(14) == seq![
            "-hide_banner"@,
            "-loglevel"@,
            "info"@,
            "-nostats"@,
            "-probesize"@,
            "32"@,
            "-analyzeduration"@,
            "0"@,
            "-f"@,
            "gdigrab"@,
            "-framerate"@,
            "30"@,
            "-i"@,
            title_arg,
        ],
        m is Mjpeg ==> ffmpeg_args(m, title_arg, output_url).skip(14) == seq![
            "-vf"@,
            "mpdecimate=max=30"@,
            "-fps_mode"@,
            "vfr"@,
            "-c:v"@,
            "mjpeg"@,
            "-q:v"@,
            "5"@,
            "-flush_packets"@,
            "1"@,
            "-f"@,
            "mpjpeg"@,
            output_url,
        ],
        m is Webrtc ==> ffmpeg_args(m, title_arg, output_url).skip(14) == seq![
            "-vf"@,
            "scale=trunc(iw/2)*2:trunc(ih/2)*2"@,
            "-c:v"@,
            "libx264"@,
            "-preset"@,
            "ultrafast"@,
            "-tune"@,
            "zerolatency"@,
            "-g"@,
            "30"@,
            "-b:v"@,
            "2M"@,
            "-pix_fmt"@,
            "yuv420p"@,
            "-f"@,
            "flv"@,
            output_url,
        ],
        m is WebrtcPlus ==> ffmpeg_args(m, title_arg, output_url).skip(14) == seq![
            "-vf"@,
            "scale=2*iw:2*ih:flags=neighbor"@,
            "-c:v"@,
            "libx264"@,
            "-preset"@,
            "fast"@,
            "-tune"@,
            "zerolatency"@,
            "-crf"@,
            "18"@,
            "-pix_fmt"@,
            "yuv420p"@,
            "-g"@,
            "30"@,
            "-f"@,
            "flv"@,
            output_url,
        ],
        m is WebrtcVp9 ==> ffmpeg_args(m, title_arg, output_url).skip(14) == seq![
            "-vf"@,
            "scale=2*iw:2*ih:flags=neighbor"@,
            "-c:v"@,
            "libvpx-vp9"@,
            "-crf"@,
            "18"@,
            "-b:v"@,
            "0"@,
            "-pix_fmt"@,
            "yuv444p"@,
            "-g"@,
            "30"@,
            "-tune-content"@,
            "screen"@,
            "-f"@,
            "flv"@,
            output_url,
        ],
{
    let a = ffmpeg_args(m, title_arg, output_url);
    assert(a.take(14) =~= common_args(title_arg));
    assert(a.skip(14) =~= mode_args(m) + seq![output_url]);
}

/// The Wayland command line differs from the window-capture one only in
/// its input: the same mode arguments and output follow, and the mode's
/// video filter runs after a downscale to 30 fps and 1280 pixels wide. The
/// input is raw video of the negotiated format and size on standard input,
/// read without buffering.
pub proof fn lemma_wayland_args_match_capture_args(
    m: StreamMode,
    pix_fmt: Seq<char>,
    width: u32,
    height: u32,
    title_arg: Seq<char>,
    output_url: Seq<char>,
)
    ensures
        wayland_ffmpeg_args(m, pix_fmt, width, height, output_url).take(20) == seq![
            "-hide_banner"@,
            "-loglevel"@,
            "info"@,
            "-nostats"@,
            "-fflags"@,
            "nobuffer"@,
            "-probesize"@,
            "32"@,
            "-analyzeduration"@,
            "0"@,
            "-thread_queue_size"@,
            "512"@,
            "-f"@,
            "rawvideo"@,
            "-pix_fmt"@,
            pix_fmt,
            "-video_size"@,
            decimal(width as nat) + "x"@ + decimal(height as nat),
            "-i"@,
            "pipe:0"@,
        ],
        wayland_ffmpeg_args(m, pix_fmt, width, height, output_url)[20] == ffmpeg_args(m, title_arg, output_url)[14],
        wayland_ffmpeg_args(m, pix_fmt, width, height, output_url)[21] == "fps=30,scale=1280:-2:flags=fast_bilinear,"@
            + ffmpeg_args(m, title_arg, output_url)[15],
        wayland_ffmpeg_args(m, pix_fmt, width, height, output_url).skip(22) == ffmpeg_args(m, title_arg, output_url).skip(16),
{
    let w = wayland_ffmpeg_args(m, pix_fmt, width, height, output_url);
    let a = ffmpeg_args(m, title_arg, output_url);
    assert(w.take(20) =~= wayland_input_args(pix_fmt, width, height));
    assert(w.skip(22) =~= a.skip(16));
}

/// What the frontend is told about a running stream.
#[derive(Clone, Debug)]
pub struct StreamInfo {
    pub slot: u8,
    pub title: String,
    pub mode: StreamMode,
    pub url: String,
}

/// Outcome of the checks made before a stream starts: the slot must be 1 to
/// 4, the mode name must be known, and the slot must be free (checked in
/// that order).
pub open spec fn start_check(slot: u8, mode: Seq<char>, busy: bool) -> Result<StreamMode, Seq<char>> {
    if !(1 <= slot <= 4) {
        Err("Slot non valido: "@ + decimal(slot as nat))
    } else {
        match mode_of_name(mode) {
            None => Err(invalid_mode_message(mode)),
            Some(m) => if busy {
                Err("Slot "@ + decimal(slot as nat) + " già in stream"@)
            } else {
                Ok(m)
            },
        }
    }
}

/// Capture argument naming the window to grab.
pub open spec fn title_arg_text(title: Seq<char>) -> Seq<char> {
    "title="@ + title
}

/// Where FFmpeg sends its output: MediaMTX's RTMP ingest for WebRTC modes,
/// the slot's local ingest port for MJPEG.
pub open spec fn output_url_text(slot: u8, mode: StreamMode) -> Seq<char> {
    if webrtc_mode(mode) {
        "rtmp://127.0.0.1:"@ + decimal(MEDIAMTX_RTMP_PORT as nat) + "/slot"@ + decimal(slot as nat)
    } else {
        "tcp://127.0.0.1:"@ + decimal((9000 + slot) as nat)
    }
}

/// Everything needed to launch the stream of a slot.
pub struct StreamPlan {
    pub mode: StreamMode,
    /// FFmpeg's full argument list.
    pub args: Vec<String>,
    /// Local port to listen on for FFmpeg's MJPEG output (MJPEG only).
    pub ingest_port: Option<u16>,
    /// MediaMTX must be running first (WebRTC modes).
    pub needs_mediamtx: bool,
    /// What the frontend is told.
    pub info: StreamInfo,
}

/// Plans the stream of a window in a slot and mode.
pub fn plan_stream(slot: u8, mode: StreamMode, window_title: &str) -> (p: StreamPlan)
    ensures
        p.mode == mode,
        texts(p.args@) == ffmpeg_args(mode, title_arg_text(window_title@), output_url_text(slot, mode)),
        p.ingest_port == (if webrtc_mode(mode) { None } else { Some((9000 + slot) as u16) }),
        p.needs_mediamtx == webrtc_mode(mode),
        p.info.slot == slot,
        p.info.title@ == window_title@,
        p.info.mode == mode,
        p.info.url@ == stream_url_text(slot, mode),
{
    let title_arg = concat("title=", window_title);
    let output_url = if mode.is_webrtc() {
        let a = concat("rtmp://127.0.0.1:", decimal_string(MEDIAMTX_RTMP_PORT as u64).as_str());
        let b = concat(a.as_str(), "/slot");
        concat(b.as_str(), decimal_string(slot as u64).as_str())
    } else {
        concat("tcp://127.0.0.1:", decimal_string(ingest_port_for_slot(slot) as u64).as_str())
    };
    let args = build_ffmpeg_args(&mode, title_arg.as_str(), output_url.as_str());
    let ingest_port = if mode.is_webrtc() { None } else { Some(ingest_port_for_slot(slot)) };
    let info = StreamInfo {
        slot,
        title: String::from_str(window_title),
        mode,
        url: stream_url(slot, &mode),
    };
    StreamPlan { mode, args, ingest_port, needs_mediamtx: mode.is_webrtc(), info }
}

/// A running stream: its window title, mode and the host's handles on it
/// (FFmpeg process, ingest and keepalive tasks).
pub struct StreamSession<H> {
    pub title: String,
    pub mode: StreamMode,
    pub handles: H,
}

/// The slots below `n` whose session's mode satisfies `pick`, ascending.
pub open spec fn slots_where<H>(
    m: Map<u8, StreamSession<H>>,
    pick: spec_fn(StreamMode) -> bool,
    n: int,
) -> Seq<u8>
    decreases n,
{
    if n <= 0 {
        Seq::empty()
    } else {
        let before = slots_where(m, pick, n - 1);
        let s = (n - 1) as u8;
        if m.contains_key(s) && pick(m[s].mode) {
            before.push(s)
        } else {
            before
        }
    }
}

/// Selects every mode.
pub open spec fn pick_any() -> spec_fn(StreamMode) -> bool {
    |m: StreamMode| true
}

/// Selects the WebRTC modes.
pub open spec fn pick_webrtc() -> spec_fn(StreamMode) -> bool {
    |m: StreamMode| webrtc_mode(m)
}

/// The slots of a table, ascending, whose session's mode satisfies `pick`.
pub open spec fn picked_slots<H>(m: Map<u8, StreamSession<H>>, pick: spec_fn(StreamMode) -> bool) -> Seq<u8> {
    slots_where(m, pick, 256)
}

/// The handles of the sessions of the given slots, in the same order.
pub open spec fn handles_of<H>(m: Map<u8, StreamSession<H>>, slots: Seq<u8>) -> Seq<H> {
    slots.map_values(|s: u8| m[s].handles)
}

/// Some session of the table streams through WebRTC.
pub open spec fn has_webrtc<H>(m: Map<u8, StreamSession<H>>) -> bool {
    exists|s: u8| m.contains_key(s) && webrtc_mode(#[trigger] m[s].mode)
}

/// `info` describes the session `sess` running in `slot`.
pub open spec fn describes<H>(info: StreamInfo, slot: u8, sess: StreamSession<H>) -> bool {
    &&& info.slot == slot
    &&& info.title@ == sess.title@
    &&& info.mode == sess.mode
    &&& info.url@ == stream_url_text(slot, sess.mode)
}

/// Message when no stream runs in a slot.
pub open spec fn no_stream_message(slot: u8) -> Seq<char> {
    "Nessuno stream attivo per slot "@ + decimal(slot as nat)
}

/// The table without the sessions whose mode satisfies `pick`.
pub open spec fn without<H>(m: Map<u8, StreamSession<H>>, pick: spec_fn(StreamMode) -> bool) -> Map<u8, StreamSession<H>> {
    m.restrict(m.dom().filter(|s: u8| !pick(m[s].mode)))
}

/// Sessions of all slots, keyed by slot.
pub struct SessionTable<H> {
    sessions: HashMap<u8, StreamSession<H>>,
}

impl<H> View for SessionTable<H> {
    type V = Map<u8, StreamSession<H>>;

    closed spec fn view(&self) -> Map<u8, StreamSession<H>> {
        self.sessions@
    }
}

/// Once the WebRTC sessions are drained none is left, and the others stay.
pub proof fn lemma_take_webrtc_leaves_none<H>(m: Map<u8, StreamSession<H>>)
    ensures
        !has_webrtc(without(m, pick_webrtc())),
        forall|s: u8| m.contains_key(s) && !webrtc_mode(m[s].mode) ==> #[trigger] without(
            m,
            pick_webrtc(),
        ).contains_key(s) && without(m, pick_webrtc())[s] == m[s],
{
    let w = without(m, pick_webrtc());
    assert forall|s: u8| w.contains_key(s) implies !webrtc_mode(#[trigger] w[s].mode) by {
        assert(w[s] == m[s]);
    }
}

impl<H> SessionTable<H> {
    /// An empty table.
    pub fn new() -> (t: SessionTable<H>)
        ensures
            t@ == Map::<u8, StreamSession<H>>::empty(),
    {
        SessionTable { sessions: HashMap::new() }
    }

    /// Whether a stream runs in a slot.
    pub fn contains(&self, slot: u8) -> (r: bool)
        ensures
            r == self@.contains_key(slot),
    {
        self.sessions.contains_key(&slot)
    }

    /// The checks made before starting a stream in `slot` with mode name `mode`.
    pub fn check_start(&self, slot: u8, mode: &str) -> (r: Result<StreamMode, String>)
        ensures
            r matches Ok(m) ==> start_check(slot, mode@, self@.contains_key(slot)) == Ok::<StreamMode, Seq<char>>(m),
            r matches Err(e) ==> start_check(slot, mode@, self@.contains_key(slot)) == Err::<StreamMode, Seq<char>>(e@),
    {
        if slot < 1 || slot > 4 {
            return Err(concat("Slot non valido: ", decimal_string(slot as u64).as_str()));
        }
        let m = match StreamMode::parse(mode) {
            Ok(m) => m,
            Err(e) => {
                return Err(e);
            },
        };
        if self.contains(slot) {
            let a = concat("Slot ", decimal_string(slot as u64).as_str());
            return Err(concat(a.as_str(), " già in stream"));
        }
        Ok(m)
    }

    /// Records the session of a slot, returning the one it replaces.
    pub fn insert(&mut self, slot: u8, session: StreamSession<H>) -> (old_session: Option<StreamSession<H>>)
        ensures
            final(self)@ == old(self)@.insert(slot, session),
            old_session matches Some(o) ==> old(self)@.contains_key(slot) && o == old(self)@[slot],
            old_session is None ==> !old(self)@.contains_key(slot),
    {
        self.sessions.insert(slot, session)
    }

    /// The session running in a slot, if any.
    pub fn get(&self, slot: u8) -> (r: Option<&StreamSession<H>>)
        ensures
            r is Some <==> self@.contains_key(slot),
            r matches Some(x) ==> *x == self@[slot],
    {
        self.sessions.get(&slot)
    }

    /// The mode of the stream running in a slot, if any.
    pub fn mode_of(&self, slot: u8) -> (r: Option<StreamMode>)
        ensures
            r == (if self@.contains_key(slot) { Some(self@[slot].mode) } else { None::<StreamMode> }),
    {
        match self.sessions.get(&slot) {
            Some(session) => Some(session.mode),
            None => None,
        }
    }

    /// Whether any stream goes through WebRTC.
    pub fn any_webrtc_active(&self) -> (r: bool)
        ensures
            r == has_webrtc(self@),
    {
        let mut s: u16 = 0;
        while s < 256
            invariant
                s <= 256,
                forall|k: u8| k < s && #[trigger] self@.contains_key(k) ==> !webrtc_mode(self@[k].mode),
            decreases 256 - s,
        {
            let k = s as u8;
            assert(k == s) by (bit_vector)
                requires
                    s < 256,
                    k == s as u8,
            ;
            match self.sessions.get(&k) {
                Some(session) => {
                    if session.mode.is_webrtc() {
                        return true;
                    }
                },
                None => {},
            }
            s = s + 1;
        }
        false
    }

    /// Removes the session of a slot. Returns its handles and whether MediaMTX
    /// should now stop (the session streamed through WebRTC and no WebRTC
    /// stream remains); `None` when no stream ran in the slot.
    pub fn remove_and_cleanup(&mut self, slot: u8) -> (r: Option<(H, bool)>)
        ensures
            final(self)@ == old(self)@.remove(slot),
            r is Some <==> old(self)@.contains_key(slot),
            r matches Some((h, stop)) ==> h == old(self)@[slot].handles && stop == (webrtc_mode(
                old(self)@[slot].mode,
            ) && !has_webrtc(final(self)@)),
    {
        match self.sessions.remove(&slot) {
            None => None,
            Some(session) => {
                let was_webrtc = session.mode.is_webrtc();
                let stop = was_webrtc && !self.any_webrtc_active();
                Some((session.handles, stop))
            },
        }
    }

    /// Stops the stream of a slot: its handles and whether MediaMTX should
    /// stop, or the error given when no stream runs there.
    pub fn stop_stream(&mut self, slot: u8) -> (r: Result<(H, bool), String>)
        ensures
            final(self)@ == old(self)@.remove(slot),
            r is Ok <==> old(self)@.contains_key(slot),
            r matches Ok((h, stop)) ==> h == old(self)@[slot].handles && stop == (webrtc_mode(
                old(self)@[slot].mode,
            ) && !has_webrtc(final(self)@)),
            r matches Err(e) ==> e@ == no_stream_message(slot),
    {
        match self.remove_and_cleanup(slot) {
            Some(x) => Ok(x),
            None => Err(concat("Nessuno stream attivo per slot ", decimal_string(slot as u64).as_str())),
        }
    }

    /// Removes the sessions whose mode satisfies `pick` (which `is_webrtc`
    /// or `all` decides) and returns their handles in slot order.
    fn take_where(&mut self, webrtc_only: bool) -> (out: Vec<H>)
        ensures
            ({
                let pick = if webrtc_only { pick_webrtc() } else { pick_any() };
                &&& final(self)@ == without(old(self)@, pick)
                &&& out@ == handles_of(old(self)@, picked_slots(old(self)@, pick))
            }),
    {
        let ghost pick = if webrtc_only { pick_webrtc() } else { pick_any() };
        let ghost m0 = self@;
        let mut out: Vec<H> = Vec::new();
        let mut s: u16 = 0;
        while s < 256
            invariant
                s <= 256,
                pick == (if webrtc_only { pick_webrtc() } else { pick_any() }),
                forall|k: u8| k >= s ==> (#[trigger] self@.contains_key(k) == m0.contains_key(k)),
                forall|k: u8| k >= s && self@.contains_key(k) ==> #[trigger] self@[k] == m0[k],
                forall|k: u8| k < s ==> (#[trigger] self@.contains_key(k) == (m0.contains_key(k) && !pick(m0[k].mode))),
                forall|k: u8| k < s && self@.contains_key(k) ==> #[trigger] self@[k] == m0[k],
                out@ == handles_of(m0, slots_where(m0, pick, s as int)),
            decreases 256 - s,
        {
            let k = s as u8;
            assert(k == s) by (bit_vector)
                requires
                    s < 256,
                    k == s as u8,
            ;
            let take = match self.sessions.get(&k) {
                Some(session) => !webrtc_only || session.mode.is_webrtc(),
                None => false,
            };
            let ghost before = out@;
            proof {
                assert(self@.contains_key(k) == m0.contains_key(k));
                if m0.contains_key(k) {
                    assert(self@[k] == m0[k]);
                    if webrtc_only {
                        assert(pick(m0[k].mode) == webrtc_mode(m0[k].mode));
                    } else {
                        assert(pick(m0[k].mode));
                    }
                }
            }
            assert(take == (m0.contains_key(k) && pick(m0[k].mode)));
            if take {
                match self.sessions.remove(&k) {
                    Some(session) => {
                        out.push(session.handles);
                    },
                    None => {},
                }
            }
            assert(slots_where(m0, pick, s + 1) == (if m0.contains_key(k) && pick(m0[k].mode) {
                slots_where(m0, pick, s as int).push(k)
            } else {
                slots_where(m0, pick, s as int)
            }));
            assert(out@ =~= handles_of(m0, slots_where(m0, pick, s + 1)));
            s = s + 1;
        }
        assert(self@ =~= without(m0, pick));
        out
    }

    /// Drains the WebRTC sessions (when MediaMTX dies they can no longer reach
    /// any viewer), returning their handles in slot order.
    pub fn take_webrtc(&mut self) -> (out: Vec<H>)
        ensures
            final(self)@ == without(old(self)@, pick_webrtc()),
            out@ == handles_of(old(self)@, picked_slots(old(self)@, pick_webrtc())),
    {
        self.take_where(true)
    }

    /// Drains every session (on shutdown), returning their handles in slot order.
    pub fn drain(&mut self) -> (out: Vec<H>)
        ensures
            final(self)@ == without(old(self)@, pick_any()),
            final(self)@ == Map::<u8, StreamSession<H>>::empty(),
            out@ == handles_of(old(self)@, picked_slots(old(self)@, pick_any())),
    {
        let out = self.take_where(false);
        assert(self@ =~= Map::<u8, StreamSession<H>>::empty());
        out
    }

    /// Describes every running stream, in slot order.
    pub fn list_streams(&self) -> (infos: Vec<StreamInfo>)
        ensures
            infos@.len() == picked_slots(self@, pick_any()).len(),
            forall|i: int| 0 <= i < infos@.len() ==> {
                let s = picked_slots(self@, pick_any())[i];
                describes(#[trigger] infos@[i], s, self@[s])
            },
    {
        let ghost m = self@;
        let ghost pick = pick_any();
        let mut infos: Vec<StreamInfo> = Vec::new();
        let mut s: u16 = 0;
        while s < 256
            invariant
                s <= 256,
                m == self@,
                pick == pick_any(),
                infos@.len() == slots_where(m, pick, s as int).len(),
                forall|i: int| 0 <= i < infos@.len() ==> {
                    let k = slots_where(m, pick, s as int)[i];
                    describes(#[trigger] infos@[i], k, m[k])
                },
            decreases 256 - s,
        {
            let k = s as u8;
            assert(k == s) by (bit_vector)
                requires
                    s < 256,
                    k == s as u8,
            ;
            let ghost before = slots_where(m, pick, s as int);
            match self.sessions.get(&k) {
                Some(session) => {
                    infos.push(StreamInfo {
                        slot: k,
                        title: session.title.clone(),
                        mode: session.mode,
                        url: stream_url(k, &session.mode),
                    });
                    assert(slots_where(m, pick, s + 1) == before.push(k));
                },
                None => {
                    assert(slots_where(m, pick, s + 1) == before);
                },
            }
            s = s + 1;
        }
        infos
    }
}

/// What the keepalive of a stream does on each tick.
#[derive(Clone, Copy, Debug, PartialEq, Eq, Structural)]
pub enum KeepaliveAction {
    /// The captured window was closed: stop the stream and end the keepalive.
    StopStream,
    /// The window was minimized: restore it without taking focus.
    Restore,
    /// Nothing to do.
    Nothing,
}

/// Decides a keepalive tick from whether the captured window still exists
/// and, if so, whether it is minimized.
pub fn keepalive_step(alive: bool, minimized: bool) -> (a: KeepaliveAction)
    ensures
        a == (if !alive {
            KeepaliveAction::StopStream
        } else if minimized {
            KeepaliveAction::Restore
        } else {
            KeepaliveAction::Nothing
        }),
{
    if !alive {
        KeepaliveAction::StopStream
    } else if minimized {
        KeepaliveAction::Restore
    } else {
        KeepaliveAction::Nothing
    }
}

} // verus!
