//! Video formats negotiated with PipeWire on Wayland, and the bounds of a
//! frame inside a mapped buffer. Colour conversion, scaling and encoding
//! are left to FFmpeg.

use vstd::prelude::*;
use crate::text::concat;

verus! {

/// Negotiated frame format as FFmpeg's raw-video input needs it.
#[derive(Debug, Clone, Copy)]
pub struct VideoFormatInfo {
    /// FFmpeg pixel-format name.
    pub pix_fmt: &'static str,
    pub width: u32,
    pub height: u32,
}

/// The SPA raw video formats offered during negotiation; anything else is
/// `Other`.
#[derive(Debug, Clone, Copy, PartialEq, Eq, Structural)]
pub enum SpaVideoFormat {
    BGRx,
    RGBx,
    BGRA,
    RGBA,
    Other,
}

/// FFmpeg's name for an SPA format, if it has one here.
pub open spec fn ffmpeg_name(fmt: SpaVideoFormat) -> Option<Seq<char>> {
    match fmt {
        SpaVideoFormat::BGRx => Some("bgr0"@),
        SpaVideoFormat::RGBx => Some("rgb0"@),
        SpaVideoFormat::BGRA => Some("bgra"@),
        SpaVideoFormat::RGBA => Some("rgba"@),
        SpaVideoFormat::Other => None,
    }
}

/// Byte order of a pixel in an SPA format, as its name spells it: `B`,
/// `G`, `R` for the colour channels, `A` for alpha, `x` for a padding byte.
pub open spec fn spa_layout(fmt: SpaVideoFormat) -> Seq<char> {
    match fmt {
        SpaVideoFormat::BGRx => "BGRx"@,
        SpaVideoFormat::RGBx => "RGBx"@,
        SpaVideoFormat::BGRA => "BGRA"@,
        SpaVideoFormat::RGBA => "RGBA"@,
        SpaVideoFormat::Other => Seq::empty(),
    }
}

/// How FFmpeg spells a byte of a packed pixel: its channel in lower case,
/// and `0` for a padding byte.
pub open spec fn ffmpeg_channel(c: char) -> char {
    if c == 'B' {
        'b'
    } else if c == 'G' {
        'g'
    } else if c == 'R' {
        'r'
    } else if c == 'A' {
        'a'
    } else {
        '0'
    }
}

/// FFmpeg reads the frames with the byte order PipeWire writes them in:
/// every format that has an FFmpeg name gets the one that spells its own
/// channel order, byte for byte, so no channels are swapped.
pub proof fn lemma_ffmpeg_name_keeps_channel_order(fmt: SpaVideoFormat)
    ensures
        !(fmt is Other) ==> ffmpeg_name(fmt) == Some(spa_layout(fmt).map_values(|c: char| ffmpeg_channel(c))),
        fmt is Other <==> ffmpeg_name(fmt) is None,
{
    reveal_strlit("BGRx");
    reveal_strlit("RGBx");
    reveal_strlit("BGRA");
    reveal_strlit("RGBA");
    reveal_strlit("bgr0");
    reveal_strlit("rgb0");
    reveal_strlit("bgra");
    reveal_strlit("rgba");
    match fmt {
        SpaVideoFormat::BGRx => assert("bgr0"@ =~= "BGRx"@.map_values(|c: char| ffmpeg_channel(c))),
        SpaVideoFormat::RGBx => assert("rgb0"@ =~= "RGBx"@.map_values(|c: char| ffmpeg_channel(c))),
        SpaVideoFormat::BGRA => assert("bgra"@ =~= "BGRA"@.map_values(|c: char| ffmpeg_channel(c))),
        SpaVideoFormat::RGBA => assert("rgba"@ =~= "RGBA"@.map_values(|c: char| ffmpeg_channel(c))),
        SpaVideoFormat::Other => {},
    }
}

/// FFmpeg's pixel-format name for an SPA format.
pub fn spa_fmt_to_ffmpeg(fmt: SpaVideoFormat) -> (r: Option<&'static str>)
    ensures
        r matches Some(n) ==> ffmpeg_name(fmt) == Some(n@),
        r is None <==> ffmpeg_name(fmt) is None,
{
    match fmt {
        SpaVideoFormat::BGRx => Some("bgr0"),
        SpaVideoFormat::RGBx => Some("rgb0"),
        SpaVideoFormat::BGRA => Some("bgra"),
        SpaVideoFormat::RGBA => Some("rgba"),
        SpaVideoFormat::Other => None,
    }
}

/// Turns a negotiated format into the frame description. `is_raw_video`
/// tells whether the media type is video and the subtype raw; `format_text`
/// is the debug text of the SPA format, used in the error message.
pub fn parse_video_format(
    is_raw_video: bool,
    format: SpaVideoFormat,
    format_text: &str,
    width: u32,
    height: u32,
) -> (r: Result<VideoFormatInfo, String>)
    ensures
        !is_raw_video ==> (r matches Err(e) && e@ == "unexpected media type"@),
        is_raw_video && ffmpeg_name(format) is None ==> (r matches Err(e) && e@ == "unsupported pixel format "@
            + format_text@),
        is_raw_video && ffmpeg_name(format) is Some ==> (r matches Ok(info) && ffmpeg_name(format) == Some(
            info.pix_fmt@) && info.width == width && info.height == height),
{
    if !is_raw_video {
        return Err(String::from_str("unexpected media type"));
    }
    match spa_fmt_to_ffmpeg(format) {
        Some(pix_fmt) => Ok(VideoFormatInfo { pix_fmt, width, height }),
        None => Err(concat("unsupported pixel format ", format_text)),
    }
}

/// The byte range of a frame inside a mapped buffer: from the chunk offset
/// for the chunk size, cut at the end of the mapping.
pub fn frame_range(offset: u32, size: u32, mapped_len: usize) -> (r: (usize, usize))
    requires
        offset <= mapped_len,
    ensures
        r.0 == offset,
        r.1 == if offset + size <= mapped_len { offset + size } else { mapped_len as int },
        r.0 <= r.1 <= mapped_len,
{
    let start = offset as usize;
    let room = mapped_len - start;
    let end = if (size as usize) <= room { start + size as usize } else { mapped_len };
    (start, end)
}

} // verus!
