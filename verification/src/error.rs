//! Application-wide error type. Commands report a `Result<_, AppError>` so
//! the frontend gets one error shape; its text is what the user sees
//! (in Italian, like the rest of the user-facing copy).

use vstd::prelude::*;
use vstd::std_specs::convert::FromSpecImpl;
use crate::text::{concat, decimal, decimal_string};

verus! {

#[verifier::external_type_specification]
#[verifier::external_body]
pub struct ExIoError(std::io::Error);

/// Application errors.
#[derive(Debug)]
pub enum AppError {
    /// A plain message.
    Msg(String),
    /// An I/O failure.
    Io(std::io::Error),
    /// The slot is not 1 to 4.
    InvalidSlot(u8),
    /// The slot already streams.
    SlotInUse(u8),
    /// No stream runs in the slot.
    NoStream(u8),
    /// FFmpeg failed.
    Ffmpeg(String),
    /// MediaMTX failed.
    MediaMtx(String),
    /// The Wayland screen-cast portal failed.
    Portal(String),
    /// PipeWire failed.
    Pipewire(String),
}

/// `e` is a plain message with text `t`.
pub open spec fn is_message(e: AppError, t: Seq<char>) -> bool {
    e matches AppError::Msg(m) && m@ == t
}

/// The text shown for an error, given the text of the I/O error it wraps
/// (if it wraps one).
pub open spec fn error_text(e: AppError, io_text: Seq<char>) -> Seq<char> {
    match e {
        AppError::Msg(s) => s@,
        AppError::Io(_) => "I/O: "@ + io_text,
        AppError::InvalidSlot(n) => "Slot non valido: "@ + decimal(n as nat),
        AppError::SlotInUse(n) => "Slot "@ + decimal(n as nat) + " già in stream"@,
        AppError::NoStream(n) => "Nessuno stream attivo per slot "@ + decimal(n as nat),
        AppError::Ffmpeg(s) => "FFmpeg: "@ + s@,
        AppError::MediaMtx(s) => "MediaMTX: "@ + s@,
        AppError::Portal(s) => "Portal Wayland: "@ + s@,
        AppError::Pipewire(s) => "PipeWire: "@ + s@,
    }
}

/// Text of an I/O error (its `Display`, which depends on the operating
/// system's message for the error code).
pub fn io_error_text(e: &std::io::Error) -> (s: String)
    ensures
        vstd::string::to_string_from_display_ensures::<std::io::Error>(e, s),
{
    e.to_string()
}

impl AppError {
    /// The text shown for the error (its display form).
    pub fn message(&self) -> (s: String)
        ensures
            match self {
                AppError::Io(e) => exists|t: String|
                    vstd::string::to_string_from_display_ensures::<std::io::Error>(e, t) && s@ == error_text(*self, t@),
                _ => s@ == error_text(*self, Seq::empty()),
            },
    {
        match self {
            AppError::Msg(s) => s.clone(),
            AppError::Io(e) => {
                let t = io_error_text(e);
                let r = concat("I/O: ", t.as_str());
                assert(r@ == error_text(*self, t@));
                r
            },
            AppError::InvalidSlot(n) => concat("Slot non valido: ", decimal_string(*n as u64).as_str()),
            AppError::SlotInUse(n) => {
                let a = concat("Slot ", decimal_string(*n as u64).as_str());
                concat(a.as_str(), " già in stream")
            },
            AppError::NoStream(n) => concat("Nessuno stream attivo per slot ", decimal_string(*n as u64).as_str()),
            AppError::Ffmpeg(s) => concat("FFmpeg: ", s.as_str()),
            AppError::MediaMtx(s) => concat("MediaMTX: ", s.as_str()),
            AppError::Portal(s) => concat("Portal Wayland: ", s.as_str()),
            AppError::Pipewire(s) => concat("PipeWire: ", s.as_str()),
        }
    }
}

impl From<String> for AppError {
    fn from(s: String) -> (e: AppError) {
        AppError::Msg(s)
    }
}

impl FromSpecImpl<String> for AppError {
    open spec fn obeys_from_spec() -> bool {
        true
    }

    open spec fn from_spec(v: String) -> AppError {
        AppError::Msg(v)
    }
}

impl<'a> From<&'a str> for AppError {
    fn from(s: &'a str) -> (e: AppError)
        ensures
            is_message(e, s@),
    {
        AppError::Msg(String::from_str(s))
    }
}

impl<'a> FromSpecImpl<&'a str> for AppError {
    open spec fn obeys_from_spec() -> bool {
        false
    }

    open spec fn from_spec(v: &'a str) -> AppError {
        choose|e: AppError| #[trigger] is_message(e, v@)
    }
}

impl From<std::io::Error> for AppError {
    fn from(e: std::io::Error) -> (r: AppError) {
        AppError::Io(e)
    }
}

impl FromSpecImpl<std::io::Error> for AppError {
    open spec fn obeys_from_spec() -> bool {
        true
    }

    open spec fn from_spec(v: std::io::Error) -> AppError {
        AppError::Io(v)
    }
}

} // verus!
