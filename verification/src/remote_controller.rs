//! Which kind of remote controller viewers get on their page.

use vstd::prelude::*;

verus! {

/// The controller offered to viewers.
#[derive(Clone, Copy, Debug, PartialEq, Eq, Structural)]
pub enum RemoteController {
    /// No controller.
    Off,
    /// A physical gamepad paired with the phone (Web Gamepad API).
    Usb,
    /// On-screen buttons.
    Virtual,
}

impl RemoteController {
    /// Its numeric code (0, 1, 2) as kept in the shared setting.
    pub fn code(&self) -> (c: u8)
        ensures
            c == self.code_spec(),
    {
        match self {
            RemoteController::Off => 0,
            RemoteController::Usb => 1,
            RemoteController::Virtual => 2,
        }
    }

    /// The controller a stored code stands for: 1 a gamepad, 2 on-screen
    /// buttons, anything else none.
    pub fn from_code(c: u8) -> (r: RemoteController)
        ensures
            r == (if c == 1 { RemoteController::Usb } else if c == 2 { RemoteController::Virtual } else {
                RemoteController::Off
            }),
    {
        if c == 1 {
            RemoteController::Usb
        } else if c == 2 {
            RemoteController::Virtual
        } else {
            RemoteController::Off
        }
    }
}

impl Default for RemoteController {
    fn default() -> (r: RemoteController)
        ensures
            r == RemoteController::Off,
    {
        RemoteController::Off
    }
}

/// Reading back a stored code gives the controller that was stored.
pub proof fn lemma_code_roundtrip(r: RemoteController)
    ensures
        (if r.code_spec() == 1 { RemoteController::Usb } else if r.code_spec() == 2 {
            RemoteController::Virtual
        } else {
            RemoteController::Off
        }) == r,
{
}

impl RemoteController {
    /// Numeric code of a controller.
    pub open spec fn code_spec(&self) -> u8 {
        match self {
            RemoteController::Off => 0u8,
            RemoteController::Usb => 1u8,
            RemoteController::Virtual => 2u8,
        }
    }
}

} // verus!
