//! Failures that are worth distinguishing at the call site.

use vstd::prelude::*;
use vstd::string::StringExecFns;

verus! {

/// A failure that the system reported, by its `HRESULT`.
#[derive(Debug, Clone, Copy, PartialEq, Eq, Structural)]
pub struct OsError {
    /// The `HRESULT`.
    pub code: i32,
}

/// What can go wrong.
#[derive(Debug, Clone, Copy, PartialEq, Eq, Structural)]
pub enum Error {
    /// No foreground window, or it belongs to no process.
    NoForegroundWindow,
    /// Another process held the clipboard lock across every retry.
    ClipboardLocked(OsError),
    /// A clipboard call failed after the clipboard was successfully opened.
    Clipboard(OsError),
    /// A block of global memory could not be allocated or locked.
    Alloc(OsError),
    /// `SendInput` accepted fewer events than submitted. Almost always UIPI.
    SendInputBlocked,
    /// Focus moved between capture and injection.
    FocusChanged,
    /// The hidden clipboard-owner window could not be created.
    OwnerWindowFailed,
}

impl Error {
    /// What the error says, `detail` being the system's own description of the failure it reported.
    pub open spec fn text(self, detail: Seq<char>) -> Seq<char> {
        match self {
            Error::NoForegroundWindow => "no foreground window"@,
            Error::ClipboardLocked(_) => "clipboard held by another process: "@ + detail,
            Error::Clipboard(_) => "clipboard operation failed: "@ + detail,
            Error::Alloc(_) => "global allocation failed: "@ + detail,
            Error::SendInputBlocked => "SendInput was blocked, most likely by UIPI"@,
            Error::FocusChanged => "focus moved away from the captured target"@,
            Error::OwnerWindowFailed => "clipboard owner window could not be created"@,
        }
    }

    /// The failure that the system reported, where the error rests on one.
    pub fn os_error(&self) -> (reported: Option<OsError>)
        ensures
            reported == match *self {
                Error::ClipboardLocked(e) => Some(e),
                Error::Clipboard(e) => Some(e),
                Error::Alloc(e) => Some(e),
                _ => None,
            },
    {
        match *self {
            Error::ClipboardLocked(e) => Some(e),
            Error::Clipboard(e) => Some(e),
            Error::Alloc(e) => Some(e),
            _ => None,
        }
    }

    /// The error in words. `detail` is how the system describes [`Error::os_error`]; errors that
    /// rest on none leave it out.
    pub fn message(&self, detail: &str) -> (message: String)
        ensures
            message@ == self.text(detail@),
    {
        match *self {
            Error::NoForegroundWindow => "no foreground window".to_owned(),
            Error::ClipboardLocked(_) => "clipboard held by another process: ".to_owned().concat(
                detail,
            ),
            Error::Clipboard(_) => "clipboard operation failed: ".to_owned().concat(detail),
            Error::Alloc(_) => "global allocation failed: ".to_owned().concat(detail),
            Error::SendInputBlocked => "SendInput was blocked, most likely by UIPI".to_owned(),
            Error::FocusChanged => "focus moved away from the captured target".to_owned(),
            Error::OwnerWindowFailed => "clipboard owner window could not be created".to_owned(),
        }
    }
}

} // verus!
