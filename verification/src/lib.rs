//! Correct text injection into the focused Windows application.
//!
//! Delivering dictated text by "save the clipboard, overwrite it, press Ctrl+V, sleep, restore"
//! leaks the text into clipboard history, collides with held modifier keys, fails silently on
//! elevated windows and races the target's own clipboard read. This library holds every rule that
//! avoids those defects, as verified decisions over plain values. Each exchange with Windows is a
//! [`protocol::Protocol`]: the library says which system call comes next, and what the answer to
//! it leads to.

pub mod board_laws;
pub mod clipboard;
pub mod clipboard_laws;
pub mod delayed;
pub mod delayed_laws;
pub mod delivery_laws;
pub mod encoding_laws;
pub mod error;
pub mod image_path;
pub mod inject;
pub mod inject_laws;
pub mod keyboard_laws;
pub mod modifiers;
pub mod options;
pub mod owner_laws;
pub mod path_laws;
pub mod probe;
pub mod protocol;
pub mod sendinput;
pub mod supply;
pub mod supply_laws;
pub mod target;
pub mod target_laws;
pub mod text;
pub mod utf16;

pub use delayed::Offer;
pub use error::{Error, OsError};
pub use inject::{inject, InjectCall, InjectReply, Injection};
pub use options::{Chord, ClipboardOnlyReason, Delay, Options, Outcome, Strategy};
pub use sendinput::{type_text, INJECT_TAG};
pub use target::{Integrity, Target};
