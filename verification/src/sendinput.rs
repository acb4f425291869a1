//! Synthesized keyboard input, tagged so the sender's own low-level hook can ignore it.

use vstd::prelude::*;

use crate::error::Error;
use crate::protocol::Protocol;
use crate::utf16;

verus! {

/// Marker written to `dwExtraInfo` on every event this library synthesizes.
///
/// A dictation app installs a `WH_KEYBOARD_LL` hook to detect its hotkey. Without a tag, the
/// synthesized paste chord re-enters that hook and can retrigger the hotkey. Callers should skip
/// events whose `dwExtraInfo` equals this value, in addition to checking `LLKHF_INJECTED`.
pub const INJECT_TAG: usize = 0x57_54_49_4A;

/// The event releases its key.
pub const KEYEVENTF_KEYUP: u32 = 0x0002;

/// The event carries a UTF-16 code unit instead of a key.
pub const KEYEVENTF_UNICODE: u32 = 0x0004;

/// Either Shift key.
pub const VK_SHIFT: u16 = 0x10;

/// Either Ctrl key.
pub const VK_CONTROL: u16 = 0x11;

/// The Insert key.
pub const VK_INSERT: u16 = 0x2D;

/// The V key.
pub const VK_V: u16 = 0x56;

/// One keyboard event, field by field as `SendInput` takes it.
#[derive(Debug, Clone, Copy, PartialEq, Eq, Structural)]
pub struct KeyEvent {
    /// Virtual key, zero for a Unicode event.
    pub vk: u16,
    /// UTF-16 code unit of a Unicode event, else zero.
    pub scan: u16,
    /// `KEYEVENTF_*` flags.
    pub flags: u32,
    /// Time stamp; zero lets the system supply its own.
    pub time: u32,
    /// `dwExtraInfo`.
    pub extra: usize,
}

impl KeyEvent {
    /// The event that presses (`flags == 0`) or releases a virtual key.
    pub open spec fn key(vk: u16, flags: u32) -> KeyEvent {
        KeyEvent { vk, scan: 0, flags, time: 0, extra: INJECT_TAG }
    }

    /// The event that types or releases one UTF-16 code unit.
    pub open spec fn unicode(unit: u16, key_up: bool) -> KeyEvent {
        KeyEvent {
            vk: 0,
            scan: unit,
            flags: if key_up {
                KEYEVENTF_UNICODE | KEYEVENTF_KEYUP
            } else {
                KEYEVENTF_UNICODE
            },
            time: 0,
            extra: INJECT_TAG,
        }
    }

    /// The events that type a run of code units: each unit down, then up.
    pub open spec fn typing(units: Seq<u16>) -> Seq<KeyEvent> {
        Seq::new(2 * units.len(), |i: int| KeyEvent::unicode(units[i / 2], i % 2 == 1))
    }
}

/// Builds a tagged event for one virtual key.
pub fn tagged_keyboard_input(vk: u16, flags: u32) -> (event: KeyEvent)
    ensures
        event == KeyEvent::key(vk, flags),
{
    KeyEvent { vk, scan: 0, flags, time: 0, extra: INJECT_TAG }
}

/// Builds a tagged event for one UTF-16 code unit. Its virtual key is zero, as it must be where
/// `KEYEVENTF_UNICODE` is set.
pub fn unicode_unit(unit: u16, key_up: bool) -> (event: KeyEvent)
    ensures
        event == KeyEvent::unicode(unit, key_up),
{
    let flags: u32 = if key_up {
        KEYEVENTF_UNICODE | KEYEVENTF_KEYUP
    } else {
        KEYEVENTF_UNICODE
    };
    KeyEvent { vk: 0, scan: unit, flags, time: 0, extra: INJECT_TAG }
}

/// Builds the full event sequence for `text` as UTF-16 code units.
///
/// Characters outside the BMP become a surrogate pair, and each half is sent as its own
/// down/up pair: four events for one glyph. Receivers reassemble them; there is no way to send a
/// non-BMP character as a single event.
pub fn unicode_inputs(text: &str) -> (events: Vec<KeyEvent>)
    ensures
        events@ == KeyEvent::typing(utf16::units(text@)),
{
    let units = utf16::encode(text);
    let mut events: Vec<KeyEvent> = Vec::new();
    let mut i: usize = 0;
    while i < units.len()
        invariant
            i <= units.len(),
            events@ =~= KeyEvent::typing(units@.take(i as int)),
        decreases units.len() - i,
    {
        events.push(unicode_unit(units[i], false));
        events.push(unicode_unit(units[i], true));
        i += 1;
    }
    assert(units@.take(i as int) =~= units@);
    events
}

/// Events are sent in chunks so a long transcript does not occupy the input queue in one burst.
pub const CHUNK: usize = 256;

/// A run of consecutive events, `from..to`, for one `SendInput`.
#[derive(Debug, Clone, Copy, PartialEq, Eq, Structural)]
pub struct Chunk {
    /// The first event.
    pub from: usize,
    /// The event behind the last.
    pub to: usize,
}

/// A sequence of `len` events on its way into the input queue.
#[derive(Debug, Clone, Copy, PartialEq, Eq, Structural)]
pub struct Sending {
    /// How many events there are.
    pub len: usize,
    /// How many of them the queue has taken.
    pub offset: usize,
    /// Whether the queue refused some.
    pub blocked: bool,
}

impl Sending {
    /// No more events are taken than there are.
    pub open spec fn wf(self) -> bool {
        self.offset <= self.len
    }

    /// The chunk that is due.
    pub open spec fn due(self) -> Chunk {
        Chunk {
            from: self.offset,
            to: if self.len - self.offset > CHUNK {
                (self.offset + CHUNK) as usize
            } else {
                self.len
            },
        }
    }
}

impl Protocol for Sending {
    type Call = Chunk;

    type Reply = u32;

    open spec fn pending(self) -> Option<Chunk> {
        if self.blocked || self.offset >= self.len {
            None
        } else {
            Some(self.due())
        }
    }

    open spec fn fits(self, reply: u32) -> bool {
        true
    }

    open spec fn advance(self, reply: u32) -> Sending {
        if reply as int == self.due().to - self.due().from {
            Sending { offset: self.due().to, ..self }
        } else {
            Sending { blocked: true, ..self }
        }
    }
}

/// Starts sending `inputs`.
pub fn send(inputs: &[KeyEvent]) -> (sending: Sending)
    ensures
        sending == (Sending { len: inputs@.len() as usize, offset: 0, blocked: false }),
        sending.wf(),
{
    Sending { len: inputs.len(), offset: 0, blocked: false }
}

impl Sending {
    /// The chunk to hand to `SendInput` now, `None` once sending is over.
    pub fn call(&self) -> (call: Option<Chunk>)
        ensures
            call == self.pending(),
            call is Some ==> call->0.from < call->0.to <= self.len && call->0.to - call->0.from
                <= CHUNK,
    {
        if self.blocked || self.offset >= self.len {
            None
        } else if self.len - self.offset > CHUNK {
            Some(Chunk { from: self.offset, to: self.offset + CHUNK })
        } else {
            Some(Chunk { from: self.offset, to: self.len })
        }
    }

    /// Takes the number of events that `SendInput` accepted. A short count is almost always UIPI
    /// silently refusing the injection, and ends the sending.
    pub fn reply(self, sent: u32) -> (next: Sending)
        requires
            self.pending() is Some,
        ensures
            next == self.advance(sent),
            self.wf() ==> next.wf(),
    {
        let size: usize = if self.len - self.offset > CHUNK {
            CHUNK
        } else {
            self.len - self.offset
        };
        if sent as u64 == size as u64 {
            Sending { offset: self.offset + size, ..self }
        } else {
            Sending { blocked: true, ..self }
        }
    }

    /// How the sending ended, `None` while a chunk is due.
    pub fn result(&self) -> (result: Option<Result<(), Error>>)
        ensures
            result is None <==> self.pending() is Some,
            result == Some(Ok::<(), Error>(())) <==> !self.blocked && self.offset >= self.len,
            result == Some(Err::<(), Error>(Error::SendInputBlocked)) <==> self.blocked,
    {
        if self.blocked {
            Some(Err(Error::SendInputBlocked))
        } else if self.offset >= self.len {
            Some(Ok(()))
        } else {
            None
        }
    }
}

/// Types `text` directly as Unicode input, bypassing the clipboard entirely: the events, and their
/// sending.
///
/// Layout-independent, and the only option for targets that block programmatic paste (password
/// managers, some VDI clients). Slow for long text: throughput is bounded by the receiving
/// application's message pump, not by this function.
pub fn type_text(text: &str) -> (typing: (Vec<KeyEvent>, Sending))
    ensures
        typing.0@ == KeyEvent::typing(utf16::units(text@)),
        typing.1 == (Sending { len: typing.0@.len() as usize, offset: 0, blocked: false }),
        typing.1.wf(),
{
    let events = unicode_inputs(text);
    let sending = send(events.as_slice());
    (events, sending)
}

} // verus!
