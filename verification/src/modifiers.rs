//! Release physically-held modifier keys before synthesizing input.
//!
//! In a push-to-talk dictation app a modifier is held *by construction* at the moment injection
//! fires, and `SendInput` does not reset the keyboard's state: keys that are already pressed
//! interfere with the events that it generates. A user holding Right-Alt turns a synthesized
//! Ctrl+V into AltGr+V, which is a different character on many layouts.

use vstd::prelude::*;

use crate::error::Error;
use crate::sendinput::{tagged_keyboard_input, KeyEvent, KEYEVENTF_KEYUP};

verus! {

/// The left Shift key.
pub const VK_LSHIFT: u16 = 0xA0;

/// The right Shift key.
pub const VK_RSHIFT: u16 = 0xA1;

/// The left Ctrl key.
pub const VK_LCONTROL: u16 = 0xA2;

/// The right Ctrl key.
pub const VK_RCONTROL: u16 = 0xA3;

/// The left Alt key.
pub const VK_LMENU: u16 = 0xA4;

/// The right Alt key.
pub const VK_RMENU: u16 = 0xA5;

/// The left Windows key.
pub const VK_LWIN: u16 = 0x5B;

/// The right Windows key.
pub const VK_RWIN: u16 = 0x5C;

/// Every modifier that can alter the meaning of a synthesized chord.
pub const MODIFIERS: [u16; 8] = [
    VK_LSHIFT,
    VK_RSHIFT,
    VK_LCONTROL,
    VK_RCONTROL,
    VK_LMENU,
    VK_RMENU,
    VK_LWIN,
    VK_RWIN,
];

/// High bit of `GetAsyncKeyState` means the key is currently physically down.
pub const KEY_DOWN_MASK: u16 = 0x8000;

/// Whether a `GetAsyncKeyState` answer says that the key is down: its high bit is set, so the
/// answer is negative.
pub fn is_down(state: i16) -> (down: bool)
    ensures
        down == (state < 0),
{
    let bits: u16 = state as u16;
    assert((state as u16) & 0x8000 != 0 <==> state < 0) by (bit_vector);
    (bits & KEY_DOWN_MASK) != 0
}

/// The modifiers among the first `n` that are down, in the order of [`MODIFIERS`], where `states`
/// are the `GetAsyncKeyState` answers in that order.
pub open spec fn held_among(states: Seq<i16>, n: int) -> Seq<u16>
    decreases n,
{
    if n <= 0 {
        seq![]
    } else if states[n - 1] < 0 {
        held_among(states, n - 1).push(MODIFIERS@[n - 1])
    } else {
        held_among(states, n - 1)
    }
}

/// The modifiers that are down.
pub open spec fn held(states: Seq<i16>) -> Seq<u16> {
    held_among(states, 8)
}

/// The events that release `keys`, in order.
pub open spec fn releasing(keys: Seq<u16>) -> Seq<KeyEvent> {
    keys.map_values(|vk: u16| KeyEvent::key(vk, KEYEVENTF_KEYUP))
}

/// The release of the modifiers that were found held.
pub struct Release {
    /// The modifiers, in the order of [`MODIFIERS`].
    pub held: Vec<u16>,
    /// A key-up for each of them, to be sent in one `SendInput`. Empty when there is nothing to
    /// send.
    pub inputs: Vec<KeyEvent>,
}

/// Synthesize key-up for every modifier currently held, `states` being what `GetAsyncKeyState`
/// answers for each of [`MODIFIERS`].
///
/// The released modifiers are deliberately **not** restored afterwards: re-pressing a modifier the
/// user has since physically released leaves it stuck down forever, which is a far worse failure
/// than a lost modifier.
pub fn sanitize(states: &[i16; 8]) -> (release: Release)
    ensures
        release.held@ == held(states@),
        release.inputs@ == releasing(held(states@)),
{
    let mut keys: Vec<u16> = Vec::new();
    let mut inputs: Vec<KeyEvent> = Vec::new();
    let modifiers = MODIFIERS;
    let mut i: usize = 0;
    while i < 8
        invariant
            i <= 8,
            modifiers@ == MODIFIERS@,
            keys@ == held_among(states@, i as int),
            inputs@ =~= releasing(keys@),
        decreases 8 - i,
    {
        if is_down(states[i]) {
            keys.push(modifiers[i]);
            inputs.push(key_up(modifiers[i]));
        }
        i += 1;
    }
    Release { held: keys, inputs }
}

impl Release {
    /// What to hand to `SendInput`, `None` when no modifier is held and nothing is to be sent.
    pub fn due(&self) -> (inputs: Option<&[KeyEvent]>)
        ensures
            inputs is None <==> self.inputs@.len() == 0,
            inputs matches Some(events) ==> events@ == self.inputs@,
    {
        if self.inputs.len() == 0 {
            None
        } else {
            Some(self.inputs.as_slice())
        }
    }

    /// The modifiers that were released, `sent` being the number of events that `SendInput` took,
    /// `None` when nothing was due. A short count means that the input was blocked.
    pub fn finish(self, sent: Option<u32>) -> (released: Result<Vec<u16>, Error>)
        requires
            sent is None ==> self.inputs@.len() == 0,
        ensures
            released is Ok <==> (sent matches Some(count) ==> count as int == self.inputs@.len()),
            released matches Ok(keys) ==> keys@ == self.held@,
            released matches Err(e) ==> e == Error::SendInputBlocked,
    {
        if let Some(count) = sent {
            if count as u64 != self.inputs.len() as u64 {
                return Err(Error::SendInputBlocked);
            }
        }
        Ok(self.held)
    }
}

/// True if any modifier is currently held, `states` being what `GetAsyncKeyState` answers for each
/// of [`MODIFIERS`]. Cheap pre-check for callers that want to log or delay.
pub fn any_held(states: &[i16; 8]) -> (any: bool)
    ensures
        any == (held(states@).len() > 0),
        any == exists|i: int| 0 <= i < 8 && #[trigger] states@[i] < 0,
{
    let mut i: usize = 0;
    while i < 8
        invariant
            i <= 8,
            held_among(states@, i as int) == Seq::<u16>::empty(),
            forall|j: int| 0 <= j < i ==> #[trigger] states@[j] >= 0,
        decreases 8 - i,
    {
        if is_down(states[i]) {
            proof {
                lemma_held_grows(states@, i + 1, 8);
            }
            return true;
        }
        i += 1;
    }
    false
}

/// The modifiers found among the first ones stay found.
proof fn lemma_held_grows(states: Seq<i16>, m: int, n: int)
    requires
        0 <= m <= n,
    ensures
        held_among(states, m).len() <= held_among(states, n).len(),
    decreases n,
{
    if m < n {
        lemma_held_grows(states, m, n - 1);
    }
}

/// Build a tagged key-up event for one virtual key, exposed for chord construction.
pub fn key_up(vk: u16) -> (event: KeyEvent)
    ensures
        event == KeyEvent::key(vk, KEYEVENTF_KEYUP),
{
    tagged_keyboard_input(vk, KEYEVENTF_KEYUP)
}

} // verus!
