//! What a caller can choose, and what it is told in the end.

use vstd::prelude::*;

use crate::modifiers::key_up;
use crate::sendinput::{tagged_keyboard_input, KeyEvent, KEYEVENTF_KEYUP, VK_CONTROL, VK_INSERT,
    VK_SHIFT, VK_V};
use crate::text::same_text;

verus! {

/// A span of time.
#[derive(Debug, Clone, Copy, PartialEq, Eq, Structural)]
pub struct Delay {
    /// Its length in nanoseconds.
    pub nanos: u128,
}

impl Delay {
    /// A span of `millis` milliseconds.
    pub fn from_millis(millis: u64) -> (delay: Delay)
        ensures
            delay.nanos == millis * 1_000_000,
    {
        Delay { nanos: millis as u128 * 1_000_000 }
    }

    /// A span of `secs` seconds.
    pub fn from_secs(secs: u64) -> (delay: Delay)
        ensures
            delay.nanos == secs * 1_000_000_000,
    {
        Delay { nanos: secs as u128 * 1_000_000_000 }
    }
}

/// Key combination used to trigger a paste in the target application.
#[derive(Debug, Clone, Copy, PartialEq, Eq, Structural)]
pub enum Chord {
    /// The near-universal paste binding.
    CtrlV,
    /// Terminals, where Ctrl+V is a control character or unbound.
    CtrlShiftV,
    /// Legacy paste binding, still honored by some older Win32 software.
    ShiftInsert,
}

/// The terminals, which bind Ctrl+V to a control character or to nothing. Names are lowercase.
pub open spec fn is_terminal(exe: Seq<char>) -> bool {
    ||| exe == "windowsterminal.exe"@
    ||| exe == "conhost.exe"@
    ||| exe == "mintty.exe"@
    ||| exe == "putty.exe"@
    ||| exe == "alacritty.exe"@
    ||| exe == "wezterm-gui.exe"@
}

impl Chord {
    /// The chord for an application: Ctrl+Shift+V in a terminal, Ctrl+V everywhere else.
    pub open spec fn suited(exe: Seq<char>) -> Chord {
        if is_terminal(exe) {
            Chord::CtrlShiftV
        } else {
            Chord::CtrlV
        }
    }

    /// The keys held while the last one is pressed.
    pub open spec fn held(self) -> Seq<u16> {
        match self {
            Chord::CtrlV => seq![VK_CONTROL],
            Chord::CtrlShiftV => seq![VK_CONTROL, VK_SHIFT],
            Chord::ShiftInsert => seq![VK_SHIFT],
        }
    }

    /// The key that completes the chord.
    pub open spec fn last(self) -> u16 {
        match self {
            Chord::CtrlV => VK_V,
            Chord::CtrlShiftV => VK_V,
            Chord::ShiftInsert => VK_INSERT,
        }
    }

    /// The events of the chord: the held keys down, the last key down and up, the held keys up in
    /// reverse.
    pub open spec fn events(self) -> Seq<KeyEvent> {
        self.held().map_values(|vk: u16| KeyEvent::key(vk, 0)) + seq![
            KeyEvent::key(self.last(), 0),
            KeyEvent::key(self.last(), KEYEVENTF_KEYUP),
        ] + self.held().reverse().map_values(|vk: u16| KeyEvent::key(vk, KEYEVENTF_KEYUP))
    }

    /// The chord most likely to paste in the given application, named by its lowercase executable.
    ///
    /// Every entry is verified against the real application, not taken from documentation. Vendor
    /// advice to use Shift+Insert in VS Code describes its integrated terminal: in the editor
    /// Shift+Insert does nothing and Ctrl+V works.
    pub fn for_exe(exe: &str) -> (chord: Chord)
        ensures
            chord == Chord::suited(exe@),
    {
        if same_text(exe, "windowsterminal.exe") || same_text(exe, "conhost.exe") || same_text(
            exe,
            "mintty.exe",
        ) || same_text(exe, "putty.exe") || same_text(exe, "alacritty.exe") || same_text(
            exe,
            "wezterm-gui.exe",
        ) {
            Chord::CtrlShiftV
        } else {
            Chord::CtrlV
        }
    }

    /// The keys to hold, and the key to press while they are held.
    pub fn keys(self) -> (keys: (Vec<u16>, u16))
        ensures
            keys.0@ == self.held(),
            keys.1 == self.last(),
    {
        match self {
            Chord::CtrlV => (vec![VK_CONTROL], VK_V),
            Chord::CtrlShiftV => (vec![VK_CONTROL, VK_SHIFT], VK_V),
            Chord::ShiftInsert => (vec![VK_SHIFT], VK_INSERT),
        }
    }
}

/// The events that press and release a chord.
pub fn chord_inputs(chord: Chord) -> (events: Vec<KeyEvent>)
    ensures
        events@ == chord.events(),
{
    let (held, last) = chord.keys();
    let mut events: Vec<KeyEvent> = Vec::new();
    let ghost down = chord.held().map_values(|vk: u16| KeyEvent::key(vk, 0));
    let ghost up = chord.held().reverse().map_values(|vk: u16| KeyEvent::key(vk, KEYEVENTF_KEYUP));
    let mut i: usize = 0;
    while i < held.len()
        invariant
            i <= held.len(),
            held@ == chord.held(),
            down == chord.held().map_values(|vk: u16| KeyEvent::key(vk, 0)),
            events@ =~= down.take(i as int),
        decreases held.len() - i,
    {
        events.push(tagged_keyboard_input(held[i], 0));
        i += 1;
    }
    events.push(tagged_keyboard_input(last, 0));
    events.push(key_up(last));
    let ghost pressed = events@;
    while i > 0
        invariant
            i <= held.len(),
            held@ == chord.held(),
            up == chord.held().reverse().map_values(|vk: u16| KeyEvent::key(vk, KEYEVENTF_KEYUP)),
            events@ =~= pressed + up.take(held.len() - i),
        decreases i,
    {
        i -= 1;
        events.push(key_up(held[i]));
    }
    assert(up.take(held.len() as int) =~= up);
    assert(down.take(held.len() as int) =~= down);
    assert(events@ =~= chord.events());
    events
}

/// How text should be delivered.
#[derive(Debug, Clone, Copy, PartialEq, Eq, Structural)]
pub enum Strategy {
    /// Clipboard plus a synthesized paste chord. Fast and correct for long text.
    ClipboardPaste,
    /// Type the text as Unicode input. Slower, but works where paste is blocked.
    UnicodeType,
    /// Write the clipboard and stop, leaving the paste to the user.
    ClipboardOnly,
}

impl Default for Strategy {
    fn default() -> (strategy: Strategy)
        ensures
            strategy == Strategy::ClipboardPaste,
    {
        Strategy::ClipboardPaste
    }
}

/// Tunables. Defaults are deliberately conservative.
#[derive(Debug, Clone, Copy)]
pub struct Options {
    /// How the text should be delivered.
    pub strategy: Strategy,
    /// Chord override. `None` selects per target executable.
    pub chord: Option<Chord>,
    /// Settle time between writing the clipboard and sending the paste chord.
    pub pre_paste: Delay,
    /// Time allowed for the target to read the clipboard before restoring it.
    ///
    /// Only consulted when [`Options::delayed_render`] is off. With delayed rendering the restore is
    /// triggered by the target's actual read, so there is no delay to tune.
    pub post_paste: Delay,
    /// Restore the previous clipboard contents after pasting.
    pub restore_clipboard: bool,
    /// Abort if focus left the captured target.
    pub require_same_target: bool,
    /// Publish the text as a delayed-render promise and restore once the target actually reads it.
    ///
    /// On by default. Turning this off falls back to a timer-based restore, which loses the
    /// transcript when the target is slower than `post_paste`.
    pub delayed_render: bool,
    /// How long to wait for the target to read the clipboard before giving up.
    pub read_timeout: Delay,
    /// After the first read, how long reads must stay quiet before the clipboard is restored.
    ///
    /// Consumers may read more than once per paste. This is not a race-the-target delay: it
    /// starts from an observed read, so it does not need to be tuned per machine.
    pub read_quiet: Delay,
}

impl Default for Options {
    fn default() -> (options: Options)
        ensures
            options == (Options {
                strategy: Strategy::ClipboardPaste,
                chord: None,
                pre_paste: Delay { nanos: 30_000_000 },
                post_paste: Delay { nanos: 120_000_000 },
                restore_clipboard: true,
                require_same_target: true,
                delayed_render: true,
                read_timeout: Delay { nanos: 3_000_000_000 },
                read_quiet: Delay { nanos: 400_000_000 },
            }),
    {
        Options {
            strategy: Strategy::default(),
            chord: None,
            pre_paste: Delay::from_millis(30),
            post_paste: Delay::from_millis(120),
            restore_clipboard: true,
            require_same_target: true,
            delayed_render: true,
            read_timeout: Delay::from_secs(3),
            read_quiet: Delay::from_millis(400),
        }
    }
}

/// What actually happened, so the caller can tell the user the truth.
#[derive(Debug, Clone, Copy, PartialEq, Eq, Structural)]
pub enum Outcome {
    /// A paste chord was sent.
    ///
    /// `read_confirmed` is true only when the target was observed reading the clipboard, which
    /// delayed rendering makes knowable. When it is false the paste may not have landed.
    Pasted {
        /// Whether Windows reported the target actually reading the clipboard.
        read_confirmed: bool,
    },
    /// Text was typed directly into the target.
    Typed,
    /// Text is on the clipboard but was not delivered; the user must paste it.
    ClipboardOnly(ClipboardOnlyReason),
}

/// Why the text was left on the clipboard instead of being delivered.
#[derive(Debug, Clone, Copy, PartialEq, Eq, Structural)]
pub enum ClipboardOnlyReason {
    /// Caller asked for it.
    Requested,
    /// Target runs at a higher integrity level, so UIPI would discard the input.
    ElevatedTarget,
}

impl Outcome {
    /// True when the user has to paste manually for the text to arrive.
    pub fn needs_manual_paste(self) -> (needed: bool)
        ensures
            needed == (self is ClipboardOnly),
    {
        matches!(self, Outcome::ClipboardOnly(_))
    }
}

} // verus!
