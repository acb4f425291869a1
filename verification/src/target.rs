//! Identify the injection target and decide, before injecting, whether injection can work at all.
//!
//! `SendInput` into a higher-integrity window fails silently: UIPI blocks it, and neither
//! `GetLastError` nor the return value says so. The text simply vanishes. Comparing integrity
//! levels first turns a silent loss into an honest "press Ctrl+V here" message.

use core::cmp::Ordering;

use vstd::prelude::*;

use crate::error::Error;
use crate::probe::{process_image, process_integrity, ImageCall, ImageProbe, ImageReply, LevelCall,
    LevelProbe, LevelReply};
use crate::protocol::Protocol;
use crate::utf16;

verus! {

/// Windows integrity levels, ordered. Comparison is what matters, not the raw RID.
#[derive(Debug, Clone, Copy, PartialEq, Eq, Structural, Ord)]
pub enum Integrity {
    /// Below every named level.
    Untrusted,
    /// Sandboxed processes.
    Low,
    /// Ordinary processes.
    Medium,
    /// Slightly above ordinary processes.
    MediumPlus,
    /// Elevated processes.
    High,
    /// System services.
    System,
    /// Protected processes.
    Protected,
}

impl Integrity {
    /// The place of a level in the order, lowest first.
    pub open spec fn rank(self) -> int {
        match self {
            Integrity::Untrusted => 0,
            Integrity::Low => 1,
            Integrity::Medium => 2,
            Integrity::MediumPlus => 3,
            Integrity::High => 4,
            Integrity::System => 5,
            Integrity::Protected => 6,
        }
    }

    /// The level with the given place in the order; everything past the last is the last.
    pub open spec fn ranked(rank: int) -> Integrity {
        if rank <= 0 {
            Integrity::Untrusted
        } else if rank == 1 {
            Integrity::Low
        } else if rank == 2 {
            Integrity::Medium
        } else if rank == 3 {
            Integrity::MediumPlus
        } else if rank == 4 {
            Integrity::High
        } else if rank == 5 {
            Integrity::System
        } else {
            Integrity::Protected
        }
    }

    /// The level of a RID: every 0x1000 RIDs begin the next one.
    pub open spec fn of_rid(rid: u32) -> Integrity {
        Integrity::ranked(rid as int / 0x1000)
    }

    fn place(self) -> (place: u8)
        ensures
            place == self.rank(),
    {
        match self {
            Integrity::Untrusted => 0,
            Integrity::Low => 1,
            Integrity::Medium => 2,
            Integrity::MediumPlus => 3,
            Integrity::High => 4,
            Integrity::System => 5,
            Integrity::Protected => 6,
        }
    }

    /// Map the RID from a mandatory-label SID to a level.
    ///
    /// Ranges rather than equality: Windows defines the in-between values as belonging to the next
    /// lower named level.
    pub fn from_rid(rid: u32) -> (level: Integrity)
        ensures
            level == Integrity::of_rid(rid),
    {
        if rid <= 0x0FFF {
            Integrity::Untrusted
        } else if rid <= 0x1FFF {
            Integrity::Low
        } else if rid <= 0x2FFF {
            Integrity::Medium
        } else if rid <= 0x3FFF {
            Integrity::MediumPlus
        } else if rid <= 0x4FFF {
            Integrity::High
        } else if rid <= 0x5FFF {
            Integrity::System
        } else {
            Integrity::Protected
        }
    }
}

impl PartialOrd for Integrity {
    fn partial_cmp(&self, other: &Integrity) -> (order: Option<Ordering>) {
        let mine: u8 = self.place();
        let theirs: u8 = other.place();
        if mine < theirs {
            Some(Ordering::Less)
        } else if mine == theirs {
            Some(Ordering::Equal)
        } else {
            Some(Ordering::Greater)
        }
    }
}

impl vstd::std_specs::cmp::PartialOrdSpecImpl for Integrity {
    open spec fn obeys_partial_cmp_spec() -> bool {
        true
    }

    open spec fn partial_cmp_spec(&self, other: &Integrity) -> Option<Ordering> {
        if self.rank() < other.rank() {
            Some(Ordering::Less)
        } else if self.rank() == other.rank() {
            Some(Ordering::Equal)
        } else {
            Some(Ordering::Greater)
        }
    }
}

/// Whether UIPI lets a process at `ours` send input to one at `level`: only at an equal or lower
/// level. Where our own level is unknown the optimistic answer stands.
pub open spec fn permits(level: Integrity, ours: Option<Integrity>) -> bool {
    match ours {
        Some(own) => level.rank() <= own.rank(),
        None => true,
    }
}

/// Whether a process at `ours` may send input to one at `level`.
pub fn permitted(level: Integrity, ours: Option<Integrity>) -> (yes: bool)
    ensures
        yes == permits(level, ours),
{
    match ours {
        Some(own) => level <= own,
        None => true,
    }
}

/// The window that will receive injected text, captured as a snapshot.
///
/// Capture this at hotkey **press**, not at injection time: between press and release the user may
/// have moved focus, and injecting into whatever happens to be foreground later is how text ends up
/// in the wrong application.
#[derive(Debug, Clone)]
pub struct Target {
    /// The window's handle.
    pub hwnd: isize,
    /// The process that owns the window.
    pub pid: u32,
    /// Lowercased executable file name, e.g. `code.exe`. Empty when it could not be read.
    pub exe: String,
    /// Real window class of the foreground window, e.g. `Chrome_RenderWidgetHostHWND`.
    pub class: String,
    /// The integrity level of the process.
    pub integrity: Integrity,
}

/// The class name of a window, given as UTF-16.
pub fn window_class(class: &[u16]) -> (name: String)
    ensures
        name@ == utf16::decoded(class@),
{
    utf16::decode_lossy(class)
}

/// What taking a snapshot of the foreground window asks of the system.
#[derive(Debug, Clone, Copy)]
pub enum CaptureCall {
    /// Which window has the foreground?
    ForegroundWindow,
    /// Which process owns it?
    WindowProcess {
        /// The window.
        hwnd: isize,
    },
    /// A step of reading the image path of the process.
    Image(ImageCall),
    /// What is the real class of the window?
    WindowClass {
        /// The window.
        hwnd: isize,
    },
    /// A step of reading the integrity level of the process.
    Level(LevelCall),
}

/// What the system answers.
#[derive(Debug)]
pub enum CaptureReply {
    /// The window that has the foreground, zero if none has.
    Window(isize),
    /// The process that owns the window, zero if there is none.
    Process(u32),
    /// The answer to a step of reading the image path.
    Image(ImageReply),
    /// The class of the window as UTF-16, empty where it has none.
    Class(Vec<u16>),
    /// The answer to a step of reading the integrity level.
    Level(LevelReply),
}

/// Where taking a snapshot stands.
#[derive(Debug)]
pub enum CaptureStage {
    /// Asking for the window.
    Window,
    /// Asking for its process.
    Process {
        /// The window.
        hwnd: isize,
    },
    /// Reading the image path.
    Image {
        /// The window.
        hwnd: isize,
        /// Reading the path of its process.
        image: ImageProbe,
    },
    /// Asking for the class.
    Class {
        /// The window.
        hwnd: isize,
        /// Its process, with the image path read.
        image: ImageProbe,
    },
    /// Reading the integrity level.
    Level {
        /// The window.
        hwnd: isize,
        /// Its process, with the image path read.
        image: ImageProbe,
        /// Its class.
        class: Vec<u16>,
        /// Reading it.
        probe: LevelProbe,
    },
    /// The end: everything is read.
    Taken {
        /// The window.
        hwnd: isize,
        /// Its process, with the image path read.
        image: ImageProbe,
        /// Its class.
        class: Vec<u16>,
        /// The level of its process, `None` where it could not be read.
        level: Option<Integrity>,
    },
    /// The end: there is no foreground window.
    Nothing,
}

/// Taking a snapshot of the foreground window.
#[derive(Debug)]
pub struct Capture {
    /// Where it stands.
    pub stage: CaptureStage,
}

impl Capture {
    /// What goes on inside is not over, and what was read is.
    pub open spec fn wf(self) -> bool {
        match self.stage {
            CaptureStage::Image { image, .. } => image.ended() is None,
            CaptureStage::Class { image, .. } => image.ended() is Some,
            CaptureStage::Level { image, probe, .. } => image.ended() is Some && probe.wf()
                && probe.ended() is None,
            CaptureStage::Taken { image, .. } => image.ended() is Some,
            _ => true,
        }
    }

    /// The stage that a reply leads to.
    pub open spec fn next_stage(self, reply: CaptureReply) -> CaptureStage {
        match (self.stage, reply) {
            (CaptureStage::Window, CaptureReply::Window(hwnd)) => if hwnd == 0 {
                CaptureStage::Nothing
            } else {
                CaptureStage::Process { hwnd }
            },
            (CaptureStage::Process { hwnd }, CaptureReply::Process(pid)) => if pid == 0 {
                CaptureStage::Nothing
            } else {
                CaptureStage::Image { hwnd, image: ImageProbe::begun(pid) }
            },
            (CaptureStage::Image { hwnd, image }, CaptureReply::Image(r)) => {
                let next = image.advance(r);
                if next.ended() is None {
                    CaptureStage::Image { hwnd, image: next }
                } else {
                    CaptureStage::Class { hwnd, image: next }
                }
            },
            (
                CaptureStage::Class { hwnd, image },
                CaptureReply::Class(class),
            ) => CaptureStage::Level { hwnd, image, class, probe: LevelProbe::begun(image.pid) },
            (CaptureStage::Level { hwnd, image, class, probe }, CaptureReply::Level(r)) => {
                let next = probe.advance(r);
                match next.ended() {
                    None => CaptureStage::Level { hwnd, image, class, probe: next },
                    Some(level) => CaptureStage::Taken { hwnd, image, class, level },
                }
            },
            (stage, _) => stage,
        }
    }

    /// Whether `target` is the snapshot that was taken: an unreadable executable name is empty, and
    /// an unreadable level counts as that of an ordinary process.
    pub open spec fn took(self, target: Target) -> bool {
        &&& self.stage matches CaptureStage::Taken { hwnd, image, class, level }
        &&& target.hwnd == hwnd
        &&& target.pid == image.pid
        &&& target.exe@ == match image.ended() {
            Some(path) => crate::probe::exe_or_empty(path),
            None => seq![],
        }
        &&& target.class@ == utf16::decoded(class@)
        &&& target.integrity == match level {
            Some(known) => known,
            None => Integrity::Medium,
        }
    }
}

impl Protocol for Capture {
    type Call = CaptureCall;

    type Reply = CaptureReply;

    open spec fn pending(self) -> Option<CaptureCall> {
        match self.stage {
            CaptureStage::Window => Some(CaptureCall::ForegroundWindow),
            CaptureStage::Process { hwnd } => Some(CaptureCall::WindowProcess { hwnd }),
            CaptureStage::Image { image, .. } => match image.pending() {
                Some(call) => Some(CaptureCall::Image(call)),
                None => None,
            },
            CaptureStage::Class { hwnd, .. } => Some(CaptureCall::WindowClass { hwnd }),
            CaptureStage::Level { probe, .. } => match probe.pending() {
                Some(call) => Some(CaptureCall::Level(call)),
                None => None,
            },
            _ => None,
        }
    }

    open spec fn fits(self, reply: CaptureReply) -> bool {
        match self.stage {
            CaptureStage::Window => reply is Window,
            CaptureStage::Process { .. } => reply is Process,
            CaptureStage::Image { image, .. } => reply is Image && image.fits(reply->Image_0),
            CaptureStage::Class { .. } => reply is Class,
            CaptureStage::Level { probe, .. } => reply is Level && probe.fits(reply->Level_0),
            _ => false,
        }
    }

    open spec fn advance(self, reply: CaptureReply) -> Capture {
        Capture { stage: self.next_stage(reply) }
    }
}

impl Capture {
    /// What to do next, `None` once it is over.
    pub fn call(&self) -> (call: Option<CaptureCall>)
        ensures
            call == self.pending(),
    {
        match &self.stage {
            CaptureStage::Window => Some(CaptureCall::ForegroundWindow),
            CaptureStage::Process { hwnd } => Some(CaptureCall::WindowProcess { hwnd: *hwnd }),
            CaptureStage::Image { image, .. } => match image.call() {
                Some(call) => Some(CaptureCall::Image(call)),
                None => None,
            },
            CaptureStage::Class { hwnd, .. } => Some(CaptureCall::WindowClass { hwnd: *hwnd }),
            CaptureStage::Level { probe, .. } => match probe.call() {
                Some(call) => Some(CaptureCall::Level(call)),
                None => None,
            },
            _ => None,
        }
    }

    /// Takes the reply to the pending call.
    pub fn reply(self, reply: CaptureReply) -> (next: Capture)
        requires
            self.fits(reply),
        ensures
            next == self.advance(reply),
            self.wf() ==> next.wf(),
    {
        let stage = match (self.stage, reply) {
            (CaptureStage::Window, CaptureReply::Window(hwnd)) => {
                if hwnd == 0 {
                    CaptureStage::Nothing
                } else {
                    CaptureStage::Process { hwnd }
                }
            },
            (CaptureStage::Process { hwnd }, CaptureReply::Process(pid)) => {
                if pid == 0 {
                    CaptureStage::Nothing
                } else {
                    CaptureStage::Image { hwnd, image: process_image(pid) }
                }
            },
            (CaptureStage::Image { hwnd, image }, CaptureReply::Image(r)) => {
                let next = image.reply(r);
                if next.call().is_some() {
                    CaptureStage::Image { hwnd, image: next }
                } else {
                    CaptureStage::Class { hwnd, image: next }
                }
            },
            (CaptureStage::Class { hwnd, image }, CaptureReply::Class(class)) => {
                let probe = process_integrity(image.pid);
                CaptureStage::Level { hwnd, image, class, probe }
            },
            (CaptureStage::Level { hwnd, image, class, probe }, CaptureReply::Level(r)) => {
                let next = probe.reply(r);
                match next.result() {
                    None => CaptureStage::Level { hwnd, image, class, probe: next },
                    Some(level) => CaptureStage::Taken { hwnd, image, class, level },
                }
            },
            (stage, _) => stage,
        };
        Capture { stage }
    }

    /// The snapshot, once it is over; an error where there is no foreground window.
    pub fn result(&self) -> (result: Option<Result<Target, Error>>)
        ensures
            result is None <==> self.stage !is Taken && self.stage !is Nothing,
            self.wf() ==> (result is None <==> self.pending() is Some),
            result matches Some(Ok(target)) ==> self.took(target),
            result matches Some(Err(e)) ==> e == Error::NoForegroundWindow && self.stage is Nothing,
    {
        match &self.stage {
            CaptureStage::Taken { hwnd, image, class, level } => {
                let exe = match image.result() {
                    Some(name) => name,
                    None => String::new(),
                };
                let integrity = match level {
                    Some(known) => *known,
                    None => Integrity::Medium,
                };
                let class = window_class(class.as_slice());
                Some(Ok(Target { hwnd: *hwnd, pid: image.pid, exe, class, integrity }))
            },
            CaptureStage::Nothing => Some(Err(Error::NoForegroundWindow)),
            _ => None,
        }
    }
}

impl Target {
    /// Snapshot the current foreground window: starts taking it.
    pub fn foreground() -> (capture: Capture)
        ensures
            capture == (Capture { stage: CaptureStage::Window }),
            capture.wf(),
    {
        Capture { stage: CaptureStage::Window }
    }

    /// True when this target still holds the foreground, `current` being the window that does.
    /// Injection must be aborted otherwise.
    pub fn still_foreground(&self, current: isize) -> (still: bool)
        ensures
            still == (current == self.hwnd),
    {
        current == self.hwnd
    }

    /// Whether synthesized input can reach this target from a process at `ours`, `None` when that
    /// level is unknown.
    ///
    /// UIPI permits injection only into processes at an equal or lower integrity level. Unable to
    /// determine our own level, assume the optimistic case and let the caller's verification step
    /// catch a failure, rather than refusing to work at all.
    pub fn accepts_injection(&self, ours: Option<Integrity>) -> (accepts: bool)
        ensures
            accepts == permits(self.integrity, ours),
    {
        permitted(self.integrity, ours)
    }
}

} // verus!
