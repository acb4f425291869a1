//! Delivering text to a target, step by step.

use vstd::prelude::*;

use crate::error::Error;
use crate::options::{Chord, ClipboardOnlyReason, Delay, Options, Outcome, Strategy};
use crate::protocol::Protocol;
use crate::target::{permitted, Integrity, Target};

verus! {

/// What an injection asks for.
#[derive(Debug, Clone, Copy)]
pub enum InjectCall<'a> {
    /// Which window holds the foreground?
    ForegroundWindow,
    /// At which integrity level do we run?
    OwnIntegrity,
    /// Put the text on the clipboard, kept out of history and cloud sync.
    WriteText(&'a str),
    /// Release every held modifier.
    Sanitize,
    /// Type the text as Unicode input.
    TypeText(&'a str),
    /// Keep a snapshot of the clipboard for a later restore.
    Capture,
    /// Put a delayed-render promise of the text on the clipboard.
    Publish(&'a str),
    /// Record that the paste is now triggered.
    MarkPasteSent,
    /// Send the paste chord.
    SendChord(Chord),
    /// Wait for a read that the paste caused, then for reads to stay quiet.
    WaitForTargetRead {
        /// How long to wait for the read.
        timeout: Delay,
        /// How long reads must stay quiet.
        quiet: Delay,
    },
    /// Was the promise consumed before the paste was sent?
    ConsumedBeforePaste,
    /// Wait.
    Sleep(Delay),
    /// Does the clipboard still hold our offer?
    StillOffered,
    /// Restore the snapshot.
    Restore,
    /// What is the clipboard's sequence number?
    SequenceNumber,
    /// Restore the snapshot if the clipboard's sequence number is still the given one.
    RestoreIfOurs(u32),
}

/// What comes back.
#[derive(Debug, Clone, Copy)]
pub enum InjectReply {
    /// The window that holds the foreground.
    Window(isize),
    /// Our integrity level, `None` when it cannot be determined.
    Level(Option<Integrity>),
    /// How a call ended that can fail.
    Status(Result<(), Error>),
    /// Whether a snapshot was taken.
    Captured(bool),
    /// How many reads the paste caused, `None` when none was observed.
    Reads(Option<u32>),
    /// Whether the promise was consumed before the paste.
    Consumed(bool),
    /// Whether the clipboard still holds our offer.
    Offered(bool),
    /// The clipboard's sequence number.
    Sequence(u32),
    /// The call is over; how it ended does not matter.
    Finished,
}

/// Where an injection stands. `saved` says whether there is a snapshot to restore.
#[derive(Debug, Clone, Copy)]
pub enum Stage {
    /// Does the target still hold the foreground?
    Focus,
    /// May we send input to the target?
    Level,
    /// Leave the text on the clipboard.
    Leave(ClipboardOnlyReason),
    /// Typing: release modifiers.
    TypeRelease,
    /// Typing: type.
    Type,
    /// Pasting: take the snapshot.
    Snapshot,
    /// Promise: publish it.
    Publish { saved: bool },
    /// Promise: let the clipboard settle.
    PromiseSettle { saved: bool },
    /// Promise: release modifiers.
    PromiseRelease { saved: bool },
    /// Promise: mark the paste.
    Mark { saved: bool },
    /// Promise: send the chord.
    PromiseChord { saved: bool },
    /// Promise: wait for the target's read.
    Await { saved: bool },
    /// Promise: no read came; was the promise already consumed?
    Consumed { saved: bool },
    /// Promise: the snapshot may be restored, unless a third party took the clipboard.
    Ours { confirmed: bool },
    /// Promise: restore the snapshot.
    Restore { confirmed: bool },
    /// Timer: write the text.
    Write { saved: bool },
    /// Timer: note the sequence number of our write.
    Number { saved: bool },
    /// Timer: let the clipboard settle.
    TimerSettle { saved: bool, ours: u32 },
    /// Timer: release modifiers.
    TimerRelease { saved: bool, ours: u32 },
    /// Timer: send the chord.
    TimerChord { saved: bool, ours: u32 },
    /// Timer: give the target time.
    TimerGrace { saved: bool, ours: u32 },
    /// Timer: restore the snapshot, unless a third party took the clipboard.
    TimerRestore { ours: u32 },
    /// The end.
    Over(Result<Outcome, Error>),
}

/// An injection in progress.
#[derive(Debug, Clone, Copy)]
pub struct Injection<'a> {
    /// The captured window.
    pub hwnd: isize,
    /// The integrity level of its process.
    pub integrity: Integrity,
    /// The text to deliver.
    pub text: &'a str,
    /// The chord that pastes.
    pub chord: Chord,
    /// The caller's choices.
    pub options: Options,
    /// Where the injection stands.
    pub stage: Stage,
}

/// Where a paste begins, once the snapshot is settled.
pub open spec fn paste_stage(options: Options, saved: bool) -> Stage {
    if options.delayed_render {
        Stage::Publish { saved }
    } else {
        Stage::Write { saved }
    }
}

/// Where an accepted injection begins.
pub open spec fn first_stage(options: Options) -> Stage {
    match options.strategy {
        Strategy::ClipboardOnly => Stage::Leave(ClipboardOnlyReason::Requested),
        Strategy::UnicodeType => Stage::TypeRelease,
        Strategy::ClipboardPaste => if options.restore_clipboard {
            Stage::Snapshot
        } else {
            paste_stage(options, false)
        },
    }
}

/// Where a promise ends: with a look at whose the clipboard is where there is a snapshot, else at
/// once.
pub open spec fn promise_end(saved: bool, confirmed: bool) -> Stage {
    if saved {
        Stage::Ours { confirmed }
    } else {
        Stage::Over(Ok(Outcome::Pasted { read_confirmed: confirmed }))
    }
}

/// Which errors writing text to the clipboard can report.
pub open spec fn write_can_fail(error: Error) -> bool {
    error is ClipboardLocked || error is Clipboard || error is Alloc
}

/// Which errors publishing a promise can report.
pub open spec fn publish_can_fail(error: Error) -> bool {
    error is OwnerWindowFailed || error is ClipboardLocked || error is Clipboard
}

/// `stage` on success, the error on failure.
pub open spec fn or_fail(status: Result<(), Error>, stage: Stage) -> Stage {
    match status {
        Ok(_) => stage,
        Err(e) => Stage::Over(Err(e)),
    }
}

impl<'a> Injection<'a> {
    /// An injection that has not made a call yet.
    pub open spec fn begun(self, target: Target, text: &'a str, options: Options) -> bool {
        &&& self.hwnd == target.hwnd
        &&& self.integrity == target.integrity
        &&& self.text == text
        &&& self.chord == match options.chord {
            Some(chord) => chord,
            None => Chord::suited(target.exe@),
        }
        &&& self.options == options
        &&& self.stage == if options.require_same_target {
            Stage::Focus
        } else {
            Stage::Level
        }
    }

    /// How the injection ended, if it is over.
    pub open spec fn ended(self) -> Option<Result<Outcome, Error>> {
        match self.stage {
            Stage::Over(result) => Some(result),
            _ => None,
        }
    }

    /// The stage that a reply leads to.
    pub open spec fn next_stage(self, reply: InjectReply) -> Stage {
        match (self.stage, reply) {
            (Stage::Focus, InjectReply::Window(current)) => if current == self.hwnd {
                Stage::Level
            } else {
                Stage::Over(Err(Error::FocusChanged))
            },
            (Stage::Level, InjectReply::Level(ours)) => if crate::target::permits(
                self.integrity,
                ours,
            ) {
                first_stage(self.options)
            } else {
                Stage::Leave(ClipboardOnlyReason::ElevatedTarget)
            },
            (Stage::Leave(reason), InjectReply::Status(r)) => or_fail(
                r,
                Stage::Over(Ok(Outcome::ClipboardOnly(reason))),
            ),
            (Stage::TypeRelease, InjectReply::Status(r)) => or_fail(r, Stage::Type),
            (Stage::Type, InjectReply::Status(r)) => or_fail(r, Stage::Over(Ok(Outcome::Typed))),
            (Stage::Snapshot, InjectReply::Captured(saved)) => paste_stage(self.options, saved),
            (Stage::Publish { saved }, InjectReply::Status(r)) => or_fail(
                r,
                Stage::PromiseSettle { saved },
            ),
            (Stage::PromiseSettle { saved }, _) => Stage::PromiseRelease { saved },
            (Stage::PromiseRelease { saved }, InjectReply::Status(r)) => or_fail(
                r,
                Stage::Mark { saved },
            ),
            (Stage::Mark { saved }, _) => Stage::PromiseChord { saved },
            (Stage::PromiseChord { saved }, InjectReply::Status(r)) => or_fail(
                r,
                Stage::Await { saved },
            ),
            (Stage::Await { saved }, InjectReply::Reads(reads)) => if reads is Some {
                promise_end(saved, true)
            } else {
                Stage::Consumed { saved }
            },
            (Stage::Consumed { saved }, InjectReply::Consumed(consumed)) => if consumed {
                promise_end(saved, false)
            } else {
                Stage::Over(Ok(Outcome::Pasted { read_confirmed: false }))
            },
            (Stage::Ours { confirmed }, InjectReply::Offered(offered)) => if offered {
                Stage::Restore { confirmed }
            } else {
                Stage::Over(Ok(Outcome::Pasted { read_confirmed: confirmed }))
            },
            (Stage::Restore { confirmed }, _) => Stage::Over(
                Ok(Outcome::Pasted { read_confirmed: confirmed }),
            ),
            (Stage::Write { saved }, InjectReply::Status(r)) => or_fail(r, Stage::Number { saved }),
            (Stage::Number { saved }, InjectReply::Sequence(ours)) => Stage::TimerSettle {
                saved,
                ours,
            },
            (Stage::TimerSettle { saved, ours }, _) => Stage::TimerRelease { saved, ours },
            (Stage::TimerRelease { saved, ours }, InjectReply::Status(r)) => or_fail(
                r,
                Stage::TimerChord { saved, ours },
            ),
            (Stage::TimerChord { saved, ours }, InjectReply::Status(r)) => or_fail(
                r,
                Stage::TimerGrace { saved, ours },
            ),
            (Stage::TimerGrace { saved, ours }, _) => if saved {
                Stage::TimerRestore { ours }
            } else {
                Stage::Over(Ok(Outcome::Pasted { read_confirmed: false }))
            },
            (Stage::TimerRestore { .. }, _) => Stage::Over(
                Ok(Outcome::Pasted { read_confirmed: false }),
            ),
            (stage, _) => stage,
        }
    }
}

impl<'a> Protocol for Injection<'a> {
    type Call = InjectCall<'a>;

    type Reply = InjectReply;

    open spec fn pending(self) -> Option<InjectCall<'a>> {
        match self.stage {
            Stage::Focus => Some(InjectCall::ForegroundWindow),
            Stage::Level => Some(InjectCall::OwnIntegrity),
            Stage::Leave(_) => Some(InjectCall::WriteText(self.text)),
            Stage::TypeRelease => Some(InjectCall::Sanitize),
            Stage::Type => Some(InjectCall::TypeText(self.text)),
            Stage::Snapshot => Some(InjectCall::Capture),
            Stage::Publish { .. } => Some(InjectCall::Publish(self.text)),
            Stage::PromiseSettle { .. } => Some(InjectCall::Sleep(self.options.pre_paste)),
            Stage::PromiseRelease { .. } => Some(InjectCall::Sanitize),
            Stage::Mark { .. } => Some(InjectCall::MarkPasteSent),
            Stage::PromiseChord { .. } => Some(InjectCall::SendChord(self.chord)),
            Stage::Await { .. } => Some(
                InjectCall::WaitForTargetRead {
                    timeout: self.options.read_timeout,
                    quiet: self.options.read_quiet,
                },
            ),
            Stage::Consumed { .. } => Some(InjectCall::ConsumedBeforePaste),
            Stage::Ours { .. } => Some(InjectCall::StillOffered),
            Stage::Restore { .. } => Some(InjectCall::Restore),
            Stage::Write { .. } => Some(InjectCall::WriteText(self.text)),
            Stage::Number { .. } => Some(InjectCall::SequenceNumber),
            Stage::TimerSettle { .. } => Some(InjectCall::Sleep(self.options.pre_paste)),
            Stage::TimerRelease { .. } => Some(InjectCall::Sanitize),
            Stage::TimerChord { .. } => Some(InjectCall::SendChord(self.chord)),
            Stage::TimerGrace { .. } => Some(InjectCall::Sleep(self.options.post_paste)),
            Stage::TimerRestore { ours } => Some(InjectCall::RestoreIfOurs(ours)),
            Stage::Over(_) => None,
        }
    }

    open spec fn fits(self, reply: InjectReply) -> bool {
        match self.pending() {
            Some(InjectCall::ForegroundWindow) => reply is Window,
            Some(InjectCall::OwnIntegrity) => reply is Level,
            Some(InjectCall::WriteText(_)) => reply is Status && (reply->Status_0 matches Err(e)
                ==> write_can_fail(e)),
            Some(InjectCall::Sanitize) => reply is Status && (reply->Status_0 matches Err(e) ==> e
                is SendInputBlocked),
            Some(InjectCall::TypeText(_)) => reply is Status && (reply->Status_0 matches Err(e)
                ==> e is SendInputBlocked),
            Some(InjectCall::Capture) => reply is Captured,
            Some(InjectCall::Publish(_)) => reply is Status && (reply->Status_0 matches Err(e)
                ==> publish_can_fail(e)),
            Some(InjectCall::MarkPasteSent) => reply is Finished,
            Some(InjectCall::SendChord(_)) => reply is Status && (reply->Status_0 matches Err(e)
                ==> e is SendInputBlocked),
            Some(InjectCall::WaitForTargetRead { .. }) => reply is Reads,
            Some(InjectCall::ConsumedBeforePaste) => reply is Consumed,
            Some(InjectCall::StillOffered) => reply is Offered,
            Some(InjectCall::Sleep(_)) => reply is Finished,
            Some(InjectCall::Restore) => reply is Finished,
            Some(InjectCall::SequenceNumber) => reply is Sequence,
            Some(InjectCall::RestoreIfOurs(_)) => reply is Finished,
            None => false,
        }
    }

    open spec fn advance(self, reply: InjectReply) -> Injection<'a> {
        Injection { stage: self.next_stage(reply), ..self }
    }
}

/// Begins to deliver `text` to `target`.
///
/// Order matters: the elevation check happens before anything is written, and modifier
/// sanitization happens before any synthesized chord.
pub fn inject<'a>(target: &Target, text: &'a str, options: Options) -> (injection: Injection<'a>)
    ensures
        injection.begun(*target, text, options),
{
    let chord = match options.chord {
        Some(chord) => chord,
        None => Chord::for_exe(target.exe.as_str()),
    };
    let stage = if options.require_same_target {
        Stage::Focus
    } else {
        Stage::Level
    };
    Injection { hwnd: target.hwnd, integrity: target.integrity, text, chord, options, stage }
}

fn paste_start(options: Options, saved: bool) -> (stage: Stage)
    ensures
        stage == paste_stage(options, saved),
{
    if options.delayed_render {
        Stage::Publish { saved }
    } else {
        Stage::Write { saved }
    }
}

fn accepted_start(options: Options) -> (stage: Stage)
    ensures
        stage == first_stage(options),
{
    match options.strategy {
        Strategy::ClipboardOnly => Stage::Leave(ClipboardOnlyReason::Requested),
        Strategy::UnicodeType => Stage::TypeRelease,
        Strategy::ClipboardPaste => {
            if options.restore_clipboard {
                Stage::Snapshot
            } else {
                paste_start(options, false)
            }
        },
    }
}

fn finish_promise(saved: bool, confirmed: bool) -> (stage: Stage)
    ensures
        stage == promise_end(saved, confirmed),
{
    if saved {
        Stage::Ours { confirmed }
    } else {
        Stage::Over(Ok(Outcome::Pasted { read_confirmed: confirmed }))
    }
}

fn continue_with(status: Result<(), Error>, stage: Stage) -> (next: Stage)
    ensures
        next == or_fail(status, stage),
{
    match status {
        Ok(_) => stage,
        Err(e) => Stage::Over(Err(e)),
    }
}

impl<'a> Injection<'a> {
    /// What to do next, `None` once the injection is over.
    pub fn call(&self) -> (call: Option<InjectCall<'a>>)
        ensures
            call == self.pending(),
    {
        match self.stage {
            Stage::Focus => Some(InjectCall::ForegroundWindow),
            Stage::Level => Some(InjectCall::OwnIntegrity),
            Stage::Leave(_) => Some(InjectCall::WriteText(self.text)),
            Stage::TypeRelease => Some(InjectCall::Sanitize),
            Stage::Type => Some(InjectCall::TypeText(self.text)),
            Stage::Snapshot => Some(InjectCall::Capture),
            Stage::Publish { .. } => Some(InjectCall::Publish(self.text)),
            Stage::PromiseSettle { .. } => Some(InjectCall::Sleep(self.options.pre_paste)),
            Stage::PromiseRelease { .. } => Some(InjectCall::Sanitize),
            Stage::Mark { .. } => Some(InjectCall::MarkPasteSent),
            Stage::PromiseChord { .. } => Some(InjectCall::SendChord(self.chord)),
            Stage::Await { .. } => Some(
                InjectCall::WaitForTargetRead {
                    timeout: self.options.read_timeout,
                    quiet: self.options.read_quiet,
                },
            ),
            Stage::Consumed { .. } => Some(InjectCall::ConsumedBeforePaste),
            Stage::Ours { .. } => Some(InjectCall::StillOffered),
            Stage::Restore { .. } => Some(InjectCall::Restore),
            Stage::Write { .. } => Some(InjectCall::WriteText(self.text)),
            Stage::Number { .. } => Some(InjectCall::SequenceNumber),
            Stage::TimerSettle { .. } => Some(InjectCall::Sleep(self.options.pre_paste)),
            Stage::TimerRelease { .. } => Some(InjectCall::Sanitize),
            Stage::TimerChord { .. } => Some(InjectCall::SendChord(self.chord)),
            Stage::TimerGrace { .. } => Some(InjectCall::Sleep(self.options.post_paste)),
            Stage::TimerRestore { ours } => Some(InjectCall::RestoreIfOurs(ours)),
            Stage::Over(_) => None,
        }
    }

    /// Takes the reply to the pending call.
    pub fn reply(self, reply: InjectReply) -> (next: Injection<'a>)
        requires
            self.fits(reply),
        ensures
            next == self.advance(reply),
    {
        let stage = match (self.stage, reply) {
            (Stage::Focus, InjectReply::Window(current)) => {
                if current == self.hwnd {
                    Stage::Level
                } else {
                    Stage::Over(Err(Error::FocusChanged))
                }
            },
            // Refusing early is the whole point: injecting into an elevated window would succeed
            // silently and deliver nothing.
            (Stage::Level, InjectReply::Level(ours)) => {
                if permitted(self.integrity, ours) {
                    accepted_start(self.options)
                } else {
                    Stage::Leave(ClipboardOnlyReason::ElevatedTarget)
                }
            },
            (Stage::Leave(reason), InjectReply::Status(r)) => continue_with(
                r,
                Stage::Over(Ok(Outcome::ClipboardOnly(reason))),
            ),
            (Stage::TypeRelease, InjectReply::Status(r)) => continue_with(r, Stage::Type),
            (Stage::Type, InjectReply::Status(r)) => continue_with(
                r,
                Stage::Over(Ok(Outcome::Typed)),
            ),
            (Stage::Snapshot, InjectReply::Captured(saved)) => paste_start(self.options, saved),
            (Stage::Publish { saved }, InjectReply::Status(r)) => continue_with(
                r,
                Stage::PromiseSettle { saved },
            ),
            (Stage::PromiseSettle { saved }, _) => Stage::PromiseRelease { saved },
            (Stage::PromiseRelease { saved }, InjectReply::Status(r)) => continue_with(
                r,
                Stage::Mark { saved },
            ),
            // Anything that reads the clipboard satisfies the promise, so a read observed before
            // the paste says nothing about the target.
            (Stage::Mark { saved }, _) => Stage::PromiseChord { saved },
            (Stage::PromiseChord { saved }, InjectReply::Status(r)) => continue_with(
                r,
                Stage::Await { saved },
            ),
            (Stage::Await { saved }, InjectReply::Reads(reads)) => {
                if reads.is_some() {
                    finish_promise(saved, true)
                } else {
                    Stage::Consumed { saved }
                }
            },
            // A promise that was consumed early leaves the target's read unobservable, and not
            // restoring at all would destroy the user's clipboard on every dictation while a
            // clipboard manager is running; the target has had the whole read timeout by now. With
            // no read at all the paste most likely never landed, so the transcript stays for the
            // user to paste.
            (Stage::Consumed { saved }, InjectReply::Consumed(consumed)) => {
                if consumed {
                    finish_promise(saved, false)
                } else {
                    Stage::Over(Ok(Outcome::Pasted { read_confirmed: false }))
                }
            },
            // A third party that took the clipboard in the meantime is not clobbered.
            (Stage::Ours { confirmed }, InjectReply::Offered(offered)) => {
                if offered {
                    Stage::Restore { confirmed }
                } else {
                    Stage::Over(Ok(Outcome::Pasted { read_confirmed: confirmed }))
                }
            },
            (Stage::Restore { confirmed }, _) => Stage::Over(
                Ok(Outcome::Pasted { read_confirmed: confirmed }),
            ),
            (Stage::Write { saved }, InjectReply::Status(r)) => continue_with(
                r,
                Stage::Number { saved },
            ),
            (Stage::Number { saved }, InjectReply::Sequence(ours)) => Stage::TimerSettle {
                saved,
                ours,
            },
            (Stage::TimerSettle { saved, ours }, _) => Stage::TimerRelease { saved, ours },
            (Stage::TimerRelease { saved, ours }, InjectReply::Status(r)) => continue_with(
                r,
                Stage::TimerChord { saved, ours },
            ),
            (Stage::TimerChord { saved, ours }, InjectReply::Status(r)) => continue_with(
                r,
                Stage::TimerGrace { saved, ours },
            ),
            (Stage::TimerGrace { saved, ours }, _) => {
                if saved {
                    Stage::TimerRestore { ours }
                } else {
                    Stage::Over(Ok(Outcome::Pasted { read_confirmed: false }))
                }
            },
            (Stage::TimerRestore { .. }, _) => Stage::Over(
                Ok(Outcome::Pasted { read_confirmed: false }),
            ),
            (stage, _) => stage,
        };
        Injection { stage, ..self }
    }

    /// How the injection ended, `None` while a call is pending.
    pub fn result(&self) -> (result: Option<Result<Outcome, Error>>)
        ensures
            result == self.ended(),
            result is None <==> self.pending() is Some,
    {
        match self.stage {
            Stage::Over(result) => Some(result),
            _ => None,
        }
    }
}

} // verus!
