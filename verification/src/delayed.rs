//! Delayed clipboard rendering: know exactly when the target read the clipboard.
//!
//! An injector that restores on a timer races the target, which reads the clipboard whenever its
//! message pump gets round to it. Any fixed delay is a guess, and tuning it upward only moves the
//! threshold.
//!
//! Delayed rendering removes the guess. Instead of the text, a promise is put on the clipboard, and
//! Windows sends `WM_RENDERFORMAT` to the owner at the instant a consumer actually asks for the
//! data. That message *is* the "the target has read it" signal, so the restore can be sequenced
//! strictly after the read instead of racing it.

use vstd::prelude::*;

use crate::clipboard::{access, utf16_bytes, Access, AccessStage, ClipboardCall, ClipboardReply,
    Task, CF_UNICODETEXT};
use crate::error::Error;
use crate::options::Delay;
use crate::protocol::Protocol;

verus! {

/// Text in the system's ANSI code page, synthesized from `CF_UNICODETEXT`.
pub const CF_TEXT: u32 = 1;

/// Text in the system's OEM code page, synthesized from `CF_UNICODETEXT`.
pub const CF_OEMTEXT: u32 = 7;

/// A consumer asks for one format.
pub const WM_RENDERFORMAT: u32 = 0x0305;

/// The owner is about to go; everything promised is asked for.
pub const WM_RENDERALLFORMATS: u32 = 0x0306;

/// Another process took the clipboard.
pub const WM_DESTROYCLIPBOARD: u32 = 0x0307;

/// What is known of the reads of a promise.
#[derive(Debug, Clone, Copy)]
pub struct Reads {
    rendered: bool,
    render_count: u32,
    last_render: Option<u128>,
    baseline: u32,
}

impl Reads {
    #[verifier::type_invariant]
    spec fn consistent(self) -> bool {
        self.baseline <= self.render_count && self.rendered == (self.render_count > 0) && (
        self.last_render is Some) == (self.render_count > 0)
    }

    /// How many times the data has been requested since publishing.
    ///
    /// Consumers are not guaranteed to read exactly once. Chromium in particular touches the
    /// clipboard more than once per paste, so the first read is no proof that the paste completed.
    pub closed spec fn count(self) -> u32 {
        self.render_count
    }

    /// How many requests had come when the paste was triggered. They were caused by something
    /// other than the paste (a clipboard manager, a history service) and prove nothing.
    pub closed spec fn mark(self) -> u32 {
        self.baseline
    }

    /// Whether a consumer requested the data.
    pub closed spec fn seen(self) -> bool {
        self.rendered
    }

    /// When the data was last requested, in nanoseconds of a clock of the caller's.
    pub closed spec fn last(self) -> Option<u128> {
        self.last_render
    }

    /// What holds of every value of this type.
    pub open spec fn valid(self) -> bool {
        self.mark() <= self.count() && self.seen() == (self.count() > 0) && (self.last() is Some)
            == (self.count() > 0)
    }

    /// Whether the read that is waited for has happened: any read, or with `target_only` one that
    /// came after the paste was triggered.
    pub open spec fn arrived(self, target_only: bool) -> bool {
        if target_only {
            self.count() > self.mark()
        } else {
            self.seen()
        }
    }

    /// Whether the read that is waited for is still to come.
    pub fn awaited(&self, target_only: bool) -> (awaited: bool)
        ensures
            awaited == !self.arrived(target_only),
    {
        if target_only {
            self.render_count <= self.baseline
        } else {
            !self.rendered
        }
    }
}

/// The promise, and what is known of its reads.
pub struct State {
    pending: Option<String>,
    reads: Reads,
}

/// Whether the promise covers a format. `CF_UNICODETEXT` is what is advertised; the others are
/// synthesized from it, and a consumer that asks for one of those still routes back to the owner.
pub open spec fn is_text_format(format: u32) -> bool {
    format == CF_UNICODETEXT || format == CF_TEXT || format == CF_OEMTEXT
}

impl State {
    /// The text to hand over when a consumer asks, `None` once ownership is lost.
    pub closed spec fn promised(&self) -> Option<Seq<char>> {
        match self.pending {
            Some(text) => Some(text@),
            None => None,
        }
    }

    /// What is known of the reads.
    pub closed spec fn observed(&self) -> Reads {
        self.reads
    }

    /// Nothing promised, nothing read.
    pub fn new() -> (state: State)
        ensures
            state.promised() is None,
            state.observed().valid(),
            state.observed().count() == 0,
            state.observed().mark() == 0,
    {
        State {
            pending: None,
            reads: Reads { rendered: false, render_count: 0, last_render: None, baseline: 0 },
        }
    }

    /// What is known of the reads.
    pub fn reads(&self) -> (reads: Reads)
        ensures
            reads == self.observed(),
            reads.valid(),
    {
        let reads = self.reads;
        proof {
            use_type_invariant(&reads);
        }
        reads
    }

    /// Records a new promise of `text`. All that was known of earlier reads is dropped.
    pub fn promise(&mut self, text: &str)
        ensures
            final(self).promised() == Some(text@),
            final(self).observed().valid(),
            final(self).observed().count() == 0,
            final(self).observed().mark() == 0,
    {
        self.pending = Some(text.to_owned());
        self.reads = Reads { rendered: false, render_count: 0, last_render: None, baseline: 0 };
    }

    /// Voids the promise: another process took the clipboard.
    pub fn void(&mut self)
        ensures
            final(self).promised() is None,
            final(self).observed() == old(self).observed(),
    {
        self.pending = None;
    }

    /// What answers a request for `format`, `None` where the promise does not cover it or is void.
    ///
    /// It is always `CF_UNICODETEXT`: Windows synthesizes the narrow formats from it, so one answer
    /// satisfies a consumer that asked for any of them.
    pub fn render(&self, format: u32) -> (answer: Option<Rendering>)
        ensures
            answer is Some <==> is_text_format(format) && self.promised() is Some,
            answer is Some ==> answer->0.content() == crate::clipboard::text_bytes(
                self.promised()->0,
            ),
    {
        if !(format == CF_UNICODETEXT || format == CF_TEXT || format == CF_OEMTEXT) {
            return None;
        }
        match &self.pending {
            Some(text) => Some(Rendering { bytes: utf16_bytes(text.as_str()) }),
            None => None,
        }
    }

    /// Records that a request was answered at `now`, whether or not the data could be set. It takes
    /// the answer, so that a request that the promise does not cover is never recorded.
    pub fn note_render(&mut self, _answer: &Rendering, now: u128)
        requires
            old(self).observed().count() < u32::MAX,
        ensures
            final(self).promised() == old(self).promised(),
            final(self).observed().valid(),
            final(self).observed().seen(),
            final(self).observed().count() == old(self).observed().count() + 1,
            final(self).observed().mark() == old(self).observed().mark(),
            final(self).observed().last() == Some(now),
    {
        let reads = self.reads;
        proof {
            use_type_invariant(&reads);
        }
        self.reads = Reads {
            rendered: true,
            render_count: reads.render_count + 1,
            last_render: Some(now),
            baseline: reads.baseline,
        };
    }
}

/// The answer to a request that the promise covers.
#[derive(Debug)]
pub struct Rendering {
    bytes: Vec<u8>,
}

impl Rendering {
    /// The bytes of the block to set.
    pub closed spec fn content(&self) -> Seq<u8> {
        self.bytes@
    }

    /// The bytes of the block to set.
    pub fn bytes(&self) -> (bytes: &[u8])
        ensures
            bytes@ == self.content(),
    {
        self.bytes.as_slice()
    }

    /// The format to set it as, whichever one was asked for.
    pub fn format(&self) -> (format: u32)
        ensures
            format == CF_UNICODETEXT,
    {
        CF_UNICODETEXT
    }
}

/// What a message asks of the clipboard owner window.
#[derive(Debug, Clone, Copy, PartialEq, Eq, Structural)]
pub enum OwnerDuty {
    /// Supply one format. The requester holds the clipboard open, so the data must be set without
    /// opening it.
    Render(u32),
    /// Open the clipboard and supply the text.
    RenderAll(u32),
    /// Void the promise.
    Void,
    /// Nothing; the message takes its default course.
    Default,
}

/// What the clipboard owner window must do about a message.
pub fn wndproc(msg: u32, wparam: usize) -> (duty: OwnerDuty)
    ensures
        duty == if msg == WM_RENDERFORMAT {
            OwnerDuty::Render(wparam as u32)
        } else if msg == WM_RENDERALLFORMATS {
            OwnerDuty::RenderAll(CF_UNICODETEXT)
        } else if msg == WM_DESTROYCLIPBOARD {
            OwnerDuty::Void
        } else {
            OwnerDuty::Default
        },
{
    if msg == WM_RENDERFORMAT {
        OwnerDuty::Render(wparam as u32)
    } else if msg == WM_RENDERALLFORMATS {
        OwnerDuty::RenderAll(CF_UNICODETEXT)
    } else if msg == WM_DESTROYCLIPBOARD {
        OwnerDuty::Void
    } else {
        OwnerDuty::Default
    }
}

/// How often the owner window's handle is looked for after its thread was started.
pub const OWNER_POLLS: u32 = 200;

/// The wait after each look.
pub const OWNER_POLL_MS: u64 = 5;

/// What starting the owner window asks of the system.
#[derive(Debug, Clone, Copy)]
pub enum OwnerCall {
    /// What is the window's handle? Zero means that there is none yet.
    LoadHandle,
    /// Claim the start of the window's thread; was it claimed before?
    Claim,
    /// Start the thread.
    Spawn,
    /// Wait.
    Sleep {
        /// For how many milliseconds.
        millis: u64,
    },
}

/// What the system answers.
#[derive(Debug, Clone, Copy)]
pub enum OwnerReply {
    /// The handle.
    Handle(isize),
    /// Whether another caller is already starting the thread.
    Claimed(bool),
    /// Whether the thread started.
    Spawned(bool),
    /// The wait is over.
    Finished,
}

/// Where starting the owner window stands.
#[derive(Debug, Clone, Copy)]
pub enum OwnerStage {
    /// Is there a window already?
    Check,
    /// Who starts it?
    Claim,
    /// We do.
    Spawn,
    /// Has the handle appeared?
    Poll { attempt: u32 },
    /// Not yet.
    Pause { attempt: u32 },
    /// The end.
    Over(Result<isize, Error>),
}

/// The owner window being looked up, and started where there is none.
#[derive(Debug, Clone, Copy)]
pub struct OwnerStart {
    /// Where it stands.
    pub stage: OwnerStage,
}

impl OwnerStart {
    /// Looks are counted below their number.
    pub open spec fn wf(self) -> bool {
        match self.stage {
            OwnerStage::Poll { attempt } => attempt < OWNER_POLLS,
            OwnerStage::Pause { attempt } => attempt < OWNER_POLLS,
            _ => true,
        }
    }

    /// The window or the failure, once it is over.
    pub open spec fn ended(self) -> Option<Result<isize, Error>> {
        match self.stage {
            OwnerStage::Over(result) => Some(result),
            _ => None,
        }
    }
}

impl Protocol for OwnerStart {
    type Call = OwnerCall;

    type Reply = OwnerReply;

    open spec fn pending(self) -> Option<OwnerCall> {
        match self.stage {
            OwnerStage::Check => Some(OwnerCall::LoadHandle),
            OwnerStage::Claim => Some(OwnerCall::Claim),
            OwnerStage::Spawn => Some(OwnerCall::Spawn),
            OwnerStage::Poll { .. } => Some(OwnerCall::LoadHandle),
            OwnerStage::Pause { .. } => Some(OwnerCall::Sleep { millis: OWNER_POLL_MS }),
            OwnerStage::Over(_) => None,
        }
    }

    open spec fn fits(self, reply: OwnerReply) -> bool {
        match self.stage {
            OwnerStage::Check => reply is Handle,
            OwnerStage::Claim => reply is Claimed,
            OwnerStage::Spawn => reply is Spawned,
            OwnerStage::Poll { .. } => reply is Handle,
            OwnerStage::Pause { .. } => reply is Finished,
            OwnerStage::Over(_) => false,
        }
    }

    open spec fn advance(self, reply: OwnerReply) -> OwnerStart {
        let stage = match (self.stage, reply) {
            (OwnerStage::Check, OwnerReply::Handle(handle)) => if handle != 0 {
                OwnerStage::Over(Ok(handle))
            } else {
                OwnerStage::Claim
            },
            (OwnerStage::Claim, OwnerReply::Claimed(already)) => if already {
                OwnerStage::Poll { attempt: 0 }
            } else {
                OwnerStage::Spawn
            },
            (OwnerStage::Spawn, OwnerReply::Spawned(started)) => if started {
                OwnerStage::Poll { attempt: 0 }
            } else {
                OwnerStage::Over(Err(Error::OwnerWindowFailed))
            },
            (OwnerStage::Poll { attempt }, OwnerReply::Handle(handle)) => if handle != 0 {
                OwnerStage::Over(Ok(handle))
            } else {
                OwnerStage::Pause { attempt }
            },
            (OwnerStage::Pause { attempt }, _) => if attempt < OWNER_POLLS - 1 {
                OwnerStage::Poll { attempt: (attempt + 1) as u32 }
            } else {
                OwnerStage::Over(Err(Error::OwnerWindowFailed))
            },
            (stage, _) => stage,
        };
        OwnerStart { stage }
    }
}

/// Begins to look up the owner window, starting it and its message pump where there is none.
pub fn ensure_owner() -> (start: OwnerStart)
    ensures
        start == (OwnerStart { stage: OwnerStage::Check }),
        start.wf(),
{
    OwnerStart { stage: OwnerStage::Check }
}

impl OwnerStart {
    /// What to do next, `None` once it is over.
    pub fn call(&self) -> (call: Option<OwnerCall>)
        ensures
            call == self.pending(),
    {
        match self.stage {
            OwnerStage::Check => Some(OwnerCall::LoadHandle),
            OwnerStage::Claim => Some(OwnerCall::Claim),
            OwnerStage::Spawn => Some(OwnerCall::Spawn),
            OwnerStage::Poll { .. } => Some(OwnerCall::LoadHandle),
            OwnerStage::Pause { .. } => Some(OwnerCall::Sleep { millis: OWNER_POLL_MS }),
            OwnerStage::Over(_) => None,
        }
    }

    /// Takes the reply to the pending call.
    pub fn reply(self, reply: OwnerReply) -> (next: OwnerStart)
        requires
            self.fits(reply),
        ensures
            next == self.advance(reply),
            self.wf() ==> next.wf(),
    {
        let stage = match (self.stage, reply) {
            (OwnerStage::Check, OwnerReply::Handle(handle)) => {
                if handle != 0 {
                    OwnerStage::Over(Ok(handle))
                } else {
                    OwnerStage::Claim
                }
            },
            // Another caller may be mid-startup; wait for the handle to appear then.
            (OwnerStage::Claim, OwnerReply::Claimed(already)) => {
                if already {
                    OwnerStage::Poll { attempt: 0 }
                } else {
                    OwnerStage::Spawn
                }
            },
            (OwnerStage::Spawn, OwnerReply::Spawned(started)) => {
                if started {
                    OwnerStage::Poll { attempt: 0 }
                } else {
                    OwnerStage::Over(Err(Error::OwnerWindowFailed))
                }
            },
            (OwnerStage::Poll { attempt }, OwnerReply::Handle(handle)) => {
                if handle != 0 {
                    OwnerStage::Over(Ok(handle))
                } else {
                    OwnerStage::Pause { attempt }
                }
            },
            (OwnerStage::Pause { attempt }, _) => {
                if attempt < OWNER_POLLS - 1 {
                    OwnerStage::Poll { attempt: attempt + 1 }
                } else {
                    OwnerStage::Over(Err(Error::OwnerWindowFailed))
                }
            },
            (stage, _) => stage,
        };
        OwnerStart { stage }
    }

    /// The window or the failure, `None` while a call is pending.
    pub fn result(&self) -> (result: Option<Result<isize, Error>>)
        ensures
            result == self.ended(),
            result is None <==> self.pending() is Some,
    {
        match self.stage {
            OwnerStage::Over(result) => Some(result),
            _ => None,
        }
    }
}

/// What publishing a promise asks of the system.
#[derive(Debug, Clone, Copy)]
pub enum PublishCall<'a> {
    /// A step of starting the owner window.
    Owner(OwnerCall),
    /// Record the promise of a text, see [`State::promise`]. This comes before the clipboard is
    /// touched, so that it is not emptied for a promise that could not be kept.
    Record(&'a str),
    /// A step of putting the promise on the clipboard. [`ClipboardCall::Record`] among them records
    /// the promise again: where our window owned the clipboard, emptying it has voided the record.
    Clipboard(ClipboardCall<'a>),
}

/// What the system answers.
#[derive(Debug, Clone, Copy)]
pub enum PublishReply {
    /// The answer to a step of starting the owner window.
    Owner(OwnerReply),
    /// Whether the promise was recorded; it is not where the record is unusable.
    Recorded(bool),
    /// The answer to a step of putting the promise on the clipboard.
    Clipboard(ClipboardReply),
}

/// Where publishing stands.
#[derive(Debug, Clone, Copy)]
pub enum PublishStage<'a> {
    /// Starting the owner window.
    Owner(OwnerStart),
    /// Recording the promise that window `owner` will keep.
    Record { owner: isize },
    /// Putting the promise on the clipboard.
    Clipboard(Access<'a>),
    /// The end.
    Over(Result<Offer, Error>),
}

/// A promise of text being published.
#[derive(Debug, Clone, Copy)]
pub struct Publication<'a> {
    /// The text.
    pub text: &'a str,
    /// Where it stands.
    pub stage: PublishStage<'a>,
}

impl<'a> Publication<'a> {
    /// What goes on inside is sound and not over.
    pub open spec fn wf(self) -> bool {
        match self.stage {
            PublishStage::Owner(start) => start.wf() && start.ended() is None,
            PublishStage::Clipboard(access) => access.wf() && access.ended() is None,
            _ => true,
        }
    }

    /// The offer or the failure, once it is over.
    pub open spec fn ended(self) -> Option<Result<Offer, Error>> {
        match self.stage {
            PublishStage::Over(result) => Some(result),
            _ => None,
        }
    }

    /// The stage that a reply leads to.
    pub open spec fn next_stage(self, reply: PublishReply) -> PublishStage<'a> {
        match (self.stage, reply) {
            (PublishStage::Owner(start), PublishReply::Owner(r)) => match start.advance(
                r,
            ).ended() {
                None => PublishStage::Owner(start.advance(r)),
                Some(Ok(owner)) => PublishStage::Record { owner },
                Some(Err(e)) => PublishStage::Over(Err(e)),
            },
            (PublishStage::Record { owner }, PublishReply::Recorded(recorded)) => if recorded {
                PublishStage::Clipboard(
                    Access {
                        task: Task::Publish { owner, text: self.text },
                        stage: AccessStage::Opening { attempt: 0 },
                    },
                )
            } else {
                PublishStage::Over(Err(Error::OwnerWindowFailed))
            },
            (PublishStage::Clipboard(access), PublishReply::Clipboard(r)) => match access.advance(
                r,
            ).ended() {
                None => PublishStage::Clipboard(access.advance(r)),
                Some(Ok(_)) => PublishStage::Over(Ok(Offer {  })),
                Some(Err(e)) => PublishStage::Over(Err(e)),
            },
            (stage, _) => stage,
        }
    }
}

impl<'a> Protocol for Publication<'a> {
    type Call = PublishCall<'a>;

    type Reply = PublishReply;

    open spec fn pending(self) -> Option<PublishCall<'a>> {
        match self.stage {
            PublishStage::Owner(start) => match start.pending() {
                Some(call) => Some(PublishCall::Owner(call)),
                None => None,
            },
            PublishStage::Record { .. } => Some(PublishCall::Record(self.text)),
            PublishStage::Clipboard(access) => match access.pending() {
                Some(call) => Some(PublishCall::Clipboard(call)),
                None => None,
            },
            PublishStage::Over(_) => None,
        }
    }

    open spec fn fits(self, reply: PublishReply) -> bool {
        match self.stage {
            PublishStage::Owner(start) => reply is Owner && start.fits(reply->Owner_0),
            PublishStage::Record { .. } => reply is Recorded,
            PublishStage::Clipboard(access) => reply is Clipboard && access.fits(
                reply->Clipboard_0,
            ),
            PublishStage::Over(_) => false,
        }
    }

    open spec fn advance(self, reply: PublishReply) -> Publication<'a> {
        Publication { stage: self.next_stage(reply), ..self }
    }
}

impl<'a> Publication<'a> {
    /// What to do next, `None` once publishing is over.
    pub fn call(&self) -> (call: Option<PublishCall<'a>>)
        ensures
            call == self.pending(),
    {
        match self.stage {
            PublishStage::Owner(start) => match start.call() {
                Some(call) => Some(PublishCall::Owner(call)),
                None => None,
            },
            PublishStage::Record { .. } => Some(PublishCall::Record(self.text)),
            PublishStage::Clipboard(access) => match access.call() {
                Some(call) => Some(PublishCall::Clipboard(call)),
                None => None,
            },
            PublishStage::Over(_) => None,
        }
    }

    /// Takes the reply to the pending call.
    pub fn reply(self, reply: PublishReply) -> (next: Publication<'a>)
        requires
            self.fits(reply),
        ensures
            next == self.advance(reply),
            self.wf() ==> next.wf(),
    {
        let stage = match (self.stage, reply) {
            (PublishStage::Owner(start), PublishReply::Owner(r)) => {
                let next = start.reply(r);
                match next.result() {
                    None => PublishStage::Owner(next),
                    Some(Ok(owner)) => PublishStage::Record { owner },
                    Some(Err(e)) => PublishStage::Over(Err(e)),
                }
            },
            (PublishStage::Record { owner }, PublishReply::Recorded(recorded)) => {
                if recorded {
                    PublishStage::Clipboard(access(Task::Publish { owner, text: self.text }))
                } else {
                    PublishStage::Over(Err(Error::OwnerWindowFailed))
                }
            },
            (PublishStage::Clipboard(access), PublishReply::Clipboard(r)) => {
                let next = access.reply(r);
                match next.result() {
                    None => PublishStage::Clipboard(next),
                    Some(Ok(_)) => PublishStage::Over(Ok(Offer {  })),
                    Some(Err(e)) => PublishStage::Over(Err(e)),
                }
            },
            (stage, _) => stage,
        };
        Publication { stage, ..self }
    }

    /// The offer or the failure, `None` while a call is pending.
    pub fn result(&self) -> (result: Option<Result<Offer, Error>>)
        ensures
            result == self.ended(),
            self.wf() ==> (result is None <==> self.pending() is Some),
    {
        match self.stage {
            PublishStage::Over(result) => Some(result),
            _ => None,
        }
    }
}

/// What waiting for reads asks of the system.
#[derive(Debug, Clone, Copy)]
pub enum WaitCall {
    /// Wait while [`Reads::awaited`] holds, but no longer than `timeout`.
    AwaitRead {
        /// Whether only reads caused by the paste count.
        target_only: bool,
        /// How long.
        timeout: Delay,
    },
    /// What is known of the reads, and what time is it?
    Observe,
    /// Wait.
    Sleep(Delay),
    /// What is known of the reads?
    Tally,
}

/// What the system answers. The reads are `None` where the record is unusable.
#[derive(Debug, Clone, Copy)]
pub enum WaitReply {
    /// The reads when the wait ended, by a read or by the timeout; or the tally.
    Reads(Option<Reads>),
    /// The reads, and the time on the clock that [`State::note_render`] is given.
    Observed {
        /// The reads.
        reads: Option<Reads>,
        /// The time.
        now: u128,
    },
    /// The wait is over.
    Finished,
}

/// Where waiting for reads stands.
#[derive(Debug, Clone, Copy)]
pub enum WaitStage {
    /// Waiting for the read.
    Await,
    /// Are the reads quiet?
    Observe,
    /// Not yet.
    Pause(Delay),
    /// They are; how many were there?
    Tally,
    /// The end: the number of reads, `None` if none came.
    Over(Option<u32>),
}

/// Waiting for a read, and then for reads to stay quiet.
///
/// A single request is *not* proof that the paste completed. Chromium touches the clipboard more
/// than once per paste: an early probe, then the real read. Restoring after the first would put the
/// old text back before the read that matters.
#[derive(Debug, Clone, Copy)]
pub struct ReadWait {
    /// Whether only reads caused by the paste count.
    pub target_only: bool,
    /// How long to wait for the read.
    pub timeout: Delay,
    /// How long reads must stay quiet.
    pub quiet: Delay,
    /// Where it stands.
    pub stage: WaitStage,
}

/// The time from `earlier` to `now`, none where the clock seems to run backwards.
pub open spec fn elapsed(earlier: u128, now: u128) -> u128 {
    if now > earlier {
        (now - earlier) as u128
    } else {
        0
    }
}

impl ReadWait {
    /// The number of reads, once it is over.
    pub open spec fn ended(self) -> Option<Option<u32>> {
        match self.stage {
            WaitStage::Over(result) => Some(result),
            _ => None,
        }
    }

    /// The number of reads that counts.
    pub open spec fn tally(self, reads: Reads) -> u32 {
        if self.target_only {
            (reads.count() - reads.mark()) as u32
        } else {
            reads.count()
        }
    }

    /// The stage that a reply leads to.
    pub open spec fn next_stage(self, reply: WaitReply) -> WaitStage {
        match (self.stage, reply) {
            (WaitStage::Await, WaitReply::Reads(reads)) => if reads is Some && reads->0.arrived(
                self.target_only,
            ) {
                WaitStage::Observe
            } else {
                WaitStage::Over(None)
            },
            (WaitStage::Observe, WaitReply::Observed { reads, now }) => if reads is Some
                && reads->0.last() is Some {
                let still = elapsed(reads->0.last()->0, now);
                if still >= self.quiet.nanos {
                    WaitStage::Tally
                } else {
                    WaitStage::Pause(Delay { nanos: (self.quiet.nanos - still) as u128 })
                }
            } else {
                WaitStage::Over(None)
            },
            (WaitStage::Pause(_), _) => WaitStage::Observe,
            (WaitStage::Tally, WaitReply::Reads(reads)) => WaitStage::Over(
                match reads {
                    Some(reads) => Some(self.tally(reads)),
                    None => None,
                },
            ),
            (stage, _) => stage,
        }
    }
}

impl Protocol for ReadWait {
    type Call = WaitCall;

    type Reply = WaitReply;

    open spec fn pending(self) -> Option<WaitCall> {
        match self.stage {
            WaitStage::Await => Some(
                WaitCall::AwaitRead { target_only: self.target_only, timeout: self.timeout },
            ),
            WaitStage::Observe => Some(WaitCall::Observe),
            WaitStage::Pause(delay) => Some(WaitCall::Sleep(delay)),
            WaitStage::Tally => Some(WaitCall::Tally),
            WaitStage::Over(_) => None,
        }
    }

    open spec fn fits(self, reply: WaitReply) -> bool {
        match self.stage {
            WaitStage::Await => reply is Reads,
            WaitStage::Observe => reply is Observed,
            WaitStage::Pause(_) => reply is Finished,
            WaitStage::Tally => reply is Reads,
            WaitStage::Over(_) => false,
        }
    }

    open spec fn advance(self, reply: WaitReply) -> ReadWait {
        ReadWait { stage: self.next_stage(reply), ..self }
    }
}

impl ReadWait {
    /// What to do next, `None` once the wait is over.
    pub fn call(&self) -> (call: Option<WaitCall>)
        ensures
            call == self.pending(),
    {
        match self.stage {
            WaitStage::Await => Some(
                WaitCall::AwaitRead { target_only: self.target_only, timeout: self.timeout },
            ),
            WaitStage::Observe => Some(WaitCall::Observe),
            WaitStage::Pause(delay) => Some(WaitCall::Sleep(delay)),
            WaitStage::Tally => Some(WaitCall::Tally),
            WaitStage::Over(_) => None,
        }
    }

    /// Takes the reply to the pending call.
    pub fn reply(self, reply: WaitReply) -> (next: ReadWait)
        requires
            self.fits(reply),
        ensures
            next == self.advance(reply),
    {
        let stage = match (self.stage, reply) {
            (WaitStage::Await, WaitReply::Reads(reads)) => match reads {
                Some(reads) => {
                    if reads.awaited(self.target_only) {
                        WaitStage::Over(None)
                    } else {
                        WaitStage::Observe
                    }
                },
                None => WaitStage::Over(None),
            },
            (WaitStage::Observe, WaitReply::Observed { reads, now }) => match reads {
                Some(reads) => match reads.last_render {
                    Some(last) => {
                        let still: u128 = if now > last {
                            now - last
                        } else {
                            0
                        };
                        if still >= self.quiet.nanos {
                            WaitStage::Tally
                        } else {
                            WaitStage::Pause(Delay { nanos: self.quiet.nanos - still })
                        }
                    },
                    None => WaitStage::Over(None),
                },
                None => WaitStage::Over(None),
            },
            (WaitStage::Pause(_), _) => WaitStage::Observe,
            (WaitStage::Tally, WaitReply::Reads(reads)) => match reads {
                Some(reads) => {
                    proof {
                        use_type_invariant(&reads);
                    }
                    if self.target_only {
                        WaitStage::Over(Some(reads.render_count - reads.baseline))
                    } else {
                        WaitStage::Over(Some(reads.render_count))
                    }
                },
                None => WaitStage::Over(None),
            },
            (stage, _) => stage,
        };
        ReadWait { stage, ..self }
    }

    /// The number of reads, `None` while a call is pending.
    pub fn result(&self) -> (result: Option<Option<u32>>)
        ensures
            result == self.ended(),
            result is None <==> self.pending() is Some,
    {
        match self.stage {
            WaitStage::Over(result) => Some(result),
            _ => None,
        }
    }
}

/// A promise of text placed on the clipboard, not yet materialized.
///
/// An offer is a handle: what it knows is in the [`State`] that the owner window and its callers
/// share. Where a method takes `Option<Reads>`, `None` stands for a record that is unusable.
#[derive(Debug, Clone, Copy)]
pub struct Offer {}

impl Offer {
    /// Begins to advertise `text` on the clipboard without publishing it.
    ///
    /// Nothing is copied until a consumer asks.
    pub fn publish<'a>(text: &'a str) -> (publication: Publication<'a>)
        ensures
            publication == (Publication {
                text,
                stage: PublishStage::Owner(OwnerStart { stage: OwnerStage::Check }),
            }),
            publication.wf(),
    {
        Publication { text, stage: PublishStage::Owner(ensure_owner()) }
    }

    /// Whether a consumer actually read the clipboard, `woken` being the reads when the wait for
    /// one ended.
    ///
    /// `false` means the paste never reached the target, which is itself useful: the caller can
    /// report that instead of silently assuming success.
    pub fn wait_for_read(&self, woken: Option<Reads>) -> (read: bool)
        ensures
            read == (woken is Some && woken->0.seen()),
    {
        match woken {
            Some(reads) => reads.rendered,
            None => false,
        }
    }

    /// Begins to wait for the first read, then until reads have been quiet for `quiet`.
    ///
    /// The result is the number of reads observed, or `None` if none arrived within `timeout`.
    pub fn wait_for_reads_to_settle(&self, timeout: Delay, quiet: Delay) -> (wait: ReadWait)
        ensures
            wait == (ReadWait { target_only: false, timeout, quiet, stage: WaitStage::Await }),
    {
        ReadWait { target_only: false, timeout, quiet, stage: WaitStage::Await }
    }

    /// Number of times a consumer has asked for the data since publishing.
    pub fn read_count(&self, reads: Option<Reads>) -> (count: u32)
        ensures
            count == match reads {
                Some(reads) => reads.count(),
                None => 0,
            },
    {
        match reads {
            Some(reads) => reads.render_count,
            None => 0,
        }
    }

    /// Records that the paste has now been triggered.
    ///
    /// Anything that reads the clipboard, a clipboard manager or a history service, satisfies the
    /// promise, so a read observed *before* the paste says nothing about the target. Marking here
    /// lets [`Offer::wait_for_target_read`] ignore those and wait for a read caused by the paste.
    pub fn mark_paste_sent(&self, state: &mut State)
        ensures
            final(state).promised() == old(state).promised(),
            final(state).observed().valid(),
            final(state).observed().count() == old(state).observed().count(),
            final(state).observed().mark() == old(state).observed().count(),
            final(state).observed().seen() == old(state).observed().seen(),
            final(state).observed().last() == old(state).observed().last(),
    {
        let reads = state.reads;
        proof {
            use_type_invariant(&reads);
        }
        state.reads = Reads {
            rendered: reads.rendered,
            render_count: reads.render_count,
            last_render: reads.last_render,
            baseline: reads.render_count,
        };
    }

    /// Whether the promise was already materialized before the paste was sent.
    ///
    /// Once *any* consumer forces the render, the clipboard holds real data and Windows sends no
    /// further `WM_RENDERFORMAT`. The target's read is then unobservable: not delayed, gone. A
    /// clipboard manager that archives every change causes exactly this, so callers must have a
    /// fallback rather than waiting for a signal that can never arrive.
    pub fn consumed_before_paste(&self, reads: Option<Reads>) -> (consumed: bool)
        ensures
            consumed == (reads is Some && reads->0.mark() > 0),
    {
        match reads {
            Some(reads) => reads.baseline > 0,
            None => false,
        }
    }

    /// Whether the clipboard still holds this offer, promised or rendered: once another process has
    /// taken the clipboard, the promise is void.
    pub fn still_offered(&self, state: &State) -> (ours: bool)
        ensures
            ours == (state.promised() is Some),
    {
        state.pending.is_some()
    }

    /// Begins to wait for a read that happened *after* [`Offer::mark_paste_sent`], then for reads
    /// to settle.
    ///
    /// Cannot be satisfied by a clipboard manager that read the promise the moment it was
    /// published. The result is `None` if no such read arrives, which includes the case where the
    /// promise was already consumed; [`Offer::consumed_before_paste`] tells those apart.
    pub fn wait_for_target_read(&self, timeout: Delay, quiet: Delay) -> (wait: ReadWait)
        ensures
            wait == (ReadWait { target_only: true, timeout, quiet, stage: WaitStage::Await }),
    {
        ReadWait { target_only: true, timeout, quiet, stage: WaitStage::Await }
    }
}

} // verus!
