//! What holds of the owner window over all callers in a process, concurrent ones included.
//!
//! The callers share two values: a flag that the start of the window's thread is claimed, and the
//! handle that the thread stores once its window exists. A history of the process is any
//! interleaving of the callers' steps and of that store.

use vstd::prelude::*;

use crate::delayed::{OwnerCall, OwnerReply, OwnerStage, OwnerStart};
use crate::error::Error;
use crate::protocol::Protocol;

verus! {

/// A process: its callers, each looking up the owner window, and what they share.
pub struct Process {
    /// Where each caller stands.
    pub callers: Map<int, OwnerStart>,
    /// Whether the start of the thread is claimed.
    pub claimed: bool,
    /// How many threads were started.
    pub threads: nat,
    /// How many of them have stored the handle of their window.
    pub stored: nat,
    /// The stored handle, zero while there is none.
    pub handle: isize,
}

/// What can happen in a process.
pub enum OwnerEvent {
    /// A caller begins to look up the window, see [`crate::delayed::ensure_owner`].
    Begin {
        /// Which one.
        caller: int,
    },
    /// The pending call of a caller is answered.
    Answer {
        /// Which one.
        caller: int,
        /// The answer.
        reply: OwnerReply,
    },
    /// A thread that was started stores the handle of the window that it created.
    Store {
        /// The handle.
        handle: isize,
    },
}

impl Process {
    /// A process in which nobody has looked up the window yet.
    pub open spec fn fresh(self) -> bool {
        &&& self.callers == Map::<int, OwnerStart>::empty()
        &&& !self.claimed
        &&& self.threads == 0
        &&& self.stored == 0
        &&& self.handle == 0
    }

    /// Whether a reply to the pending call of a caller is true of what the callers share.
    pub open spec fn truly(self, caller: int, reply: OwnerReply) -> bool {
        match self.callers[caller].pending() {
            Some(OwnerCall::LoadHandle) => reply == OwnerReply::Handle(self.handle),
            Some(OwnerCall::Claim) => reply == OwnerReply::Claimed(self.claimed),
            _ => true,
        }
    }

    /// Whether an event can happen now: a caller begins once what it began before is over, replies
    /// are true, and a thread that was started stores the handle of a window once.
    pub open spec fn allows(self, event: OwnerEvent) -> bool {
        match event {
            OwnerEvent::Begin { caller } => self.callers.contains_key(caller)
                ==> self.callers[caller].ended() is Some,
            OwnerEvent::Answer { caller, reply } => {
                &&& self.callers.contains_key(caller)
                &&& self.callers[caller].pending() is Some
                &&& self.callers[caller].fits(reply)
                &&& self.truly(caller, reply)
            },
            OwnerEvent::Store { handle } => handle != 0 && self.stored < self.threads,
        }
    }

    /// The process after an event.
    pub open spec fn after(self, event: OwnerEvent) -> Process {
        match event {
            OwnerEvent::Begin { caller } => Process {
                callers: self.callers.insert(caller, OwnerStart { stage: OwnerStage::Check }),
                ..self
            },
            OwnerEvent::Answer { caller, reply } => {
                let call = self.callers[caller].pending();
                Process {
                    callers: self.callers.insert(caller, self.callers[caller].advance(reply)),
                    claimed: self.claimed || call == Some(OwnerCall::Claim),
                    threads: if call == Some(OwnerCall::Spawn) && reply == OwnerReply::Spawned(
                        true,
                    ) {
                        self.threads + 1
                    } else {
                        self.threads
                    },
                    ..self
                }
            },
            OwnerEvent::Store { handle } => Process { handle, stored: self.stored + 1, ..self },
        }
    }
}

/// The process after a run of events.
pub open spec fn process_after(process: Process, events: Seq<OwnerEvent>) -> Process
    decreases events.len(),
{
    if events.len() == 0 {
        process
    } else {
        process_after(process, events.drop_last()).after(events.last())
    }
}

/// Whether a run of events is a history: each can happen when it does.
pub open spec fn is_history(process: Process, events: Seq<OwnerEvent>) -> bool
    decreases events.len(),
{
    events.len() > 0 ==> is_history(process, events.drop_last()) && process_after(
        process,
        events.drop_last(),
    ).allows(events.last())
}

/// Whether a caller is about to start the thread.
spec fn about_to_start(process: Process, caller: int) -> bool {
    process.callers.contains_key(caller) && process.callers[caller].stage is Spawn
}

/// What holds of every process at every time.
spec fn sound(process: Process) -> bool {
    &&& process.stored <= process.threads <= 1
    &&& process.threads == 1 ==> process.claimed
    &&& process.handle != 0 <==> process.stored == 1
    &&& forall|c: int| #[trigger]
        about_to_start(process, c) ==> process.claimed && process.threads == 0
    &&& forall|c: int, d: int| #[trigger]
        about_to_start(process, c) && #[trigger] about_to_start(process, d) ==> c == d
    &&& forall|c: int| #[trigger]
        process.callers.contains_key(c) ==> (process.callers[c].ended() matches Some(Ok(handle))
            ==> handle != 0 && handle == process.handle)
    &&& forall|c: int| #[trigger]
        process.callers.contains_key(c) ==> (process.callers[c].ended() matches Some(Err(e)) ==> e
            == Error::OwnerWindowFailed)
}

proof fn lemma_sound_step(process: Process, event: OwnerEvent)
    requires
        sound(process),
        process.allows(event),
    ensures
        sound(process.after(event)),
{
    let next = process.after(event);
    assert forall|c: int| #[trigger] about_to_start(next, c) implies next.claimed && next.threads
        == 0 by {
        match event {
            OwnerEvent::Answer { caller, reply } => {
                if caller != c {
                    assert(about_to_start(process, c));
                    if process.callers[caller].stage is Spawn {
                        assert(about_to_start(process, caller));
                    }
                }
            },
            OwnerEvent::Begin { caller } => {
                assert(c != caller);
                assert(about_to_start(process, c));
            },
            OwnerEvent::Store { .. } => {
                assert(about_to_start(process, c));
            },
        }
    }
    assert forall|c: int, d: int| #[trigger]
        about_to_start(next, c) && #[trigger] about_to_start(next, d) implies c == d by {
        match event {
            OwnerEvent::Answer { caller, reply } => {
                if caller != c {
                    assert(about_to_start(process, c));
                }
                if caller != d {
                    assert(about_to_start(process, d));
                }
            },
            OwnerEvent::Begin { caller } => {
                assert(about_to_start(process, c));
                assert(about_to_start(process, d));
            },
            OwnerEvent::Store { .. } => {
                assert(about_to_start(process, c));
                assert(about_to_start(process, d));
            },
        }
    }
    assert forall|c: int| #[trigger] next.callers.contains_key(c) implies (
    next.callers[c].ended() matches Some(Ok(handle)) ==> handle != 0 && handle == next.handle)
        && (next.callers[c].ended() matches Some(Err(e)) ==> e == Error::OwnerWindowFailed) by {
        match event {
            OwnerEvent::Answer { caller, reply } => {
                if caller != c {
                    assert(process.callers.contains_key(c));
                }
            },
            OwnerEvent::Begin { caller } => {
                if caller != c {
                    assert(process.callers.contains_key(c));
                }
            },
            OwnerEvent::Store { .. } => {
                assert(process.callers.contains_key(c));
            },
        }
    }
    if let OwnerEvent::Answer { caller, reply } = event {
        if process.callers[caller].stage is Spawn {
            assert(about_to_start(process, caller));
        }
    }
}

proof fn lemma_sound(start: Process, events: Seq<OwnerEvent>)
    requires
        start.fresh(),
        is_history(start, events),
    ensures
        sound(process_after(start, events)),
    decreases events.len(),
{
    if events.len() > 0 {
        lemma_sound(start, events.drop_last());
        lemma_sound_step(process_after(start, events.drop_last()), events.last());
    }
}

/// At most one owner thread is ever started, however many callers look the window up and however
/// their steps interleave. Whoever gets a window gets the one that this thread created, which is not
/// null; whoever gets none is told that the owner window failed, and nothing else.
pub proof fn law_one_owner_thread(start: Process, events: Seq<OwnerEvent>, caller: int)
    requires
        start.fresh(),
        is_history(start, events),
    ensures
        process_after(start, events).threads <= 1,
        process_after(start, events).callers.contains_key(caller) ==> match process_after(
            start,
            events,
        ).callers[caller].ended() {
            Some(Ok(handle)) => handle != 0 && handle == process_after(start, events).handle,
            Some(Err(e)) => e == Error::OwnerWindowFailed,
            None => true,
        },
{
    lemma_sound(start, events);
}

/// Whether a caller begins among the events.
pub open spec fn begins_in(events: Seq<OwnerEvent>, caller: int) -> bool {
    events.contains(OwnerEvent::Begin { caller })
}

/// How things stand once a caller has been given the window `handle`, `later` being the events since.
spec fn settled(now: Process, later: Seq<OwnerEvent>, threads: nat, handle: isize) -> bool {
    &&& sound(now)
    &&& now.handle == handle
    &&& now.threads == threads
    &&& forall|c: int| #[trigger]
        begins_in(later, c) ==> now.callers.contains_key(c) && (now.callers[c].stage is Check
            || now.callers[c].ended() == Some(Ok::<isize, Error>(handle)))
}

proof fn lemma_settled(now: Process, later: Seq<OwnerEvent>, threads: nat, handle: isize)
    requires
        sound(now),
        now.handle == handle,
        now.threads == threads,
        handle != 0,
        is_history(now, later),
    ensures
        settled(process_after(now, later), later, threads, handle),
    decreases later.len(),
{
    if later.len() > 0 {
        let shorter = later.drop_last();
        let before = process_after(now, shorter);
        let event = later.last();
        let next = before.after(event);
        lemma_settled(now, shorter, threads, handle);
        lemma_sound_step(before, event);
        if let OwnerEvent::Answer { caller, reply } = event {
            if before.callers[caller].stage is Spawn {
                assert(about_to_start(before, caller));
            }
        }
        assert forall|c: int| #[trigger] begins_in(later, c) implies next.callers.contains_key(c)
            && (next.callers[c].stage is Check || next.callers[c].ended() == Some(
            Ok::<isize, Error>(handle),
        )) by {
            let k = choose|k: int| 0 <= k < later.len() && later[k] == (OwnerEvent::Begin {
                caller: c,
            });
            if k < shorter.len() {
                assert(shorter[k] == later[k]);
                assert(begins_in(shorter, c));
            }
        }
    }
}

/// The owner window is reused: once a caller was given a window, every caller that begins later is
/// given the same one and nothing else, the window is not null, and no thread is started any more.
pub proof fn law_owner_window_is_reused(
    start: Process,
    earlier: Seq<OwnerEvent>,
    later: Seq<OwnerEvent>,
    first: int,
    handle: isize,
    caller: int,
)
    requires
        start.fresh(),
        is_history(start, earlier),
        is_history(process_after(start, earlier), later),
        process_after(start, earlier).callers.contains_key(first),
        process_after(start, earlier).callers[first].ended() == Some(Ok::<isize, Error>(handle)),
        begins_in(later, caller),
    ensures
        handle != 0,
        ({
            let then = process_after(start, earlier);
            let now = process_after(then, later);
            &&& now.threads == then.threads
            &&& now.handle == handle
            &&& now.callers.contains_key(caller)
            &&& now.callers[caller].ended() matches Some(result) ==> result == Ok::<isize, Error>(
                handle,
            )
        }),
{
    let then = process_after(start, earlier);
    lemma_sound(start, earlier);
    assert(then.callers.contains_key(first));
    lemma_settled(then, later, then.threads, handle);
    assert(begins_in(later, caller));
}

} // verus!
