//! What holds of every promise and every wait for its reads.

use vstd::prelude::*;

use crate::clipboard::{Access, AccessStage, ClipboardCall, ClipboardReply, Task};
use crate::delayed::{Offer, OwnerCall, OwnerReply, OwnerStage, OwnerStart, Publication,
    PublishCall, PublishReply, PublishStage, ReadWait, Reads, WaitCall, WaitReply, WaitStage,
    OWNER_POLLS};
use crate::error::Error;
use crate::options::Delay;
use crate::protocol::Protocol;

verus! {

/// What can happen to a promise once it is published.
pub enum ReadEvent {
    /// A consumer asked for the data.
    Render,
    /// The paste was triggered.
    Mark,
}

/// How one event changes what is known of the reads. This is what
/// [`crate::delayed::State::note_render`] and [`Offer::mark_paste_sent`] promise.
pub open spec fn follows(before: Reads, event: ReadEvent, after: Reads) -> bool {
    match event {
        ReadEvent::Render => after.count() == before.count() + 1 && after.mark() == before.mark(),
        ReadEvent::Mark => after.count() == before.count() && after.mark() == before.count(),
    }
}

/// How many of the events are reads.
pub open spec fn renders(events: Seq<ReadEvent>) -> nat
    decreases events.len(),
{
    if events.len() == 0 {
        0
    } else {
        renders(events.drop_last()) + if events.last() is Render {
            1nat
        } else {
            0nat
        }
    }
}

/// The events before the last mark, none where the paste was never triggered.
pub open spec fn before_mark(events: Seq<ReadEvent>) -> Seq<ReadEvent>
    decreases events.len(),
{
    if events.len() == 0 {
        seq![]
    } else if events.last() is Mark {
        events.drop_last()
    } else {
        before_mark(events.drop_last())
    }
}

/// Reads are told apart by the paste: after any run of events on a fresh promise, the count is the
/// number of reads, the mark is the number of reads before the paste, and so a read counts as the
/// target's exactly when it came after the paste, and the promise counts as consumed exactly when
/// one came before.
pub proof fn law_reads_are_told_apart(known: Seq<Reads>, events: Seq<ReadEvent>)
    requires
        known.len() == events.len() + 1,
        known[0].count() == 0,
        known[0].mark() == 0,
        forall|i: int| #![trigger events[i]]
            0 <= i < events.len() ==> follows(known[i], events[i], known[i + 1]),
    ensures
        known.last().count() == renders(events),
        known.last().mark() == renders(before_mark(events)),
        known.last().arrived(true) <==> renders(events) > renders(before_mark(events)),
        known.last().mark() > 0 <==> renders(before_mark(events)) > 0,
    decreases events.len(),
{
    if events.len() > 0 {
        let n = events.len() - 1;
        let shorter = events.drop_last();
        assert forall|i: int| #![trigger shorter[i]] 0 <= i < shorter.len() implies follows(
            known.drop_last()[i],
            shorter[i],
            known.drop_last()[i + 1],
        ) by {
            assert(events[i] == shorter[i]);
        }
        law_reads_are_told_apart(known.drop_last(), shorter);
        assert(follows(known[n], events[n], known[n + 1]));
    }
}

/// While a wait goes on past its first read, that read has arrived.
proof fn lemma_wait_trail(p: ReadWait, replies: Seq<WaitReply>)
    requires
        p.stage is Await,
        crate::protocol::answers(p, replies),
    ensures
        ({
            let now = crate::protocol::after(p, replies);
            let n = replies.len() as int;
            &&& now == ReadWait { stage: now.stage, ..p }
            &&& now.stage is Await <==> n == 0
            &&& now.stage is Observe || now.stage is Pause || now.stage is Tally
                ==> replies[0] is Reads && replies[0]->Reads_0 is Some
                && replies[0]->Reads_0->0.arrived(p.target_only)
            &&& now.stage is Pause || now.stage is Tally ==> n >= 2 && replies[n - 1] is Observed
            &&& now.stage is Observe ==> replies[n - 1] is Reads || replies[n - 1] is Finished
            &&& now.stage is Tally ==> {
                let reads = replies[n - 1]->Observed_reads;
                &&& reads is Some && reads->0.last() is Some
                &&& crate::delayed::elapsed(reads->0.last()->0, replies[n - 1]->Observed_now)
                    >= p.quiet.nanos
            }
            &&& now.stage matches WaitStage::Pause(delay) ==> {
                let reads = replies[n - 1]->Observed_reads;
                &&& reads is Some && reads->0.last() is Some
                &&& delay.nanos > 0
                &&& delay.nanos + crate::delayed::elapsed(
                    reads->0.last()->0,
                    replies[n - 1]->Observed_now,
                ) == p.quiet.nanos
            }
        }),
    decreases replies.len(),
{
    if replies.len() > 0 {
        lemma_wait_trail(p, replies.drop_last());
    }
}

/// A wait that reports reads has seen one that counts, has then observed the reads quiet for the
/// whole quiet period, and reports their tally.
pub proof fn law_settled_reads(p: ReadWait, replies: Seq<WaitReply>, count: u32)
    requires
        p.stage is Await,
        crate::protocol::completes(p, replies),
        crate::protocol::after(p, replies).ended() == Some(Some(count)),
    ensures
        replies.len() >= 3,
        replies[0] is Reads && replies[0]->Reads_0 is Some,
        replies[0]->Reads_0->0.arrived(p.target_only),
        ({
            let n = replies.len() as int;
            let quiet = replies[n - 2]->Observed_reads;
            &&& replies[n - 2] is Observed && quiet is Some && quiet->0.last() is Some
            &&& crate::delayed::elapsed(quiet->0.last()->0, replies[n - 2]->Observed_now)
                >= p.quiet.nanos
            &&& replies[n - 1] is Reads && replies[n - 1]->Reads_0 is Some
            &&& count == p.tally(replies[n - 1]->Reads_0->0)
        }),
{
    let shorter = replies.drop_last();
    lemma_wait_trail(p, shorter);
    assert(replies.len() >= 3);
    assert(shorter[0] == replies[0]);
    assert(shorter[replies.len() - 2] == replies[replies.len() - 2]);
}

/// A wait for the target is never satisfied by reads before the paste: where no read has come since
/// the mark when the first wait ends, the answer is that none came, and nothing else is asked.
pub proof fn law_unread_wait_reports_none(p: ReadWait, replies: Seq<WaitReply>)
    requires
        p.stage is Await,
        crate::protocol::answers(p, replies),
        replies.len() > 0,
        replies[0] matches WaitReply::Reads(Some(reads)) ==> !reads.arrived(p.target_only),
    ensures
        crate::protocol::after(p, replies).ended() == Some(None::<u32>),
        crate::protocol::calls(p, replies) == seq![
            WaitCall::AwaitRead { target_only: p.target_only, timeout: p.timeout },
        ],
{
    let next = p.advance(replies[0]);
    crate::protocol::lemma_first_step(p, replies);
    if replies.len() > 1 {
        crate::protocol::lemma_first_step(next, replies.skip(1));
    } else {
        assert(replies.skip(1) =~= Seq::<WaitReply>::empty());
        assert(crate::protocol::calls(next, replies.skip(1)) =~= seq![]);
    }
}

/// Between two looks the wait sleeps exactly as long as the quiet period still lacks.
pub proof fn law_sleep_fills_quiet_period(p: ReadWait, replies: Seq<WaitReply>, i: int, delay: Delay)
    requires
        p.stage is Await,
        crate::protocol::answers(p, replies),
        0 <= i < replies.len(),
        crate::protocol::calls(p, replies)[i] == WaitCall::Sleep(delay),
    ensures
        i > 0,
        replies[i - 1] is Observed,
        ({
            let reads = replies[i - 1]->Observed_reads;
            &&& reads is Some && reads->0.last() is Some
            &&& delay.nanos > 0
            &&& delay.nanos + crate::delayed::elapsed(
                reads->0.last()->0,
                replies[i - 1]->Observed_now,
            ) == p.quiet.nanos
        }),
{
    crate::protocol::lemma_prefix(p, replies, i);
    lemma_wait_trail(p, replies.take(i));
    assert(replies.take(i)[i - 1] == replies[i - 1]);
}

/// Where starting the owner window stands, by the number of replies and what they were.
proof fn lemma_owner_trail(p: OwnerStart, replies: Seq<OwnerReply>)
    requires
        p.stage is Check,
        crate::protocol::answers(p, replies),
    ensures
        ({
            let now = crate::protocol::after(p, replies);
            let n = replies.len() as int;
            let spawned = n >= 2 && replies[1] == OwnerReply::Claimed(false);
            let base: int = if spawned {
                3
            } else {
                2
            };
            &&& now.wf()
            &&& now.stage is Check <==> n == 0
            &&& n >= 1 && now.stage !is Over ==> replies[0] == OwnerReply::Handle(0)
            &&& now.stage is Claim <==> n == 1 && now.stage !is Over
            &&& now.stage is Spawn <==> n == 2 && spawned
            &&& now.stage matches OwnerStage::Poll { attempt } ==> n == base + 2 * attempt
            &&& now.stage matches OwnerStage::Pause { attempt } ==> n == base + 2 * attempt + 1
            &&& now.stage is Poll || now.stage is Pause ==> n >= 2 && (replies[1]
                == OwnerReply::Claimed(true) || (spawned && n >= 3 && replies[2]
                == OwnerReply::Spawned(true)))
            &&& now.stage is Poll || now.stage is Pause ==> forall|i: int|
                base <= i < n && (#[trigger] replies[i]) is Handle ==> replies[i]
                    == OwnerReply::Handle(0)
        }),
    decreases replies.len(),
{
    if replies.len() > 0 {
        let shorter = replies.drop_last();
        lemma_owner_trail(p, shorter);
        let before = crate::protocol::after(p, shorter);
        let n = replies.len() as int;
        assert(n >= 2 ==> shorter[0] == replies[0]);
        assert(n >= 3 ==> shorter[1] == replies[1]);
        assert(n >= 4 ==> shorter[2] == replies[2]);
        assert forall|i: int| 0 <= i < n - 1 implies (#[trigger] replies[i]) == shorter[i] by {}
    }
}

/// An owner window that exists is reused: its handle comes back at once, and no thread is started.
pub proof fn law_owner_is_reused(p: OwnerStart, replies: Seq<OwnerReply>, handle: isize)
    requires
        p.stage is Check,
        crate::protocol::answers(p, replies),
        replies.len() > 0,
        replies[0] == OwnerReply::Handle(handle),
        handle != 0,
    ensures
        crate::protocol::calls(p, replies) == seq![OwnerCall::LoadHandle],
        crate::protocol::after(p, replies).ended() == Some(Ok::<isize, Error>(handle)),
{
    let next = p.advance(replies[0]);
    crate::protocol::lemma_first_step(p, replies);
    if replies.len() > 1 {
        crate::protocol::lemma_first_step(next, replies.skip(1));
    } else {
        assert(replies.skip(1) =~= Seq::<OwnerReply>::empty());
        assert(crate::protocol::calls(next, replies.skip(1)) =~= seq![]);
    }
}

/// The owner window's thread is started only by the caller that claimed the start, and once.
pub proof fn law_owner_starts_once(p: OwnerStart, replies: Seq<OwnerReply>, i: int)
    requires
        p.stage is Check,
        crate::protocol::answers(p, replies),
        0 <= i < replies.len(),
        crate::protocol::calls(p, replies)[i] is Spawn,
    ensures
        i == 2,
        replies[1] == OwnerReply::Claimed(false),
{
    crate::protocol::lemma_prefix(p, replies, i);
    lemma_owner_trail(p, replies.take(i));
}

/// A handle that comes back is a real one: it is not null, and it is the last one that was loaded.
/// There is none only where the thread could not be started, or where two hundred looks for the
/// handle found nothing.
pub proof fn law_owner_result(p: OwnerStart, replies: Seq<OwnerReply>)
    requires
        p.stage is Check,
        crate::protocol::completes(p, replies),
    ensures
        replies.len() > 0,
        match crate::protocol::after(p, replies).ended()->0 {
            Ok(handle) => handle != 0 && replies.last() == OwnerReply::Handle(handle),
            Err(e) => e == Error::OwnerWindowFailed && (replies.last() == OwnerReply::Spawned(
                false,
            ) || {
                let base: int = if replies[1] == OwnerReply::Claimed(false) {
                    3
                } else {
                    2
                };
                &&& replies.len() == base + 2 * OWNER_POLLS
                &&& forall|i: int|
                    base <= i < replies.len() && (#[trigger] replies[i]) is Handle ==> replies[i]
                        == OwnerReply::Handle(0)
            }),
        },
{
    let shorter = replies.drop_last();
    lemma_owner_trail(p, shorter);
    let n = replies.len() as int;
    assert forall|i: int| 0 <= i < n - 1 implies (#[trigger] replies[i]) == shorter[i] by {}
    assert(n >= 3 ==> shorter[1] == replies[1]);
}

/// The answers to the clipboard access inside a publication.
pub open spec fn inner(replies: Seq<PublishReply>) -> Seq<ClipboardReply> {
    replies.map_values(|r: PublishReply| r->Clipboard_0)
}

/// A publication that has reached the clipboard is that clipboard access, call by call.
proof fn lemma_publication_runs_access<'a>(
    p: Publication<'a>,
    access: Access<'a>,
    replies: Seq<PublishReply>,
)
    requires
        p.stage == PublishStage::Clipboard(access),
        access.ended() is None,
        crate::protocol::answers(p, replies),
    ensures
        crate::protocol::answers(access, inner(replies)),
        crate::protocol::calls(p, replies) == crate::protocol::calls(
            access,
            inner(replies),
        ).map_values(|c: ClipboardCall<'a>| PublishCall::Clipboard(c)),
        crate::protocol::after(p, replies) == (Publication {
            stage: match crate::protocol::after(access, inner(replies)).ended() {
                None => PublishStage::Clipboard(crate::protocol::after(access, inner(replies))),
                Some(Ok(_)) => PublishStage::Over(Ok(Offer {  })),
                Some(Err(e)) => PublishStage::Over(Err(e)),
            },
            ..p
        }),
    decreases replies.len(),
{
    let to_publish = |c: ClipboardCall<'a>| PublishCall::Clipboard(c);
    if replies.len() == 0 {
        assert(inner(replies) =~= Seq::<ClipboardReply>::empty());
        assert(crate::protocol::calls(p, replies) =~= crate::protocol::calls(
            access,
            inner(replies),
        ).map_values(to_publish));
    } else {
        let shorter = replies.drop_last();
        lemma_publication_runs_access(p, access, shorter);
        crate::protocol::lemma_last_step(p, replies);
        assert(inner(replies).drop_last() =~= inner(shorter));
        assert(inner(replies).last() == replies.last()->Clipboard_0);
        crate::protocol::lemma_last_step(access, inner(replies));
        assert(crate::protocol::calls(p, replies) =~= crate::protocol::calls(
            access,
            inner(replies),
        ).map_values(to_publish));
    }
}

/// Whether call number `n` recorded the promise of the text, and everything behind it is a successful
/// publishing access for the window `owner`, in which the text was recorded anew after the clipboard
/// was emptied and before the promise was set.
pub open spec fn published_from<'a>(
    p: Publication<'a>,
    replies: Seq<PublishReply>,
    owner: isize,
    n: int,
) -> bool {
    let access = Access {
        task: Task::Publish { owner, text: p.text },
        stage: AccessStage::Opening { attempt: 0 },
    };
    let rest = inner(replies.skip(n + 1));
    &&& 0 <= n < replies.len()
    &&& crate::protocol::calls(p, replies)[n] == PublishCall::Record(p.text)
    &&& replies[n] == PublishReply::Recorded(true)
    &&& crate::protocol::completes(access, rest)
    &&& crate::protocol::after(access, rest).ended() matches Some(Ok(_))
    &&& exists|j: int| #[trigger]
        crate::clipboard_laws::promised_at(
            crate::protocol::calls(access, rest),
            rest,
            p.text,
            j,
        )
    &&& crate::protocol::calls(p, replies).skip(n + 1) == crate::protocol::calls(
        access,
        rest,
    ).map_values(|c: ClipboardCall<'a>| PublishCall::Clipboard(c))
}

/// A publication keeps the order that makes its promise sound: where it succeeds there is an owner
/// window, the text was recorded before the clipboard was touched, and again once the clipboard was
/// empty and before the promise was set, and the promise was then confirmed.
pub proof fn law_publication_keeps_its_order<'a>(
    p: Publication<'a>,
    replies: Seq<PublishReply>,
)
    requires
        p.stage matches PublishStage::Owner(start) && start.ended() is None,
        crate::protocol::completes(p, replies),
        crate::protocol::after(p, replies).ended() matches Some(Ok(_)),
    ensures
        exists|owner: isize, n: int| #[trigger]
            published_from(p, replies, owner, n) && owner != 0,
{
    lemma_publication(p, replies);
}

proof fn lemma_publication<'a>(p: Publication<'a>, replies: Seq<PublishReply>)
    requires
        ({
            ||| p.stage matches PublishStage::Owner(start) && start.ended() is None
            ||| p.stage matches PublishStage::Record { owner } && owner != 0
        }),
        crate::protocol::completes(p, replies),
        crate::protocol::after(p, replies).ended() matches Some(Ok(_)),
    ensures
        exists|owner: isize, n: int| #[trigger]
            published_from(p, replies, owner, n) && owner != 0,
    decreases replies.len(),
{
    assert(replies.len() > 0);
    let next = p.advance(replies[0]);
    let rest = replies.skip(1);
    let all = crate::protocol::calls(p, replies);
    crate::protocol::lemma_first_step(p, replies);
    if p.stage is Record {
        let owner = p.stage->owner;
        if replies[0] == PublishReply::Recorded(true) {
            let access = Access {
                task: Task::Publish { owner, text: p.text },
                stage: AccessStage::Opening { attempt: 0 },
            };
            lemma_publication_runs_access(next, access, rest);
            crate::clipboard_laws::law_promise_is_confirmed(access, inner(rest));
            assert(all.skip(1) =~= crate::protocol::calls(next, rest));
            assert(published_from(p, replies, owner, 0));
        } else {
            if rest.len() > 0 {
                crate::protocol::lemma_first_step(next, rest);
            }
        }
    } else {
        if next.stage is Over {
            if rest.len() > 0 {
                crate::protocol::lemma_first_step(next, rest);
            }
        } else {
            lemma_publication(next, rest);
            let (owner, n) = choose|owner: isize, n: int|
                published_from(next, rest, owner, n) && owner != 0;
            assert(rest.skip(n + 1) =~= replies.skip(n + 2));
            assert(all.skip(n + 2) =~= crate::protocol::calls(next, rest).skip(n + 1));
            assert(all[n + 1] == crate::protocol::calls(next, rest)[n]);
            assert(published_from(p, replies, owner, n + 1));
        }
    }
}

/// A publication fails only where there is no owner window, the record is unusable, the promise was
/// not taken, or the clipboard was locked or failed.
pub proof fn law_publication_errors<'a>(p: Publication<'a>, replies: Seq<PublishReply>)
    requires
        p.stage matches PublishStage::Owner(start) && start.stage is Check,
        crate::protocol::answers(p, replies),
    ensures
        crate::protocol::after(p, replies).ended() matches Some(Err(e)) ==> crate::inject::publish_can_fail(e),
{
    lemma_publication_trail(p, replies);
}

/// Which failures a publication that stands at `stage` has behind it.
spec fn publication_sound(stage: PublishStage) -> bool {
    match stage {
        PublishStage::Owner(start) => start.ended() is None,
        PublishStage::Record { .. } => true,
        PublishStage::Clipboard(access) => {
            &&& access.wf() && access.ended() is None
            &&& access.task is Publish
            &&& access.stage matches AccessStage::Closing { result: Err(e) } ==> crate::inject::publish_can_fail(e)
            &&& access.stage !is AllocatingText && access.stage !is SettingText
        },
        PublishStage::Over(Err(e)) => crate::inject::publish_can_fail(e),
        PublishStage::Over(Ok(_)) => true,
    }
}

proof fn lemma_publication_trail<'a>(p: Publication<'a>, replies: Seq<PublishReply>)
    requires
        p.stage matches PublishStage::Owner(start) && start.stage is Check,
        crate::protocol::answers(p, replies),
    ensures
        publication_sound(crate::protocol::after(p, replies).stage),
    decreases replies.len(),
{
    if replies.len() > 0 {
        lemma_publication_trail(p, replies.drop_last());
    }
}

/// The read that is awaited has come: for the target one behind the mark, else any.
pub proof fn law_arrived_means_read(reads: Reads)
    requires
        reads.valid(),
    ensures
        reads.arrived(true) <==> reads.count() - reads.mark() >= 1,
        reads.arrived(false) <==> reads.count() >= 1,
        reads.mark() <= reads.count(),
        reads.count() >= 1 <==> reads.last() is Some,
{
}

/// The time that has passed never exceeds the clock, and is the difference of two readings where
/// the clock runs forward.
pub proof fn law_elapsed_is_the_difference(earlier: u128, now: u128)
    ensures
        earlier <= now ==> crate::delayed::elapsed(earlier, now) == now - earlier,
        now <= earlier ==> crate::delayed::elapsed(earlier, now) == 0,
{
}

/// Whether a reply says that the record is unusable, or holds no read to measure from.
pub open spec fn unusable(reply: WaitReply) -> bool {
    match reply {
        WaitReply::Reads(reads) => reads is None,
        WaitReply::Observed { reads, .. } => reads is None || reads->0.last() is None,
        WaitReply::Finished => false,
    }
}

/// What each reply of a wait leads to. A read that has arrived is followed by a look at the reads. A
/// look that finds them quiet for long enough is followed by the tally, one that does not by a sleep
/// for what is lacking, and that by another look. The tally is the result.
pub proof fn law_wait_goes_on(p: ReadWait, replies: Seq<WaitReply>, i: int)
    requires
        p.stage is Await,
        crate::protocol::answers(p, replies),
        0 <= i < replies.len(),
    ensures
        ({
            let call = crate::protocol::calls(p, replies)[i];
            let next = crate::protocol::after(p, replies.take(i + 1));
            &&& i == 0 <==> call is AwaitRead
            &&& i == 0 ==> call == (WaitCall::AwaitRead {
                target_only: p.target_only,
                timeout: p.timeout,
            })
            &&& call is AwaitRead ==> (replies[i] matches WaitReply::Reads(Some(reads))
                ==> reads.valid() && (if p.target_only {
                reads.count() > reads.mark()
            } else {
                reads.count() > 0
            }) ==> next.pending() == Some(WaitCall::Observe))
            &&& call is Observe ==> (replies[i] matches WaitReply::Observed {
                reads: Some(reads),
                now,
            } ==> (reads.last() matches Some(last) ==> if now - last >= p.quiet.nanos
                || p.quiet.nanos == 0 {
                next.pending() == Some(WaitCall::Tally)
            } else {
                &&& next.pending() matches Some(WaitCall::Sleep(delay))
                &&& delay.nanos == if now > last {
                    p.quiet.nanos - (now - last)
                } else {
                    p.quiet.nanos as int
                }
            }))
            &&& call is Sleep ==> next.pending() == Some(WaitCall::Observe)
            &&& call is Tally ==> (replies[i] matches WaitReply::Reads(Some(reads))
                ==> reads.valid() ==> {
                &&& next.ended() matches Some(Some(n))
                &&& n as int == if p.target_only {
                    reads.count() - reads.mark()
                } else {
                    reads.count() as int
                }
            })
            &&& unusable(replies[i]) ==> next.ended() == Some(None::<u32>)
        }),
{
    crate::protocol::lemma_prefix(p, replies, i);
    lemma_wait_trail(p, replies.take(i));
    assert(replies.take(i + 1).drop_last() =~= replies.take(i));
    assert(replies.take(i + 1).last() == replies[i]);
}

/// Whether no reply behind the first says that the record is unusable.
pub open spec fn usable_throughout(replies: Seq<WaitReply>) -> bool {
    forall|i: int| 1 <= i < replies.len() ==> !unusable(#[trigger] replies[i])
}

/// While the record stays usable, a wait whose read has arrived does not report that none came.
proof fn lemma_arrived_wait(p: ReadWait, replies: Seq<WaitReply>)
    requires
        p.stage is Await,
        crate::protocol::answers(p, replies),
        replies.len() > 0,
        replies[0] matches WaitReply::Reads(Some(reads)) && reads.arrived(p.target_only),
        usable_throughout(replies),
    ensures
        ({
            let now = crate::protocol::after(p, replies);
            &&& now == ReadWait { stage: now.stage, ..p }
            &&& now.stage !is Await
            &&& replies.len() == 1 ==> now.stage is Observe
            &&& now.stage matches WaitStage::Over(result) ==> {
                &&& replies.len() >= 3
                &&& replies.last() matches WaitReply::Reads(Some(reads))
                &&& result == Some(p.tally(reads))
            }
        }),
    decreases replies.len(),
{
    if replies.len() > 1 {
        let shorter = replies.drop_last();
        assert(shorter[0] == replies[0]);
        assert forall|i: int| 1 <= i < shorter.len() implies !unusable(#[trigger] shorter[i]) by {
            assert(shorter[i] == replies[i]);
        }
        assert(!unusable(replies[replies.len() - 1]));
        lemma_arrived_wait(p, shorter);
    } else {
        assert(replies.drop_last() =~= Seq::<WaitReply>::empty());
        reveal_with_fuel(crate::protocol::after, 2);
    }
}

/// A wait whose read has arrived reports it. Where the first reply says that the awaited read has
/// come, for the target one behind the mark, the wait does not end there; with a usable record it
/// ends in the number of reads, for the target of those behind the mark, and that is at least one
/// where the last count says so. It ends in none only where a later reply says that the record is
/// unusable.
pub proof fn law_arrived_read_is_reported(p: ReadWait, replies: Seq<WaitReply>, first: Reads)
    requires
        p.stage is Await,
        crate::protocol::completes(p, replies),
        replies.len() > 0,
        replies[0] == WaitReply::Reads(Some(first)),
        first.valid(),
        if p.target_only {
            first.count() > first.mark()
        } else {
            first.count() > 0
        },
    ensures
        replies.len() > 1,
        crate::protocol::calls(p, replies)[1] == WaitCall::Observe,
        crate::protocol::after(p, replies).ended() == Some(None::<u32>) ==> exists|i: int|
            1 <= i < replies.len() && unusable(#[trigger] replies[i]),
        usable_throughout(replies) ==> {
            &&& replies.last() matches WaitReply::Reads(Some(reads))
            &&& reads.valid() ==> {
                &&& crate::protocol::after(p, replies).ended() matches Some(Some(n))
                &&& n as int == if p.target_only {
                    reads.count() - reads.mark()
                } else {
                    reads.count() as int
                }
                &&& (if p.target_only {
                    reads.count() > reads.mark()
                } else {
                    reads.count() > 0
                }) ==> n >= 1
            }
        },
{
    law_wait_goes_on(p, replies, 0);
    if replies.len() == 1 {
        assert(replies.take(1) =~= replies);
    } else {
        crate::protocol::lemma_prefix(p, replies, 1);
    }
    if usable_throughout(replies) {
        lemma_arrived_wait(p, replies);
    } else {
        let i = choose|i: int| 1 <= i < replies.len() && unusable(#[trigger] replies[i]);
        assert(unusable(replies[i]));
    }
}

/// A wait takes every answer: any reads at any time.
pub proof fn law_wait_takes_every_answer(p: ReadWait, reads: Option<Reads>, now: u128)
    ensures
        match p.pending() {
            Some(WaitCall::AwaitRead { .. }) => p.fits(WaitReply::Reads(reads)),
            Some(WaitCall::Observe) => p.fits(WaitReply::Observed { reads, now }),
            Some(WaitCall::Sleep(_)) => p.fits(WaitReply::Finished),
            Some(WaitCall::Tally) => p.fits(WaitReply::Reads(reads)),
            None => true,
        },
{
}

/// The lookup of the owner window takes every answer.
pub proof fn law_owner_takes_every_answer(p: OwnerStart, handle: isize, yes: bool)
    ensures
        match p.pending() {
            Some(OwnerCall::LoadHandle) => p.fits(OwnerReply::Handle(handle)),
            Some(OwnerCall::Claim) => p.fits(OwnerReply::Claimed(yes)),
            Some(OwnerCall::Spawn) => p.fits(OwnerReply::Spawned(yes)),
            Some(OwnerCall::Sleep { .. }) => p.fits(OwnerReply::Finished),
            None => true,
        },
{
}

/// What each reply of a lookup leads to: a handle ends it at once, wherever it appears; without one
/// the start is claimed, by the first caller carried out, and the handle looked for again after each
/// wait of five milliseconds, two hundred times in all.
pub proof fn law_owner_lookup_goes_on(p: OwnerStart, replies: Seq<OwnerReply>, i: int)
    requires
        p.stage is Check,
        crate::protocol::answers(p, replies),
        0 <= i < replies.len(),
    ensures
        ({
            let call = crate::protocol::calls(p, replies)[i];
            let next = crate::protocol::after(p, replies.take(i + 1));
            match replies[i] {
                OwnerReply::Handle(handle) => {
                    &&& call is LoadHandle
                    &&& handle != 0 ==> next.ended() == Some(Ok::<isize, Error>(handle))
                    &&& handle == 0 && i == 0 ==> next.pending() == Some(OwnerCall::Claim)
                    &&& handle == 0 && i > 0 ==> next.pending() == Some(
                        OwnerCall::Sleep { millis: 5 },
                    )
                },
                OwnerReply::Claimed(already) => i == 1 && next.pending() == Some(
                    if already {
                        OwnerCall::LoadHandle
                    } else {
                        OwnerCall::Spawn
                    },
                ),
                OwnerReply::Spawned(started) => if started {
                    next.pending() == Some(OwnerCall::LoadHandle)
                } else {
                    next.ended() == Some(Err::<isize, Error>(Error::OwnerWindowFailed))
                },
                OwnerReply::Finished => {
                    let first: int = if replies[1] == OwnerReply::Claimed(false) {
                        3
                    } else {
                        2
                    };
                    &&& call == (OwnerCall::Sleep { millis: 5 })
                    &&& i + 1 < first + 400 ==> next.pending() == Some(OwnerCall::LoadHandle)
                    &&& i + 1 >= first + 400 ==> next.ended() == Some(
                        Err::<isize, Error>(Error::OwnerWindowFailed),
                    )
                },
            }
        }),
{
    crate::protocol::lemma_prefix(p, replies, i);
    lemma_owner_trail(p, replies.take(i));
    assert(replies.take(i + 1).drop_last() =~= replies.take(i));
    assert(replies.take(i + 1).last() == replies[i]);
    if i >= 2 {
        assert(replies.take(i)[1] == replies[1]);
    }
}

/// The answers to the lookup of the owner window inside a publication.
pub open spec fn owner_part(replies: Seq<PublishReply>) -> Seq<OwnerReply> {
    replies.map_values(|r: PublishReply| r->Owner_0)
}

/// Whether a publication is what its parts make of it, the first `n` replies being those of the
/// lookup: a failed lookup is its failure. Behind a lookup that found `owner` comes the record; one
/// that is unusable means that the owner window failed. Behind the record everything is the clipboard
/// access that publishes `text` for `owner`, and the publication ends as that does.
pub open spec fn is_its_parts<'a>(
    p: Publication<'a>,
    start: OwnerStart,
    replies: Seq<PublishReply>,
    n: int,
) -> bool {
    let lookup = owner_part(replies.take(n));
    let result = crate::protocol::after(p, replies).ended();
    let all = crate::protocol::calls(p, replies);
    &&& 0 < n <= replies.len()
    &&& forall|i: int| 0 <= i < n ==> (#[trigger] replies[i]) is Owner
    &&& crate::protocol::completes(start, lookup)
    &&& all.take(n) == crate::protocol::calls(start, lookup).map_values(
        |c: OwnerCall| PublishCall::<'a>::Owner(c),
    )
    &&& match crate::protocol::after(start, lookup).ended()->0 {
        Err(e) => n == replies.len() && result == Some(Err::<Offer, Error>(e)),
        Ok(owner) => {
            let access = Access {
                task: Task::Publish { owner, text: p.text },
                stage: AccessStage::Opening { attempt: 0 },
            };
            let rest = inner(replies.skip(n + 1));
            &&& n < replies.len()
            &&& all[n] == PublishCall::Record(p.text)
            &&& replies[n] is Recorded
            &&& replies[n] == PublishReply::Recorded(false) ==> n + 1 == replies.len() && result
                == Some(Err::<Offer, Error>(Error::OwnerWindowFailed))
            &&& replies[n] == PublishReply::Recorded(true) ==> {
                &&& crate::protocol::completes(access, rest)
                &&& all.skip(n + 1) == crate::protocol::calls(access, rest).map_values(
                    |c: ClipboardCall<'a>| PublishCall::Clipboard(c),
                )
                &&& result == match crate::protocol::after(access, rest).ended()->0 {
                    Ok(_) => Some(Ok::<Offer, Error>(Offer {  })),
                    Err(e) => Some(Err::<Offer, Error>(e)),
                }
            }
        },
    }
}

proof fn lemma_parts_behind_record<'a>(
    p: Publication<'a>,
    owner: isize,
    replies: Seq<PublishReply>,
)
    requires
        p.stage == (PublishStage::Record { owner }),
        crate::protocol::completes(p, replies),
    ensures
        ({
            let access = Access {
                task: Task::Publish { owner, text: p.text },
                stage: AccessStage::Opening { attempt: 0 },
            };
            let rest = inner(replies.skip(1));
            let result = crate::protocol::after(p, replies).ended();
            let all = crate::protocol::calls(p, replies);
            &&& replies.len() > 0
            &&& all[0] == PublishCall::Record(p.text)
            &&& replies[0] is Recorded
            &&& replies[0] == PublishReply::Recorded(false) ==> replies.len() == 1 && result
                == Some(Err::<Offer, Error>(Error::OwnerWindowFailed))
            &&& replies[0] == PublishReply::Recorded(true) ==> {
                &&& crate::protocol::completes(access, rest)
                &&& all.skip(1) == crate::protocol::calls(access, rest).map_values(
                    |c: ClipboardCall<'a>| PublishCall::Clipboard(c),
                )
                &&& result == match crate::protocol::after(access, rest).ended()->0 {
                    Ok(_) => Some(Ok::<Offer, Error>(Offer {  })),
                    Err(e) => Some(Err::<Offer, Error>(e)),
                }
            }
        }),
{
    let all = crate::protocol::calls(p, replies);
    assert(replies.len() > 0);
    let next = p.advance(replies[0]);
    let rest = replies.skip(1);
    crate::protocol::lemma_first_step(p, replies);
    if replies[0] == PublishReply::Recorded(true) {
        let access = Access {
            task: Task::Publish { owner, text: p.text },
            stage: AccessStage::Opening { attempt: 0 },
        };
        lemma_publication_runs_access(next, access, rest);
        assert(all.skip(1) =~= crate::protocol::calls(next, rest));
        crate::clipboard_laws::law_open_is_retried(access, inner(rest));
    } else {
        if rest.len() > 0 {
            crate::protocol::lemma_first_step(next, rest);
        }
    }
}

proof fn lemma_parts<'a>(p: Publication<'a>, start: OwnerStart, replies: Seq<PublishReply>)
    requires
        p.stage == PublishStage::<'a>::Owner(start),
        start.ended() is None,
        crate::protocol::completes(p, replies),
    ensures
        exists|n: int| #[trigger] is_its_parts(p, start, replies, n),
    decreases replies.len(),
{
    assert(replies.len() > 0);
    let r = replies[0]->Owner_0;
    let next = p.advance(replies[0]);
    let rest = replies.skip(1);
    let all = crate::protocol::calls(p, replies);
    crate::protocol::lemma_first_step(p, replies);
    let moved = start.advance(r);
    if moved.ended() is None {
        lemma_parts(next, moved, rest);
        let n = choose|n: int| is_its_parts(next, moved, rest, n);
        let lookup = owner_part(replies.take(n + 1));
        assert(lookup.skip(1) =~= owner_part(rest.take(n)));
        assert(lookup[0] == r);
        crate::protocol::lemma_first_step(start, lookup);
        let to_publish = |c: OwnerCall| PublishCall::<'a>::Owner(c);
        assert(all.take(n + 1) =~= crate::protocol::calls(start, lookup).map_values(
            to_publish,
        )) by {
            let tail = crate::protocol::calls(next, rest).take(n);
            assert(all.take(n + 1) =~= seq![all[0]] + tail);
        }
        assert forall|i: int| 0 <= i < n + 1 implies (#[trigger] replies[i]) is Owner by {
            if i > 0 {
                assert(rest[i - 1] == replies[i]);
            }
        }
        if n < rest.len() {
            assert(rest.skip(n + 1) =~= replies.skip(n + 2));
            assert(all.skip(n + 2) =~= crate::protocol::calls(next, rest).skip(n + 1));
            assert(all[n + 1] == crate::protocol::calls(next, rest)[n]);
            assert(rest[n] == replies[n + 1]);
        }
        assert(is_its_parts(p, start, replies, n + 1));
    } else {
        let lookup = owner_part(replies.take(1));
        assert(lookup.len() == 1 && lookup[0] == r);
        assert(lookup.skip(1) =~= Seq::<OwnerReply>::empty());
        crate::protocol::lemma_first_step(start, lookup);
        assert(all.take(1) =~= crate::protocol::calls(start, lookup).map_values(
            |c: OwnerCall| PublishCall::<'a>::Owner(c),
        )) by {
            assert(crate::protocol::calls(start.advance(r), lookup.skip(1)) =~= seq![]);
        }
        if next.stage is Over {
            if rest.len() > 0 {
                crate::protocol::lemma_first_step(next, rest);
            }
        } else {
            lemma_parts_behind_record(next, moved.ended()->0->Ok_0, rest);
            assert(rest.skip(1) =~= replies.skip(2));
            assert(all.skip(2) =~= crate::protocol::calls(next, rest).skip(1));
            assert(all[1] == crate::protocol::calls(next, rest)[0]);
        }
        assert(is_its_parts(p, start, replies, 1));
    }
}

/// A publication is what its parts make of it: it succeeds exactly where the owner window was found,
/// the promise was recorded and the clipboard access succeeded, and fails with the failure of the
/// part that failed.
pub proof fn law_publication_is_its_parts<'a>(p: Publication<'a>, replies: Seq<PublishReply>)
    requires
        p.stage == PublishStage::<'a>::Owner(OwnerStart { stage: OwnerStage::Check }),
        crate::protocol::completes(p, replies),
    ensures
        exists|n: int| #[trigger]
            is_its_parts(p, OwnerStart { stage: OwnerStage::Check }, replies, n),
{
    lemma_parts(p, OwnerStart { stage: OwnerStage::Check }, replies);
}

/// A publication takes every answer that its parts take, and a record that is usable or not.
pub proof fn law_publication_takes_every_answer<'a>(
    p: Publication<'a>,
    owner: OwnerReply,
    access: ClipboardReply,
    yes: bool,
)
    ensures
        match p.stage {
            PublishStage::Owner(start) => start.fits(owner) ==> p.fits(PublishReply::Owner(owner)),
            PublishStage::Record { .. } => p.fits(PublishReply::Recorded(yes)),
            PublishStage::Clipboard(inside) => inside.fits(access) ==> p.fits(
                PublishReply::Clipboard(access),
            ),
            PublishStage::Over(_) => p.pending() is None,
        },
{
}

} // verus!
