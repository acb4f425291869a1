//! What holds of every injection, whatever the system replies.

use vstd::prelude::*;

use crate::error::{Error, OsError};
use crate::inject::{InjectCall, InjectReply, Injection, Stage};
use crate::options::{Chord, ClipboardOnlyReason, Delay, Options, Outcome, Strategy};
use crate::protocol::Protocol;
use crate::target::{Integrity, Target};

verus! {

/// Whether `p` has not made a call yet.
pub open spec fn fresh(p: Injection) -> bool {
    p.stage == if p.options.require_same_target {
        Stage::Focus
    } else {
        Stage::Level
    }
}

/// The checks that open every injection.
pub open spec fn checks<'a>(p: Injection<'a>) -> Seq<InjectCall<'a>> {
    if p.options.require_same_target {
        seq![InjectCall::ForegroundWindow, InjectCall::OwnIntegrity]
    } else {
        seq![InjectCall::OwnIntegrity]
    }
}

/// What precedes a paste: the checks, and the snapshot where the clipboard is to be restored.
pub open spec fn opening<'a>(p: Injection<'a>) -> Seq<InjectCall<'a>> {
    if p.options.restore_clipboard {
        checks(p).push(InjectCall::Capture)
    } else {
        checks(p)
    }
}

/// The calls of a paste by promise, but for the restore, where no read was observed.
pub open spec fn promise<'a>(p: Injection<'a>) -> Seq<InjectCall<'a>> {
    seq![
        InjectCall::Publish(p.text),
        InjectCall::Sleep(p.options.pre_paste),
        InjectCall::Sanitize,
        InjectCall::MarkPasteSent,
        InjectCall::SendChord(p.chord),
        InjectCall::WaitForTargetRead {
            timeout: p.options.read_timeout,
            quiet: p.options.read_quiet,
        },
        InjectCall::ConsumedBeforePaste,
    ]
}

/// The calls of a paste by timer, but for the restore.
pub open spec fn timer<'a>(p: Injection<'a>) -> Seq<InjectCall<'a>> {
    seq![
        InjectCall::WriteText(p.text),
        InjectCall::SequenceNumber,
        InjectCall::Sleep(p.options.pre_paste),
        InjectCall::Sanitize,
        InjectCall::SendChord(p.chord),
        InjectCall::Sleep(p.options.post_paste),
    ]
}

/// The calls of a paste by promise, up to the question whose the clipboard is.
pub open spec fn awaited<'a>(p: Injection<'a>, confirmed: bool) -> Seq<InjectCall<'a>> {
    if confirmed {
        opening(p) + promise(p).take(6)
    } else {
        opening(p) + promise(p)
    }
}

/// The calls that lie behind an injection that stands at `stage`.
pub open spec fn history<'a>(p: Injection<'a>, stage: Stage) -> Seq<InjectCall<'a>> {
    match stage {
        Stage::Focus => seq![],
        Stage::Level => checks(p).drop_last(),
        Stage::Leave(_) => checks(p),
        Stage::TypeRelease => checks(p),
        Stage::Type => checks(p).push(InjectCall::Sanitize),
        Stage::Snapshot => checks(p),
        Stage::Publish { .. } => opening(p),
        Stage::PromiseSettle { .. } => opening(p) + promise(p).take(1),
        Stage::PromiseRelease { .. } => opening(p) + promise(p).take(2),
        Stage::Mark { .. } => opening(p) + promise(p).take(3),
        Stage::PromiseChord { .. } => opening(p) + promise(p).take(4),
        Stage::Await { .. } => opening(p) + promise(p).take(5),
        Stage::Consumed { .. } => opening(p) + promise(p).take(6),
        Stage::Ours { confirmed } => awaited(p, confirmed),
        Stage::Restore { confirmed } => awaited(p, confirmed).push(InjectCall::StillOffered),
        Stage::Write { .. } => opening(p),
        Stage::Number { .. } => opening(p) + timer(p).take(1),
        Stage::TimerSettle { .. } => opening(p) + timer(p).take(2),
        Stage::TimerRelease { .. } => opening(p) + timer(p).take(3),
        Stage::TimerChord { .. } => opening(p) + timer(p).take(4),
        Stage::TimerGrace { .. } => opening(p) + timer(p).take(5),
        Stage::TimerRestore { .. } => opening(p) + timer(p),
        Stage::Over(_) => seq![],
    }
}

/// Whether a stage belongs to the strategy and the kind of paste that the caller chose.
pub open spec fn chosen(p: Injection, stage: Stage) -> bool {
    match stage {
        Stage::Focus => p.options.require_same_target,
        Stage::Level => true,
        Stage::Leave(reason) => reason == ClipboardOnlyReason::ElevatedTarget || p.options.strategy
            == Strategy::ClipboardOnly,
        Stage::TypeRelease => p.options.strategy == Strategy::UnicodeType,
        Stage::Type => p.options.strategy == Strategy::UnicodeType,
        Stage::Snapshot => p.options.strategy == Strategy::ClipboardPaste
            && p.options.restore_clipboard,
        Stage::Publish { .. } | Stage::PromiseSettle { .. } | Stage::PromiseRelease { .. }
        | Stage::Mark { .. } | Stage::PromiseChord { .. } | Stage::Await { .. } | Stage::Consumed {
            ..
        } | Stage::Ours { .. } | Stage::Restore { .. } => p.options.strategy
            == Strategy::ClipboardPaste && p.options.delayed_render,
        Stage::Write { .. } | Stage::Number { .. } | Stage::TimerSettle { .. }
        | Stage::TimerRelease { .. } | Stage::TimerChord { .. } | Stage::TimerGrace { .. }
        | Stage::TimerRestore { .. } => p.options.strategy == Strategy::ClipboardPaste
            && !p.options.delayed_render,
        Stage::Over(_) => true,
    }
}

proof fn lemma_take_next<A>(head: Seq<A>, tail: Seq<A>, n: int)
    requires
        0 <= n < tail.len(),
    ensures
        (head + tail.take(n)).push(tail[n]) == head + tail.take(n + 1),
        head + tail.take(0) == head,
        head + tail.take(tail.len() as int) == head + tail,
{
    assert((head + tail.take(n)).push(tail[n]) =~= head + tail.take(n + 1));
    assert(head + tail.take(0) =~= head);
    assert(tail.take(tail.len() as int) =~= tail);
}

/// Each step adds the call that was pending to what lies behind.
proof fn lemma_history_grows<'a>(p: Injection<'a>, before: Injection<'a>, reply: InjectReply)
    requires
        before == (Injection { stage: before.stage, ..p }),
        chosen(p, before.stage),
        before.fits(reply),
        before.next_stage(reply) !is Over,
    ensures
        history(p, before.next_stage(reply)) == history(p, before.stage).push(before.pending()->0),
{
    let next = before.next_stage(reply);
    match before.stage {
        Stage::Focus => {
            assert(history(p, next) =~= history(p, before.stage).push(before.pending()->0));
        },
        Stage::Level => {
            assert(checks(p) =~= checks(p).drop_last().push(InjectCall::OwnIntegrity));
        },
        Stage::Publish { .. } => lemma_take_next(opening(p), promise(p), 0),
        Stage::PromiseSettle { .. } => lemma_take_next(opening(p), promise(p), 1),
        Stage::PromiseRelease { .. } => lemma_take_next(opening(p), promise(p), 2),
        Stage::Mark { .. } => lemma_take_next(opening(p), promise(p), 3),
        Stage::PromiseChord { .. } => lemma_take_next(opening(p), promise(p), 4),
        Stage::Await { .. } => lemma_take_next(opening(p), promise(p), 5),
        Stage::Consumed { .. } => lemma_take_next(opening(p), promise(p), 6),
        Stage::Write { .. } => lemma_take_next(opening(p), timer(p), 0),
        Stage::Number { .. } => lemma_take_next(opening(p), timer(p), 1),
        Stage::TimerSettle { .. } => lemma_take_next(opening(p), timer(p), 2),
        Stage::TimerRelease { .. } => lemma_take_next(opening(p), timer(p), 3),
        Stage::TimerChord { .. } => lemma_take_next(opening(p), timer(p), 4),
        Stage::TimerGrace { .. } => lemma_take_next(opening(p), timer(p), 5),
        _ => {},
    }
}

/// The calls of an injection come in one fixed order: where it stands says which calls lie behind
/// it, and it never strays from what the caller chose.
pub proof fn lemma_call_order<'a>(p: Injection<'a>, replies: Seq<InjectReply>)
    requires
        fresh(p),
        crate::protocol::answers(p, replies),
    ensures
        ({
            let now = crate::protocol::after(p, replies);
            &&& now == Injection { stage: now.stage, ..p }
            &&& chosen(p, now.stage)
            &&& now.stage !is Over ==> crate::protocol::calls(p, replies) == history(p, now.stage)
        }),
    decreases replies.len(),
{
    if replies.len() == 0 {
        assert(crate::protocol::calls(p, replies) =~= seq![]);
        assert(history(p, p.stage) =~= seq![]);
    } else {
        let shorter = replies.drop_last();
        let before = crate::protocol::after(p, shorter);
        let now = crate::protocol::after(p, replies);
        lemma_call_order(p, shorter);
        crate::protocol::lemma_last_step(p, replies);
        if now.stage !is Over {
            lemma_history_grows(p, before, replies.last());
        }
    }
}

/// Whether a stage comes after both checks.
pub open spec fn cleared(stage: Stage) -> bool {
    stage !is Focus && stage !is Level && stage !is Over
}

/// Whether there is a snapshot to restore at `stage`, `None` where that is not settled yet or no
/// longer matters.
pub open spec fn snapshot_at(stage: Stage) -> Option<bool> {
    match stage {
        Stage::Publish { saved } => Some(saved),
        Stage::PromiseSettle { saved } => Some(saved),
        Stage::PromiseRelease { saved } => Some(saved),
        Stage::Mark { saved } => Some(saved),
        Stage::PromiseChord { saved } => Some(saved),
        Stage::Await { saved } => Some(saved),
        Stage::Consumed { saved } => Some(saved),
        Stage::Ours { .. } => Some(true),
        Stage::Restore { .. } => Some(true),
        Stage::Write { saved } => Some(saved),
        Stage::Number { saved } => Some(saved),
        Stage::TimerSettle { saved, .. } => Some(saved),
        Stage::TimerRelease { saved, .. } => Some(saved),
        Stage::TimerChord { saved, .. } => Some(saved),
        Stage::TimerGrace { saved, .. } => Some(saved),
        Stage::TimerRestore { .. } => Some(true),
        _ => None,
    }
}

/// The sequence number that a paste by timer has noted.
pub open spec fn noted_at(stage: Stage) -> Option<u32> {
    match stage {
        Stage::TimerSettle { ours, .. } => Some(ours),
        Stage::TimerRelease { ours, .. } => Some(ours),
        Stage::TimerChord { ours, .. } => Some(ours),
        Stage::TimerGrace { ours, .. } => Some(ours),
        Stage::TimerRestore { ours } => Some(ours),
        _ => None,
    }
}

/// Whether a paste by promise is about to end, with the target's read confirmed or not.
pub open spec fn ends_as(stage: Stage, confirmed: bool) -> bool {
    stage == (Stage::Ours { confirmed }) || stage == (Stage::Restore { confirmed })
}

/// What the replies behind an injection that stands at `stage` must have been.
pub open spec fn trail(p: Injection, stage: Stage, replies: Seq<InjectReply>) -> bool {
    let k = checks(p).len() as int;
    let o = opening(p).len() as int;
    &&& p.options.require_same_target && (stage is Level || cleared(stage)) ==> replies[0]
        == InjectReply::Window(p.hwnd)
    &&& cleared(stage) ==> replies[k - 1] is Level
    &&& cleared(stage) ==> (stage == Stage::Leave(ClipboardOnlyReason::ElevatedTarget)
        <==> !crate::target::permits(p.integrity, replies[k - 1]->Level_0))
    &&& snapshot_at(stage) == Some(true) ==> p.options.restore_clipboard && replies[k]
        == InjectReply::Captured(true)
    &&& snapshot_at(stage) == Some(false) && p.options.restore_clipboard ==> replies[k]
        == InjectReply::Captured(false)
    &&& stage is Consumed || ends_as(stage, false) ==> replies[o + 5] == InjectReply::Reads(None)
    &&& ends_as(stage, true) ==> replies[o + 5] is Reads && replies[o + 5]->Reads_0 is Some
    &&& ends_as(stage, false) ==> replies[o + 6] == InjectReply::Consumed(true)
    &&& stage is Restore ==> replies.last() == InjectReply::Offered(true)
    &&& noted_at(stage) is Some ==> replies[o + 1] == InjectReply::Sequence(noted_at(stage)->0)
}

/// Whether a reply reports the success of a call that can fail.
pub open spec fn succeeded(reply: InjectReply) -> bool {
    reply is Status && reply->Status_0 is Ok
}

/// Whether no reply so far reported a failure.
pub open spec fn unfailed(replies: Seq<InjectReply>) -> bool {
    forall|i: int|
        0 <= i < replies.len() && (#[trigger] replies[i]) is Status ==> succeeded(replies[i])
}

/// While an injection goes on, the replies behind it are those that lead to where it stands, and
/// none of them reported a failure.
pub proof fn lemma_trail<'a>(p: Injection<'a>, replies: Seq<InjectReply>)
    requires
        fresh(p),
        crate::protocol::answers(p, replies),
        crate::protocol::after(p, replies).stage !is Over,
    ensures
        trail(p, crate::protocol::after(p, replies).stage, replies),
        unfailed(replies),
        crate::protocol::calls(p, replies).len() == replies.len(),
    decreases replies.len(),
{
    lemma_call_order(p, replies);
    if replies.len() > 0 {
        let shorter = replies.drop_last();
        let before = crate::protocol::after(p, shorter);
        lemma_call_order(p, shorter);
        lemma_trail(p, shorter);
        assert(crate::protocol::calls(p, shorter).len() == shorter.len());
        assert(unfailed(replies)) by {
            assert forall|i: int|
                0 <= i < replies.len() && (#[trigger] replies[i]) is Status implies succeeded(
                replies[i],
            ) by {
                if i < shorter.len() {
                    assert(shorter[i] == replies[i]);
                }
            }
        }
    }
}

/// Where the injection stood when call number `i` was made.
pub proof fn lemma_when_called<'a>(p: Injection<'a>, replies: Seq<InjectReply>, i: int) -> (now:
    Injection<'a>)
    requires
        fresh(p),
        crate::protocol::answers(p, replies),
        0 <= i < replies.len(),
    ensures
        now == crate::protocol::after(p, replies.take(i)),
        now == (Injection { stage: now.stage, ..p }),
        now.stage !is Over,
        now.pending() == Some(crate::protocol::calls(p, replies)[i]),
        now.fits(replies[i]),
        chosen(p, now.stage),
        crate::protocol::calls(p, replies).take(i) == history(p, now.stage),
        history(p, now.stage).len() == i,
        trail(p, now.stage, replies.take(i)),
        unfailed(replies.take(i)),
{
    let now = crate::protocol::after(p, replies.take(i));
    crate::protocol::lemma_prefix(p, replies, i);
    lemma_call_order(p, replies.take(i));
    lemma_trail(p, replies.take(i));
    now
}

/// Whether a call sends keystrokes that reach the target.
pub open spec fn sends_keys(call: InjectCall) -> bool {
    call is SendChord || call is TypeText
}

/// Whether a call changes the clipboard.
pub open spec fn touches_clipboard(call: InjectCall) -> bool {
    call is WriteText || call is Publish || call is Restore || call is RestoreIfOurs
}

/// Modifiers are released before any keystroke: a successful [`InjectCall::Sanitize`] precedes
/// every chord and all typing.
pub proof fn law_modifiers_released_before_keys<'a>(
    p: Injection<'a>,
    replies: Seq<InjectReply>,
    i: int,
)
    requires
        fresh(p),
        crate::protocol::answers(p, replies),
        0 <= i < replies.len(),
        sends_keys(crate::protocol::calls(p, replies)[i]),
    ensures
        exists|j: int|
            0 <= j < i && crate::protocol::calls(p, replies)[j] is Sanitize && succeeded(
                #[trigger] replies[j],
            ),
{
    let all = crate::protocol::calls(p, replies);
    let now = lemma_when_called(p, replies, i);
    let o = opening(p).len() as int;
    let j: int = match now.stage {
        Stage::PromiseChord { .. } => o + 2,
        Stage::TimerChord { .. } => o + 3,
        _ => checks(p).len() as int,
    };
    assert(history(p, now.stage)[j] is Sanitize);
    assert(all.take(i)[j] == all[j]);
    let earlier = lemma_when_called(p, replies, j);
    assert(replies.take(i)[j] == replies[j]);
}

/// Nothing is sent and nothing is written before both checks have passed: our own level is always
/// asked first, and where the caller pins the target, the captured window still held the
/// foreground.
pub proof fn law_checks_come_first<'a>(p: Injection<'a>, replies: Seq<InjectReply>, i: int)
    requires
        fresh(p),
        crate::protocol::answers(p, replies),
        0 <= i < replies.len(),
        sends_keys(crate::protocol::calls(p, replies)[i]) || touches_clipboard(
            crate::protocol::calls(p, replies)[i],
        ),
    ensures
        i >= checks(p).len(),
        crate::protocol::calls(p, replies).take(checks(p).len() as int) == checks(p),
        replies[checks(p).len() - 1] is Level,
        p.options.require_same_target ==> replies[0] == InjectReply::Window(p.hwnd),
{
    let all = crate::protocol::calls(p, replies);
    let k = checks(p).len() as int;
    let now = lemma_when_called(p, replies, i);
    assert(history(p, now.stage).len() >= k);
    assert(history(p, now.stage).take(k) =~= checks(p));
    assert(all.take(i).take(k) =~= all.take(k));
    assert(replies.take(i)[k - 1] == replies[k - 1]);
    assert(replies.take(i)[0] == replies[0]);
}

/// No keystroke is ever sent to a target above our own level.
pub proof fn law_no_keys_into_elevated_target<'a>(
    p: Injection<'a>,
    replies: Seq<InjectReply>,
    i: int,
)
    requires
        fresh(p),
        crate::protocol::answers(p, replies),
        0 <= i < replies.len(),
        sends_keys(crate::protocol::calls(p, replies)[i]),
    ensures
        crate::target::permits(p.integrity, replies[checks(p).len() - 1]->Level_0),
{
    law_checks_come_first(p, replies, i);
    let now = lemma_when_called(p, replies, i);
    let k = checks(p).len() as int;
    assert(replies.take(i)[k - 1] == replies[k - 1]);
}

/// When focus has moved, the injection fails at once: nothing is asked, written or sent after the
/// first check.
pub proof fn law_focus_change_aborts<'a>(p: Injection<'a>, replies: Seq<InjectReply>)
    requires
        fresh(p),
        p.options.require_same_target,
        crate::protocol::answers(p, replies),
        replies.len() > 0,
        replies[0] != InjectReply::Window(p.hwnd),
    ensures
        crate::protocol::calls(p, replies) == seq![InjectCall::<'a>::ForegroundWindow],
        crate::protocol::after(p, replies).ended() == Some(
            Err::<Outcome, Error>(Error::FocusChanged),
        ),
{
    let next = p.advance(replies[0]);
    crate::protocol::lemma_first_step(p, replies);
    if replies.len() > 1 {
        crate::protocol::lemma_first_step(next, replies.skip(1));
    } else {
        assert(replies.skip(1) =~= Seq::<InjectReply>::empty());
        assert(crate::protocol::calls(next, replies.skip(1)) =~= seq![]);
    }
}

/// An elevated target gets nothing but an honest answer: once its level turns out to be above ours,
/// the only call left is the clipboard write, and when that succeeds the outcome says that the user
/// must paste.
pub proof fn law_elevated_target_left_to_user<'a>(p: Injection<'a>, replies: Seq<InjectReply>)
    requires
        fresh(p),
        crate::protocol::completes(p, replies),
        replies.len() >= checks(p).len(),
        replies[checks(p).len() - 1] is Level,
        !crate::target::permits(p.integrity, replies[checks(p).len() - 1]->Level_0),
    ensures
        crate::protocol::calls(p, replies) == checks(p).push(InjectCall::WriteText(p.text)),
        replies.last() is Status,
        crate::protocol::after(p, replies).ended() == Some(
            match replies.last()->Status_0 {
                Ok(_) => Ok::<Outcome, Error>(
                    Outcome::ClipboardOnly(ClipboardOnlyReason::ElevatedTarget),
                ),
                Err(e) => Err::<Outcome, Error>(e),
            },
        ),
{
    let all = crate::protocol::calls(p, replies);
    let k = checks(p).len() as int;
    let at_level = lemma_when_called(p, replies, k - 1);
    assert(at_level.stage is Level);
    if replies.len() == k {
        assert(replies.take(k - 1) =~= replies.drop_last());
    } else {
        let at_write = lemma_when_called(p, replies, k);
        assert(replies.take(k).drop_last() =~= replies.take(k - 1));
        assert(replies.take(k).last() == replies[k - 1]);
        assert(at_write.stage == Stage::Leave(ClipboardOnlyReason::ElevatedTarget));
        if replies.len() > k + 1 {
            let later = lemma_when_called(p, replies, k + 1);
            assert(replies.take(k + 1).drop_last() =~= replies.take(k));
            assert(false);
        }
        assert(replies.take(k) =~= replies.drop_last());
        assert(all =~= all.take(k).push(all[k]));
    }
}

/// The clipboard is restored by promise only when that is safe: there is a snapshot, the clipboard
/// was found to be still ours right before, and either a read caused by the paste was observed, or
/// the promise had been consumed before the paste and the read timeout has passed.
pub proof fn law_restore_follows_read<'a>(p: Injection<'a>, replies: Seq<InjectReply>, i: int)
    requires
        fresh(p),
        crate::protocol::answers(p, replies),
        0 <= i < replies.len(),
        crate::protocol::calls(p, replies)[i] is Restore,
    ensures
        exists|j: int|
            0 <= j < i && crate::protocol::calls(p, replies)[j] is Capture && #[trigger] replies[j]
                == InjectReply::Captured(true),
        ({
            let all = crate::protocol::calls(p, replies);
            &&& i >= 3
            &&& all[i - 1] is StillOffered && replies[i - 1] == InjectReply::Offered(true)
            &&& {
                ||| all[i - 2] is WaitForTargetRead && replies[i - 2] is Reads && replies[i
                    - 2]->Reads_0 is Some
                ||| all[i - 3] is WaitForTargetRead && replies[i - 3] == InjectReply::Reads(None)
                    && all[i - 2] is ConsumedBeforePaste && replies[i - 2]
                    == InjectReply::Consumed(true)
            }
        }),
{
    let all = crate::protocol::calls(p, replies);
    let now = lemma_when_called(p, replies, i);
    let k = checks(p).len() as int;
    let o = opening(p).len() as int;
    assert(opening(p)[k] is Capture);
    assert(all.take(i)[k] == all[k]);
    assert(replies.take(i)[k] == replies[k]);
    assert(all.take(i)[i - 1] == all[i - 1]);
    assert(replies.take(i)[i - 1] == replies[i - 1]);
    assert(all.take(i)[i - 2] == all[i - 2]);
    assert(replies.take(i)[i - 2] == replies[i - 2]);
    if now.stage == (Stage::Restore { confirmed: true }) {
        assert(i == o + 7);
    } else {
        assert(i == o + 8);
        assert(all.take(i)[i - 3] == all[i - 3]);
        assert(replies.take(i)[i - 3] == replies[i - 3]);
    }
}

/// A clipboard that is no longer ours is left alone: once the answer is that our offer is gone, the
/// injection ends at once, with the outcome that the reads gave, and the snapshot is not restored.
pub proof fn law_lost_offer_is_not_restored<'a>(
    p: Injection<'a>,
    replies: Seq<InjectReply>,
    i: int,
)
    requires
        fresh(p),
        crate::protocol::completes(p, replies),
        0 <= i < replies.len(),
        crate::protocol::calls(p, replies)[i] is StillOffered,
        replies[i] == InjectReply::Offered(false),
    ensures
        i == replies.len() - 1,
        crate::protocol::after(p, replies).ended() matches Some(Ok(outcome)) && outcome is Pasted,
        forall|j: int|
            0 <= j < replies.len() ==> !((
            #[trigger] crate::protocol::calls(p, replies)[j]) is Restore),
{
    let all = crate::protocol::calls(p, replies);
    let asked = lemma_when_called(p, replies, i);
    if replies.len() > i + 1 {
        let later = lemma_when_called(p, replies, i + 1);
        assert(replies.take(i + 1).drop_last() =~= replies.take(i));
        assert(false);
    }
    assert(replies.take(i) =~= replies.drop_last());
    let now = lemma_before_end(p, replies);
    assert forall|j: int| 0 <= j < replies.len() implies !((#[trigger] all[j]) is Restore) by {
        if all[j] is Restore {
            let restoring = lemma_when_called(p, replies, j);
            assert(j == i);
        }
    }
}

/// The injection with another `post_paste`.
pub open spec fn with_post_paste<'a>(p: Injection<'a>, post_paste: Delay) -> Injection<'a> {
    Injection { options: Options { post_paste, ..p.options }, ..p }
}

/// With delayed rendering `post_paste` is never consulted: injections that differ in it alone make
/// the same calls and end alike, whatever the system replies.
pub proof fn law_post_paste_is_for_the_timer<'a>(
    p: Injection<'a>,
    post_paste: Delay,
    replies: Seq<InjectReply>,
)
    requires
        fresh(p),
        p.options.delayed_render,
        crate::protocol::answers(p, replies),
    ensures
        ({
            let q = with_post_paste(p, post_paste);
            &&& crate::protocol::answers(q, replies)
            &&& crate::protocol::calls(q, replies) == crate::protocol::calls(p, replies)
            &&& crate::protocol::after(q, replies) == with_post_paste(
                crate::protocol::after(p, replies),
                post_paste,
            )
            &&& crate::protocol::after(q, replies).ended() == crate::protocol::after(
                p,
                replies,
            ).ended()
        }),
    decreases replies.len(),
{
    let q = with_post_paste(p, post_paste);
    if replies.len() == 0 {
        assert(crate::protocol::calls(q, replies) =~= crate::protocol::calls(p, replies));
    } else {
        let shorter = replies.drop_last();
        law_post_paste_is_for_the_timer(p, post_paste, shorter);
        crate::protocol::lemma_last_step(p, replies);
        crate::protocol::lemma_last_step(q, replies);
        lemma_call_order(p, shorter);
        let before = crate::protocol::after(p, shorter);
        assert(with_post_paste(before, post_paste).pending() == before.pending());
        assert(with_post_paste(before, post_paste).next_stage(replies.last())
            == before.next_stage(replies.last()));
    }
}

/// The paste is marked right before the chord that a promise waits for, so that no read the chord
/// causes goes uncounted and no read before it counts.
pub proof fn law_paste_marked_before_chord<'a>(p: Injection<'a>, replies: Seq<InjectReply>, i: int)
    requires
        fresh(p),
        crate::protocol::answers(p, replies),
        0 <= i < replies.len(),
        p.options.delayed_render,
        crate::protocol::calls(p, replies)[i] is SendChord,
    ensures
        i > 0,
        crate::protocol::calls(p, replies)[i - 1] is MarkPasteSent,
{
    let all = crate::protocol::calls(p, replies);
    let now = lemma_when_called(p, replies, i);
    assert(all.take(i)[i - 1] == all[i - 1]);
}

/// A timed restore is gated on our own write: the sequence number it checks is the one read right
/// after the text was written.
pub proof fn law_timed_restore_checks_own_write<'a>(
    p: Injection<'a>,
    replies: Seq<InjectReply>,
    i: int,
)
    requires
        fresh(p),
        crate::protocol::answers(p, replies),
        0 <= i < replies.len(),
        crate::protocol::calls(p, replies)[i] is RestoreIfOurs,
    ensures
        exists|j: int|
            0 < j < i && crate::protocol::calls(p, replies)[j] is SequenceNumber
                && #[trigger] replies[j] == InjectReply::Sequence(
                crate::protocol::calls(p, replies)[i]->RestoreIfOurs_0,
            ) && crate::protocol::calls(p, replies)[j - 1] == InjectCall::WriteText(p.text)
                && succeeded(replies[j - 1]),
{
    let all = crate::protocol::calls(p, replies);
    let now = lemma_when_called(p, replies, i);
    let o = opening(p).len() as int;
    assert(all.take(i)[o + 1] == all[o + 1]);
    assert(all.take(i)[o] == all[o]);
    assert(replies.take(i)[o + 1] == replies[o + 1]);
    assert(replies.take(i)[o] == replies[o]);
    let earlier = lemma_when_called(p, replies, o);
    assert(replies[o + 1] == InjectReply::Sequence(all[i]->RestoreIfOurs_0));
}

/// How an injection stood before its last reply, and that the reply ended it.
pub proof fn lemma_before_end<'a>(p: Injection<'a>, replies: Seq<InjectReply>) -> (now: Injection<'a>)
    requires
        fresh(p),
        crate::protocol::completes(p, replies),
    ensures
        replies.len() > 0,
        now == crate::protocol::after(p, replies.drop_last()),
        now == (Injection { stage: now.stage, ..p }),
        now.stage !is Over,
        now.fits(replies.last()),
        chosen(p, now.stage),
        crate::protocol::calls(p, replies) == history(p, now.stage).push(now.pending()->0),
        history(p, now.stage).len() == replies.len() - 1,
        trail(p, now.stage, replies.drop_last()),
        unfailed(replies.drop_last()),
        crate::protocol::after(p, replies).stage == now.next_stage(replies.last()),
        now.next_stage(replies.last()) is Over,
{
    let n = replies.len() - 1;
    let now = lemma_when_called(p, replies, n);
    assert(replies.take(n) =~= replies.drop_last());
    crate::protocol::lemma_last_step(p, replies);
    now
}

/// The outcome of a paste tells the truth about the target's read: it is confirmed exactly when a
/// read caused by the paste was observed.
pub proof fn law_confirmation_is_observed<'a>(
    p: Injection<'a>,
    replies: Seq<InjectReply>,
    confirmed: bool,
)
    requires
        fresh(p),
        crate::protocol::completes(p, replies),
        crate::protocol::after(p, replies).ended() == Some(
            Ok::<Outcome, Error>(Outcome::Pasted { read_confirmed: confirmed }),
        ),
    ensures
        confirmed <==> exists|j: int|
            0 <= j < replies.len() && crate::protocol::calls(p, replies)[j] is WaitForTargetRead
                && (#[trigger] replies[j])->Reads_0 is Some,
        !p.options.delayed_render ==> !confirmed,
{
    let all = crate::protocol::calls(p, replies);
    let now = lemma_before_end(p, replies);
    let o = opening(p).len() as int;
    assert forall|j: int|
        0 <= j < replies.len() && all[j] is WaitForTargetRead && (
        #[trigger] replies[j])->Reads_0 is Some implies confirmed by {
        let waiting = lemma_when_called(p, replies, j);
        assert(waiting.stage is Await);
        assert(j == o + 5);
        if j < replies.len() - 1 {
            assert(replies.drop_last()[j] == replies[j]);
        }
    }
    if confirmed {
        assert(p.options.delayed_render);
        assert(all[o + 5] is WaitForTargetRead);
        if o + 5 < replies.len() - 1 {
            assert(replies.drop_last()[o + 5] == replies[o + 5]);
        }
        assert(replies[o + 5]->Reads_0 is Some);
    }
}

/// A paste that nobody read leaves the transcript on the clipboard: with no read at all, before or
/// after the paste, the injection ends without restoring.
pub proof fn law_unread_transcript_is_kept<'a>(p: Injection<'a>, replies: Seq<InjectReply>, i: int)
    requires
        fresh(p),
        crate::protocol::completes(p, replies),
        0 <= i < replies.len(),
        crate::protocol::calls(p, replies)[i] is ConsumedBeforePaste,
        replies[i] == InjectReply::Consumed(false),
    ensures
        crate::protocol::after(p, replies).ended() == Some(
            Ok::<Outcome, Error>(Outcome::Pasted { read_confirmed: false }),
        ),
        crate::protocol::calls(p, replies) == opening(p) + promise(p),
        forall|j: int|
            0 <= j < replies.len() ==> !((
            #[trigger] crate::protocol::calls(p, replies)[j]) is Restore),
{
    let all = crate::protocol::calls(p, replies);
    let o = opening(p).len() as int;
    let asked = lemma_when_called(p, replies, i);
    assert(asked.stage is Consumed);
    assert(i == o + 6);
    if replies.len() > i + 1 {
        let later = lemma_when_called(p, replies, i + 1);
        assert(replies.take(i + 1).drop_last() =~= replies.take(i));
        assert(false);
    }
    assert(replies.take(i) =~= replies.drop_last());
    let now = lemma_before_end(p, replies);
    lemma_take_next(opening(p), promise(p), 6);
    assert forall|j: int| 0 <= j < replies.len() implies !((#[trigger] all[j]) is Restore) by {
        assert(all[j] == (opening(p) + promise(p))[j]);
    }
}

/// The text is never lost without a word: an injection that needs a manual paste has just written
/// the text to the clipboard and has sent no keystroke, and one that does not has sent the chord
/// or typed the text.
pub proof fn law_outcome_matches_delivery<'a>(
    p: Injection<'a>,
    replies: Seq<InjectReply>,
    outcome: Outcome,
)
    requires
        fresh(p),
        crate::protocol::completes(p, replies),
        crate::protocol::after(p, replies).ended() == Some(Ok::<Outcome, Error>(outcome)),
    ensures
        outcome is ClipboardOnly ==> {
            &&& crate::protocol::calls(p, replies) == checks(p).push(InjectCall::WriteText(p.text))
            &&& succeeded(replies.last())
        },
        outcome is Typed ==> {
            &&& crate::protocol::calls(p, replies) == checks(p).push(InjectCall::Sanitize).push(
                InjectCall::TypeText(p.text),
            )
            &&& unfailed(replies)
        },
        outcome is Pasted ==> {
            &&& crate::protocol::calls(p, replies).contains(InjectCall::SendChord(p.chord))
            &&& crate::protocol::calls(p, replies).contains(
                if p.options.delayed_render {
                    InjectCall::Publish(p.text)
                } else {
                    InjectCall::WriteText(p.text)
                },
            )
            &&& unfailed(replies)
        },
{
    let all = crate::protocol::calls(p, replies);
    let now = lemma_before_end(p, replies);
    let o = opening(p).len() as int;
    assert(unfailed(replies)) by {
        assert forall|i: int|
            0 <= i < replies.len() && (#[trigger] replies[i]) is Status implies succeeded(
            replies[i],
        ) by {
            if i < replies.len() - 1 {
                assert(replies.drop_last()[i] == replies[i]);
            }
        }
    }
    if outcome is Pasted {
        if p.options.delayed_render {
            assert(all[o] == InjectCall::Publish(p.text));
            assert(all[o + 4] == InjectCall::SendChord(p.chord));
        } else {
            assert(all[o] == InjectCall::WriteText(p.text));
            assert(all[o + 4] == InjectCall::SendChord(p.chord));
        }
    }
}

/// A failed injection reports the failure that stopped it, and makes no call after that failure. It
/// reports a change of focus exactly where the focus had changed.
pub proof fn law_first_failure_ends<'a>(p: Injection<'a>, replies: Seq<InjectReply>, error: Error)
    requires
        fresh(p),
        crate::protocol::completes(p, replies),
        crate::protocol::after(p, replies).ended() == Some(Err::<Outcome, Error>(error)),
    ensures
        unfailed(replies.drop_last()),
        error is FocusChanged <==> p.options.require_same_target && replies[0]
            != InjectReply::Window(p.hwnd),
        error is FocusChanged ==> replies.len() == 1,
        error !is FocusChanged ==> replies.last() == InjectReply::Status(Err(error)),
        error !is NoForegroundWindow,
{
    let now = lemma_before_end(p, replies);
    if replies.len() > 1 {
        assert(replies.drop_last()[0] == replies[0]);
    }
}

/// Every injection comes to an end: it makes at most twelve calls.
pub proof fn law_injection_ends<'a>(p: Injection<'a>, replies: Seq<InjectReply>)
    requires
        fresh(p),
        crate::protocol::answers(p, replies),
    ensures
        replies.len() <= 12,
{
    if replies.len() > 0 {
        let now = lemma_when_called(p, replies, replies.len() - 1);
    }
}

/// Whether an injection with a snapshot to restore took one.
pub open spec fn snapshot_taken(p: Injection, replies: Seq<InjectReply>) -> bool {
    p.options.restore_clipboard && replies[checks(p).len() as int] == InjectReply::Captured(true)
}

/// What stood at call number `i` of a complete run, and where its reply led: either that reply ended
/// the run, or call number `i + 1` is the one that is due there.
proof fn lemma_what_follows<'a>(p: Injection<'a>, replies: Seq<InjectReply>, i: int) -> (now:
    Injection<'a>)
    requires
        fresh(p),
        crate::protocol::completes(p, replies),
        0 <= i < replies.len(),
    ensures
        now == crate::protocol::after(p, replies.take(i)),
        now == (Injection { stage: now.stage, ..p }),
        now.stage !is Over,
        now.pending() == Some(crate::protocol::calls(p, replies)[i]),
        now.fits(replies[i]),
        chosen(p, now.stage),
        history(p, now.stage).len() == i,
        trail(p, now.stage, replies.take(i)),
        ({
            let next = now.advance(replies[i]);
            if i + 1 == replies.len() {
                next == crate::protocol::after(p, replies) && next.stage is Over
            } else {
                next.pending() == Some(crate::protocol::calls(p, replies)[i + 1])
            }
        }),
{
    let now = lemma_when_called(p, replies, i);
    if i + 1 == replies.len() {
        assert(replies.take(i) =~= replies.drop_last());
    } else {
        let later = lemma_when_called(p, replies, i + 1);
        assert(replies.take(i + 1).drop_last() =~= replies.take(i));
    }
    now
}

/// A promise that was consumed before the paste is restored, whatever the text and the options are:
/// the next question is whose the clipboard is, where it is still ours the snapshot is restored next
/// and last, and the outcome says that no read was confirmed.
pub proof fn law_consumed_promise_is_restored<'a>(
    p: Injection<'a>,
    replies: Seq<InjectReply>,
    i: int,
)
    requires
        fresh(p),
        crate::protocol::completes(p, replies),
        0 <= i < replies.len(),
        crate::protocol::calls(p, replies)[i] is ConsumedBeforePaste,
        replies[i] == InjectReply::Consumed(true),
        snapshot_taken(p, replies),
    ensures
        i + 1 < replies.len(),
        crate::protocol::calls(p, replies)[i + 1] is StillOffered,
        replies[i + 1] == InjectReply::Offered(true) ==> replies.len() == i + 3
            && crate::protocol::calls(p, replies)[i + 2] is Restore,
        crate::protocol::after(p, replies).ended() == Some(
            Ok::<Outcome, Error>(Outcome::Pasted { read_confirmed: false }),
        ),
{
    let k = checks(p).len() as int;
    let now = lemma_what_follows(p, replies, i);
    assert(replies.take(i)[k] == replies[k]);
    assert(i + 1 < replies.len());
    let asked = lemma_what_follows(p, replies, i + 1);
    if replies[i + 1] == InjectReply::Offered(true) {
        assert(i + 2 < replies.len());
        let restored = lemma_what_follows(p, replies, i + 2);
    }
}

/// A paste whose read was observed is restored: the next question is whose the clipboard is, where
/// it is still ours the snapshot is restored next and last, and the outcome says that the read was
/// confirmed. Without a snapshot the injection ends at once, with the same outcome.
pub proof fn law_observed_read_is_restored<'a>(p: Injection<'a>, replies: Seq<InjectReply>, i: int)
    requires
        fresh(p),
        crate::protocol::completes(p, replies),
        0 <= i < replies.len(),
        crate::protocol::calls(p, replies)[i] is WaitForTargetRead,
        replies[i]->Reads_0 is Some,
    ensures
        snapshot_taken(p, replies) ==> {
            &&& i + 1 < replies.len()
            &&& crate::protocol::calls(p, replies)[i + 1] is StillOffered
            &&& replies[i + 1] == InjectReply::Offered(true) ==> replies.len() == i + 3
                && crate::protocol::calls(p, replies)[i + 2] is Restore
        },
        !snapshot_taken(p, replies) ==> replies.len() == i + 1,
        crate::protocol::after(p, replies).ended() == Some(
            Ok::<Outcome, Error>(Outcome::Pasted { read_confirmed: true }),
        ),
{
    let k = checks(p).len() as int;
    let now = lemma_what_follows(p, replies, i);
    assert(k < i ==> replies.take(i)[k] == replies[k]);
    if i + 1 < replies.len() {
        let asked = lemma_what_follows(p, replies, i + 1);
        if i + 2 < replies.len() {
            let restored = lemma_what_follows(p, replies, i + 2);
        }
    }
}

/// A wait without a read is never the end: whether the promise had been consumed before is asked
/// next.
pub proof fn law_missing_read_is_explained<'a>(p: Injection<'a>, replies: Seq<InjectReply>, i: int)
    requires
        fresh(p),
        crate::protocol::completes(p, replies),
        0 <= i < replies.len(),
        crate::protocol::calls(p, replies)[i] is WaitForTargetRead,
        replies[i] == InjectReply::Reads(None),
    ensures
        i + 1 < replies.len(),
        crate::protocol::calls(p, replies)[i + 1] is ConsumedBeforePaste,
{
    let now = lemma_what_follows(p, replies, i);
}

/// A paste by timer gives the target its time and then restores: behind a chord that was sent comes
/// the wait of `post_paste`, and behind that, where there is a snapshot, the restore that is gated
/// on the number read right after the write, which is the last call. No read is claimed.
pub proof fn law_timed_paste_is_restored<'a>(p: Injection<'a>, replies: Seq<InjectReply>, i: int)
    requires
        fresh(p),
        crate::protocol::completes(p, replies),
        0 <= i < replies.len(),
        !p.options.delayed_render,
        crate::protocol::calls(p, replies)[i] is SendChord,
        succeeded(replies[i]),
    ensures
        i + 1 < replies.len(),
        crate::protocol::calls(p, replies)[i + 1] == InjectCall::Sleep(p.options.post_paste),
        snapshot_taken(p, replies) ==> {
            &&& replies.len() == i + 3
            &&& i >= 3 && crate::protocol::calls(p, replies)[i - 3] is SequenceNumber
            &&& replies[i - 3] is Sequence
            &&& crate::protocol::calls(p, replies)[i + 2] == InjectCall::RestoreIfOurs(
                replies[i - 3]->Sequence_0,
            )
        },
        !snapshot_taken(p, replies) ==> replies.len() == i + 2,
        crate::protocol::after(p, replies).ended() == Some(
            Ok::<Outcome, Error>(Outcome::Pasted { read_confirmed: false }),
        ),
{
    let k = checks(p).len() as int;
    let o = opening(p).len() as int;
    let all = crate::protocol::calls(p, replies);
    let now = lemma_what_follows(p, replies, i);
    assert(i == o + 4);
    assert(k < i ==> replies.take(i)[k] == replies[k]);
    assert(replies.take(i)[o + 1] == replies[o + 1]);
    let noting = lemma_what_follows(p, replies, o + 1);
    assert(noting.stage is Number);
    assert(i + 1 < replies.len());
    let waiting = lemma_what_follows(p, replies, i + 1);
    if i + 2 < replies.len() {
        let restored = lemma_what_follows(p, replies, i + 2);
    }
}

/// A target that may be sent input gets what the caller chose, whatever the text is: behind the
/// check comes the write where the text is only to be left on the clipboard, the release of the
/// modifiers where it is to be typed, and where it is to be pasted the snapshot, or without one the
/// promise or the write. Behind the snapshot, taken or not, come the promise or the write.
pub proof fn law_permitted_target_gets_what_was_chosen<'a>(
    p: Injection<'a>,
    replies: Seq<InjectReply>,
    i: int,
)
    requires
        fresh(p),
        crate::protocol::completes(p, replies),
        0 <= i < replies.len(),
    ensures
        ({
            let all = crate::protocol::calls(p, replies);
            let paste = if p.options.delayed_render {
                InjectCall::Publish(p.text)
            } else {
                InjectCall::WriteText(p.text)
            };
            &&& all[i] is ForegroundWindow && replies[i] == InjectReply::Window(p.hwnd) ==> i + 1
                < replies.len() && all[i + 1] is OwnIntegrity
            &&& all[i] is OwnIntegrity && (replies[i]->Level_0 matches Some(ours)
                ==> p.integrity.rank() <= ours.rank()) ==> {
                &&& i + 1 < replies.len()
                &&& all[i + 1] == match p.options.strategy {
                    Strategy::ClipboardOnly => InjectCall::WriteText(p.text),
                    Strategy::UnicodeType => InjectCall::Sanitize,
                    Strategy::ClipboardPaste => if p.options.restore_clipboard {
                        InjectCall::Capture
                    } else {
                        paste
                    },
                }
            }
            &&& all[i] is OwnIntegrity && (replies[i]->Level_0 matches Some(ours)
                && p.integrity.rank() > ours.rank()) ==> i + 1 < replies.len() && all[i + 1]
                == InjectCall::WriteText(p.text)
            &&& all[i] is Capture ==> i + 1 < replies.len() && all[i + 1] == paste
        }),
{
    let now = lemma_what_follows(p, replies, i);
}

/// Success leads on: behind a call that succeeded comes the next step of the delivery, until the
/// text is typed, or left on the clipboard, or the chord is sent.
pub proof fn law_success_leads_on<'a>(p: Injection<'a>, replies: Seq<InjectReply>, i: int)
    requires
        fresh(p),
        crate::protocol::completes(p, replies),
        0 <= i < replies.len(),
        succeeded(replies[i]),
    ensures
        ({
            let all = crate::protocol::calls(p, replies);
            let ended = crate::protocol::after(p, replies).ended();
            match all[i] {
                InjectCall::Publish(_) => i + 2 < replies.len() && all[i + 1] == InjectCall::Sleep(
                    p.options.pre_paste,
                ) && all[i + 2] is Sanitize,
                InjectCall::WriteText(_) => if i > 0 && all[i - 1] is OwnIntegrity && (
                p.options.strategy != Strategy::ClipboardPaste || !crate::target::permits(
                    p.integrity,
                    replies[i - 1]->Level_0,
                )) {
                    &&& replies.len() == i + 1
                    &&& ended == Some(
                        Ok::<Outcome, Error>(
                            Outcome::ClipboardOnly(
                                if crate::target::permits(p.integrity, replies[i - 1]->Level_0) {
                                    ClipboardOnlyReason::Requested
                                } else {
                                    ClipboardOnlyReason::ElevatedTarget
                                },
                            ),
                        ),
                    )
                } else {
                    i + 3 < replies.len() && all[i + 1] is SequenceNumber && all[i + 2]
                        == InjectCall::Sleep(p.options.pre_paste) && all[i + 3] is Sanitize
                },
                InjectCall::Sanitize => match p.options.strategy {
                    Strategy::UnicodeType => i + 1 < replies.len() && all[i + 1]
                        == InjectCall::TypeText(p.text),
                    _ => if p.options.delayed_render {
                        i + 2 < replies.len() && all[i + 1] is MarkPasteSent && all[i + 2]
                            == InjectCall::SendChord(p.chord)
                    } else {
                        i + 1 < replies.len() && all[i + 1] == InjectCall::SendChord(p.chord)
                    },
                },
                InjectCall::TypeText(_) => replies.len() == i + 1 && ended == Some(
                    Ok::<Outcome, Error>(Outcome::Typed),
                ),
                InjectCall::SendChord(_) => {
                    &&& i + 1 < replies.len()
                    &&& all[i + 1] == if p.options.delayed_render {
                        InjectCall::WaitForTargetRead {
                            timeout: p.options.read_timeout,
                            quiet: p.options.read_quiet,
                        }
                    } else {
                        InjectCall::Sleep(p.options.post_paste)
                    }
                },
                _ => false,
            }
        }),
{
    let all = crate::protocol::calls(p, replies);
    let now = lemma_next_call(p, replies, i);
    match now.stage {
        Stage::Leave(_) => {
            lemma_write_behind_check(p, replies, i);
        },
        Stage::Write { .. } => {
            lemma_write_behind_check(p, replies, i);
            let noting = lemma_next_call(p, replies, i + 1);
            let settling = lemma_next_call(p, replies, i + 2);
        },
        Stage::Publish { .. } => {
            let settling = lemma_next_call(p, replies, i + 1);
        },
        Stage::PromiseRelease { .. } => {
            let marking = lemma_next_call(p, replies, i + 1);
        },
        _ => {},
    }
}

/// What [`lemma_what_follows`] says, but for what lies behind the call.
proof fn lemma_next_call<'a>(p: Injection<'a>, replies: Seq<InjectReply>, i: int) -> (now:
    Injection<'a>)
    requires
        fresh(p),
        crate::protocol::completes(p, replies),
        0 <= i < replies.len(),
    ensures
        now == crate::protocol::after(p, replies.take(i)),
        now == (Injection { stage: now.stage, ..p }),
        now.pending() == Some(crate::protocol::calls(p, replies)[i]),
        now.fits(replies[i]),
        chosen(p, now.stage),
        ({
            let next = now.advance(replies[i]);
            if i + 1 == replies.len() {
                next == crate::protocol::after(p, replies) && next.stage is Over
            } else {
                next.pending() == Some(crate::protocol::calls(p, replies)[i + 1])
            }
        }),
{
    lemma_what_follows(p, replies, i)
}

/// What comes right before a write: our level where the text is to be left on the clipboard, which
/// says why; our level or the snapshot where it is to be pasted.
proof fn lemma_write_behind_check<'a>(p: Injection<'a>, replies: Seq<InjectReply>, i: int)
    requires
        fresh(p),
        crate::protocol::completes(p, replies),
        0 <= i < replies.len(),
        crate::protocol::calls(p, replies)[i] is WriteText,
    ensures
        ({
            let now = crate::protocol::after(p, replies.take(i));
            let before = crate::protocol::calls(p, replies)[i - 1];
            let permitted = crate::target::permits(p.integrity, replies[i - 1]->Level_0);
            &&& i > 0
            &&& now.stage matches Stage::Leave(reason) ==> before is OwnIntegrity && (reason
                == ClipboardOnlyReason::ElevatedTarget <==> !permitted) && (permitted
                ==> p.options.strategy == Strategy::ClipboardOnly)
            &&& now.stage is Write ==> p.options.strategy == Strategy::ClipboardPaste && (before
                is OwnIntegrity ==> permitted)
            &&& now.stage is Leave || now.stage is Write
            &&& now == Injection { stage: now.stage, ..p }
        }),
{
    let all = crate::protocol::calls(p, replies);
    let k = checks(p).len() as int;
    let now = lemma_when_called(p, replies, i);
    assert(all.take(i)[i - 1] == all[i - 1]);
    assert(replies.take(i)[i - 1] == replies[i - 1]);
    assert(checks(p)[k - 1] is OwnIntegrity);
}

/// An injection ends only where there is nothing left to do. Its last call says how: a change of
/// focus, a failure of that call, a text written or typed as asked, a promise that nobody read, an
/// offer that is gone, a restore, or, with no snapshot to restore, the end of the paste itself.
pub proof fn law_injection_ends_when_done<'a>(p: Injection<'a>, replies: Seq<InjectReply>)
    requires
        fresh(p),
        crate::protocol::completes(p, replies),
    ensures
        replies.len() > 0,
        ({
            let call = crate::protocol::calls(p, replies).last();
            let reply = replies.last();
            let result = crate::protocol::after(p, replies).ended()->0;
            let unconfirmed = Ok::<Outcome, Error>(Outcome::Pasted { read_confirmed: false });
            let failed = reply is Status && reply->Status_0 is Err && result == Err::<
                Outcome,
                Error,
            >(reply->Status_0->Err_0);
            match call {
                InjectCall::ForegroundWindow => reply != InjectReply::Window(p.hwnd) && result
                    == Err::<Outcome, Error>(Error::FocusChanged),
                InjectCall::WriteText(_) => failed || succeeded(reply) && result is Ok
                    && result->Ok_0 is ClipboardOnly,
                InjectCall::TypeText(_) => failed || succeeded(reply) && result == Ok::<
                    Outcome,
                    Error,
                >(Outcome::Typed),
                InjectCall::Sanitize => failed,
                InjectCall::Publish(_) => failed,
                InjectCall::SendChord(_) => failed,
                InjectCall::WaitForTargetRead { .. } => !snapshot_taken(p, replies)
                    && reply->Reads_0 is Some && result == Ok::<Outcome, Error>(
                    Outcome::Pasted { read_confirmed: true },
                ),
                InjectCall::ConsumedBeforePaste => (reply == InjectReply::Consumed(false)
                    || !snapshot_taken(p, replies)) && result == unconfirmed,
                InjectCall::StillOffered => reply == InjectReply::Offered(false) && result is Ok
                    && result->Ok_0 is Pasted,
                InjectCall::Restore => result is Ok && result->Ok_0 is Pasted,
                InjectCall::Sleep(_) => !p.options.delayed_render && !snapshot_taken(p, replies)
                    && result == unconfirmed,
                InjectCall::RestoreIfOurs(_) => snapshot_taken(p, replies) && result == unconfirmed,
                InjectCall::OwnIntegrity | InjectCall::Capture | InjectCall::MarkPasteSent
                | InjectCall::SequenceNumber => false,
            }
        }),
{
    let k = checks(p).len() as int;
    let now = lemma_before_end(p, replies);
    if k < replies.len() - 1 {
        assert(replies.drop_last()[k] == replies[k]);
    }
}

/// The injection with another text, another chord and other waits.
pub open spec fn with_words<'a>(p: Injection<'a>, q: Injection<'a>) -> Injection<'a> {
    Injection {
        text: q.text,
        chord: q.chord,
        options: Options {
            chord: q.options.chord,
            pre_paste: q.options.pre_paste,
            post_paste: q.options.post_paste,
            read_timeout: q.options.read_timeout,
            read_quiet: q.options.read_quiet,
            ..p.options
        },
        ..p
    }
}

/// What is delivered, by which chord and with which waits, decides nothing: injections that differ
/// in these alone stand alike after the same replies, and end alike.
pub proof fn law_words_decide_nothing<'a>(
    p: Injection<'a>,
    q: Injection<'a>,
    replies: Seq<InjectReply>,
)
    requires
        fresh(p),
        crate::protocol::answers(p, replies),
    ensures
        crate::protocol::answers(with_words(p, q), replies),
        crate::protocol::after(with_words(p, q), replies) == with_words(
            crate::protocol::after(p, replies),
            q,
        ),
        crate::protocol::after(with_words(p, q), replies).ended() == crate::protocol::after(
            p,
            replies,
        ).ended(),
    decreases replies.len(),
{
    if replies.len() > 0 {
        let shorter = replies.drop_last();
        law_words_decide_nothing(p, q, shorter);
        let before = crate::protocol::after(p, shorter);
        assert(with_words(before, q).next_stage(replies.last()) == before.next_stage(
            replies.last(),
        ));
    }
}

/// An injection delivers what it was given: its text, its options and the target's window and level
/// are the caller's, its chord is the caller's or, where there is none, the one for the target's
/// executable, and its first call is the first check that the caller wants.
pub proof fn law_injection_is_as_asked<'a>(
    p: Injection<'a>,
    target: Target,
    text: &'a str,
    options: Options,
)
    requires
        p.begun(target, text, options),
    ensures
        fresh(p),
        p.hwnd == target.hwnd,
        p.integrity == target.integrity,
        p.text@ == text@,
        p.options == options,
        options.chord matches Some(chord) ==> p.chord == chord,
        options.chord is None ==> p.chord == Chord::suited(target.exe@),
        options.require_same_target ==> p.pending() == Some(InjectCall::<'a>::ForegroundWindow),
        !options.require_same_target ==> p.pending() == Some(InjectCall::<'a>::OwnIntegrity),
{
}

/// Every answer that a call can have is taken: any window, any level, any status that the call can
/// report, and either answer to a question.
pub proof fn law_injection_takes_every_answer<'a>(
    p: Injection<'a>,
    window: isize,
    level: Option<Integrity>,
    yes: bool,
    reads: Option<u32>,
    number: u32,
    e: OsError,
)
    ensures
        ({
            let refused = InjectReply::Status(Err(Error::SendInputBlocked));
            match p.pending() {
                Some(InjectCall::ForegroundWindow) => p.fits(InjectReply::Window(window)),
                Some(InjectCall::OwnIntegrity) => p.fits(InjectReply::Level(level)),
                Some(InjectCall::WriteText(_)) => p.fits(InjectReply::Status(Ok(()))) && p.fits(
                    InjectReply::Status(Err(Error::ClipboardLocked(e))),
                ) && p.fits(InjectReply::Status(Err(Error::Clipboard(e)))) && p.fits(
                    InjectReply::Status(Err(Error::Alloc(e))),
                ),
                Some(InjectCall::Publish(_)) => p.fits(InjectReply::Status(Ok(()))) && p.fits(
                    InjectReply::Status(Err(Error::ClipboardLocked(e))),
                ) && p.fits(InjectReply::Status(Err(Error::Clipboard(e)))) && p.fits(
                    InjectReply::Status(Err(Error::OwnerWindowFailed)),
                ),
                Some(InjectCall::Sanitize) => p.fits(InjectReply::Status(Ok(()))) && p.fits(refused),
                Some(InjectCall::TypeText(_)) => p.fits(InjectReply::Status(Ok(()))) && p.fits(
                    refused,
                ),
                Some(InjectCall::SendChord(_)) => p.fits(InjectReply::Status(Ok(()))) && p.fits(
                    refused,
                ),
                Some(InjectCall::Capture) => p.fits(InjectReply::Captured(yes)),
                Some(InjectCall::WaitForTargetRead { .. }) => p.fits(InjectReply::Reads(reads)),
                Some(InjectCall::ConsumedBeforePaste) => p.fits(InjectReply::Consumed(yes)),
                Some(InjectCall::StillOffered) => p.fits(InjectReply::Offered(yes)),
                Some(InjectCall::SequenceNumber) => p.fits(InjectReply::Sequence(number)),
                Some(_) => p.fits(InjectReply::Finished),
                None => true,
            }
        }),
{
}

} // verus!
