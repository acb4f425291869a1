//! What the clipboard holds while a text is delivered, and when that is over.
//!
//! An injection is followed together with the clipboard: `boards[i]` is the clipboard when call
//! number `i` is made. Each clipboard call is carried out by the exchange that this library has for
//! it. In between, consumers may ask for a promise, and another process may take the clipboard.

use vstd::prelude::*;

use crate::board_laws::Board;
use crate::clipboard::{Access, AccessStage, ClipboardReply, GateReply, GateStage, GatedRestore,
    Task, CF_UNICODETEXT};
use crate::delayed::{OwnerStage, OwnerStart, PublishReply, PublishStage, Publication};
use crate::error::Error;
use crate::inject::{InjectCall, InjectReply, Injection, Stage};
use crate::options::{Outcome, Strategy};
use crate::protocol::Protocol;

verus! {

/// Whether two clipboards hold the same for every reader.
pub open spec fn same_contents(a: Board, b: Board) -> bool {
    a == Board { blocks: a.blocks, opener: a.opener, ..b }
}

/// Whether nobody else wrote: nothing changed, or a consumer asked for our promise and our window
/// supplied it, as [`crate::supply_laws::law_request_is_served`] says.
pub open spec fn undisturbed(before: Board, after: Board) -> bool {
    ||| same_contents(after, before)
    ||| {
        &&& before.owner == before.window
        &&& before.promised is Some
        &&& before.data.contains_key(CF_UNICODETEXT) && before.data[CF_UNICODETEXT] is None
        &&& same_contents(after, crate::supply_laws::rendered(before))
    }
}

/// Whether another process took the clipboard and wrote something of its own. Where our window
/// owned the clipboard, it was told that its promise is void.
pub open spec fn taken(before: Board, after: Board) -> bool {
    &&& after.window == before.window
    &&& after.owner != after.window
    &&& before.owner == before.window ==> after.promised is None
    &&& after.number > before.number
}

/// Whether a write of `text` with these replies leads from one clipboard to the other.
pub open spec fn wrote_by<'a>(
    before: Board,
    text: &'a str,
    reply: InjectReply,
    after: Board,
    inner: Seq<ClipboardReply>,
) -> bool {
    let write = Access {
        task: Task::WriteText(text),
        stage: AccessStage::Opening { attempt: 0 },
    };
    &&& crate::protocol::completes(write, inner)
    &&& crate::board_laws::registers_above_standard(inner)
    &&& crate::inject_laws::succeeded(reply) <==> crate::protocol::after(write, inner).ended()->0
        is Ok
    &&& same_contents(
        after,
        crate::board_laws::board_after(before, crate::protocol::calls(write, inner), inner),
    )
}

/// Whether a publication of `text` with these replies leads from one clipboard to the other.
pub open spec fn published_by<'a>(
    before: Board,
    text: &'a str,
    reply: InjectReply,
    after: Board,
    inner: Seq<PublishReply>,
) -> bool {
    let publication = Publication {
        text,
        stage: PublishStage::Owner(OwnerStart { stage: OwnerStage::Check }),
    };
    &&& crate::protocol::completes(publication, inner)
    &&& forall|i: int|
        0 <= i < inner.len() ==> crate::board_laws::publishes_for(
            before.window,
            #[trigger] inner[i],
        )
    &&& crate::inject_laws::succeeded(reply) <==> crate::protocol::after(
        publication,
        inner,
    ).ended()->0 is Ok
    &&& same_contents(
        after,
        crate::board_laws::board_published(
            before,
            crate::protocol::calls(publication, inner),
            inner,
        ),
    )
}

/// Whether a restore of what was captured from `block` leads from one clipboard to the other; `well`
/// says whether it succeeded.
pub open spec fn restored_by<'a>(
    before: Board,
    block: Option<Seq<u8>>,
    well: bool,
    after: Board,
    task: Task<'a>,
    inner: Seq<ClipboardReply>,
) -> bool {
    let restore = Access { task, stage: AccessStage::Opening { attempt: 0 } };
    &&& crate::clipboard::restores(task, crate::board_laws::captured_text(block))
    &&& crate::protocol::completes(restore, inner)
    &&& crate::board_laws::registers_above_standard(inner)
    &&& well <==> crate::protocol::after(restore, inner).ended()->0 is Ok
    &&& same_contents(
        after,
        crate::board_laws::board_after(before, crate::protocol::calls(restore, inner), inner),
    )
}

/// Whether a gated restore of what was captured from `block` leads from one clipboard to the other.
/// It is told the true sequence number; `well` says whether it met no failure.
pub open spec fn gated_by<'a>(
    before: Board,
    block: Option<Seq<u8>>,
    ours: u32,
    well: bool,
    after: Board,
    task: Task<'a>,
    inner: Seq<GateReply>,
) -> bool {
    let restore = GatedRestore { expected: ours, task, stage: GateStage::Number };
    &&& crate::clipboard::restores(task, crate::board_laws::captured_text(block))
    &&& crate::protocol::completes(restore, inner)
    &&& crate::board_laws::gate_registers_high(inner)
    &&& inner[0] is Sequence && inner[0]->Sequence_0 as int == before.number
    &&& well <==> crate::protocol::after(restore, inner).ended()->0 is Ok
    &&& same_contents(
        after,
        crate::board_laws::board_gated(before, crate::protocol::calls(restore, inner), inner),
    )
}

/// Whether a call of an injection was carried out and truly answered, and nobody else wrote
/// meanwhile. `block` is what the snapshot was captured from, `well` says whether a restore works.
pub open spec fn carried_out<'a>(
    before: Board,
    call: InjectCall<'a>,
    reply: InjectReply,
    after: Board,
    block: Option<Seq<u8>>,
    well: bool,
) -> bool {
    match call {
        InjectCall::WriteText(text) => exists|inner: Seq<ClipboardReply>| #[trigger]
            wrote_by(before, text, reply, after, inner),
        InjectCall::Publish(text) => exists|inner: Seq<PublishReply>| #[trigger]
            published_by(before, text, reply, after, inner),
        InjectCall::Restore => exists|task: Task<'a>, inner: Seq<ClipboardReply>| #[trigger]
            restored_by(before, block, well, after, task, inner),
        InjectCall::RestoreIfOurs(ours) => exists|task: Task<'a>, inner: Seq<GateReply>| #[trigger]
            gated_by(before, block, ours, well, after, task, inner),
        InjectCall::StillOffered => undisturbed(before, after) && reply == InjectReply::Offered(
            before.promised is Some,
        ),
        InjectCall::SequenceNumber => undisturbed(before, after) && reply is Sequence
            && reply->Sequence_0 as int == before.number,
        _ => undisturbed(before, after),
    }
}

/// Whether call number `i` of an injection was carried out.
pub open spec fn carried_out_at<'a>(
    p: Injection<'a>,
    replies: Seq<InjectReply>,
    boards: Seq<Board>,
    block: Option<Seq<u8>>,
    well: bool,
    i: int,
) -> bool {
    carried_out(
        boards[i],
        crate::protocol::calls(p, replies)[i],
        replies[i],
        boards[i + 1],
        block,
        well,
    )
}

/// Whether an injection pastes by promise.
pub open spec fn by_promise(p: Injection) -> bool {
    p.options.strategy == Strategy::ClipboardPaste && p.options.delayed_render
}

/// Whether an injection pastes by timer.
pub open spec fn by_timer(p: Injection) -> bool {
    p.options.strategy == Strategy::ClipboardPaste && !p.options.delayed_render
}

/// Until the text is published or written, our window stays what it was.
proof fn lemma_window_stays<'a>(
    p: Injection<'a>,
    replies: Seq<InjectReply>,
    boards: Seq<Board>,
    block: Option<Seq<u8>>,
    well: bool,
    j: int,
)
    requires
        crate::inject_laws::fresh(p),
        crate::protocol::answers(p, replies),
        boards.len() == replies.len() + 1,
        0 <= j <= replies.len(),
        j <= crate::inject_laws::opening(p).len(),
        p.options.strategy == Strategy::ClipboardPaste,
        replies.len() > crate::inject_laws::opening(p).len(),
        forall|i: int| 0 <= i < j ==> #[trigger] carried_out_at(p, replies, boards, block, well, i),
    ensures
        boards[j].window == boards[0].window,
    decreases j,
{
    if j > 0 {
        lemma_window_stays(p, replies, boards, block, well, j - 1);
        let o = crate::inject_laws::opening(p).len() as int;
        let at = crate::inject_laws::lemma_when_called(p, replies, o);
        let all = crate::protocol::calls(p, replies);
        assert(crate::inject_laws::history(p, at.stage) =~= crate::inject_laws::opening(p));
        assert(all.take(o)[j - 1] == all[j - 1]);
        assert(carried_out_at(p, replies, boards, block, well, j - 1));
    }
}

/// Where a paste stands when call number `o`, the first behind the opening, is made.
proof fn lemma_paste_begins<'a>(p: Injection<'a>, replies: Seq<InjectReply>)
    requires
        crate::inject_laws::fresh(p),
        crate::protocol::answers(p, replies),
        p.options.strategy == Strategy::ClipboardPaste,
        replies.len() > crate::inject_laws::opening(p).len() + 1,
    ensures
        ({
            let o = crate::inject_laws::opening(p).len() as int;
            &&& crate::protocol::calls(p, replies)[o] == if p.options.delayed_render {
                InjectCall::Publish(p.text)
            } else {
                InjectCall::WriteText(p.text)
            }
            &&& crate::inject_laws::succeeded(replies[o])
        }),
{
    let o = crate::inject_laws::opening(p).len() as int;
    let all = crate::protocol::calls(p, replies);
    let at = crate::inject_laws::lemma_when_called(p, replies, o + 1);
    assert(all.take(o + 1)[o] == all[o]);
    assert(replies.take(o + 1)[o] == replies[o]);
    let first = crate::inject_laws::lemma_when_called(p, replies, o);
    assert(first.fits(replies[o]));
}

/// From publishing on, while nobody else writes and nothing is restored, the text is on offer.
proof fn lemma_offer_stays<'a>(
    p: Injection<'a>,
    replies: Seq<InjectReply>,
    boards: Seq<Board>,
    block: Option<Seq<u8>>,
    well: bool,
    j: int,
)
    requires
        crate::inject_laws::fresh(p),
        crate::protocol::answers(p, replies),
        boards.len() == replies.len() + 1,
        by_promise(p),
        crate::inject_laws::opening(p).len() < j <= replies.len(),
        replies.len() > crate::inject_laws::opening(p).len() + 1,
        forall|i: int| 0 <= i < j ==> #[trigger] carried_out_at(p, replies, boards, block, well, i),
        forall|i: int|
            0 <= i < j ==> !((#[trigger] crate::protocol::calls(p, replies)[i]) is Restore),
    ensures
        crate::board_laws::offers(boards[j], p.text@),
        boards[j].window == boards[0].window,
    decreases j,
{
    let o = crate::inject_laws::opening(p).len() as int;
    let all = crate::protocol::calls(p, replies);
    assert(carried_out_at(p, replies, boards, block, well, j - 1));
    lemma_paste_begins(p, replies);
    if j == o + 1 {
        lemma_window_stays(p, replies, boards, block, well, o);
        let after = boards[o + 1];
        let inner = choose|inner: Seq<PublishReply>|
            published_by(boards[o], p.text, replies[o], after, inner);
        crate::board_laws::law_published_text_is_on_offer(
            boards[o],
            Publication {
                text: p.text,
                stage: PublishStage::Owner(OwnerStart { stage: OwnerStage::Check }),
            },
            inner,
        );
    } else {
        lemma_offer_stays(p, replies, boards, block, well, j - 1);
        let at = crate::inject_laws::lemma_when_called(p, replies, j - 1);
        assert(!(all[j - 1] is Restore));
    }
}

/// From writing on, while nobody else writes and nothing is restored, the clipboard stays what the
/// write made it.
proof fn lemma_write_stays<'a>(
    p: Injection<'a>,
    replies: Seq<InjectReply>,
    boards: Seq<Board>,
    block: Option<Seq<u8>>,
    well: bool,
    j: int,
)
    requires
        crate::inject_laws::fresh(p),
        crate::protocol::answers(p, replies),
        boards.len() == replies.len() + 1,
        boards[0].window != 0,
        by_timer(p),
        crate::inject_laws::opening(p).len() < j <= replies.len(),
        replies.len() > crate::inject_laws::opening(p).len() + 1,
        forall|i: int| 0 <= i < j ==> #[trigger] carried_out_at(p, replies, boards, block, well, i),
        forall|i: int|
            0 <= i < j ==> !((#[trigger] crate::protocol::calls(p, replies)[i]) is RestoreIfOurs),
    ensures
        ({
            let o = crate::inject_laws::opening(p).len() as int;
            &&& boards[j].owner == 0
            &&& boards[j].window == boards[0].window
            &&& boards[j].number == boards[o + 1].number
            &&& boards[j].data == boards[o + 1].data
            &&& boards[j].data.contains_pair(
                CF_UNICODETEXT,
                Some(crate::clipboard::text_bytes(p.text@)),
            )
        }),
    decreases j,
{
    let o = crate::inject_laws::opening(p).len() as int;
    let all = crate::protocol::calls(p, replies);
    assert(carried_out_at(p, replies, boards, block, well, j - 1));
    lemma_paste_begins(p, replies);
    if j == o + 1 {
        lemma_window_stays(p, replies, boards, block, well, o);
        let after = boards[o + 1];
        let inner = choose|inner: Seq<ClipboardReply>|
            wrote_by(boards[o], p.text, replies[o], after, inner);
        crate::board_laws::law_clipboard_holds_what_was_asked(
            boards[o],
            Access {
                task: Task::WriteText(p.text),
                stage: AccessStage::Opening { attempt: 0 },
            },
            inner,
        );
    } else {
        lemma_write_stays(p, replies, boards, block, well, j - 1);
        let at = crate::inject_laws::lemma_when_called(p, replies, j - 1);
        assert(!(all[j - 1] is RestoreIfOurs));
    }
}

/// A restore that works brings the captured text back.
proof fn lemma_restored<'a>(before: Board, block: Option<Seq<u8>>, after: Board)
    requires
        exists|task: Task<'a>, inner: Seq<ClipboardReply>| #[trigger]
            restored_by(before, block, true, after, task, inner),
    ensures
        crate::board_laws::reads_as_captured(after, block),
{
    let (task, inner) = choose|task: Task<'a>, inner: Seq<ClipboardReply>|
        restored_by(before, block, true, after, task, inner);
    let restore = Access { task, stage: AccessStage::Opening { attempt: 0 } };
    crate::board_laws::law_restore_brings_back_the_text(before, restore, inner, block);
}

/// A gated restore that works brings the captured text back where the number is still ours, and
/// changes nothing where it is not.
proof fn lemma_gate<'a>(
    before: Board,
    block: Option<Seq<u8>>,
    ours: u32,
    well: bool,
    after: Board,
)
    requires
        exists|task: Task<'a>, inner: Seq<GateReply>| #[trigger]
            gated_by(before, block, ours, well, after, task, inner),
    ensures
        well && before.number == ours ==> crate::board_laws::reads_as_captured(after, block),
        before.number != ours ==> same_contents(after, before),
{
    let (task, inner) = choose|task: Task<'a>, inner: Seq<GateReply>|
        gated_by(before, block, ours, well, after, task, inner);
    let restore = GatedRestore { expected: ours, task, stage: GateStage::Number };
    crate::board_laws::law_gated_restore_spares_or_restores(before, restore, inner, block);
    assert(inner.len() > 0);
    if before.number != ours {
        crate::clipboard_laws::law_third_party_is_spared(restore, inner);
    } else if well {
        let next = restore.advance(inner[0]);
        crate::protocol::lemma_first_step(restore, inner);
        crate::clipboard_laws::lemma_gate_runs_restore(
            next,
            Access { task, stage: AccessStage::Opening { attempt: 0 } },
            inner.skip(1),
        );
    }
}

/// What the clipboard holds when a paste with a snapshot is over and nobody else has written: the
/// text that the user had, or, where no consumer read the promise, the dictated text, still on
/// offer.
pub proof fn law_paste_leaves_captured_or_offered_text<'a>(
    p: Injection<'a>,
    replies: Seq<InjectReply>,
    boards: Seq<Board>,
    block: Option<Seq<u8>>,
    outcome: Outcome,
)
    requires
        crate::inject_laws::fresh(p),
        crate::protocol::completes(p, replies),
        crate::protocol::after(p, replies).ended() == Some(Ok::<Outcome, Error>(outcome)),
        outcome is Pasted,
        p.options.restore_clipboard,
        replies[crate::inject_laws::checks(p).len() as int] == InjectReply::Captured(true),
        boards.len() == replies.len() + 1,
        boards[0].window != 0,
        forall|i: int|
            0 <= i < replies.len() ==> #[trigger] carried_out_at(
                p,
                replies,
                boards,
                block,
                true,
                i,
            ),
    ensures
        crate::protocol::calls(p, replies).last() is ConsumedBeforePaste
            ==> crate::board_laws::offers(boards.last(), p.text@),
        crate::protocol::calls(p, replies).last() !is ConsumedBeforePaste
            ==> crate::board_laws::reads_as_captured(boards.last(), block),
        outcome == (Outcome::Pasted { read_confirmed: true })
            ==> crate::board_laws::reads_as_captured(boards.last(), block),
{
    let n = replies.len() - 1;
    let k = crate::inject_laws::checks(p).len() as int;
    let o = crate::inject_laws::opening(p).len() as int;
    let all = crate::protocol::calls(p, replies);
    let end = crate::inject_laws::lemma_before_end(p, replies);
    assert(carried_out_at(p, replies, boards, block, true, n));
    assert(n > o) by {
        assert(crate::inject_laws::history(p, end.stage).len() == n);
    }
    assert(replies.drop_last()[k] == replies[k]);
    assert(all[n] == end.pending()->0);
    assert forall|i: int| 0 <= i < n implies !((#[trigger] all[i]) is Restore) && !(all[i]
        is RestoreIfOurs) by {
        assert(all[i] == crate::inject_laws::history(p, end.stage)[i]);
    }
    match end.stage {
        Stage::Consumed { .. } => {
            lemma_offer_stays(p, replies, boards, block, true, n + 1);
        },
        Stage::Ours { .. } => {
            lemma_offer_stays(p, replies, boards, block, true, n);
            assert(false);
        },
        Stage::Restore { .. } => {
            lemma_restored(boards[n], block, boards[n + 1]);
        },
        Stage::TimerRestore { ours } => {
            lemma_write_stays(p, replies, boards, block, true, n);
            lemma_write_stays(p, replies, boards, block, true, o + 1);
            assert(carried_out_at(p, replies, boards, block, true, o + 1));
            assert(all[o + 1] == crate::inject_laws::history(p, end.stage)[o + 1]);
            assert(replies.drop_last()[o + 1] == replies[o + 1]);
            lemma_gate(boards[n], block, ours, true, boards[n + 1]);
        },
        _ => {},
    }
}

/// A paste that fails behind our write keeps the text: where releasing the modifiers or sending the
/// chord is refused, which is all that can fail there, the text is still on offer, or, without
/// delayed rendering, still written on the clipboard. Nothing was restored over it.
pub proof fn law_refused_paste_keeps_the_text<'a>(
    p: Injection<'a>,
    replies: Seq<InjectReply>,
    boards: Seq<Board>,
    block: Option<Seq<u8>>,
    well: bool,
    error: Error,
)
    requires
        crate::inject_laws::fresh(p),
        crate::protocol::completes(p, replies),
        crate::protocol::after(p, replies).ended() == Some(Err::<Outcome, Error>(error)),
        p.options.strategy == Strategy::ClipboardPaste,
        replies.len() > crate::inject_laws::opening(p).len() + 1,
        boards.len() == replies.len() + 1,
        boards[0].window != 0,
        forall|i: int|
            0 <= i < replies.len() ==> #[trigger] carried_out_at(
                p,
                replies,
                boards,
                block,
                well,
                i,
            ),
    ensures
        error == Error::SendInputBlocked,
        p.options.delayed_render ==> crate::board_laws::offers(boards.last(), p.text@),
        !p.options.delayed_render ==> boards.last().data.contains_pair(
            CF_UNICODETEXT,
            Some(crate::clipboard::text_bytes(p.text@)),
        ),
{
    let n = replies.len() - 1;
    let all = crate::protocol::calls(p, replies);
    let end = crate::inject_laws::lemma_before_end(p, replies);
    assert(all[n] == end.pending()->0);
    assert forall|i: int| 0 <= i < replies.len() implies !((#[trigger] all[i]) is Restore) && !(
    all[i] is RestoreIfOurs) by {
        if i < n {
            assert(all[i] == crate::inject_laws::history(p, end.stage)[i]);
        }
    }
    if p.options.delayed_render {
        lemma_offer_stays(p, replies, boards, block, well, n + 1);
    } else {
        lemma_write_stays(p, replies, boards, block, well, n + 1);
    }
}

/// A text left to the user is on the clipboard: where the outcome asks for a manual paste, the
/// clipboard holds the bytes of the text.
pub proof fn law_left_text_is_on_the_clipboard<'a>(
    p: Injection<'a>,
    replies: Seq<InjectReply>,
    boards: Seq<Board>,
    block: Option<Seq<u8>>,
    well: bool,
    outcome: Outcome,
)
    requires
        crate::inject_laws::fresh(p),
        crate::protocol::completes(p, replies),
        crate::protocol::after(p, replies).ended() == Some(Ok::<Outcome, Error>(outcome)),
        outcome is ClipboardOnly,
        boards.len() == replies.len() + 1,
        forall|i: int|
            0 <= i < replies.len() ==> #[trigger] carried_out_at(
                p,
                replies,
                boards,
                block,
                well,
                i,
            ),
    ensures
        boards.last().data.contains_pair(
            CF_UNICODETEXT,
            Some(crate::clipboard::text_bytes(p.text@)),
        ),
{
    let n = replies.len() - 1;
    crate::inject_laws::law_outcome_matches_delivery(p, replies, outcome);
    assert(carried_out_at(p, replies, boards, block, well, n));
    let all = crate::protocol::calls(p, replies);
    let k = crate::inject_laws::checks(p).len() as int;
    assert(all.len() == replies.len());
    assert(n == k && all[n] == InjectCall::WriteText(p.text));
    let after = boards[n + 1];
    let inner = choose|inner: Seq<ClipboardReply>|
        wrote_by(boards[n], p.text, replies[n], after, inner);
    crate::board_laws::law_clipboard_holds_what_was_asked(
        boards[n],
        Access { task: Task::WriteText(p.text), stage: AccessStage::Opening { attempt: 0 } },
        inner,
    );
}

/// Whether call number `t` falls between our write and the decision to restore: the text is
/// published, or written and its sequence number noted, and nothing has been decided yet.
pub open spec fn open_to_others<'a>(p: Injection<'a>, replies: Seq<InjectReply>, t: int) -> bool {
    let o = crate::inject_laws::opening(p).len() as int;
    let call = crate::protocol::calls(p, replies)[t];
    &&& p.options.strategy == Strategy::ClipboardPaste
    &&& o < t < replies.len()
    &&& !p.options.delayed_render ==> o + 1 < t
    &&& !(call is StillOffered) && !(call is Restore) && !(call is RestoreIfOurs)
}

/// What the clipboard is when another process takes it: it still offers our text, or it is still
/// what our write made it, at the number that was noted.
proof fn lemma_before_taken<'a>(
    p: Injection<'a>,
    replies: Seq<InjectReply>,
    boards: Seq<Board>,
    block: Option<Seq<u8>>,
    well: bool,
    t: int,
)
    requires
        crate::inject_laws::fresh(p),
        crate::protocol::answers(p, replies),
        boards.len() == replies.len() + 1,
        boards[0].window != 0,
        open_to_others(p, replies, t),
        forall|i: int| 0 <= i < t ==> #[trigger] carried_out_at(p, replies, boards, block, well, i),
    ensures
        p.options.delayed_render ==> boards[t].owner == boards[t].window,
        !p.options.delayed_render ==> {
            let noted = replies[crate::inject_laws::opening(p).len() as int + 1];
            noted is Sequence && noted->Sequence_0 as int == boards[t].number
        },
{
    let o = crate::inject_laws::opening(p).len() as int;
    let all = crate::protocol::calls(p, replies);
    lemma_no_restore_yet(p, replies, t);
    if p.options.delayed_render {
        lemma_offer_stays(p, replies, boards, block, well, t);
    } else {
        lemma_write_stays(p, replies, boards, block, well, t);
        lemma_write_stays(p, replies, boards, block, well, o + 1);
        assert(carried_out_at(p, replies, boards, block, well, o + 1));
        let noting = crate::inject_laws::lemma_when_called(p, replies, o + 1);
        assert(noting.stage is Number);
    }
}

/// Before the decision to restore nothing has been restored.
proof fn lemma_no_restore_yet<'a>(p: Injection<'a>, replies: Seq<InjectReply>, t: int)
    requires
        crate::inject_laws::fresh(p),
        crate::protocol::answers(p, replies),
        open_to_others(p, replies, t),
    ensures
        forall|i: int|
            0 <= i < t ==> !((#[trigger] crate::protocol::calls(p, replies)[i]) is Restore)
                && !(crate::protocol::calls(p, replies)[i] is RestoreIfOurs),
{
    let all = crate::protocol::calls(p, replies);
    let then = crate::inject_laws::lemma_when_called(p, replies, t);
    assert forall|i: int| 0 <= i < t implies !((#[trigger] all[i]) is Restore) && !(all[i]
        is RestoreIfOurs) by {
        assert(all.take(t)[i] == all[i]);
    }
}

/// Behind our write the text is neither written nor published again, and a timed restore checks the
/// number that was noted.
proof fn lemma_calls_behind_write<'a>(p: Injection<'a>, replies: Seq<InjectReply>, m: int)
    requires
        crate::inject_laws::fresh(p),
        crate::protocol::answers(p, replies),
        p.options.strategy == Strategy::ClipboardPaste,
        crate::inject_laws::opening(p).len() < m < replies.len(),
    ensures
        !(crate::protocol::calls(p, replies)[m] is WriteText),
        !(crate::protocol::calls(p, replies)[m] is Publish),
        crate::protocol::calls(p, replies)[m] is Restore ==> p.options.delayed_render,
        crate::protocol::calls(p, replies)[m] is RestoreIfOurs ==> !p.options.delayed_render
            && replies[crate::inject_laws::opening(p).len() as int + 1] == InjectReply::Sequence(
            crate::protocol::calls(p, replies)[m]->RestoreIfOurs_0,
        ),
{
    let o = crate::inject_laws::opening(p).len() as int;
    let at = crate::inject_laws::lemma_when_called(p, replies, m);
    if at.stage is TimerRestore {
        assert(replies.take(m)[o + 1] == replies[o + 1]);
    }
}

/// Once another process has taken the clipboard, the rest of the injection leaves it alone.
proof fn lemma_left_alone<'a>(
    p: Injection<'a>,
    replies: Seq<InjectReply>,
    boards: Seq<Board>,
    block: Option<Seq<u8>>,
    well: bool,
    t: int,
    j: int,
)
    requires
        crate::inject_laws::fresh(p),
        crate::protocol::answers(p, replies),
        boards.len() == replies.len() + 1,
        boards[0].window != 0,
        open_to_others(p, replies, t),
        taken(boards[t], boards[t + 1]),
        forall|i: int|
            0 <= i < replies.len() && i != t ==> #[trigger] carried_out_at(
                p,
                replies,
                boards,
                block,
                well,
                i,
            ),
        t < j <= replies.len(),
    ensures
        same_contents(boards[j], boards[t + 1]),
    decreases j,
{
    let all = crate::protocol::calls(p, replies);
    if j > t + 1 {
        let m = j - 1;
        lemma_left_alone(p, replies, boards, block, well, t, m);
        assert(carried_out_at(p, replies, boards, block, well, m));
        lemma_calls_behind_write(p, replies, m);
        lemma_before_taken(p, replies, boards, block, well, t);
        if all[m] is Restore {
            crate::inject_laws::law_restore_follows_read(p, replies, m);
            assert(all[m - 1] is StillOffered);
            lemma_left_alone(p, replies, boards, block, well, t, m - 1);
            assert(carried_out_at(p, replies, boards, block, well, m - 1));
            assert(boards[t + 1].promised is None);
            assert(false);
        } else if all[m] is RestoreIfOurs {
            lemma_gate(boards[m], block, all[m]->RestoreIfOurs_0, well, boards[m + 1]);
        } else {
            assert(undisturbed(boards[m], boards[m + 1]));
        }
    }
}

/// A third party's clipboard survives an injection, with delayed rendering and without: where
/// another process takes the clipboard after our write and before the restore is decided, nothing
/// is restored, and in the end the clipboard still holds what that process wrote. The outcome of an
/// injection that succeeds is a paste all the same.
pub proof fn law_third_party_survives_injection<'a>(
    p: Injection<'a>,
    replies: Seq<InjectReply>,
    boards: Seq<Board>,
    block: Option<Seq<u8>>,
    well: bool,
    t: int,
)
    requires
        crate::inject_laws::fresh(p),
        crate::protocol::completes(p, replies),
        boards.len() == replies.len() + 1,
        boards[0].window != 0,
        open_to_others(p, replies, t),
        taken(boards[t], boards[t + 1]),
        forall|i: int|
            0 <= i < replies.len() && i != t ==> #[trigger] carried_out_at(
                p,
                replies,
                boards,
                block,
                well,
                i,
            ),
    ensures
        boards.last().data == boards[t + 1].data,
        boards.last().owner == boards[t + 1].owner,
        crate::protocol::after(p, replies).ended() matches Some(Ok(outcome)) ==> outcome is Pasted,
{
    lemma_left_alone(p, replies, boards, block, well, t, replies.len() as int);
    let end = crate::inject_laws::lemma_before_end(p, replies);
    let then = crate::inject_laws::lemma_when_called(p, replies, t);
}

/// A clipboard manager costs the user nothing: where the promise had been consumed before the paste
/// and nobody else wrote, the clipboard reads in the end as it was captured, whatever the text and
/// the options are.
pub proof fn law_consumed_promise_gives_the_clipboard_back<'a>(
    p: Injection<'a>,
    replies: Seq<InjectReply>,
    boards: Seq<Board>,
    block: Option<Seq<u8>>,
    i: int,
)
    requires
        crate::inject_laws::fresh(p),
        crate::protocol::completes(p, replies),
        0 <= i < replies.len(),
        crate::protocol::calls(p, replies)[i] is ConsumedBeforePaste,
        replies[i] == InjectReply::Consumed(true),
        crate::inject_laws::snapshot_taken(p, replies),
        boards.len() == replies.len() + 1,
        boards[0].window != 0,
        forall|j: int|
            0 <= j < replies.len() ==> #[trigger] carried_out_at(
                p,
                replies,
                boards,
                block,
                true,
                j,
            ),
    ensures
        crate::board_laws::reads_as_captured(boards.last(), block),
{
    crate::inject_laws::law_consumed_promise_is_restored(p, replies, i);
    let all = crate::protocol::calls(p, replies);
    let end = crate::inject_laws::lemma_before_end(p, replies);
    assert(all.last() !is ConsumedBeforePaste) by {
        if all.last() is ConsumedBeforePaste {
            let first = crate::inject_laws::lemma_when_called(p, replies, i);
            let last = crate::inject_laws::lemma_when_called(p, replies, replies.len() - 1);
        }
    }
    law_paste_leaves_captured_or_offered_text(
        p,
        replies,
        boards,
        block,
        Outcome::Pasted { read_confirmed: false },
    );
}

/// The same where the target's read was observed.
pub proof fn law_observed_read_gives_the_clipboard_back<'a>(
    p: Injection<'a>,
    replies: Seq<InjectReply>,
    boards: Seq<Board>,
    block: Option<Seq<u8>>,
    i: int,
)
    requires
        crate::inject_laws::fresh(p),
        crate::protocol::completes(p, replies),
        0 <= i < replies.len(),
        crate::protocol::calls(p, replies)[i] is WaitForTargetRead,
        replies[i]->Reads_0 is Some,
        crate::inject_laws::snapshot_taken(p, replies),
        boards.len() == replies.len() + 1,
        boards[0].window != 0,
        forall|j: int|
            0 <= j < replies.len() ==> #[trigger] carried_out_at(
                p,
                replies,
                boards,
                block,
                true,
                j,
            ),
    ensures
        crate::board_laws::reads_as_captured(boards.last(), block),
{
    crate::inject_laws::law_observed_read_is_restored(p, replies, i);
    law_paste_leaves_captured_or_offered_text(
        p,
        replies,
        boards,
        block,
        Outcome::Pasted { read_confirmed: true },
    );
}

/// The same for a paste by timer whose chord was sent.
pub proof fn law_timed_paste_gives_the_clipboard_back<'a>(
    p: Injection<'a>,
    replies: Seq<InjectReply>,
    boards: Seq<Board>,
    block: Option<Seq<u8>>,
    i: int,
)
    requires
        crate::inject_laws::fresh(p),
        crate::protocol::completes(p, replies),
        0 <= i < replies.len(),
        !p.options.delayed_render,
        crate::protocol::calls(p, replies)[i] is SendChord,
        crate::inject_laws::succeeded(replies[i]),
        crate::inject_laws::snapshot_taken(p, replies),
        boards.len() == replies.len() + 1,
        boards[0].window != 0,
        forall|j: int|
            0 <= j < replies.len() ==> #[trigger] carried_out_at(
                p,
                replies,
                boards,
                block,
                true,
                j,
            ),
    ensures
        crate::board_laws::reads_as_captured(boards.last(), block),
{
    crate::inject_laws::law_timed_paste_is_restored(p, replies, i);
    law_paste_leaves_captured_or_offered_text(
        p,
        replies,
        boards,
        block,
        Outcome::Pasted { read_confirmed: false },
    );
}

} // verus!
