//! What a request for the promised text does to the clipboard and to our record.

use vstd::prelude::*;

use crate::board_laws::Board;
use crate::clipboard::CF_UNICODETEXT;
use crate::delayed::Rendering;
use crate::error::{Error, OsError};
use crate::protocol::Protocol;
use crate::supply::{Supply, SupplyCall, SupplyReply, SupplyStage};

verus! {

/// A clipboard, and how many reads were noted on our record.
pub struct Served {
    /// The clipboard.
    pub board: Board,
    /// The reads.
    pub noted: nat,
}

impl Served {
    /// What one call and its reply do.
    pub open spec fn step(self, call: SupplyCall, reply: SupplyReply) -> Served {
        match (call, reply) {
            (SupplyCall::Open { window }, SupplyReply::Opened(true)) => Served {
                board: Board { opener: window, ..self.board },
                ..self
            },
            (SupplyCall::Fill(answer), SupplyReply::Block(Ok(block))) => Served {
                board: Board {
                    blocks: self.board.blocks.insert(block, answer.content()),
                    ..self.board
                },
                ..self
            },
            (SupplyCall::SetData { format, block }, SupplyReply::Taken(true)) => Served {
                board: self.board.set(format, Some(self.board.blocks[block])),
                ..self
            },
            (SupplyCall::Note(_), _) => Served { noted: self.noted + 1, ..self },
            _ => self,
        }
    }
}

/// The clipboard and the reads after a run of calls.
pub open spec fn served<'a>(
    start: Board,
    calls: Seq<SupplyCall<'a>>,
    replies: Seq<SupplyReply<'a>>,
) -> Served
    decreases calls.len(),
{
    if calls.len() == 0 || replies.len() == 0 {
        Served { board: start, noted: 0 }
    } else {
        served(start, calls.drop_last(), replies.drop_last()).step(calls.last(), replies.last())
    }
}

/// Whether the promise covers a request for `format`.
pub open spec fn covers(board: Board, format: u32) -> bool {
    crate::delayed::is_text_format(format) && board.promised is Some
}

/// Whether a reply to a request for `format` is what [`crate::delayed::State::render`] answers from
/// our record.
pub open spec fn answers_from_record(board: Board, format: u32, reply: SupplyReply) -> bool {
    &&& reply is Answer
    &&& reply->Answer_0 is Some <==> covers(board, format)
    &&& reply->Answer_0 matches Some(answer) ==> answer.content() == crate::clipboard::text_bytes(
        board.promised->0,
    )
}

/// The clipboard once the promised text was set.
pub open spec fn rendered(board: Board) -> Board {
    board.set(CF_UNICODETEXT, Some(crate::clipboard::text_bytes(board.promised->0)))
}

/// What becomes of the clipboard when a request that the promise covers is served, `replies` being
/// those behind the answer: the text is set where there was memory for it and the clipboard took
/// it, else nothing changes.
pub open spec fn text_set(start: Board, board: Board, replies: Seq<SupplyReply>) -> bool {
    crate::delivery_laws::same_contents(
        board,
        if replies.len() >= 2 && replies[0] is Block && replies[0]->Block_0 is Ok && replies[1]
            == SupplyReply::Taken(true) {
            rendered(start)
        } else {
            start
        },
    )
}

/// Where serving a request stands, `at` being the number of the call that asked for the answer.
spec fn serves<'a>(
    start: Board,
    now: Served,
    stage: SupplyStage<'a>,
    replies: Seq<SupplyReply<'a>>,
    format: u32,
    opened: bool,
    at: int,
) -> bool {
    let n = replies.len() as int;
    let same = crate::delivery_laws::same_contents(now.board, start);
    let owed = crate::clipboard::text_bytes(start.promised->0);
    match stage {
        SupplyStage::Open { format: f, .. } => at == 1 && n == 0 && f == format && same
            && now.noted == 0,
        SupplyStage::Ask { format: f, opened: o } => n == at && f == format && o == opened && same
            && now.noted == 0 && (at == 1 ==> replies[0] == SupplyReply::Opened(true)),
        SupplyStage::Fill { answer, opened: o } => n == at + 1 && o == opened && same && now.noted
            == 0 && covers(start, format) && answer.content() == owed && (at == 1 ==> replies[0]
            == SupplyReply::Opened(true)),
        SupplyStage::Place { answer, block, opened: o } => n == at + 2 && o == opened && same
            && now.noted == 0 && covers(start, format) && now.board.blocks[block] == owed
            && replies[at + 1] == SupplyReply::Block(Ok(block)) && (at == 1 ==> replies[0]
            == SupplyReply::Opened(true)),
        SupplyStage::Note { opened: o, .. } => (n == at + 2 || n == at + 3) && o == opened
            && now.noted == 0 && covers(start, format) && text_set(
            start,
            now.board,
            replies.skip(at + 1),
        ) && (at == 1 ==> replies[0] == SupplyReply::Opened(true)) && (n == at + 2
            ==> replies[at + 1] is Block && replies[at + 1]->Block_0 is Err),
        SupplyStage::Close { noted } => opened && (at == 1 ==> replies[0] == SupplyReply::Opened(true)) && concluded(start, now, replies, format, at, noted),
        SupplyStage::Over { noted } => {
            ||| at == 1 && n == 1 && replies[0] == SupplyReply::Opened(false) && same
                && now.noted == 0 && !noted
            ||| (at == 1 ==> replies[0] == SupplyReply::Opened(true)) && n > at
                && concluded(start, now, replies, format, at, noted)
        },
    }
}

/// How serving a request ends: where the promise covers it, the text is set and one read noted,
/// else nothing is done.
pub open spec fn concluded<'a>(
    start: Board,
    now: Served,
    replies: Seq<SupplyReply<'a>>,
    format: u32,
    at: int,
    noted: bool,
) -> bool {
    &&& noted <==> covers(start, format)
    &&& noted ==> now.noted == 1 && text_set(start, now.board, replies.skip(at + 1))
    &&& !noted ==> now.noted == 0 && crate::delivery_laws::same_contents(now.board, start)
}

proof fn lemma_serves<'a>(
    start: Board,
    p: Supply<'a>,
    replies: Seq<SupplyReply<'a>>,
    format: u32,
    opened: bool,
    at: int,
)
    requires
        ({
            ||| p.stage == (SupplyStage::Ask { format, opened }) && !opened && at == 0
            ||| p.stage matches SupplyStage::Open { format: f, .. } && f == format && opened && at
                == 1
        }),
        crate::protocol::answers(p, replies),
        replies.len() > at ==> (replies[at] is Answer ==> answers_from_record(
            start,
            format,
            replies[at],
        )),
    ensures
        serves(
            start,
            served(start, crate::protocol::calls(p, replies), replies),
            crate::protocol::after(p, replies).stage,
            replies,
            format,
            opened,
            at,
        ),
    decreases replies.len(),
{
    let calls = crate::protocol::calls(p, replies);
    if replies.len() > 0 {
        let n = replies.len() - 1;
        let shorter = replies.drop_last();
        if at < shorter.len() {
            assert(shorter[at] == replies[at]);
        }
        lemma_serves(start, p, shorter, format, opened, at);
        crate::protocol::lemma_last_step(p, replies);
        assert(calls.drop_last() =~= crate::protocol::calls(p, shorter));
        assert forall|i: int| 0 <= i < n implies #[trigger] replies[i] == shorter[i] by {}
        let before = crate::protocol::after(p, shorter);
        let tail = shorter.skip(at + 1);
        let longer = replies.skip(at + 1);
        match before.stage {
            SupplyStage::Fill { .. } => {
                assert(longer.len() == 1);
            },
            SupplyStage::Place { .. } => {
                assert(longer.len() == 2);
                assert(longer[0] == replies[at + 1] && longer[1] == replies[at + 2]);
            },
            SupplyStage::Note { .. } => {
                assert(tail.len() >= 1 && longer[0] == tail[0]);
                if tail.len() >= 2 {
                    assert(longer[1] == tail[1]);
                }
            },
            SupplyStage::Close { noted } => {
                if noted {
                    assert(longer.len() == tail.len() + 1);
                    assert(tail.len() >= 1 ==> longer[0] == tail[0]);
                    assert(tail.len() >= 2 ==> longer[1] == tail[1]);
                }
            },
            _ => {},
        }
    }
}

/// A request for one format is served from our record: where it is a text format and a text is
/// promised, the bytes of that text are set as `CF_UNICODETEXT`, whichever text format was asked
/// for, and exactly one read is noted, also where there was no memory or the data was not taken; the
/// text stays promised. Any other request changes nothing.
pub proof fn law_request_is_served<'a>(
    start: Board,
    p: Supply<'a>,
    replies: Seq<SupplyReply<'a>>,
    format: u32,
)
    requires
        p.stage == (SupplyStage::Ask { format, opened: false }),
        crate::protocol::completes(p, replies),
        answers_from_record(start, format, replies[0]),
    ensures
        ({
            let end = served(start, crate::protocol::calls(p, replies), replies);
            &&& crate::protocol::after(p, replies).ended() == Some(covers(start, format))
            &&& end.board.promised == start.promised
            &&& covers(start, format) ==> {
                &&& end.noted == 1
                &&& text_set(start, end.board, replies.skip(1))
                &&& replies.len() >= 3 && replies[1] is Block && replies[1]->Block_0 is Ok
                    && replies[2] == SupplyReply::Taken(true)
                    ==> crate::delivery_laws::same_contents(end.board, rendered(start))
                &&& replies[1] is Block && replies[1]->Block_0 is Err
                    ==> crate::delivery_laws::same_contents(end.board, start)
            }
            &&& !covers(start, format) ==> end.noted == 0 && crate::delivery_laws::same_contents(
                end.board,
                start,
            )
        }),
{
    lemma_serves(start, p, replies, format, false, 0);
    assert(replies.len() > 0);
    let tail = replies.skip(1);
    assert(replies.len() >= 2 ==> tail[0] == replies[1]);
    assert(replies.len() >= 3 ==> tail[1] == replies[2]);
}

/// A request for everything is served the same way once the clipboard was opened, and the clipboard
/// is then closed, last and once. Where it could not be opened, nothing is done.
pub proof fn law_everything_is_served<'a>(
    start: Board,
    p: Supply<'a>,
    replies: Seq<SupplyReply<'a>>,
    format: u32,
)
    requires
        p.stage matches SupplyStage::Open { format: f, .. } && f == format,
        crate::protocol::completes(p, replies),
        replies.len() > 1 ==> answers_from_record(start, format, replies[1]),
    ensures
        replies.len() > 0 && replies[0] is Opened,
        ({
            let calls = crate::protocol::calls(p, replies);
            let end = served(start, calls, replies);
            &&& calls[0] is Open
            &&& replies[0] == SupplyReply::Opened(false) ==> calls.len() == 1 && end.noted
                == 0 && crate::delivery_laws::same_contents(end.board, start)
            &&& replies[0] == SupplyReply::Opened(true) ==> {
                &&& calls.last() is Close
                &&& forall|i: int| 0 <= i < calls.len() - 1 ==> !((#[trigger] calls[i]) is Close)
                &&& end.noted == if covers(start, format) {
                    1nat
                } else {
                    0nat
                }
                &&& covers(start, format) ==> text_set(start, end.board, replies.skip(2))
                &&& !covers(start, format) ==> crate::delivery_laws::same_contents(
                    end.board,
                    start,
                )
            }
        }),
{
    let calls = crate::protocol::calls(p, replies);
    let n = replies.len() - 1;
    lemma_serves(start, p, replies, format, true, 1);
    assert(replies.len() > 0);
    assert(replies.take(0) =~= seq![]);
    crate::protocol::lemma_prefix(p, replies, 0);
    if replies[0] == SupplyReply::Opened(true) {
        crate::protocol::lemma_prefix(p, replies, n);
        lemma_serves(start, p, replies.take(n), format, true, 1);
        assert(replies.take(n) =~= replies.drop_last());
        crate::protocol::lemma_last_step(p, replies);
        assert(calls[n] is Close);
        assert forall|i: int| 0 <= i < n implies !((#[trigger] calls[i]) is Close) by {
            if calls[i] is Close {
                crate::protocol::lemma_prefix(p, replies, i);
                crate::protocol::lemma_prefix(p, replies, i + 1);
                assert(replies.take(i + 1).drop_last() =~= replies.take(i));
                assert(crate::protocol::after(p, replies.take(i + 1)).stage is Over);
            }
        }
    }
}

/// What each reply of a supply leads to. An answer is filled into a block, a filled block is set as
/// the clipboard's text, and the read is noted behind that, or at once where there was no memory.
/// Where the clipboard was opened it is closed in the end, and otherwise not.
pub proof fn law_supply_goes_on<'a>(p: Supply<'a>, replies: Seq<SupplyReply<'a>>, i: int)
    requires
        p.stage is Ask || p.stage is Open,
        p.stage matches SupplyStage::Ask { opened, .. } ==> !opened,
        crate::protocol::answers(p, replies),
        0 <= i < replies.len(),
    ensures
        ({
            let call = crate::protocol::calls(p, replies)[i];
            let next = crate::protocol::after(p, replies.take(i + 1));
            let closing = next.pending() == if p.stage is Open {
                Some(SupplyCall::<'a>::Close)
            } else {
                None
            };
            &&& i == 0 ==> match p.stage {
                SupplyStage::Open { window, .. } => call == (SupplyCall::Open { window }),
                SupplyStage::Ask { format, .. } => call == (SupplyCall::Ask { format }),
                _ => false,
            }
            &&& match replies[i] {
                SupplyReply::Opened(true) => p.stage matches SupplyStage::Open { format, .. }
                    && next.pending() == Some(SupplyCall::Ask { format }),
                SupplyReply::Opened(false) => next.ended() == Some(false),
                SupplyReply::Answer(Some(answer)) => next.pending() == Some(
                    SupplyCall::Fill(answer),
                ),
                SupplyReply::Answer(None) => closing,
                SupplyReply::Block(Ok(block)) => next.pending() == Some(
                    SupplyCall::SetData { format: 13, block },
                ),
                SupplyReply::Block(Err(_)) => call is Fill && next.pending() == Some(
                    SupplyCall::Note(call->Fill_0),
                ),
                SupplyReply::Taken(_) => i > 0 && crate::protocol::calls(p, replies)[i - 1] is Fill
                    && next.pending() == Some(
                    SupplyCall::Note(crate::protocol::calls(p, replies)[i - 1]->Fill_0),
                ),
                SupplyReply::Finished => call is Note || call is Close,
            }
            &&& call is Note ==> closing
            &&& call is Close ==> next.ended() is Some
        }),
{
    let calls = crate::protocol::calls(p, replies);
    crate::protocol::lemma_prefix(p, replies, i);
    lemma_supply_stage(p, replies.take(i));
    assert(replies.take(i + 1).drop_last() =~= replies.take(i));
    assert(replies.take(i + 1).last() == replies[i]);
    if i > 0 {
        assert(calls.take(i)[i - 1] == calls[i - 1]);
    }
}

proof fn lemma_supply_stage<'a>(p: Supply<'a>, replies: Seq<SupplyReply<'a>>)
    requires
        p.stage is Ask || p.stage is Open,
        p.stage matches SupplyStage::Ask { opened, .. } ==> !opened,
        crate::protocol::answers(p, replies),
    ensures
        ({
            let now = crate::protocol::after(p, replies);
            let calls = crate::protocol::calls(p, replies);
            let n = replies.len() as int;
            &&& n == 0 <==> now == p
            &&& match now.stage {
                SupplyStage::Open { .. } => n == 0,
                SupplyStage::Ask { opened, format } => {
                    &&& opened == (p.stage is Open)
                    &&& p.stage matches SupplyStage::Open { format: f, .. } ==> f == format
                },
                SupplyStage::Fill { opened, .. } => opened == (p.stage is Open),
                SupplyStage::Place { answer, opened, .. } => opened == (p.stage is Open) && n > 0
                    && calls[n - 1] == SupplyCall::Fill(answer),
                SupplyStage::Note { opened, .. } => opened == (p.stage is Open),
                SupplyStage::Close { .. } => p.stage is Open,
                SupplyStage::Over { .. } => true,
            }
        }),
    decreases replies.len(),
{
    if replies.len() > 0 {
        lemma_supply_stage(p, replies.drop_last());
        crate::protocol::lemma_last_step(p, replies);
    }
}

/// A supply takes every answer: the clipboard opened or not, no answer or, for a text format, any, a
/// block or none, and data taken or not.
pub proof fn law_supply_takes_every_answer<'a>(
    p: Supply<'a>,
    yes: bool,
    answer: &'a Rendering,
    block: usize,
    e: OsError,
)
    ensures
        match p.pending() {
            Some(SupplyCall::Open { .. }) => p.fits(SupplyReply::Opened(yes)),
            Some(SupplyCall::Ask { format }) => p.fits(SupplyReply::Answer(None)) && (format == 13
                || format == 1 || format == 7 ==> p.fits(SupplyReply::Answer(Some(answer)))),
            Some(SupplyCall::Fill(_)) => p.fits(SupplyReply::Block(Ok(block))) && p.fits(
                SupplyReply::Block(Err(Error::Alloc(e))),
            ),
            Some(SupplyCall::SetData { .. }) => p.fits(SupplyReply::Taken(yes)),
            Some(_) => p.fits(SupplyReply::Finished),
            None => true,
        },
{
}

} // verus!
