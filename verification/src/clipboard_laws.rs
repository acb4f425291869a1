//! What holds of every use of the clipboard, whatever the system replies.

use vstd::prelude::*;

use crate::clipboard::{Access, AccessStage, BlockCall, BlockFill, BlockReply, BlockStage,
    ClipboardCall, ClipboardReply, Done, GateCall, GateReply, GateStage, GatedRestore, Payload,
    Task, CF_UNICODETEXT, OPEN_BACKOFF_MS, PRIVACY_FORMATS};
use crate::error::{Error, OsError};
use crate::protocol::Protocol;

verus! {

/// Whether `p` has not made a call yet.
pub open spec fn fresh(p: Access) -> bool {
    p.stage == AccessStage::Opening { attempt: 0 }
}

/// Whether a reply reports success.
pub open spec fn succeeded(reply: ClipboardReply) -> bool {
    reply is Status && reply->Status_0 is Ok
}

/// Whether a reply reports a failure.
pub open spec fn failed(reply: ClipboardReply) -> bool {
    reply is Status && reply->Status_0 is Err
}

/// Whether the first `n` calls are attempts to open with waits in between, and every attempt among
/// them failed.
pub open spec fn contended<'a>(
    p: Access<'a>,
    calls: Seq<ClipboardCall<'a>>,
    replies: Seq<ClipboardReply>,
    n: int,
) -> bool {
    &&& n <= calls.len()
    &&& forall|i: int|
        0 <= i < n ==> if i % 2 == 0 {
            (#[trigger] calls[i]) == (ClipboardCall::Open { owner: p.owner() }) && failed(
                replies[i],
            )
        } else {
            calls[i] == (ClipboardCall::Sleep { millis: OPEN_BACKOFF_MS })
        }
}

/// Whether call number `n` opened the clipboard.
pub open spec fn opened_at<'a>(
    p: Access<'a>,
    calls: Seq<ClipboardCall<'a>>,
    replies: Seq<ClipboardReply>,
    n: int,
) -> bool {
    &&& 0 <= n < calls.len()
    &&& n % 2 == 0
    &&& n <= 8
    &&& contended(p, calls, replies, n)
    &&& calls[n] == (ClipboardCall::Open { owner: p.owner() })
    &&& succeeded(replies[n])
}

/// Whether the clipboard is open at `stage`.
pub open spec fn is_open(stage: AccessStage) -> bool {
    stage !is Opening && stage !is BackingOff && stage !is Over
}

proof fn lemma_contended_grows<'a>(p: Access<'a>, replies: Seq<ClipboardReply>, n: int)
    requires
        replies.len() > 0,
        n < replies.len(),
        contended(
            p,
            crate::protocol::calls(p, replies.drop_last()),
            replies.drop_last(),
            n,
        ),
    ensures
        contended(p, crate::protocol::calls(p, replies), replies, n),
{
    let shorter = replies.drop_last();
    let before = crate::protocol::calls(p, shorter);
    let all = crate::protocol::calls(p, replies);
    crate::protocol::lemma_last_step(p, replies);
    assert forall|i: int| 0 <= i < n implies if i % 2 == 0 {
        (#[trigger] all[i]) == (ClipboardCall::Open { owner: p.owner() }) && failed(
            replies[i],
        )
    } else {
        all[i] == (ClipboardCall::Sleep { millis: OPEN_BACKOFF_MS })
    } by {
        assert(all[i] == before[i]);
        assert(replies[i] == shorter[i]);
    }
}

/// Opening the clipboard is retried: it takes at most five attempts, twelve milliseconds apart, and
/// stops at the first that succeeds. What a run has gone through says where it stands.
pub proof fn law_open_is_retried<'a>(p: Access<'a>, replies: Seq<ClipboardReply>)
    requires
        fresh(p),
        crate::protocol::answers(p, replies),
    ensures
        ({
            let now = crate::protocol::after(p, replies);
            let all = crate::protocol::calls(p, replies);
            &&& now.wf()
            &&& now.task == p.task
            &&& now.stage matches AccessStage::Opening { attempt } ==> replies.len() == 2 * attempt
                && contended(p, all, replies, replies.len() as int)
            &&& now.stage matches AccessStage::BackingOff { attempt } ==> replies.len() == 2
                * attempt - 1 && contended(p, all, replies, replies.len() as int)
            &&& is_open(now.stage) ==> exists|n: int| opened_at(p, all, replies, n)
            &&& now.stage is Over ==> (exists|n: int| opened_at(p, all, replies, n)) || {
                &&& replies.len() == 9
                &&& contended(p, all, replies, 9)
                &&& now.ended() == Some(
                    Err::<Done, Error>(Error::ClipboardLocked(replies[8]->Status_0->Err_0)),
                )
            }
        }),
    decreases replies.len(),
{
    let all = crate::protocol::calls(p, replies);
    if replies.len() > 0 {
        let shorter = replies.drop_last();
        let before = crate::protocol::after(p, shorter);
        let now = crate::protocol::after(p, replies);
        let last = replies.len() - 1;
        law_open_is_retried(p, shorter);
        crate::protocol::lemma_last_step(p, replies);
        assert(all[last] == before.pending()->0);
        if before.stage is Opening || before.stage is BackingOff {
            lemma_contended_grows(p, replies, last);
            if before.stage is Opening {
                if succeeded(replies[last]) {
                    assert(opened_at(p, all, replies, last));
                } else {
                    assert(contended(p, all, replies, replies.len() as int));
                }
            } else {
                assert(contended(p, all, replies, replies.len() as int));
            }
        } else {
            let n = choose|n: int| opened_at(p, crate::protocol::calls(p, shorter), shorter, n);
            lemma_contended_grows(p, replies, n);
            assert(opened_at(p, all, replies, n));
        }
    }
}

/// While an access goes on, it has not closed the clipboard.
proof fn lemma_not_closed_yet<'a>(p: Access<'a>, replies: Seq<ClipboardReply>)
    requires
        fresh(p),
        crate::protocol::answers(p, replies),
        crate::protocol::after(p, replies).stage !is Over,
    ensures
        forall|i: int|
            0 <= i < replies.len() ==> !((
            #[trigger] crate::protocol::calls(p, replies)[i]) is Close),
    decreases replies.len(),
{
    if replies.len() > 0 {
        let shorter = replies.drop_last();
        let all = crate::protocol::calls(p, replies);
        lemma_not_closed_yet(p, shorter);
        crate::protocol::lemma_last_step(p, replies);
        assert forall|i: int| 0 <= i < replies.len() implies !((#[trigger] all[i]) is Close) by {
            if i < shorter.len() {
                assert(all[i] == crate::protocol::calls(p, shorter)[i]);
            }
        }
    }
}

/// The clipboard is closed exactly once where it was opened, as the last call, and never where it
/// was not.
pub proof fn law_closed_iff_opened<'a>(p: Access<'a>, replies: Seq<ClipboardReply>)
    requires
        fresh(p),
        crate::protocol::completes(p, replies),
    ensures
        ({
            let all = crate::protocol::calls(p, replies);
            &&& replies.len() > 0
            &&& forall|i: int| 0 <= i < replies.len() - 1 ==> !((#[trigger] all[i]) is Close)
            &&& all.last() is Close <==> exists|n: int| opened_at(p, all, replies, n)
        }),
{
    let all = crate::protocol::calls(p, replies);
    let shorter = replies.drop_last();
    let last = replies.len() - 1;
    law_open_is_retried(p, replies);
    law_open_is_retried(p, shorter);
    lemma_not_closed_yet(p, shorter);
    crate::protocol::lemma_last_step(p, replies);
    assert forall|i: int| 0 <= i < last implies !((#[trigger] all[i]) is Close) by {
        assert(all[i] == crate::protocol::calls(p, shorter)[i]);
    }
    let before = crate::protocol::after(p, shorter);
    if before.stage is Opening {
        assert forall|n: int| !opened_at(p, all, replies, n) by {
            if opened_at(p, all, replies, n) {
                if n < last {
                    assert(all[n] == crate::protocol::calls(p, shorter)[n]);
                    assert(failed(shorter[n]));
                    assert(shorter[n] == replies[n]);
                }
            }
        }
    } else {
        let n = choose|n: int| opened_at(p, crate::protocol::calls(p, shorter), shorter, n);
        lemma_contended_grows(p, replies, n);
        assert(opened_at(p, all, replies, n));
    }
}

/// Whether call number `j` registers opt-out format `f`, and the calls behind it attach it: with
/// its payload where it has one, unless the format could not be registered or the payload not
/// allocated.
pub open spec fn attached_at<'a>(
    calls: Seq<ClipboardCall<'a>>,
    replies: Seq<ClipboardReply>,
    f: usize,
    j: int,
) -> bool {
    &&& 0 <= j < calls.len()
    &&& calls[j] == (ClipboardCall::Register { index: f })
    &&& replies[j] is Format
    &&& {
        let format = replies[j]->Format_0;
        ||| format == 0
        ||| match crate::clipboard::payload_of(f) {
            None => j + 1 < calls.len() && calls[j + 1] == (ClipboardCall::SetData {
                format,
                block: None,
            }),
            Some(value) => {
                &&& j + 1 < calls.len()
                &&& calls[j + 1] == ClipboardCall::Allocate(Payload::Dword(value))
                &&& replies[j + 1] is Block
                &&& replies[j + 1]->Block_0 is Ok ==> j + 2 < calls.len() && calls[j + 2] == (
                ClipboardCall::SetData { format, block: Some(replies[j + 1]->Block_0->Ok_0) })
            },
        }
    }
}

/// Whether opt-out format `f` was attached, as far as the system let it be.
pub open spec fn is_attached<'a>(
    calls: Seq<ClipboardCall<'a>>,
    replies: Seq<ClipboardReply>,
    f: usize,
) -> bool {
    exists|j: int| #[trigger] attached_at(calls, replies, f, j)
}

/// Whether the first `n` opt-out formats were attached, as far as the system let them be.
pub open spec fn attached<'a>(
    calls: Seq<ClipboardCall<'a>>,
    replies: Seq<ClipboardReply>,
    n: int,
) -> bool {
    forall|f: usize| f < n ==> #[trigger] is_attached(calls, replies, f)
}

/// Whether call number `j` emptied the clipboard and the two behind it filled a block with `text`
/// and set it as the clipboard's text.
pub open spec fn text_set_at<'a>(
    calls: Seq<ClipboardCall<'a>>,
    replies: Seq<ClipboardReply>,
    text: &'a str,
    j: int,
) -> bool {
    &&& 0 <= j
    &&& j + 2 < calls.len()
    &&& calls[j] is Empty && succeeded(replies[j])
    &&& calls[j + 1] == ClipboardCall::Allocate(Payload::Text(text))
    &&& replies[j + 1] is Block && replies[j + 1]->Block_0 is Ok
    &&& calls[j + 2] == (ClipboardCall::SetData {
        format: CF_UNICODETEXT,
        block: Some(replies[j + 1]->Block_0->Ok_0),
    })
    &&& succeeded(replies[j + 2])
}

/// Whether call number `j` emptied the clipboard, the one behind it recorded the promise of `text`,
/// and the next put a promise of text there.
pub open spec fn promised_at<'a>(
    calls: Seq<ClipboardCall<'a>>,
    replies: Seq<ClipboardReply>,
    text: &'a str,
    j: int,
) -> bool {
    &&& 0 <= j
    &&& j + 2 < calls.len()
    &&& calls[j] is Empty && succeeded(replies[j])
    &&& calls[j + 1] == ClipboardCall::Record(text)
    &&& replies[j + 1] == ClipboardReply::Recorded(true)
    &&& calls[j + 2] == (ClipboardCall::SetData { format: CF_UNICODETEXT, block: None })
}

/// Whether the task's own data is on the clipboard.
pub open spec fn data_set<'a>(
    p: Access<'a>,
    calls: Seq<ClipboardCall<'a>>,
    replies: Seq<ClipboardReply>,
) -> bool {
    match p.task {
        Task::WriteText(text) => exists|j: int| #[trigger] text_set_at(calls, replies, text, j),
        Task::Publish { text, .. } => exists|j: int| #[trigger]
            promised_at(calls, replies, text, j),
        _ => false,
    }
}

/// What lies behind an access that stands at `stage`.
pub open spec fn behind<'a>(
    p: Access<'a>,
    stage: AccessStage,
    calls: Seq<ClipboardCall<'a>>,
    replies: Seq<ClipboardReply>,
) -> bool {
    let n = calls.len() as int;
    match stage {
        AccessStage::Emptying => p.task !is Capture,
        AccessStage::AllocatingText => {
            &&& p.task is WriteText
            &&& n >= 1 && calls[n - 1] is Empty && succeeded(replies[n - 1])
        },
        AccessStage::SettingText { block } => {
            &&& p.task is WriteText
            &&& n >= 2 && calls[n - 2] is Empty && succeeded(replies[n - 2])
            &&& calls[n - 1] == ClipboardCall::Allocate(Payload::Text(p.task->WriteText_0))
            &&& replies[n - 1] == ClipboardReply::Block(Ok(block))
        },
        AccessStage::Recording => {
            &&& p.task is Publish
            &&& n >= 1 && calls[n - 1] is Empty && succeeded(replies[n - 1])
        },
        AccessStage::Promising => {
            &&& p.task is Publish
            &&& n >= 2 && calls[n - 2] is Empty && succeeded(replies[n - 2])
            &&& calls[n - 1] == ClipboardCall::Record(p.task->text)
            &&& replies[n - 1] == ClipboardReply::Recorded(true)
        },
        AccessStage::Registering { index } => {
            &&& data_set(p, calls, replies)
            &&& attached(calls, replies, index as int)
        },
        AccessStage::AllocatingFlag { index, format } => {
            &&& data_set(p, calls, replies)
            &&& attached(calls, replies, index as int)
            &&& format != 0 && crate::clipboard::payload_of(index) is Some
            &&& n >= 1 && calls[n - 1] == (ClipboardCall::Register { index })
            &&& replies[n - 1] == ClipboardReply::Format(format)
        },
        AccessStage::Attaching { index, format, data } => {
            &&& data_set(p, calls, replies)
            &&& attached(calls, replies, index as int)
            &&& format != 0
            &&& match data {
                None => {
                    &&& crate::clipboard::payload_of(index) is None
                    &&& n >= 1 && calls[n - 1] == (ClipboardCall::Register { index })
                    &&& replies[n - 1] == ClipboardReply::Format(format)
                },
                Some(block) => {
                    &&& crate::clipboard::payload_of(index) is Some
                    &&& n >= 2 && calls[n - 2] == (ClipboardCall::Register { index })
                    &&& replies[n - 2] == ClipboardReply::Format(format)
                    &&& calls[n - 1] == ClipboardCall::Allocate(
                        Payload::Dword(crate::clipboard::payload_of(index)->0),
                    )
                    &&& replies[n - 1] == ClipboardReply::Block(Ok(block))
                },
            }
        },
        AccessStage::AskingOwner => {
            &&& p.task is Publish
            &&& data_set(p, calls, replies)
            &&& attached(calls, replies, PRIVACY_FORMATS as int)
        },
        AccessStage::AskingFormat { owned } => {
            &&& p.task is Publish
            &&& data_set(p, calls, replies)
            &&& attached(calls, replies, PRIVACY_FORMATS as int)
            &&& n >= 1 && calls[n - 1] is Owner
            &&& owned <==> replies[n - 1] == ClipboardReply::Owner(p.owner())
        },
        AccessStage::ReadingSequence => p.task is Capture,
        AccessStage::ReadingText { sequence } => {
            &&& p.task is Capture
            &&& n >= 1 && calls[n - 1] is SequenceNumber
            &&& replies[n - 1] == ClipboardReply::Sequence(sequence)
        },
        AccessStage::Closing { result } => match result {
            Ok(Done::Wrote) => {
                &&& p.task is WriteText
                &&& data_set(p, calls, replies)
                &&& attached(calls, replies, PRIVACY_FORMATS as int)
            },
            Ok(Done::Published) => {
                &&& p.task is Publish
                &&& data_set(p, calls, replies)
                &&& attached(calls, replies, PRIVACY_FORMATS as int)
                &&& n >= 2 && calls[n - 2] is Owner
                &&& replies[n - 2] == ClipboardReply::Owner(p.owner())
                &&& calls[n - 1] == (ClipboardCall::Advertised { format: CF_UNICODETEXT })
                &&& replies[n - 1] == ClipboardReply::Advertised(true)
            },
            Ok(Done::Cleared) => {
                &&& p.task is Clear
                &&& n >= 1 && calls[n - 1] is Empty && succeeded(replies[n - 1])
            },
            Ok(Done::Captured { sequence }) => {
                &&& p.task is Capture
                &&& n >= 2 && calls[n - 2] is SequenceNumber
                &&& replies[n - 2] == ClipboardReply::Sequence(sequence)
                &&& calls[n - 1] is ReadText
            },
            Err(_) => true,
        },
        _ => true,
    }
}

/// What was set and attached stays so as a run goes on.
proof fn lemma_data_stays<'a>(
    p: Access<'a>,
    calls: Seq<ClipboardCall<'a>>,
    replies: Seq<ClipboardReply>,
    call: ClipboardCall<'a>,
    reply: ClipboardReply,
    n: int,
)
    requires
        calls.len() == replies.len(),
    ensures
        data_set(p, calls, replies) ==> data_set(p, calls.push(call), replies.push(reply)),
        attached(calls, replies, n) ==> attached(calls.push(call), replies.push(reply), n),
{
    let more = calls.push(call);
    let answers = replies.push(reply);
    if data_set(p, calls, replies) {
        match p.task {
            Task::WriteText(text) => {
                let j = choose|j: int| text_set_at(calls, replies, text, j);
                assert(text_set_at(more, answers, text, j));
            },
            _ => {
                let text = p.task->text;
                let j = choose|j: int| promised_at(calls, replies, text, j);
                assert(promised_at(more, answers, text, j));
            },
        }
    }
    if attached(calls, replies, n) {
        assert forall|f: usize| f < n implies #[trigger] is_attached(more, answers, f) by {
            assert(is_attached(calls, replies, f));
            let j = choose|j: int| attached_at(calls, replies, f, j);
            assert(attached_at(more, answers, f, j));
        }
    }
}

/// Each step keeps what lies behind in line with where the access stands.
proof fn lemma_behind_step<'a>(
    p: Access<'a>,
    before: Access<'a>,
    calls: Seq<ClipboardCall<'a>>,
    replies: Seq<ClipboardReply>,
    reply: ClipboardReply,
)
    requires
        before.task == p.task,
        before.wf(),
        before.pending() is Some,
        before.fits(reply),
        calls.len() == replies.len(),
        behind(p, before.stage, calls, replies),
    ensures
        behind(
            p,
            before.next_stage(reply),
            calls.push(before.pending()->0),
            replies.push(reply),
        ),
{
    let n = calls.len() as int;
    let call = before.pending()->0;
    let more = calls.push(call);
    let answers = replies.push(reply);
    lemma_data_stays(p, calls, replies, call, reply, PRIVACY_FORMATS as int);
    match before.stage {
        AccessStage::SettingText { .. } => {
            if succeeded(reply) {
                assert(text_set_at(more, answers, p.task->WriteText_0, n - 2));
            }
        },
        AccessStage::Promising => {
            assert(promised_at(more, answers, p.task->text, n - 2));
        },
        AccessStage::Registering { index } => {
            lemma_data_stays(p, calls, replies, call, reply, index as int);
            if reply->Format_0 == 0 {
                assert(attached_at(more, answers, index, n));
                assert(attached(more, answers, index + 1));
            }
        },
        AccessStage::AllocatingFlag { index, .. } => {
            lemma_data_stays(p, calls, replies, call, reply, index as int);
            if reply->Block_0 is Err {
                assert(attached_at(more, answers, index, n - 1));
                assert(attached(more, answers, index + 1));
            }
        },
        AccessStage::Attaching { index, data, .. } => {
            lemma_data_stays(p, calls, replies, call, reply, index as int);
            if data is None {
                assert(attached_at(more, answers, index, n - 1));
            } else {
                assert(attached_at(more, answers, index, n - 2));
            }
            assert(attached(more, answers, index + 1));
        },
        _ => {},
    }
}

/// What lies behind every access in progress.
proof fn lemma_behind<'a>(p: Access<'a>, replies: Seq<ClipboardReply>)
    requires
        fresh(p),
        crate::protocol::answers(p, replies),
    ensures
        behind(
            p,
            crate::protocol::after(p, replies).stage,
            crate::protocol::calls(p, replies),
            replies,
        ),
    decreases replies.len(),
{
    if replies.len() > 0 {
        let shorter = replies.drop_last();
        let before = crate::protocol::after(p, shorter);
        lemma_behind(p, shorter);
        law_open_is_retried(p, shorter);
        crate::protocol::lemma_last_step(p, replies);
        lemma_behind_step(
            p,
            before,
            crate::protocol::calls(p, shorter),
            shorter,
            replies.last(),
        );
        assert(shorter.push(replies.last()) =~= replies);
    }
}

/// The last call of an access that ended well: the clipboard was being closed, and everything else
/// lies behind that.
proof fn lemma_ended_well<'a>(p: Access<'a>, replies: Seq<ClipboardReply>, done: Done)
    requires
        fresh(p),
        crate::protocol::completes(p, replies),
        crate::protocol::after(p, replies).ended() == Some(Ok::<Done, Error>(done)),
    ensures
        replies.len() > 0,
        ({
            let all = crate::protocol::calls(p, replies);
            &&& all == crate::protocol::calls(p, replies.drop_last()).push(ClipboardCall::Close)
            &&& replies == replies.drop_last().push(replies.last())
            &&& behind(
                p,
                AccessStage::Closing { result: Ok(done) },
                crate::protocol::calls(p, replies.drop_last()),
                replies.drop_last(),
            )
        }),
{
    let shorter = replies.drop_last();
    lemma_behind(p, shorter);
    crate::protocol::lemma_last_step(p, replies);
    assert(shorter.push(replies.last()) =~= replies);
}

/// A private write does what it says: when it succeeds, the clipboard was emptied, a block holding
/// the text as `CF_UNICODETEXT` was set, and all four opt-outs were attached, except those that the
/// system would not register or give memory for.
pub proof fn law_private_write<'a>(p: Access<'a>, replies: Seq<ClipboardReply>)
    requires
        fresh(p),
        p.task is WriteText,
        crate::protocol::completes(p, replies),
        crate::protocol::after(p, replies).ended() matches Some(Ok(_)),
    ensures
        ({
            let all = crate::protocol::calls(p, replies);
            &&& exists|j: int| #[trigger]
                text_set_at(all, replies, p.task->WriteText_0, j)
            &&& attached(all, replies, PRIVACY_FORMATS as int)
        }),
{
    let shorter = replies.drop_last();
    lemma_ended_well(p, replies, crate::protocol::after(p, replies).ended()->0->Ok_0);
    lemma_data_stays(
        p,
        crate::protocol::calls(p, shorter),
        shorter,
        ClipboardCall::Close,
        replies.last(),
        PRIVACY_FORMATS as int,
    );
}

/// A published promise is really there: when publishing succeeds, the clipboard was emptied, the
/// text recorded only after that, and the promise set only after the record; all four opt-outs were attached as for a write,
/// and the owner and the advertised format were both confirmed afterwards.
pub proof fn law_promise_is_confirmed<'a>(p: Access<'a>, replies: Seq<ClipboardReply>)
    requires
        fresh(p),
        p.task is Publish,
        crate::protocol::completes(p, replies),
        crate::protocol::after(p, replies).ended() matches Some(Ok(_)),
    ensures
        ({
            let all = crate::protocol::calls(p, replies);
            let n = replies.len() as int;
            &&& exists|j: int| #[trigger] promised_at(all, replies, p.task->text, j)
            &&& attached(all, replies, PRIVACY_FORMATS as int)
            &&& n >= 3 && all[n - 3] is Owner && replies[n - 3] == ClipboardReply::Owner(
                p.owner(),
            )
            &&& all[n - 2] == (ClipboardCall::Advertised { format: CF_UNICODETEXT })
            &&& replies[n - 2] == ClipboardReply::Advertised(true)
        }),
{
    let shorter = replies.drop_last();
    lemma_ended_well(p, replies, crate::protocol::after(p, replies).ended()->0->Ok_0);
    lemma_data_stays(
        p,
        crate::protocol::calls(p, shorter),
        shorter,
        ClipboardCall::Close,
        replies.last(),
        PRIVACY_FORMATS as int,
    );
}

/// A capture reads number and text together: between opening and closing the clipboard it reads the
/// sequence number it reports, and then the text.
pub proof fn law_capture_is_consistent<'a>(p: Access<'a>, replies: Seq<ClipboardReply>)
    requires
        fresh(p),
        p.task is Capture,
        crate::protocol::completes(p, replies),
        crate::protocol::after(p, replies).ended() matches Some(Ok(_)),
    ensures
        ({
            let all = crate::protocol::calls(p, replies);
            let n = replies.len() as int;
            &&& n >= 3
            &&& all[n - 3] is SequenceNumber
            &&& all[n - 2] is ReadText
            &&& all[n - 1] is Close
            &&& crate::protocol::after(p, replies).ended() == Some(
                Ok::<Done, Error>(Done::Captured { sequence: replies[n - 3]->Sequence_0 }),
            )
        }),
{
    lemma_ended_well(p, replies, crate::protocol::after(p, replies).ended()->0->Ok_0);
}

/// Which errors a use of the clipboard can end in: it was locked, a call failed once it was open,
/// or, for a write, there was no memory, and for a promise, it could not be recorded or was not
/// taken.
pub open spec fn can_fail(task: Task, error: Error) -> bool {
    ||| error is ClipboardLocked
    ||| error is Clipboard && task !is Capture
    ||| error is Alloc && task is WriteText
    ||| error is OwnerWindowFailed && task is Publish
}

/// A use of the clipboard fails only in the ways that its task can.
pub proof fn law_access_errors<'a>(p: Access<'a>, replies: Seq<ClipboardReply>)
    requires
        fresh(p),
        crate::protocol::answers(p, replies),
    ensures
        ({
            let now = crate::protocol::after(p, replies);
            &&& now.stage matches AccessStage::Closing { result: Err(e) } ==> can_fail(p.task, e)
            &&& now.ended() matches Some(Err(e)) ==> can_fail(p.task, e)
        }),
    decreases replies.len(),
{
    if replies.len() > 0 {
        law_access_errors(p, replies.drop_last());
        law_open_is_retried(p, replies.drop_last());
        lemma_behind(p, replies.drop_last());
    }
}

/// How many calls the opt-out formats from `index` on can take at most.
pub open spec fn format_calls(index: int) -> int {
    if index <= 0 {
        10
    } else if index == 1 {
        8
    } else if index == 2 {
        5
    } else if index == 3 {
        2
    } else {
        0
    }
}

/// How many calls an access that stands at `stage` can still make at most.
pub open spec fn calls_left(stage: AccessStage) -> int {
    match stage {
        AccessStage::Opening { attempt } => 25 - 2 * attempt,
        AccessStage::BackingOff { attempt } => 26 - 2 * attempt,
        AccessStage::Emptying => 16,
        AccessStage::AllocatingText => 15,
        AccessStage::SettingText { .. } => 14,
        AccessStage::Recording => 15,
        AccessStage::Promising => 14,
        AccessStage::Registering { index } => format_calls(index as int) + 3,
        AccessStage::AllocatingFlag { index, .. } => format_calls(index + 1) + 5,
        AccessStage::Attaching { index, .. } => format_calls(index + 1) + 4,
        AccessStage::AskingOwner => 3,
        AccessStage::AskingFormat { .. } => 2,
        AccessStage::ReadingSequence => 3,
        AccessStage::ReadingText { .. } => 2,
        AccessStage::Closing { .. } => 1,
        AccessStage::Over { .. } => 0,
    }
}

/// Every use of the clipboard comes to an end: the calls made and the calls left never exceed
/// twenty-five.
pub proof fn law_access_ends<'a>(p: Access<'a>, replies: Seq<ClipboardReply>)
    requires
        fresh(p),
        crate::protocol::answers(p, replies),
    ensures
        replies.len() + calls_left(crate::protocol::after(p, replies).stage) <= 25,
        replies.len() <= 25,
    decreases replies.len(),
{
    if replies.len() > 0 {
        law_open_is_retried(p, replies.drop_last());
        law_access_ends(p, replies.drop_last());
    }
    law_open_is_retried(p, replies);
}

/// The answers to the restore inside a gated restore.
pub open spec fn inner(replies: Seq<GateReply>) -> Seq<ClipboardReply> {
    replies.map_values(|r: GateReply| r->Clipboard_0)
}

/// A gated restore past its gate is the restore itself, call by call.
pub proof fn lemma_gate_runs_restore<'a>(
    p: GatedRestore<'a>,
    access: Access<'a>,
    replies: Seq<GateReply>,
)
    requires
        p.stage == GateStage::Restoring(access),
        access.ended() is None,
        crate::protocol::answers(p, replies),
    ensures
        crate::protocol::answers(access, inner(replies)),
        crate::protocol::calls(p, replies) == crate::protocol::calls(
            access,
            inner(replies),
        ).map_values(|c: ClipboardCall<'a>| GateCall::Clipboard(c)),
        crate::protocol::after(p, replies) == (GatedRestore {
            stage: match crate::protocol::after(access, inner(replies)).ended() {
                None => GateStage::Restoring(crate::protocol::after(access, inner(replies))),
                Some(Ok(_)) => GateStage::Over(Ok(true)),
                Some(Err(e)) => GateStage::Over(Err(e)),
            },
            ..p
        }),
    decreases replies.len(),
{
    let to_gate = |c: ClipboardCall<'a>| GateCall::Clipboard(c);
    if replies.len() == 0 {
        assert(inner(replies) =~= Seq::<ClipboardReply>::empty());
        assert(crate::protocol::calls(p, replies) =~= crate::protocol::calls(
            access,
            inner(replies),
        ).map_values(to_gate));
    } else {
        let shorter = replies.drop_last();
        lemma_gate_runs_restore(p, access, shorter);
        crate::protocol::lemma_last_step(p, replies);
        assert(inner(replies).drop_last() =~= inner(shorter));
        assert(inner(replies).last() == replies.last()->Clipboard_0);
        crate::protocol::lemma_last_step(access, inner(replies));
        assert(crate::protocol::calls(p, replies) =~= crate::protocol::calls(
            access,
            inner(replies),
        ).map_values(to_gate));
    }
}

/// A third party's clipboard is never clobbered: where the sequence number is not that of our own
/// write, a gated restore ends without touching the clipboard, and says that it did nothing.
pub proof fn law_third_party_is_spared<'a>(p: GatedRestore<'a>, replies: Seq<GateReply>)
    requires
        p.stage is Number,
        crate::protocol::answers(p, replies),
        replies.len() > 0,
        replies[0] != GateReply::Sequence(p.expected),
    ensures
        crate::protocol::calls(p, replies) == seq![GateCall::<'a>::SequenceNumber],
        crate::protocol::after(p, replies).ended() == Some(Ok::<bool, Error>(false)),
{
    let next = p.advance(replies[0]);
    crate::protocol::lemma_first_step(p, replies);
    if replies.len() > 1 {
        crate::protocol::lemma_first_step(next, replies.skip(1));
    } else {
        assert(replies.skip(1) =~= Seq::<GateReply>::empty());
        assert(crate::protocol::calls(next, replies.skip(1)) =~= seq![]);
    }
}

/// A gated restore that reports success has found our own write on the clipboard and then carried
/// out the restore.
pub proof fn law_gated_restore_restores<'a>(p: GatedRestore<'a>, replies: Seq<GateReply>)
    requires
        p.stage is Number,
        crate::protocol::completes(p, replies),
        crate::protocol::after(p, replies).ended() == Some(Ok::<bool, Error>(true)),
    ensures
        replies.len() > 0,
        replies[0] == GateReply::Sequence(p.expected),
        ({
            let access = Access { task: p.task, stage: AccessStage::Opening { attempt: 0 } };
            let rest = inner(replies.skip(1));
            &&& crate::protocol::completes(access, rest)
            &&& crate::protocol::after(access, rest).ended() matches Some(Ok(_))
            &&& crate::protocol::calls(p, replies) == seq![GateCall::<'a>::SequenceNumber]
                + crate::protocol::calls(access, rest).map_values(
                |c: ClipboardCall<'a>| GateCall::Clipboard(c),
            )
        }),
{
    let access = Access { task: p.task, stage: AccessStage::Opening { attempt: 0 } };
    if replies.len() > 0 {
        let next = p.advance(replies[0]);
        crate::protocol::lemma_first_step(p, replies);
        if replies[0] != GateReply::Sequence(p.expected) {
            law_third_party_is_spared(p, replies);
        } else {
            lemma_gate_runs_restore(next, access, replies.skip(1));
        }
    }
}

/// Where filling a block stands, by the number of replies.
proof fn lemma_fill_trail(p: BlockFill, replies: Seq<BlockReply>)
    requires
        p.stage is Allocate,
        crate::protocol::answers(p, replies),
    ensures
        ({
            let now = crate::protocol::after(p, replies);
            let n = replies.len() as int;
            let locked = |block: usize|
                n >= 2 && replies[0] == BlockReply::Allocated(Ok(block)) && replies[1] is Locked
                    && replies[1]->address != 0;
            &&& now.bytes == p.bytes
            &&& match now.stage {
                BlockStage::Allocate => n == 0,
                BlockStage::Lock { block } => n == 1 && replies[0] == BlockReply::Allocated(
                    Ok(block),
                ),
                BlockStage::Copy { block, address } => n == 2 && locked(block)
                    && replies[1]->address == address,
                BlockStage::Unlock { block } => n == 3 && locked(block),
                BlockStage::Over(Ok(block)) => n == 4 && locked(block),
                BlockStage::Over(Err(_)) => n <= 2 && (n == 2 ==> replies[1] is Locked
                    && replies[1]->address == 0),
            }
        }),
    decreases replies.len(),
{
    if replies.len() > 0 {
        let shorter = replies.drop_last();
        lemma_fill_trail(p, shorter);
        assert(shorter.len() >= 1 ==> replies[0] == shorter[0]);
        assert(shorter.len() >= 2 ==> replies[1] == shorter[1]);
    }
}

/// A block that comes back holds the bytes and is unlocked: it was allocated with their length and
/// locked, the bytes were copied to where it begins, and it was unlocked.
pub proof fn law_filled_block(p: BlockFill, replies: Seq<BlockReply>, block: usize)
    requires
        p.stage is Allocate,
        crate::protocol::completes(p, replies),
        crate::protocol::after(p, replies).ended() == Some(Ok::<usize, Error>(block)),
    ensures
        replies.len() == 4,
        replies[1] is Locked && replies[1]->address != 0,
        crate::protocol::calls(p, replies) == seq![
            BlockCall::Allocate { len: p.bytes@.len() as usize },
            BlockCall::Lock { block },
            BlockCall::Copy { address: replies[1]->address, bytes: p.bytes },
            BlockCall::Unlock { block },
        ],
{
    lemma_fill_trail(p, replies);
    assert(replies.take(0) =~= seq![]);
    crate::protocol::lemma_prefix(p, replies, 0);
    crate::protocol::lemma_prefix(p, replies, 1);
    lemma_fill_trail(p, replies.take(1));
    crate::protocol::lemma_prefix(p, replies, 2);
    lemma_fill_trail(p, replies.take(2));
    crate::protocol::lemma_prefix(p, replies, 3);
    lemma_fill_trail(p, replies.take(3));
    assert(crate::protocol::calls(p, replies) =~= seq![
        BlockCall::Allocate { len: p.bytes@.len() as usize },
        BlockCall::Lock { block },
        BlockCall::Copy { address: replies[1]->address, bytes: p.bytes },
        BlockCall::Unlock { block },
    ]);
}

/// A block that was locked is always unlocked: filling fails only before the lock is held.
pub proof fn law_locked_block_is_unlocked(p: BlockFill, replies: Seq<BlockReply>)
    requires
        p.stage is Allocate,
        crate::protocol::completes(p, replies),
        replies.len() >= 2,
        replies[1] is Locked && replies[1]->address != 0,
    ensures
        crate::protocol::after(p, replies).ended() matches Some(Ok(_)),
        crate::protocol::calls(p, replies).last() is Unlock,
{
    lemma_fill_trail(p, replies);
    let block = crate::protocol::after(p, replies).ended()->0->Ok_0;
    law_filled_block(p, replies, block);
}

/// The failure that the reply to call number `i` of an open clipboard means, if it means one: that it
/// was not emptied, that there was no memory for the text, that the text was not taken, that the
/// promise was not recorded, or that the clipboard does not offer it for our window. What happens to
/// an opt-out is none.
pub open spec fn failure_at<'a>(
    p: Access<'a>,
    calls: Seq<ClipboardCall<'a>>,
    replies: Seq<ClipboardReply>,
    i: int,
) -> Option<Error> {
    match (calls[i], replies[i]) {
        (ClipboardCall::Empty, ClipboardReply::Status(Err(e))) => Some(Error::Clipboard(e)),
        (ClipboardCall::Allocate(Payload::Text(_)), ClipboardReply::Block(Err(e))) => Some(e),
        (ClipboardCall::SetData { .. }, ClipboardReply::Status(Err(e))) => if i > 0
            && calls[i - 1] matches ClipboardCall::Allocate(Payload::Text(_)) {
            Some(Error::Clipboard(e))
        } else {
            None
        },
        (ClipboardCall::Record(_), ClipboardReply::Recorded(false)) => Some(
            Error::OwnerWindowFailed,
        ),
        (ClipboardCall::Owner, ClipboardReply::Owner(window)) => if window != p.owner() {
            Some(Error::OwnerWindowFailed)
        } else {
            None
        },
        (ClipboardCall::Advertised { .. }, ClipboardReply::Advertised(false)) => Some(
            Error::OwnerWindowFailed,
        ),
        _ => None,
    }
}

/// Whether a failure is among the replies, `error` where it says which.
#[verifier::opaque]
pub open spec fn met_failure<'a>(
    p: Access<'a>,
    calls: Seq<ClipboardCall<'a>>,
    replies: Seq<ClipboardReply>,
    error: Option<Error>,
) -> bool {
    exists|i: int|
        0 <= i < replies.len() && (#[trigger] failure_at(p, calls, replies, i)) is Some && (error
            is Some ==> failure_at(p, calls, replies, i) == error)
}

/// Where an access stands says whether it met a failure.
spec fn failures_told<'a>(
    p: Access<'a>,
    stage: AccessStage,
    calls: Seq<ClipboardCall<'a>>,
    replies: Seq<ClipboardReply>,
) -> bool {
    let n = replies.len() as int;
    match stage {
        AccessStage::AskingFormat { owned } => if owned {
            !met_failure(p, calls, replies, None)
        } else {
            met_failure(p, calls, replies, Some(Error::OwnerWindowFailed))
        },
        AccessStage::Closing { result } => match result {
            Ok(_) => !met_failure(p, calls, replies, None),
            Err(e) => e !is ClipboardLocked && met_failure(p, calls, replies, Some(e)),
        },
        AccessStage::Over { result } => match result {
            Ok(_) => !met_failure(p, calls, replies, None),
            Err(Error::ClipboardLocked(_)) => !met_failure(p, calls, replies, None),
            Err(e) => met_failure(p, calls, replies, Some(e)),
        },
        AccessStage::SettingText { .. } => {
            &&& !met_failure(p, calls, replies, None)
            &&& n > 0 && (calls[n - 1] matches ClipboardCall::Allocate(Payload::Text(_)))
        },
        AccessStage::Promising => {
            &&& !met_failure(p, calls, replies, None)
            &&& n > 0 && calls[n - 1] is Record
        },
        AccessStage::Attaching { .. } => {
            &&& !met_failure(p, calls, replies, None)
            &&& n > 0 && !(calls[n - 1] matches ClipboardCall::Allocate(Payload::Text(_)))
        },
        _ => !met_failure(p, calls, replies, None),
    }
}

/// One more call adds the failure that its reply means, if any, to those met.
proof fn lemma_failure_step<'a>(
    p: Access<'a>,
    calls: Seq<ClipboardCall<'a>>,
    replies: Seq<ClipboardReply>,
    error: Option<Error>,
)
    requires
        calls.len() == replies.len(),
        replies.len() > 0,
    ensures
        met_failure(p, calls, replies, error) <==> met_failure(
            p,
            calls.drop_last(),
            replies.drop_last(),
            error,
        ) || {
            let last = failure_at(p, calls, replies, replies.len() - 1);
            last is Some && (error is Some ==> last == error)
        },
{
    reveal(met_failure);
    let n = replies.len() - 1;
    let before = calls.drop_last();
    let shorter = replies.drop_last();
    assert forall|i: int| 0 <= i < n implies #[trigger] failure_at(p, calls, replies, i)
        == failure_at(p, before, shorter, i) by {
        assert(calls[i] == before[i] && replies[i] == shorter[i]);
    }
    if met_failure(p, before, shorter, error) {
        let i = choose|i: int|
            0 <= i < shorter.len() && (#[trigger] failure_at(p, before, shorter, i)) is Some && (
            error is Some ==> failure_at(p, before, shorter, i) == error);
        assert(failure_at(p, calls, replies, i) is Some);
    }
}

proof fn lemma_failures_told_step<'a>(
    p: Access<'a>,
    before: Access<'a>,
    calls: Seq<ClipboardCall<'a>>,
    replies: Seq<ClipboardReply>,
    reply: ClipboardReply,
)
    requires
        before.task == p.task,
        before.wf(),
        before.pending() is Some,
        before.fits(reply),
        calls.len() == replies.len(),
        failures_told(p, before.stage, calls, replies),
    ensures
        failures_told(
            p,
            before.next_stage(reply),
            calls.push(before.pending()->0),
            replies.push(reply),
        ),
{
    let more = calls.push(before.pending()->0);
    let answers = replies.push(reply);
    let n = replies.len() as int;
    assert(more.drop_last() =~= calls);
    assert(answers.drop_last() =~= replies);
    assert(more[n] == before.pending()->0 && answers[n] == reply);
    assert(n > 0 ==> more[n - 1] == calls[n - 1]);
    lemma_failure_step(p, more, answers, None);
    match before.next_stage(reply) {
        AccessStage::AskingFormat { .. } => {
            lemma_failure_step(p, more, answers, Some(Error::OwnerWindowFailed));
        },
        AccessStage::Closing { result: Err(e) } => {
            lemma_failure_step(p, more, answers, Some(e));
        },
        AccessStage::Over { result: Err(e) } => {
            lemma_failure_step(p, more, answers, Some(e));
        },
        _ => {},
    }
}

proof fn lemma_failures_told<'a>(p: Access<'a>, replies: Seq<ClipboardReply>)
    requires
        fresh(p),
        crate::protocol::answers(p, replies),
    ensures
        failures_told(
            p,
            crate::protocol::after(p, replies).stage,
            crate::protocol::calls(p, replies),
            replies,
        ),
    decreases replies.len(),
{
    if replies.len() > 0 {
        let shorter = replies.drop_last();
        let before = crate::protocol::after(p, shorter);
        lemma_failures_told(p, shorter);
        assert(before.task == p.task && before.wf()) by {
            law_open_is_retried(p, shorter);
        }
        crate::protocol::lemma_last_step(p, replies);
        lemma_failures_told_step(
            p,
            before,
            crate::protocol::calls(p, shorter),
            shorter,
            replies.last(),
        );
        assert(shorter.push(replies.last()) =~= replies);
    } else {
        reveal(met_failure);
    }
}

/// A use of the clipboard succeeds wherever nothing failed, and says truly what failed: once the
/// clipboard was opened it ends well exactly where no reply meant a failure, and otherwise with a
/// failure that was replied; a clipboard that could not be opened is reported as locked, with what
/// the last attempt replied. What is reported as done is what the task was to do.
pub proof fn law_access_result<'a>(p: Access<'a>, replies: Seq<ClipboardReply>)
    requires
        fresh(p),
        crate::protocol::completes(p, replies),
    ensures
        ({
            let all = crate::protocol::calls(p, replies);
            let opened = exists|n: int| opened_at(p, all, replies, n);
            match crate::protocol::after(p, replies).ended()->0 {
                Ok(done) => {
                    &&& opened
                    &&& !met_failure(p, all, replies, None)
                    &&& match p.task {
                        Task::WriteText(_) => done is Wrote,
                        Task::Clear => done is Cleared,
                        Task::Capture => done is Captured,
                        Task::Publish { .. } => done is Published,
                    }
                },
                Err(Error::ClipboardLocked(e)) => {
                    &&& !opened
                    &&& replies.last() == ClipboardReply::Status(Err(e))
                },
                Err(e) => opened && met_failure(p, all, replies, Some(e)),
            }
        }),
{
    let all = crate::protocol::calls(p, replies);
    let shorter = replies.drop_last();
    lemma_failures_told(p, replies);
    lemma_failures_told(p, shorter);
    law_open_is_retried(p, replies);
    law_open_is_retried(p, shorter);
    law_closed_iff_opened(p, replies);
    law_access_errors(p, shorter);
    crate::protocol::lemma_last_step(p, replies);
    if let Some(Ok(done)) = crate::protocol::after(p, replies).ended() {
        lemma_ended_well(p, replies, done);
    }
}

/// What an opened clipboard is used for: a capture reads at once, everything else empties it first.
/// Behind an emptying that succeeded a write allocates its text, a promise is recorded, and a
/// clearing closes.
pub proof fn law_opened_clipboard_is_used<'a>(p: Access<'a>, replies: Seq<ClipboardReply>, i: int)
    requires
        fresh(p),
        crate::protocol::completes(p, replies),
        0 <= i < replies.len(),
        succeeded(replies[i]),
    ensures
        ({
            let all = crate::protocol::calls(p, replies);
            &&& all[i] is Open ==> i + 1 < replies.len() && (if p.task is Capture {
                all[i + 1] is SequenceNumber
            } else {
                all[i + 1] is Empty
            })
            &&& all[i] is Empty ==> i + 1 < replies.len() && match p.task {
                Task::WriteText(text) => all[i + 1] == ClipboardCall::Allocate(Payload::Text(text)),
                Task::Publish { text, .. } => all[i + 1] == ClipboardCall::Record(text),
                _ => all[i + 1] is Close,
            }
        }),
{
    let all = crate::protocol::calls(p, replies);
    crate::protocol::lemma_prefix(p, replies, i);
    law_open_is_retried(p, replies.take(i));
    lemma_behind(p, replies.take(i));
    let head = replies.take(i + 1);
    assert(head.drop_last() =~= replies.take(i));
    assert(head.last() == replies[i]);
    if i + 1 < replies.len() {
        crate::protocol::lemma_prefix(p, replies, i + 1);
    } else {
        assert(head =~= replies);
    }
}

/// A use of the clipboard takes every answer that a call can have.
pub proof fn law_access_takes_every_answer<'a>(
    p: Access<'a>,
    status: Result<(), OsError>,
    yes: bool,
    block: usize,
    e: OsError,
    number: u32,
    window: isize,
)
    ensures
        match p.pending() {
            Some(ClipboardCall::Open { .. }) => p.fits(ClipboardReply::Status(status)),
            Some(ClipboardCall::Empty) => p.fits(ClipboardReply::Status(status)),
            Some(ClipboardCall::SetData { .. }) => p.fits(ClipboardReply::Status(status)),
            Some(ClipboardCall::Record(_)) => p.fits(ClipboardReply::Recorded(yes)),
            Some(ClipboardCall::Allocate(_)) => p.fits(ClipboardReply::Block(Ok(block))) && p.fits(
                ClipboardReply::Block(Err(Error::Alloc(e))),
            ),
            Some(ClipboardCall::Register { .. }) => p.fits(ClipboardReply::Format(number)),
            Some(ClipboardCall::Owner) => p.fits(ClipboardReply::Owner(window)),
            Some(ClipboardCall::Advertised { .. }) => p.fits(ClipboardReply::Advertised(yes)),
            Some(ClipboardCall::SequenceNumber) => p.fits(ClipboardReply::Sequence(number)),
            Some(_) => p.fits(ClipboardReply::Finished),
            None => true,
        },
{
}

/// Our own write is replaced: where the sequence number is that of our own write, a gated restore is
/// the restore itself, in full, and ends as that does, with `true` where it succeeds.
pub proof fn law_own_write_is_replaced<'a>(p: GatedRestore<'a>, replies: Seq<GateReply>)
    requires
        p.stage is Number,
        crate::protocol::completes(p, replies),
        replies[0] == GateReply::Sequence(p.expected),
    ensures
        ({
            let access = Access { task: p.task, stage: AccessStage::Opening { attempt: 0 } };
            let rest = inner(replies.skip(1));
            &&& replies.len() > 0
            &&& crate::protocol::completes(access, rest)
            &&& crate::protocol::calls(p, replies).skip(1) == crate::protocol::calls(
                access,
                rest,
            ).map_values(|c: ClipboardCall<'a>| GateCall::Clipboard(c))
            &&& crate::protocol::after(p, replies).ended() == match crate::protocol::after(
                access,
                rest,
            ).ended()->0 {
                Ok(_) => Some(Ok::<bool, Error>(true)),
                Err(e) => Some(Err::<bool, Error>(e)),
            }
        }),
{
    let access = Access { task: p.task, stage: AccessStage::Opening { attempt: 0 } };
    assert(replies.len() > 0);
    let next = p.advance(replies[0]);
    let all = crate::protocol::calls(p, replies);
    crate::protocol::lemma_first_step(p, replies);
    lemma_gate_runs_restore(next, access, replies.skip(1));
    law_open_is_retried(access, inner(replies.skip(1)));
    assert(all.skip(1) =~= crate::protocol::calls(next, replies.skip(1)));
}

/// A gated restore takes any sequence number, and every answer that the restore itself takes.
pub proof fn law_gate_takes_every_answer<'a>(
    p: GatedRestore<'a>,
    number: u32,
    reply: ClipboardReply,
)
    ensures
        match p.stage {
            GateStage::Number => p.fits(GateReply::Sequence(number)),
            GateStage::Restoring(access) => access.fits(reply) ==> p.fits(
                GateReply::Clipboard(reply),
            ),
            GateStage::Over(_) => p.pending() is None,
        },
{
}

/// A restore puts back what was captured: a write of that very text where there was one, and an
/// empty clipboard where there was none.
pub proof fn law_restore_is_of_what_was_captured(task: Task, captured: Option<Seq<char>>)
    requires
        crate::clipboard::restores(task, captured),
    ensures
        captured matches Some(text) ==> (task matches Task::WriteText(written) && written@ == text),
        captured is None ==> task is Clear,
{
}

/// Filling a block succeeds wherever the system let it: it fails exactly where nothing was allocated
/// or the block could not be locked, with what the system reported, and otherwise gives the block
/// that was allocated.
pub proof fn law_fill_result(p: BlockFill, replies: Seq<BlockReply>)
    requires
        p.stage is Allocate,
        crate::protocol::completes(p, replies),
    ensures
        replies.len() > 0 && replies[0] is Allocated,
        match replies[0]->Allocated_0 {
            Err(e) => replies.len() == 1 && crate::protocol::after(p, replies).ended() == Some(
                Err::<usize, Error>(Error::Alloc(e)),
            ),
            Ok(block) => {
                &&& replies.len() >= 2 && replies[1] is Locked
                &&& replies[1]->address == 0 ==> replies.len() == 2 && crate::protocol::after(
                    p,
                    replies,
                ).ended() == Some(Err::<usize, Error>(Error::Alloc(replies[1]->last_error)))
                &&& replies[1]->address != 0 ==> replies.len() == 4 && crate::protocol::after(
                    p,
                    replies,
                ).ended() == Some(Ok::<usize, Error>(block))
            },
        },
{
    lemma_fill_trail(p, replies);
    let n = replies.len() as int;
    let shorter = replies.drop_last();
    lemma_fill_trail(p, shorter);
    assert(n >= 2 ==> shorter[0] == replies[0]);
    assert(n >= 3 ==> shorter[1] == replies[1]);
}

/// Filling a block takes every answer.
pub proof fn law_fill_takes_every_answer(
    p: BlockFill,
    allocated: Result<usize, OsError>,
    address: usize,
    last_error: OsError,
)
    ensures
        match p.pending() {
            Some(BlockCall::Allocate { .. }) => p.fits(BlockReply::Allocated(allocated)),
            Some(BlockCall::Lock { .. }) => p.fits(BlockReply::Locked { address, last_error }),
            Some(_) => p.fits(BlockReply::Finished),
            None => true,
        },
{
}

/// The clipboard is opened for the window that will render the promise, and for none otherwise.
pub proof fn law_clipboard_is_opened_for_its_owner<'a>(
    p: Access<'a>,
    replies: Seq<ClipboardReply>,
    i: int,
)
    requires
        fresh(p),
        crate::protocol::answers(p, replies),
        0 <= i < replies.len(),
        crate::protocol::calls(p, replies)[i] is Open,
    ensures
        crate::protocol::calls(p, replies)[i] == (ClipboardCall::Open {
            owner: match p.task {
                Task::Publish { owner, .. } => owner,
                _ => 0,
            },
        }),
        p.task matches Task::Publish { owner, .. } ==> p.owner() == owner,
{
    crate::protocol::lemma_prefix(p, replies, i);
    law_open_is_retried(p, replies.take(i));
}

} // verus!
