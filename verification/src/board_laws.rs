//! What the clipboard holds after each use of it.
//!
//! The clipboard is modelled with its owner: emptying it tells the window that owned it that its
//! promise is void, also where that window is our own.

use vstd::prelude::*;

use crate::clipboard::{Access, AccessStage, ClipboardCall, ClipboardReply, GateCall, GateReply,
    GateStage, GatedRestore, Task, CF_UNICODETEXT, PRIVACY_FORMATS};
use crate::delayed::{OwnerReply, OwnerStage, OwnerStart, PublishCall, PublishReply, PublishStage,
    Publication};
use crate::protocol::Protocol;

verus! {

/// A clipboard, and what our side keeps about it.
pub struct Board {
    /// The contents of blocks of global memory.
    pub blocks: Map<usize, Seq<u8>>,
    /// The data of each format; a format with no data is a promise or a mere flag.
    pub data: Map<u32, Option<Seq<u8>>>,
    /// The window that owns the clipboard, zero if none does.
    pub owner: isize,
    /// The window for which the clipboard was last opened, zero for none.
    pub opener: isize,
    /// Our own window, which keeps promises.
    pub window: isize,
    /// The text that our record promises, see [`crate::delayed::State::promised`].
    pub promised: Option<Seq<char>>,
    /// How often the contents have changed, which is what the sequence number tells.
    pub number: int,
}

impl Board {
    /// What emptying does. The window that owned the clipboard is sent `WM_DESTROYCLIPBOARD`; the
    /// duty of our own window is then [`crate::delayed::State::void`].
    pub open spec fn emptied(self) -> Board {
        Board {
            data: Map::empty(),
            owner: self.opener,
            promised: if self.owner == self.window {
                None
            } else {
                self.promised
            },
            number: self.number + 1,
            ..self
        }
    }

    /// What setting the data of a format does.
    pub open spec fn set(self, format: u32, data: Option<Seq<u8>>) -> Board {
        Board { data: self.data.insert(format, data), number: self.number + 1, ..self }
    }

    /// The clipboard after one call and its reply. The reply to a promise or a flag does not tell
    /// whether it was taken; that it was is what [`ClipboardCall::Advertised`] asks.
    pub open spec fn step(self, call: ClipboardCall, reply: ClipboardReply) -> Board {
        match (call, reply) {
            (ClipboardCall::Open { owner }, ClipboardReply::Status(Ok(_))) => Board {
                opener: owner,
                ..self
            },
            (ClipboardCall::Empty, ClipboardReply::Status(Ok(_))) => self.emptied(),
            (ClipboardCall::Record(text), ClipboardReply::Recorded(true)) => Board {
                promised: Some(text@),
                ..self
            },
            (ClipboardCall::Allocate(payload), ClipboardReply::Block(Ok(block))) => Board {
                blocks: self.blocks.insert(block, payload.content()),
                ..self
            },
            (
                ClipboardCall::SetData { format, block: Some(block) },
                ClipboardReply::Status(Ok(_)),
            ) => self.set(format, Some(self.blocks[block])),
            (ClipboardCall::SetData { format, block: None }, ClipboardReply::Status(_)) => self.set(
                format,
                None,
            ),
            _ => self,
        }
    }
}

/// The clipboard after a run of calls.
pub open spec fn board_after<'a>(
    board: Board,
    calls: Seq<ClipboardCall<'a>>,
    replies: Seq<ClipboardReply>,
) -> Board
    decreases calls.len(),
{
    if calls.len() == 0 || replies.len() == 0 {
        board
    } else {
        board_after(board, calls.drop_last(), replies.drop_last()).step(
            calls.last(),
            replies.last(),
        )
    }
}

/// Whether a format that was registered lies where registered formats lie, above the numbers of the
/// standard ones.
pub open spec fn registers_high(reply: ClipboardReply) -> bool {
    reply is Format ==> reply->Format_0 == 0 || reply->Format_0 >= 0xC000
}

/// Whether every format that was registered lies where registered formats lie.
pub open spec fn registers_above_standard(replies: Seq<ClipboardReply>) -> bool {
    forall|i: int| 0 <= i < replies.len() ==> registers_high(#[trigger] replies[i])
}

/// Whether a clipboard differs from another at most in the window it was last opened for.
pub open spec fn untouched(board: Board, start: Board) -> bool {
    board == Board { opener: board.opener, ..start }
}

/// What `CF_UNICODETEXT` holds once a task is done: the text of a write, nothing yet of a promise.
pub open spec fn owed_text(task: Task) -> Option<Seq<u8>> {
    match task {
        Task::WriteText(text) => Some(crate::clipboard::text_bytes(text@)),
        _ => None,
    }
}

/// Whether the clipboard holds the text or the promise of a task, and beside it registered formats
/// only; whether a promise belongs to the window that is to keep it and is on our record; and
/// whether a written text belongs to no window.
pub open spec fn delivers(board: Board, task: Task) -> bool {
    &&& board.data.contains_pair(CF_UNICODETEXT, owed_text(task))
    &&& forall|format: u32| #[trigger]
        board.data.contains_key(format) ==> format == CF_UNICODETEXT || format >= 0xC000
    &&& match task {
        Task::Publish { owner, text } => board.owner == owner && board.promised == Some(text@),
        _ => board.owner == 0,
    }
}

spec fn writes(task: Task) -> bool {
    task is WriteText || task is Publish
}

spec fn holds(board: Board, start: Board, task: Task) -> bool {
    match task {
        Task::Capture => untouched(board, start),
        Task::Clear => board.data == Map::<u32, Option<Seq<u8>>>::empty() && board.owner == 0,
        _ => delivers(board, task),
    }
}

/// What the clipboard holds at each stage of a use of it.
spec fn board_fits(board: Board, start: Board, p: Access) -> bool {
    let empty = board.data == Map::<u32, Option<Seq<u8>>>::empty() && board.owner == p.owner();
    &&& board.window == start.window
    &&& match p.stage {
        AccessStage::Opening { .. } => board == start,
        AccessStage::BackingOff { .. } => board == start,
        AccessStage::Emptying => untouched(board, start) && board.opener == p.owner() && p.task
            !is Capture,
        AccessStage::AllocatingText => p.task is WriteText && empty,
        AccessStage::SettingText { block } => p.task is WriteText && empty && board.blocks[block]
            == owed_text(p.task)->0,
        AccessStage::Recording => p.task is Publish && empty,
        AccessStage::Promising => p.task is Publish && empty && board.promised == Some(
            p.task->text@,
        ),
        AccessStage::Registering { .. } => writes(p.task) && delivers(board, p.task),
        AccessStage::AllocatingFlag { format, .. } => writes(p.task) && delivers(board, p.task)
            && format >= 0xC000,
        AccessStage::Attaching { format, .. } => writes(p.task) && delivers(board, p.task)
            && format >= 0xC000,
        AccessStage::AskingOwner => p.task is Publish && delivers(board, p.task),
        AccessStage::AskingFormat { .. } => p.task is Publish && delivers(board, p.task),
        AccessStage::ReadingSequence => p.task is Capture && untouched(board, start),
        AccessStage::ReadingText { .. } => p.task is Capture && untouched(board, start),
        AccessStage::Closing { result: Ok(_) } => holds(board, start, p.task),
        AccessStage::Over { result: Ok(_) } => holds(board, start, p.task),
        AccessStage::Closing { result: Err(e) } => e !is ClipboardLocked && (p.task is Publish && e
            is Clipboard ==> untouched(board, start)),
        AccessStage::Over { result: Err(e) } => e is ClipboardLocked || (p.task is Publish && e
            is Clipboard) ==> untouched(board, start),
    }
}

proof fn lemma_board_step<'a>(board: Board, start: Board, p: Access<'a>, reply: ClipboardReply)
    requires
        board_fits(board, start, p),
        p.pending() is Some,
        p.fits(reply),
        registers_high(reply),
    ensures
        board_fits(board.step(p.pending()->0, reply), start, p.advance(reply)),
{
}

proof fn lemma_board<'a>(start: Board, p: Access<'a>, replies: Seq<ClipboardReply>)
    requires
        crate::clipboard_laws::fresh(p),
        crate::protocol::answers(p, replies),
        registers_above_standard(replies),
    ensures
        board_fits(
            board_after(start, crate::protocol::calls(p, replies), replies),
            start,
            crate::protocol::after(p, replies),
        ),
        crate::protocol::after(p, replies).task == p.task,
    decreases replies.len(),
{
    let calls = crate::protocol::calls(p, replies);
    if replies.len() > 0 {
        let shorter = replies.drop_last();
        assert forall|i: int| 0 <= i < shorter.len() implies registers_high(
            #[trigger] shorter[i],
        ) by {
            assert(shorter[i] == replies[i]);
        }
        lemma_board(start, p, shorter);
        crate::protocol::lemma_last_step(p, replies);
        assert(calls.drop_last() =~= crate::protocol::calls(p, shorter));
        assert(registers_high(replies[replies.len() - 1]));
        lemma_board_step(
            board_after(start, crate::protocol::calls(p, shorter), shorter),
            start,
            crate::protocol::after(p, shorter),
            replies.last(),
        );
    }
}

/// The clipboard holds what it was asked to hold: when a write succeeds it holds the bytes of the
/// text and beside them registered formats only; when publishing succeeds, the promise, kept by the
/// window it was published for and on our record; when clearing succeeds, nothing. A capture leaves
/// it as it was.
pub proof fn law_clipboard_holds_what_was_asked<'a>(
    start: Board,
    p: Access<'a>,
    replies: Seq<ClipboardReply>,
)
    requires
        crate::clipboard_laws::fresh(p),
        crate::protocol::completes(p, replies),
        crate::protocol::after(p, replies).ended() matches Some(Ok(_)),
        registers_above_standard(replies),
    ensures
        ({
            let board = board_after(start, crate::protocol::calls(p, replies), replies);
            &&& board.window == start.window
            &&& match p.task {
                Task::Capture => untouched(board, start),
                Task::Clear => board.data == Map::<u32, Option<Seq<u8>>>::empty() && board.owner
                    == 0,
                _ => delivers(board, p.task),
            }
        }),
{
    lemma_board(start, p, replies);
}

/// A written text is what the next reader gets: after a successful write the block of
/// `CF_UNICODETEXT`, whatever memory follows it, reads as the text up to its first NUL.
pub proof fn law_written_text_is_read<'a>(
    start: Board,
    p: Access<'a>,
    replies: Seq<ClipboardReply>,
    head: Seq<char>,
    tail: Seq<char>,
    beyond: Seq<u8>,
)
    requires
        crate::clipboard_laws::fresh(p),
        p.task matches Task::WriteText(text) && text@ == head + tail,
        forall|i: int| 0 <= i < head.len() ==> head[i] != '\0',
        tail.len() > 0 ==> tail[0] == '\0',
        crate::protocol::completes(p, replies),
        crate::protocol::after(p, replies).ended() matches Some(Ok(_)),
        registers_above_standard(replies),
    ensures
        ({
            let board = board_after(start, crate::protocol::calls(p, replies), replies);
            let block = board.data[CF_UNICODETEXT];
            &&& board.data.contains_key(CF_UNICODETEXT) && block is Some
            &&& crate::clipboard::block_text(block->0 + beyond) == head
        }),
{
    law_clipboard_holds_what_was_asked(start, p, replies);
    crate::clipboard::law_read_gives_back_write(head, tail, beyond);
}

/// Whether the clipboard reads as what was captured from `block`: the same text, whatever memory
/// follows it, or nothing at all where there was no block.
pub open spec fn reads_as_captured(board: Board, block: Option<Seq<u8>>) -> bool {
    match block {
        Some(bytes) => {
            let restored = board.data[CF_UNICODETEXT];
            &&& board.data.contains_key(CF_UNICODETEXT) && restored is Some
            &&& forall|beyond: Seq<u8>| #[trigger]
                crate::clipboard::block_text(restored->0 + beyond)
                    == crate::clipboard::block_text(bytes)
        },
        None => board.data == Map::<u32, Option<Seq<u8>>>::empty(),
    }
}

/// The text that was captured from `block`.
pub open spec fn captured_text(block: Option<Seq<u8>>) -> Option<Seq<char>> {
    match block {
        Some(bytes) => Some(crate::clipboard::block_text(bytes)),
        None => None,
    }
}

/// A restore brings the user's text back: where the text was captured from `block`, a successful
/// restore leaves a clipboard that reads as that text again, and where there was none, an empty one.
pub proof fn law_restore_brings_back_the_text<'a>(
    start: Board,
    p: Access<'a>,
    replies: Seq<ClipboardReply>,
    block: Option<Seq<u8>>,
)
    requires
        crate::clipboard_laws::fresh(p),
        crate::clipboard::restores(p.task, captured_text(block)),
        crate::protocol::completes(p, replies),
        crate::protocol::after(p, replies).ended() matches Some(Ok(_)),
        registers_above_standard(replies),
    ensures
        reads_as_captured(
            board_after(start, crate::protocol::calls(p, replies), replies),
            block,
        ),
{
    let board = board_after(start, crate::protocol::calls(p, replies), replies);
    law_clipboard_holds_what_was_asked(start, p, replies);
    lemma_reads_as_captured(board, p.task, block);
}

proof fn lemma_reads_as_captured(board: Board, task: Task, block: Option<Seq<u8>>)
    requires
        crate::clipboard::restores(task, captured_text(block)),
        match task {
            Task::Clear => board.data == Map::<u32, Option<Seq<u8>>>::empty(),
            _ => delivers(board, task),
        },
    ensures
        reads_as_captured(board, block),
{
    if let Some(bytes) = block {
        let text = crate::clipboard::block_text(bytes);
        assert forall|beyond: Seq<u8>| #[trigger]
            crate::clipboard::block_text(board.data[CF_UNICODETEXT]->0 + beyond) == text by {
            crate::clipboard::law_restore_gives_back_capture(bytes, beyond);
        }
    }
}

/// A clipboard, with the promise of `text` on our record.
pub open spec fn recorded(board: Board, text: Seq<char>) -> Board {
    Board { promised: Some(text), ..board }
}

/// The clipboard and our record after the calls of a publication.
pub open spec fn board_published<'a>(
    board: Board,
    calls: Seq<PublishCall<'a>>,
    replies: Seq<PublishReply>,
) -> Board
    decreases calls.len(),
{
    if calls.len() == 0 || replies.len() == 0 {
        board
    } else {
        let before = board_published(board, calls.drop_last(), replies.drop_last());
        match (calls.last(), replies.last()) {
            (PublishCall::Record(text), PublishReply::Recorded(true)) => recorded(before, text@),
            (PublishCall::Clipboard(call), PublishReply::Clipboard(reply)) => before.step(
                call,
                reply,
            ),
            _ => before,
        }
    }
}

/// Whether a reply is that of a system in which `window` is our own window, and registered formats
/// lie where they do.
pub open spec fn publishes_for(window: isize, reply: PublishReply) -> bool {
    match reply {
        PublishReply::Owner(OwnerReply::Handle(handle)) => handle == 0 || handle == window,
        PublishReply::Clipboard(r) => registers_high(r),
        _ => true,
    }
}

/// Whether the clipboard offers `text`: the promise or its rendering is there, it is our window's,
/// and our record promises the text, so that a consumer that asks is given it.
pub open spec fn offers(board: Board, text: Seq<char>) -> bool {
    &&& board.owner == board.window
    &&& board.promised == Some(text)
    &&& board.data.contains_key(CF_UNICODETEXT)
    &&& board.data[CF_UNICODETEXT] matches Some(bytes) ==> bytes == crate::clipboard::text_bytes(
        text,
    )
}

/// What the clipboard holds at each stage of a publication.
spec fn publication_fits(board: Board, start: Board, p: Publication) -> bool {
    match p.stage {
        PublishStage::Owner(owner) => board == start && owner.ended() is None,
        PublishStage::Record { owner } => board == start && owner == start.window,
        PublishStage::Clipboard(access) => {
            &&& board_fits(board, recorded(start, p.text@), access)
            &&& access.ended() is None
            &&& access.task == (Task::Publish { owner: start.window, text: p.text })
        },
        PublishStage::Over(Ok(_)) => offers(board, p.text@) && board.window == start.window
            && board.data[CF_UNICODETEXT] is None,
        PublishStage::Over(Err(e)) => e is ClipboardLocked || e is Clipboard ==> untouched(
            board,
            recorded(start, p.text@),
        ),
    }
}

proof fn lemma_published<'a>(start: Board, p: Publication<'a>, replies: Seq<PublishReply>)
    requires
        p.stage == PublishStage::<'a>::Owner(OwnerStart { stage: OwnerStage::Check }),
        crate::protocol::answers(p, replies),
        forall|i: int|
            0 <= i < replies.len() ==> publishes_for(start.window, #[trigger] replies[i]),
    ensures
        publication_fits(
            board_published(start, crate::protocol::calls(p, replies), replies),
            start,
            crate::protocol::after(p, replies),
        ),
        crate::protocol::after(p, replies).text == p.text,
    decreases replies.len(),
{
    let calls = crate::protocol::calls(p, replies);
    if replies.len() > 0 {
        let shorter = replies.drop_last();
        assert forall|i: int| 0 <= i < shorter.len() implies publishes_for(
            start.window,
            #[trigger] shorter[i],
        ) by {
            assert(shorter[i] == replies[i]);
        }
        lemma_published(start, p, shorter);
        crate::protocol::lemma_last_step(p, replies);
        assert(calls.drop_last() =~= crate::protocol::calls(p, shorter));
        assert(publishes_for(start.window, replies[replies.len() - 1]));
        let before = crate::protocol::after(p, shorter);
        if let PublishStage::Clipboard(access) = before.stage {
            lemma_board_step(
                board_published(start, crate::protocol::calls(p, shorter), shorter),
                recorded(start, p.text@),
                access,
                replies.last()->Clipboard_0,
            );
        }
    }
}

/// A publication that cannot open or empty the clipboard leaves the clipboard as it was and our
/// record with the new text.
pub proof fn law_failed_publication_is_recorded<'a>(
    start: Board,
    p: Publication<'a>,
    replies: Seq<PublishReply>,
)
    requires
        p.stage == PublishStage::<'a>::Owner(OwnerStart { stage: OwnerStage::Check }),
        crate::protocol::completes(p, replies),
        crate::protocol::after(p, replies).ended() matches Some(Err(e)) && (e is ClipboardLocked
            || e is Clipboard),
        forall|i: int|
            0 <= i < replies.len() ==> publishes_for(start.window, #[trigger] replies[i]),
    ensures
        untouched(
            board_published(start, crate::protocol::calls(p, replies), replies),
            recorded(start, p.text@),
        ),
{
    lemma_published(start, p, replies);
}

/// A published text is on offer, whoever owned the clipboard before: when publishing succeeds the
/// promise of the text is on the clipboard, our window owns it, and our record still promises that
/// text. So a consumer that asks is given the newest text, also where our window owned the
/// clipboard on entry and was told, while it was emptied, that its earlier promise is void.
pub proof fn law_published_text_is_on_offer<'a>(
    start: Board,
    p: Publication<'a>,
    replies: Seq<PublishReply>,
)
    requires
        p.stage == PublishStage::<'a>::Owner(OwnerStart { stage: OwnerStage::Check }),
        crate::protocol::completes(p, replies),
        crate::protocol::after(p, replies).ended() matches Some(Ok(_)),
        forall|i: int|
            0 <= i < replies.len() ==> publishes_for(start.window, #[trigger] replies[i]),
    ensures
        ({
            let board = board_published(start, crate::protocol::calls(p, replies), replies);
            &&& offers(board, p.text@)
            &&& board.window == start.window
            &&& board.data[CF_UNICODETEXT] is None
        }),
{
    lemma_published(start, p, replies);
}

/// The clipboard after the clipboard calls of a gated restore.
pub open spec fn board_gated<'a>(
    board: Board,
    calls: Seq<GateCall<'a>>,
    replies: Seq<GateReply>,
) -> Board
    decreases calls.len(),
{
    if calls.len() == 0 || replies.len() == 0 {
        board
    } else {
        let before = board_gated(board, calls.drop_last(), replies.drop_last());
        match (calls.last(), replies.last()) {
            (GateCall::Clipboard(call), GateReply::Clipboard(reply)) => before.step(call, reply),
            _ => before,
        }
    }
}

/// Whether every format that a gated restore registered lies where registered formats lie.
pub open spec fn gate_registers_high(replies: Seq<GateReply>) -> bool {
    forall|i: int|
        0 <= i < replies.len() && (#[trigger] replies[i]) is Clipboard ==> registers_high(
            replies[i]->Clipboard_0,
        )
}

/// What the clipboard holds at each stage of a gated restore.
spec fn gate_fits(board: Board, start: Board, p: GatedRestore) -> bool {
    match p.stage {
        GateStage::Number => board == start,
        GateStage::Restoring(access) => {
            &&& board_fits(board, start, access)
            &&& access.ended() is None
            &&& access.task == p.task
        },
        GateStage::Over(Ok(true)) => holds(board, start, p.task),
        GateStage::Over(Ok(false)) => board == start,
        GateStage::Over(Err(_)) => true,
    }
}

proof fn lemma_gated<'a>(start: Board, p: GatedRestore<'a>, replies: Seq<GateReply>)
    requires
        p.stage is Number,
        crate::protocol::answers(p, replies),
        gate_registers_high(replies),
    ensures
        gate_fits(
            board_gated(start, crate::protocol::calls(p, replies), replies),
            start,
            crate::protocol::after(p, replies),
        ),
        crate::protocol::after(p, replies).task == p.task,
    decreases replies.len(),
{
    let calls = crate::protocol::calls(p, replies);
    if replies.len() > 0 {
        let shorter = replies.drop_last();
        assert forall|i: int|
            0 <= i < shorter.len() && (#[trigger] shorter[i]) is Clipboard implies registers_high(
            shorter[i]->Clipboard_0,
        ) by {
            assert(shorter[i] == replies[i]);
        }
        lemma_gated(start, p, shorter);
        crate::protocol::lemma_last_step(p, replies);
        assert(calls.drop_last() =~= crate::protocol::calls(p, shorter));
        assert(replies.last() == replies[replies.len() - 1]);
        let before = crate::protocol::after(p, shorter);
        if let GateStage::Restoring(access) = before.stage {
            lemma_board_step(
                board_gated(start, crate::protocol::calls(p, shorter), shorter),
                start,
                access,
                replies.last()->Clipboard_0,
            );
        }
    }
}

/// A gated restore either brings the user's text back or changes nothing: where it restored, the
/// clipboard reads as what was captured from `block`, and where it found that a third party had
/// taken the clipboard, it leaves it exactly as it was.
pub proof fn law_gated_restore_spares_or_restores<'a>(
    start: Board,
    p: GatedRestore<'a>,
    replies: Seq<GateReply>,
    block: Option<Seq<u8>>,
)
    requires
        p.stage is Number,
        crate::clipboard::restores(p.task, captured_text(block)),
        crate::protocol::completes(p, replies),
        gate_registers_high(replies),
    ensures
        ({
            let board = board_gated(start, crate::protocol::calls(p, replies), replies);
            match crate::protocol::after(p, replies).ended()->0 {
                Ok(true) => reads_as_captured(board, block),
                Ok(false) => board == start,
                Err(_) => true,
            }
        }),
{
    let board = board_gated(start, crate::protocol::calls(p, replies), replies);
    lemma_gated(start, p, replies);
    if crate::protocol::after(p, replies).ended()->0 matches Ok(true) {
        lemma_reads_as_captured(board, p.task, block);
    }
}

/// The data that opt-out format `index` carries, `None` for a mere flag.
pub open spec fn flag(index: usize) -> Option<Seq<u8>> {
    match crate::clipboard::payload_of(index) {
        Some(value) => Some(crate::clipboard::dword_bytes(value)),
        None => None,
    }
}

/// Whether the system cooperates: opt-out format `i` is registered as `ids[i]`, memory is there, and
/// data is taken.
pub open spec fn cooperates<'a>(
    ids: Seq<u32>,
    calls: Seq<ClipboardCall<'a>>,
    replies: Seq<ClipboardReply>,
) -> bool {
    forall|i: int| 0 <= i < replies.len() ==> grants(ids, calls[i], #[trigger] replies[i])
}

/// Whether one reply is that of a system that cooperates.
pub open spec fn grants(ids: Seq<u32>, call: ClipboardCall, reply: ClipboardReply) -> bool {
    match call {
        ClipboardCall::Register { index } => reply == ClipboardReply::Format(ids[index as int]),
        ClipboardCall::Allocate(_) => reply is Block && reply->Block_0 is Ok,
        ClipboardCall::SetData { block: Some(_), .. } => crate::clipboard_laws::succeeded(reply),
        _ => true,
    }
}

/// Whether the numbers of the registered opt-out formats are distinct, and lie where registered
/// formats lie.
pub open spec fn registered(ids: Seq<u32>) -> bool {
    &&& ids.len() == PRIVACY_FORMATS
    &&& forall|i: int| 0 <= i < ids.len() ==> #[trigger] ids[i] >= 0xC000
    &&& forall|i: int, j: int| 0 <= i < j < ids.len() ==> ids[i] != ids[j]
}

/// Whether the first `n` opt-outs are on the clipboard.
pub open spec fn opted_out(board: Board, ids: Seq<u32>, n: int) -> bool {
    forall|i: int|
        0 <= i < n ==> board.data.contains_key(#[trigger] ids[i]) && board.data[ids[i]] == flag(
            i as usize,
        )
}

/// Which opt-outs are on the clipboard at each stage of a use of it.
spec fn opt_outs_fit(board: Board, ids: Seq<u32>, p: Access) -> bool {
    match p.stage {
        AccessStage::Registering { index } => opted_out(board, ids, index as int),
        AccessStage::AllocatingFlag { index, format } => opted_out(board, ids, index as int)
            && format == ids[index as int],
        AccessStage::Attaching { index, format, data } => {
            &&& opted_out(board, ids, index as int)
            &&& format == ids[index as int]
            &&& flag(index) == match data {
                Some(block) => Some(board.blocks[block]),
                None => None,
            }
        },
        AccessStage::AskingOwner => opted_out(board, ids, PRIVACY_FORMATS as int),
        AccessStage::AskingFormat { .. } => opted_out(board, ids, PRIVACY_FORMATS as int),
        AccessStage::Closing { result: Ok(_) } => writes(p.task) ==> opted_out(
            board,
            ids,
            PRIVACY_FORMATS as int,
        ),
        AccessStage::Over { result: Ok(_) } => writes(p.task) ==> opted_out(
            board,
            ids,
            PRIVACY_FORMATS as int,
        ),
        _ => true,
    }
}

proof fn lemma_opt_outs_step<'a>(
    board: Board,
    start: Board,
    ids: Seq<u32>,
    p: Access<'a>,
    reply: ClipboardReply,
)
    requires
        p.wf(),
        registered(ids),
        board_fits(board, start, p),
        opt_outs_fit(board, ids, p),
        p.pending() is Some,
        p.fits(reply),
        grants(ids, p.pending()->0, reply),
    ensures
        opt_outs_fit(board.step(p.pending()->0, reply), ids, p.advance(reply)),
{
    let next = board.step(p.pending()->0, reply);
    if let AccessStage::Attaching { index, format, data } = p.stage {
        assert(next.data == board.data.insert(format, flag(index)));
        assert forall|i: int| 0 <= i < index + 1 implies next.data.contains_key(#[trigger] ids[i])
            && next.data[ids[i]] == flag(i as usize) by {
            if i < index {
                assert(ids[i] != ids[index as int]);
            }
        }
        assert(opted_out(next, ids, index + 1));
    }
}

proof fn lemma_sound<'a>(p: Access<'a>, replies: Seq<ClipboardReply>)
    requires
        crate::clipboard_laws::fresh(p),
        crate::protocol::answers(p, replies),
    ensures
        crate::protocol::after(p, replies).wf(),
{
    crate::clipboard_laws::law_open_is_retried(p, replies);
}

proof fn lemma_granted_high<'a>(ids: Seq<u32>, p: Access<'a>, reply: ClipboardReply)
    requires
        p.wf(),
        registered(ids),
        p.pending() is Some,
        p.fits(reply),
        grants(ids, p.pending()->0, reply),
    ensures
        registers_high(reply),
{
    if let AccessStage::Registering { index } = p.stage {
        assert(ids[index as int] >= 0xC000);
    }
}

proof fn lemma_cooperation_registers_high<'a>(
    ids: Seq<u32>,
    p: Access<'a>,
    replies: Seq<ClipboardReply>,
)
    requires
        crate::clipboard_laws::fresh(p),
        registered(ids),
        crate::protocol::answers(p, replies),
        cooperates(ids, crate::protocol::calls(p, replies), replies),
    ensures
        registers_above_standard(replies),
{
    assert forall|i: int| 0 <= i < replies.len() implies registers_high(#[trigger] replies[i]) by {
        crate::protocol::lemma_prefix(p, replies, i);
        lemma_sound(p, replies.take(i));
        assert(grants(ids, crate::protocol::calls(p, replies)[i], replies[i]));
        lemma_granted_high(ids, crate::protocol::after(p, replies.take(i)), replies[i]);
    }
}

proof fn lemma_opt_outs<'a>(
    start: Board,
    ids: Seq<u32>,
    p: Access<'a>,
    replies: Seq<ClipboardReply>,
)
    requires
        crate::clipboard_laws::fresh(p),
        registered(ids),
        crate::protocol::answers(p, replies),
        cooperates(ids, crate::protocol::calls(p, replies), replies),
    ensures
        opt_outs_fit(
            board_after(start, crate::protocol::calls(p, replies), replies),
            ids,
            crate::protocol::after(p, replies),
        ),
    decreases replies.len(),
{
    let calls = crate::protocol::calls(p, replies);
    if replies.len() > 0 {
        let n = replies.len() - 1;
        let shorter = replies.drop_last();
        let fewer = crate::protocol::calls(p, shorter);
        let before = crate::protocol::after(p, shorter);
        crate::protocol::lemma_last_step(p, replies);
        assert(calls.drop_last() =~= fewer);
        assert forall|i: int| 0 <= i < shorter.len() implies grants(
            ids,
            fewer[i],
            #[trigger] shorter[i],
        ) by {
            assert(shorter[i] == replies[i]);
            assert(fewer[i] == calls[i]);
        }
        lemma_opt_outs(start, ids, p, shorter);
        lemma_sound(p, shorter);
        assert(grants(ids, calls[n], replies[n]));
        lemma_cooperation_registers_high(ids, p, shorter);
        lemma_board(start, p, shorter);
        lemma_opt_outs_step(board_after(start, fewer, shorter), start, ids, before, replies[n]);
    }
}

/// A private write stays private: where the system cooperates, a successful write or promise leaves
/// all four opt-outs on the clipboard, the two that are read as a `DWORD` with a zero.
pub proof fn law_all_opt_outs_are_set<'a>(
    start: Board,
    ids: Seq<u32>,
    p: Access<'a>,
    replies: Seq<ClipboardReply>,
)
    requires
        crate::clipboard_laws::fresh(p),
        p.task is WriteText || p.task is Publish,
        registered(ids),
        crate::protocol::completes(p, replies),
        cooperates(ids, crate::protocol::calls(p, replies), replies),
        crate::protocol::after(p, replies).ended() matches Some(Ok(_)),
    ensures
        ({
            let board = board_after(start, crate::protocol::calls(p, replies), replies);
            &&& delivers(board, p.task)
            &&& opted_out(board, ids, PRIVACY_FORMATS as int)
            &&& board.data[ids[1]] == Some(seq![0u8, 0, 0, 0])
            &&& board.data[ids[2]] == Some(seq![0u8, 0, 0, 0])
        }),
{
    lemma_opt_outs(start, ids, p, replies);
    lemma_cooperation_registers_high(ids, p, replies);
    law_clipboard_holds_what_was_asked(start, p, replies);
    lemma_board(start, p, replies);
    assert(crate::clipboard::dword_bytes(0) =~= seq![0u8, 0, 0, 0]);
    let board = board_after(start, crate::protocol::calls(p, replies), replies);
    assert(board.data[ids[1]] == flag(1));
    assert(board.data[ids[2]] == flag(2));
}

} // verus!
