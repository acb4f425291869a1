//! Clipboard writes that stay out of clipboard history, cloud sync, and third-party managers.
//!
//! Writing `CF_UNICODETEXT` and nothing else lands a transcript in Windows clipboard history and
//! in the Microsoft cloud clipboard. Chrome's Incognito mode avoids that by registering four extra
//! formats; so does this.

use vstd::prelude::*;

use crate::error::{Error, OsError};
use crate::protocol::Protocol;
use crate::utf16;

verus! {

/// Text as NUL-terminated UTF-16.
pub const CF_UNICODETEXT: u32 = 13;

/// How many opt-out formats there are.
pub const PRIVACY_FORMATS: usize = 4;

/// The opt-out formats honored by Windows clipboard history, the cloud clipboard, and well-behaved
/// third-party managers.
pub open spec fn privacy_name(index: int) -> Seq<char> {
    if index == 0 {
        "ExcludeClipboardContentFromMonitorProcessing"@
    } else if index == 1 {
        "CanIncludeInClipboardHistory"@
    } else if index == 2 {
        "CanUploadToCloudClipboard"@
    } else {
        "Clipboard Viewer Ignore"@
    }
}

/// The name under which opt-out format `index` is registered.
pub fn privacy_format(index: usize) -> (name: &'static str)
    requires
        index < PRIVACY_FORMATS,
    ensures
        name@ == privacy_name(index as int),
{
    if index == 0 {
        "ExcludeClipboardContentFromMonitorProcessing"
    } else if index == 1 {
        "CanIncludeInClipboardHistory"
    } else if index == 2 {
        "CanUploadToCloudClipboard"
    } else {
        "Clipboard Viewer Ignore"
    }
}

/// What opt-out format `index` carries.
pub open spec fn payload_of(index: usize) -> Option<u32> {
    if index == 1 || index == 2 {
        Some(0u32)
    } else {
        None
    }
}

/// `ExcludeClipboardContentFromMonitorProcessing` and `Clipboard Viewer Ignore` are presence-only
/// flags; the other two are read as a `DWORD` and must be zero to mean "no".
pub fn privacy_payload(index: usize) -> (payload: Option<u32>)
    ensures
        payload == payload_of(index),
{
    match index {
        1 | 2 => Some(0u32),
        _ => None,
    }
}

/// Number of attempts when another process holds the clipboard lock.
pub const OPEN_RETRIES: u32 = 5;

/// The wait between two attempts.
pub const OPEN_BACKOFF_MS: u64 = 12;

/// The two bytes of a code unit, low byte first.
pub open spec fn unit_bytes(unit: u16) -> Seq<u8> {
    seq![(unit % 256) as u8, (unit / 256) as u8]
}

/// A run of code units as bytes, little-endian.
pub open spec fn le_bytes(units: Seq<u16>) -> Seq<u8> {
    Seq::new(2 * units.len(), |i: int| unit_bytes(units[i / 2])[i % 2])
}

/// A string as `CF_UNICODETEXT` holds it: little-endian UTF-16 with a terminating NUL.
pub open spec fn text_bytes(text: Seq<char>) -> Seq<u8> {
    le_bytes(utf16::units(text).push(0))
}

/// Encodes `text` as `CF_UNICODETEXT` holds it.
pub fn utf16_bytes(text: &str) -> (bytes: Vec<u8>)
    ensures
        bytes@ == text_bytes(text@),
{
    let mut units = utf16::encode(text);
    units.push(0);
    let mut bytes: Vec<u8> = Vec::new();
    let mut i: usize = 0;
    while i < units.len()
        invariant
            i <= units.len(),
            bytes@ =~= le_bytes(units@.take(i as int)),
        decreases units.len() - i,
    {
        let unit: u16 = units[i];
        bytes.push((unit % 256) as u8);
        bytes.push((unit / 256) as u8);
        i += 1;
    }
    assert(units@.take(i as int) =~= units@);
    bytes
}

/// The four bytes of a `DWORD`, low byte first.
pub open spec fn dword_bytes(value: u32) -> Seq<u8> {
    seq![
        (value % 256) as u8,
        (value / 256 % 256) as u8,
        (value / 65536 % 256) as u8,
        (value / 16777216) as u8,
    ]
}

/// The code units that a block of memory holds, a trailing odd byte left out.
pub open spec fn block_units(bytes: Seq<u8>) -> Seq<u16> {
    Seq::new(bytes.len() / 2, |i: int| (bytes[2 * i] + 256 * bytes[2 * i + 1]) as u16)
}

/// The code units before the first NUL.
pub open spec fn before_nul(units: Seq<u16>) -> Seq<u16>
    decreases units.len(),
{
    if units.len() == 0 || units[0] == 0 {
        seq![]
    } else {
        seq![units[0]] + before_nul(units.skip(1))
    }
}

/// The text that a block of `CF_UNICODETEXT` holds.
pub open spec fn block_text(bytes: Seq<u8>) -> Seq<char> {
    utf16::decoded(before_nul(block_units(bytes)))
}

/// The text in a block of `CF_UNICODETEXT`: everything up to the first NUL or the end of the block.
/// `None` where the clipboard gave no block, or none that could be locked.
pub fn read_unicode_text(block: Option<&[u8]>) -> (text: Option<String>)
    ensures
        text is Some <==> block is Some,
        text is Some ==> text->0@ == block_text(block->0@),
{
    match block {
        None => None,
        Some(bytes) => {
            let max_units: usize = bytes.len() / 2;
            let mut units: Vec<u16> = Vec::new();
            let mut len: usize = 0;
            let ghost all = block_units(bytes@);
            assert(all.skip(0) =~= all);
            while len < max_units && !(bytes[2 * len] == 0 && bytes[2 * len + 1] == 0)
                invariant
                    len <= max_units,
                    max_units == bytes.len() / 2,
                    all == block_units(bytes@),
                    units@ + before_nul(all.skip(len as int)) == before_nul(all),
                decreases max_units - len,
            {
                let ghost rest = all.skip(len as int);
                let ghost read = units@;
                let unit: u16 = bytes[2 * len] as u16 + 256 * (bytes[2 * len + 1] as u16);
                units.push(unit);
                proof {
                    assert(rest[0] == unit);
                    assert(unit != 0);
                    assert(rest.skip(1) =~= all.skip(len + 1));
                    assert(read.push(unit) + before_nul(rest.skip(1)) =~= read + (seq![unit]
                        + before_nul(rest.skip(1))));
                }
                len += 1;
            }
            proof {
                let rest = all.skip(len as int);
                assert(rest.len() == 0 || rest[0] == 0);
                assert(units@ =~= before_nul(all));
            }
            Some(utf16::decode_lossy(units.as_slice()))
        },
    }
}

proof fn lemma_units_nonzero(text: Seq<char>)
    requires
        forall|i: int| 0 <= i < text.len() ==> text[i] != '\0',
    ensures
        forall|i: int| 0 <= i < utf16::units(text).len() ==> utf16::units(text)[i] != 0,
    decreases text.len(),
{
    if text.len() > 0 {
        let c = text.last();
        let head = utf16::units(text.drop_last());
        lemma_units_nonzero(text.drop_last());
        crate::text::lemma_char_code(c);
        assert(c as u32 != 0);
        assert forall|i: int| 0 <= i < utf16::units(text).len() implies utf16::units(text)[i]
            != 0 by {
            if i < head.len() {
                assert(utf16::units(text)[i] == head[i]);
            } else {
                assert(utf16::units(text)[i] == utf16::char_units(c)[i - head.len()]);
            }
        }
    }
}

proof fn lemma_before_nul(units: Seq<u16>, head: Seq<u16>)
    requires
        head.len() < units.len(),
        units.take(head.len() as int) == head,
        units[head.len() as int] == 0,
        forall|i: int| 0 <= i < head.len() ==> head[i] != 0,
    ensures
        before_nul(units) == head,
    decreases head.len(),
{
    if head.len() == 0 {
        assert(before_nul(units) =~= head);
    } else {
        assert(units[0] == units.take(head.len() as int)[0]);
        assert(units.skip(1).take(head.len() - 1) =~= units.take(head.len() as int).skip(1));
        lemma_before_nul(units.skip(1), head.skip(1));
        assert(seq![head[0]] + head.skip(1) =~= head);
    }
}

/// Reading gives back what was written: a block that holds the bytes of `text`, whatever memory
/// follows them, reads as the text up to its first NUL, which is the whole text where it has none.
pub proof fn law_read_gives_back_write(head: Seq<char>, tail: Seq<char>, beyond: Seq<u8>)
    requires
        forall|i: int| 0 <= i < head.len() ==> head[i] != '\0',
        tail.len() > 0 ==> tail[0] == '\0',
    ensures
        block_text(text_bytes(head + tail) + beyond) == head,
{
    let units = utf16::units(head + tail).push(0);
    let bytes = text_bytes(head + tail) + beyond;
    let all = block_units(bytes);
    let h = utf16::units(head);
    utf16::lemma_units_concat(head, tail);
    lemma_units_nonzero(head);
    assert forall|i: int| 0 <= i < units.len() implies all[i] == units[i] by {
        let unit = units[i];
        assert(bytes[2 * i] == (unit % 256) as u8) by {
            assert((2 * i) / 2 == i && (2 * i) % 2 == 0);
        }
        assert(bytes[2 * i + 1] == (unit / 256) as u8) by {
            assert((2 * i + 1) / 2 == i && (2 * i + 1) % 2 == 1);
        }
    }
    if tail.len() > 0 {
        let rest = utf16::units(tail);
        assert(tail =~= seq![tail[0]] + tail.skip(1));
        utf16::lemma_units_concat(seq![tail[0]], tail.skip(1));
        assert(seq![tail[0]].drop_last() =~= Seq::<char>::empty());
        reveal_with_fuel(utf16::units, 2);
        assert(utf16::units(seq![tail[0]]) =~= utf16::char_units('\0'));
        assert(rest[0] == 0);
    }
    assert(all.take(h.len() as int) =~= h);
    assert(all[h.len() as int] == 0);
    lemma_before_nul(all, h);
    utf16::lemma_decode_inverts_encode(head);
}

proof fn lemma_before_nul_is_nonzero(units: Seq<u16>)
    ensures
        forall|i: int| 0 <= i < before_nul(units).len() ==> #[trigger] before_nul(units)[i] != 0,
    decreases units.len(),
{
    if units.len() > 0 && units[0] != 0 {
        let rest = before_nul(units.skip(1));
        lemma_before_nul_is_nonzero(units.skip(1));
        assert forall|i: int| 0 <= i < before_nul(units).len() implies #[trigger] before_nul(
            units,
        )[i] != 0 by {
            if i > 0 {
                assert(before_nul(units)[i] == rest[i - 1]);
            }
        }
    }
}

proof fn lemma_decoded_nonzero(units: Seq<u16>)
    requires
        forall|i: int| 0 <= i < units.len() ==> #[trigger] units[i] != 0,
    ensures
        forall|i: int|
            0 <= i < utf16::decoded(units).len() ==> #[trigger] utf16::decoded(units)[i] != '\0',
    decreases units.len(),
{
    if units.len() > 0 {
        lemma_decoded_nonzero(units.skip(1));
        if units.len() >= 2 {
            lemma_decoded_nonzero(units.skip(2));
        }
        let text = utf16::decoded(units);
        assert(units[0] != 0);
        assert(text[0] != '\0');
        assert forall|i: int| 0 <= i < text.len() implies #[trigger] text[i] != '\0' by {
            if i > 0 && !utf16::is_surrogate(units[0]) {
                assert(text[i] == utf16::decoded(units.skip(1))[i - 1]);
            } else if i > 0 && units.len() >= 2 && utf16::is_pair(units[0], units[1]) {
                assert(text[i] == utf16::decoded(units.skip(2))[i - 1]);
            } else if i > 0 {
                assert(text[i] == utf16::decoded(units.skip(1))[i - 1]);
            }
        }
    }
}

/// Restoring gives back what was captured: whatever block the text was captured from, writing that
/// text produces a block that reads as the same text again.
pub proof fn law_restore_gives_back_capture(block: Seq<u8>, beyond: Seq<u8>)
    ensures
        block_text(text_bytes(block_text(block)) + beyond) == block_text(block),
{
    let text = block_text(block);
    let units = before_nul(block_units(block));
    lemma_before_nul_is_nonzero(block_units(block));
    lemma_decoded_nonzero(units);
    law_read_gives_back_write(text, seq![], beyond);
    assert(text + seq![] =~= text);
}

/// What a block of global memory is to hold.
#[derive(Debug, Clone, Copy)]
pub enum Payload<'a> {
    /// A string, as `CF_UNICODETEXT` holds it.
    Text(&'a str),
    /// A `DWORD`.
    Dword(u32),
}

impl<'a> Payload<'a> {
    /// The bytes of the block.
    pub open spec fn content(self) -> Seq<u8> {
        match self {
            Payload::Text(text) => text_bytes(text@),
            Payload::Dword(value) => dword_bytes(value),
        }
    }

    /// The bytes of the block.
    pub fn bytes(&self) -> (bytes: Vec<u8>)
        ensures
            bytes@ == self.content(),
    {
        match *self {
            Payload::Text(text) => utf16_bytes(text),
            Payload::Dword(value) => {
                let mut bytes: Vec<u8> = Vec::new();
                bytes.push((value % 256) as u8);
                bytes.push((value / 256 % 256) as u8);
                bytes.push((value / 65536 % 256) as u8);
                bytes.push((value / 16777216) as u8);
                assert(bytes@ =~= dword_bytes(value));
                bytes
            },
        }
    }
}

/// What is to be done with the clipboard while it is open.
#[derive(Debug, Clone, Copy)]
pub enum Task<'a> {
    /// Replace the contents with a string, kept out of history and cloud sync.
    WriteText(&'a str),
    /// Empty it.
    Clear,
    /// Read its text and sequence number.
    Capture,
    /// Replace the contents with a promise that the window `owner` will keep.
    Publish {
        /// The window that renders on demand.
        owner: isize,
        /// The text that is promised.
        text: &'a str,
    },
}

/// What clipboard access asks of the system.
#[derive(Debug, Clone, Copy)]
pub enum ClipboardCall<'a> {
    /// Open the clipboard, recording `owner` as its owner-to-be (zero for none).
    Open {
        /// The window.
        owner: isize,
    },
    /// Wait.
    Sleep {
        /// For how many milliseconds.
        millis: u64,
    },
    /// Empty the clipboard.
    Empty,
    /// Record the promise of a text, anew. The clipboard is empty then, so that a window of ours
    /// that owned it has already been told that what it promised is void.
    Record(&'a str),
    /// Fill a fresh block of global memory.
    Allocate(Payload<'a>),
    /// Set the data of a format: the given block, or with `None` a promise or a mere flag.
    SetData {
        /// The format.
        format: u32,
        /// The block.
        block: Option<usize>,
    },
    /// Register opt-out format `index`, see [`privacy_format`].
    Register {
        /// Which one.
        index: usize,
    },
    /// Which window owns the clipboard?
    Owner,
    /// Does the clipboard advertise a format?
    Advertised {
        /// The format.
        format: u32,
    },
    /// What is the sequence number?
    SequenceNumber,
    /// Read the block of `CF_UNICODETEXT`, if there is one.
    ReadText,
    /// Close the clipboard.
    Close,
}

/// What the system answers.
#[derive(Debug, Clone, Copy)]
pub enum ClipboardReply {
    /// How a clipboard call ended.
    Status(Result<(), OsError>),
    /// Whether the promise was recorded; it is not where the record is unusable.
    Recorded(bool),
    /// The filled block.
    Block(Result<usize, Error>),
    /// The registered format, zero if it could not be registered.
    Format(u32),
    /// The window that owns the clipboard, zero if none does.
    Owner(isize),
    /// Whether the format is advertised.
    Advertised(bool),
    /// The sequence number.
    Sequence(u32),
    /// The call is over; how it ended does not matter.
    Finished,
}

/// What was done.
#[derive(Debug, Clone, Copy)]
pub enum Done {
    /// The text is on the clipboard.
    Wrote,
    /// The clipboard is empty.
    Cleared,
    /// The text was read, at this sequence number.
    Captured {
        /// The sequence number.
        sequence: u32,
    },
    /// The promise is on the clipboard.
    Published,
}

/// Where clipboard access stands.
#[derive(Debug, Clone, Copy)]
pub enum AccessStage {
    /// About to open, for the given time counted from zero.
    Opening { attempt: u32 },
    /// About to wait before that attempt.
    BackingOff { attempt: u32 },
    /// About to empty.
    Emptying,
    /// About to allocate the text.
    AllocatingText,
    /// About to set the text.
    SettingText { block: usize },
    /// About to record the promise.
    Recording,
    /// About to set the promise.
    Promising,
    /// About to register an opt-out format.
    Registering { index: usize },
    /// About to allocate the payload of an opt-out format.
    AllocatingFlag { index: usize, format: u32 },
    /// About to attach an opt-out format.
    Attaching { index: usize, format: u32, data: Option<usize> },
    /// About to ask who owns the clipboard.
    AskingOwner,
    /// About to ask whether the promise is advertised.
    AskingFormat { owned: bool },
    /// About to read the sequence number.
    ReadingSequence,
    /// About to read the text.
    ReadingText { sequence: u32 },
    /// About to close.
    Closing { result: Result<Done, Error> },
    /// The end.
    Over { result: Result<Done, Error> },
}

/// One use of the clipboard, from opening to closing.
///
/// The clipboard is a global lock. Opening is retried, because a contended open otherwise fails
/// outright, and once open the clipboard is closed whatever else happens.
#[derive(Debug, Clone, Copy)]
pub struct Access<'a> {
    /// What is to be done.
    pub task: Task<'a>,
    /// Where it stands.
    pub stage: AccessStage,
}

impl<'a> Access<'a> {
    /// The window to record as owner when opening.
    pub open spec fn owner(self) -> isize {
        match self.task {
            Task::Publish { owner, .. } => owner,
            _ => 0,
        }
    }

    /// The first stage with the clipboard open.
    pub open spec fn opened(self) -> AccessStage {
        match self.task {
            Task::Capture => AccessStage::ReadingSequence,
            _ => AccessStage::Emptying,
        }
    }

    /// The stage behind an opt-out format: the next format, or what follows the last.
    pub open spec fn past_format(self, index: usize) -> AccessStage {
        if index < PRIVACY_FORMATS - 1 {
            AccessStage::Registering { index: (index + 1) as usize }
        } else {
            match self.task {
                Task::Publish { .. } => AccessStage::AskingOwner,
                _ => AccessStage::Closing { result: Ok(Done::Wrote) },
            }
        }
    }

    /// The stage that a reply leads to.
    pub open spec fn next_stage(self, reply: ClipboardReply) -> AccessStage {
        match (self.stage, reply) {
            (AccessStage::Opening { attempt }, ClipboardReply::Status(r)) => match r {
                Ok(_) => self.opened(),
                Err(e) => if attempt < OPEN_RETRIES - 1 {
                    AccessStage::BackingOff { attempt: (attempt + 1) as u32 }
                } else {
                    AccessStage::Over { result: Err(Error::ClipboardLocked(e)) }
                },
            },
            (AccessStage::BackingOff { attempt }, _) => AccessStage::Opening { attempt },
            (AccessStage::Emptying, ClipboardReply::Status(r)) => match r {
                Ok(_) => match self.task {
                    Task::WriteText(_) => AccessStage::AllocatingText,
                    Task::Publish { .. } => AccessStage::Recording,
                    _ => AccessStage::Closing { result: Ok(Done::Cleared) },
                },
                Err(e) => AccessStage::Closing { result: Err(Error::Clipboard(e)) },
            },
            (AccessStage::AllocatingText, ClipboardReply::Block(r)) => match r {
                Ok(block) => AccessStage::SettingText { block },
                Err(e) => AccessStage::Closing { result: Err(e) },
            },
            (AccessStage::SettingText { .. }, ClipboardReply::Status(r)) => match r {
                Ok(_) => AccessStage::Registering { index: 0 },
                Err(e) => AccessStage::Closing { result: Err(Error::Clipboard(e)) },
            },
            (AccessStage::Recording, ClipboardReply::Recorded(recorded)) => if recorded {
                AccessStage::Promising
            } else {
                AccessStage::Closing { result: Err(Error::OwnerWindowFailed) }
            },
            (AccessStage::Promising, _) => AccessStage::Registering { index: 0 },
            (AccessStage::Registering { index }, ClipboardReply::Format(format)) => if format
                == 0 {
                self.past_format(index)
            } else if payload_of(index) is Some {
                AccessStage::AllocatingFlag { index, format }
            } else {
                AccessStage::Attaching { index, format, data: None }
            },
            (
                AccessStage::AllocatingFlag { index, format },
                ClipboardReply::Block(r),
            ) => match r {
                Ok(block) => AccessStage::Attaching { index, format, data: Some(block) },
                Err(_) => self.past_format(index),
            },
            (AccessStage::Attaching { index, .. }, _) => self.past_format(index),
            (AccessStage::AskingOwner, ClipboardReply::Owner(current)) => AccessStage::AskingFormat {
                owned: current == self.owner(),
            },
            (
                AccessStage::AskingFormat { owned },
                ClipboardReply::Advertised(advertised),
            ) => AccessStage::Closing {
                result: if owned && advertised {
                    Ok(Done::Published)
                } else {
                    Err(Error::OwnerWindowFailed)
                },
            },
            (
                AccessStage::ReadingSequence,
                ClipboardReply::Sequence(sequence),
            ) => AccessStage::ReadingText { sequence },
            (AccessStage::ReadingText { sequence }, _) => AccessStage::Closing {
                result: Ok(Done::Captured { sequence }),
            },
            (AccessStage::Closing { result }, _) => AccessStage::Over { result },
            (stage, _) => stage,
        }
    }

    /// How the access ended, if it is over.
    pub open spec fn ended(self) -> Option<Result<Done, Error>> {
        match self.stage {
            AccessStage::Over { result } => Some(result),
            _ => None,
        }
    }

    /// Attempts and opt-out formats stay below their number, only a write allocates text, and only
    /// a promise is recorded.
    pub open spec fn wf(self) -> bool {
        match self.stage {
            AccessStage::AllocatingText => self.task is WriteText,
            AccessStage::Recording => self.task is Publish,
            AccessStage::Opening { attempt } => attempt < OPEN_RETRIES,
            AccessStage::BackingOff { attempt } => attempt < OPEN_RETRIES,
            AccessStage::Registering { index } => index < PRIVACY_FORMATS,
            AccessStage::AllocatingFlag { index, .. } => index < PRIVACY_FORMATS && payload_of(
                index,
            ) is Some,
            AccessStage::Attaching { index, .. } => index < PRIVACY_FORMATS,
            _ => true,
        }
    }
}

impl<'a> Protocol for Access<'a> {
    type Call = ClipboardCall<'a>;

    type Reply = ClipboardReply;

    open spec fn pending(self) -> Option<ClipboardCall<'a>> {
        match self.stage {
            AccessStage::Opening { .. } => Some(ClipboardCall::Open { owner: self.owner() }),
            AccessStage::BackingOff { .. } => Some(ClipboardCall::Sleep { millis: OPEN_BACKOFF_MS }),
            AccessStage::Emptying => Some(ClipboardCall::Empty),
            AccessStage::AllocatingText => match self.task {
                Task::WriteText(text) => Some(ClipboardCall::Allocate(Payload::Text(text))),
                _ => None,
            },
            AccessStage::SettingText { block } => Some(
                ClipboardCall::SetData { format: CF_UNICODETEXT, block: Some(block) },
            ),
            AccessStage::Recording => match self.task {
                Task::Publish { text, .. } => Some(ClipboardCall::Record(text)),
                _ => None,
            },
            AccessStage::Promising => Some(
                ClipboardCall::SetData { format: CF_UNICODETEXT, block: None },
            ),
            AccessStage::Registering { index } => Some(ClipboardCall::Register { index }),
            AccessStage::AllocatingFlag { index, .. } => match payload_of(index) {
                Some(value) => Some(ClipboardCall::Allocate(Payload::Dword(value))),
                None => None,
            },
            AccessStage::Attaching { format, data, .. } => Some(
                ClipboardCall::SetData { format, block: data },
            ),
            AccessStage::AskingOwner => Some(ClipboardCall::Owner),
            AccessStage::AskingFormat { .. } => Some(
                ClipboardCall::Advertised { format: CF_UNICODETEXT },
            ),
            AccessStage::ReadingSequence => Some(ClipboardCall::SequenceNumber),
            AccessStage::ReadingText { .. } => Some(ClipboardCall::ReadText),
            AccessStage::Closing { .. } => Some(ClipboardCall::Close),
            AccessStage::Over { .. } => None,
        }
    }

    open spec fn fits(self, reply: ClipboardReply) -> bool {
        match self.pending() {
            Some(ClipboardCall::Open { .. }) => reply is Status,
            Some(ClipboardCall::Sleep { .. }) => reply is Finished,
            Some(ClipboardCall::Empty) => reply is Status,
            Some(ClipboardCall::Record(_)) => reply is Recorded,
            Some(ClipboardCall::Allocate(_)) => reply is Block && (reply->Block_0 matches Err(e)
                ==> e is Alloc),
            Some(ClipboardCall::SetData { .. }) => reply is Status,
            Some(ClipboardCall::Register { .. }) => reply is Format,
            Some(ClipboardCall::Owner) => reply is Owner,
            Some(ClipboardCall::Advertised { .. }) => reply is Advertised,
            Some(ClipboardCall::SequenceNumber) => reply is Sequence,
            Some(ClipboardCall::ReadText) => reply is Finished,
            Some(ClipboardCall::Close) => reply is Finished,
            None => false,
        }
    }

    open spec fn advance(self, reply: ClipboardReply) -> Access<'a> {
        Access { stage: self.next_stage(reply), ..self }
    }
}

/// Begins a use of the clipboard.
pub fn access<'a>(task: Task<'a>) -> (access: Access<'a>)
    ensures
        access == (Access { task, stage: AccessStage::Opening { attempt: 0 } }),
        access.wf(),
{
    Access { task, stage: AccessStage::Opening { attempt: 0 } }
}

/// Begins to write `text` to the clipboard, tagged so it is excluded from clipboard history, cloud
/// sync, and cooperating clipboard managers.
///
/// A missing opt-out is a privacy downgrade rather than a functional break, so failures to attach
/// one do not fail the write.
pub fn set_text_private<'a>(text: &'a str) -> (write: Access<'a>)
    ensures
        write == (Access {
            task: Task::WriteText(text),
            stage: AccessStage::Opening { attempt: 0 },
        }),
        write.wf(),
{
    access(Task::WriteText(text))
}

impl<'a> Access<'a> {
    /// What to do next, `None` once the access is over.
    pub fn call(&self) -> (call: Option<ClipboardCall<'a>>)
        ensures
            call == self.pending(),
            self.wf() && call is Some && call->0 is Register ==> call->0->Register_index
                < PRIVACY_FORMATS,
    {
        match self.stage {
            AccessStage::Opening { .. } => {
                let owner: isize = match self.task {
                    Task::Publish { owner, .. } => owner,
                    _ => 0,
                };
                Some(ClipboardCall::Open { owner })
            },
            AccessStage::BackingOff { .. } => Some(ClipboardCall::Sleep { millis: OPEN_BACKOFF_MS }),
            AccessStage::Emptying => Some(ClipboardCall::Empty),
            AccessStage::AllocatingText => match self.task {
                Task::WriteText(text) => Some(ClipboardCall::Allocate(Payload::Text(text))),
                _ => None,
            },
            AccessStage::SettingText { block } => Some(
                ClipboardCall::SetData { format: CF_UNICODETEXT, block: Some(block) },
            ),
            AccessStage::Recording => match self.task {
                Task::Publish { text, .. } => Some(ClipboardCall::Record(text)),
                _ => None,
            },
            AccessStage::Promising => Some(
                ClipboardCall::SetData { format: CF_UNICODETEXT, block: None },
            ),
            AccessStage::Registering { index } => Some(ClipboardCall::Register { index }),
            AccessStage::AllocatingFlag { index, .. } => match privacy_payload(index) {
                Some(value) => Some(ClipboardCall::Allocate(Payload::Dword(value))),
                None => None,
            },
            AccessStage::Attaching { format, data, .. } => Some(
                ClipboardCall::SetData { format, block: data },
            ),
            AccessStage::AskingOwner => Some(ClipboardCall::Owner),
            AccessStage::AskingFormat { .. } => Some(
                ClipboardCall::Advertised { format: CF_UNICODETEXT },
            ),
            AccessStage::ReadingSequence => Some(ClipboardCall::SequenceNumber),
            AccessStage::ReadingText { .. } => Some(ClipboardCall::ReadText),
            AccessStage::Closing { .. } => Some(ClipboardCall::Close),
            AccessStage::Over { .. } => None,
        }
    }

    fn after_format(&self, index: usize) -> (stage: AccessStage)
        ensures
            stage == self.past_format(index),
    {
        if index < PRIVACY_FORMATS - 1 {
            AccessStage::Registering { index: index + 1 }
        } else {
            match self.task {
                Task::Publish { .. } => AccessStage::AskingOwner,
                _ => AccessStage::Closing { result: Ok(Done::Wrote) },
            }
        }
    }

    /// Takes the reply to the pending call.
    pub fn reply(self, reply: ClipboardReply) -> (next: Access<'a>)
        requires
            self.fits(reply),
        ensures
            next == self.advance(reply),
            self.wf() ==> next.wf(),
    {
        let stage = match (self.stage, reply) {
            (AccessStage::Opening { attempt }, ClipboardReply::Status(r)) => match r {
                Ok(_) => match self.task {
                    Task::Capture => AccessStage::ReadingSequence,
                    _ => AccessStage::Emptying,
                },
                Err(e) => {
                    if attempt < OPEN_RETRIES - 1 {
                        AccessStage::BackingOff { attempt: attempt + 1 }
                    } else {
                        AccessStage::Over { result: Err(Error::ClipboardLocked(e)) }
                    }
                },
            },
            (AccessStage::BackingOff { attempt }, _) => AccessStage::Opening { attempt },
            (AccessStage::Emptying, ClipboardReply::Status(r)) => match r {
                Ok(_) => match self.task {
                    Task::WriteText(_) => AccessStage::AllocatingText,
                    Task::Publish { .. } => AccessStage::Recording,
                    _ => AccessStage::Closing { result: Ok(Done::Cleared) },
                },
                Err(e) => AccessStage::Closing { result: Err(Error::Clipboard(e)) },
            },
            (AccessStage::AllocatingText, ClipboardReply::Block(r)) => match r {
                Ok(block) => AccessStage::SettingText { block },
                Err(e) => AccessStage::Closing { result: Err(e) },
            },
            (AccessStage::SettingText { .. }, ClipboardReply::Status(r)) => match r {
                Ok(_) => AccessStage::Registering { index: 0 },
                Err(e) => AccessStage::Closing { result: Err(Error::Clipboard(e)) },
            },
            (AccessStage::Recording, ClipboardReply::Recorded(recorded)) => {
                if recorded {
                    AccessStage::Promising
                } else {
                    AccessStage::Closing { result: Err(Error::OwnerWindowFailed) }
                }
            },
            // The status of a promise cannot tell failure: setting no data returns no handle even
            // where it succeeds. Ownership and the advertised format are asked for below instead.
            (AccessStage::Promising, _) => AccessStage::Registering { index: 0 },
            (AccessStage::Registering { index }, ClipboardReply::Format(format)) => {
                if format == 0 {
                    self.after_format(index)
                } else if privacy_payload(index).is_some() {
                    AccessStage::AllocatingFlag { index, format }
                } else {
                    AccessStage::Attaching { index, format, data: None }
                }
            },
            (
                AccessStage::AllocatingFlag { index, format },
                ClipboardReply::Block(r),
            ) => match r {
                Ok(block) => AccessStage::Attaching { index, format, data: Some(block) },
                Err(_) => self.after_format(index),
            },
            (AccessStage::Attaching { index, .. }, _) => self.after_format(index),
            (AccessStage::AskingOwner, ClipboardReply::Owner(current)) => {
                let owner: isize = match self.task {
                    Task::Publish { owner, .. } => owner,
                    _ => 0,
                };
                AccessStage::AskingFormat { owned: current == owner }
            },
            (AccessStage::AskingFormat { owned }, ClipboardReply::Advertised(advertised)) => {
                if owned && advertised {
                    AccessStage::Closing { result: Ok(Done::Published) }
                } else {
                    AccessStage::Closing { result: Err(Error::OwnerWindowFailed) }
                }
            },
            (
                AccessStage::ReadingSequence,
                ClipboardReply::Sequence(sequence),
            ) => AccessStage::ReadingText { sequence },
            (AccessStage::ReadingText { sequence }, _) => AccessStage::Closing {
                result: Ok(Done::Captured { sequence }),
            },
            (AccessStage::Closing { result }, _) => AccessStage::Over { result },
            (stage, _) => stage,
        };
        Access { stage, ..self }
    }

    /// How the access ended, `None` while a call is pending.
    pub fn result(&self) -> (result: Option<Result<Done, Error>>)
        ensures
            result == self.ended(),
            self.wf() ==> (result is None <==> self.pending() is Some),
    {
        match self.stage {
            AccessStage::Over { result } => Some(result),
            _ => None,
        }
    }
}

/// A best-effort snapshot of the clipboard's text content plus the sequence number observed when it
/// was taken.
///
/// Deliberately text-only. Delayed-rendered formats cannot be captured by value at all, and copying
/// a large `CF_DIB` to restore it later duplicates it in this process's memory. Restoring only what
/// can be restored correctly beats pretending to restore everything.
pub struct Snapshot {
    text: Option<String>,
    sequence: u32,
}

impl Snapshot {
    /// The captured text, if there was any.
    pub closed spec fn captured(&self) -> Option<Seq<char>> {
        match self.text {
            Some(text) => Some(text@),
            None => None,
        }
    }

    /// The sequence number at which it was taken.
    pub closed spec fn taken_at(&self) -> u32 {
        self.sequence
    }

    /// The snapshot of a clipboard whose sequence number was `sequence` and whose `CF_UNICODETEXT`
    /// block, if it had one, held `block`. Both are read during one [`Task::Capture`].
    pub fn capture(sequence: u32, block: Option<&[u8]>) -> (snapshot: Snapshot)
        ensures
            snapshot.taken_at() == sequence,
            snapshot.captured() == match block {
                Some(bytes) => Some(block_text(bytes@)),
                None => None,
            },
    {
        Snapshot { text: read_unicode_text(block), sequence }
    }

    /// The captured text, if the clipboard held any.
    pub fn text(&self) -> (text: Option<&str>)
        ensures
            text is Some <==> self.captured() is Some,
            text is Some ==> text->0@ == self.captured()->0,
    {
        match &self.text {
            Some(text) => Some(text.as_str()),
            None => None,
        }
    }

    /// True when another process wrote to the clipboard after this snapshot was taken, `current`
    /// being the clipboard's sequence number now.
    pub fn superseded(&self, current: u32) -> (superseded: bool)
        ensures
            superseded == (current != self.taken_at()),
    {
        current != self.sequence
    }

    /// What restores the captured text, unconditionally.
    ///
    /// Correct only when the caller already knows the target has read the clipboard. Otherwise use
    /// [`Snapshot::restore_if_ours`].
    pub fn restore(&self) -> (task: Task<'_>)
        ensures
            restores(task, self.captured()),
    {
        match &self.text {
            Some(text) => Task::WriteText(text.as_str()),
            None => Task::Clear,
        }
    }

    /// Begins to restore the captured text only if the clipboard still holds our own write.
    ///
    /// `expected` is the sequence number produced by our own write. If the live sequence number is
    /// another, a third party owns the clipboard and restoring would clobber it, so nothing is
    /// done.
    pub fn restore_if_ours(&self, expected: u32) -> (restore: GatedRestore<'_>)
        ensures
            restore.expected == expected,
            restores(restore.task, self.captured()),
            restore.stage is Number,
            restore.wf(),
    {
        GatedRestore { expected, task: self.restore(), stage: GateStage::Number }
    }
}

/// Whether `task` puts `captured` back: the text where there was one, an empty clipboard where
/// there was none.
pub open spec fn restores(task: Task, captured: Option<Seq<char>>) -> bool {
    match captured {
        Some(text) => task is WriteText && task->WriteText_0@ == text,
        None => task is Clear,
    }
}

/// What a gated restore asks of the system.
#[derive(Debug, Clone, Copy)]
pub enum GateCall<'a> {
    /// What is the clipboard's sequence number?
    SequenceNumber,
    /// A step of the restore itself.
    Clipboard(ClipboardCall<'a>),
}

/// What the system answers.
#[derive(Debug, Clone, Copy)]
pub enum GateReply {
    /// The sequence number.
    Sequence(u32),
    /// The answer to a step of the restore itself.
    Clipboard(ClipboardReply),
}

/// Where a gated restore stands.
#[derive(Debug, Clone, Copy)]
pub enum GateStage<'a> {
    /// About to read the sequence number.
    Number,
    /// Restoring.
    Restoring(Access<'a>),
    /// The end: whether the snapshot was restored.
    Over(Result<bool, Error>),
}

/// A restore that happens only where the clipboard still holds our own write.
#[derive(Debug, Clone, Copy)]
pub struct GatedRestore<'a> {
    /// The sequence number of our own write.
    pub expected: u32,
    /// What restores the snapshot.
    pub task: Task<'a>,
    /// Where it stands.
    pub stage: GateStage<'a>,
}

impl<'a> GatedRestore<'a> {
    /// The restore itself is sound, and not over while it is still going on.
    pub open spec fn wf(self) -> bool {
        match self.stage {
            GateStage::Restoring(access) => access.wf() && access.ended() is None && access.task
                == self.task,
            _ => true,
        }
    }

    /// How the restore ended, if it is over.
    pub open spec fn ended(self) -> Option<Result<bool, Error>> {
        match self.stage {
            GateStage::Over(result) => Some(result),
            _ => None,
        }
    }

    /// The stage that a reply leads to.
    pub open spec fn next_stage(self, reply: GateReply) -> GateStage<'a> {
        match (self.stage, reply) {
            (GateStage::Number, GateReply::Sequence(current)) => if current == self.expected {
                GateStage::Restoring(
                    Access { task: self.task, stage: AccessStage::Opening { attempt: 0 } },
                )
            } else {
                GateStage::Over(Ok(false))
            },
            (GateStage::Restoring(access), GateReply::Clipboard(r)) => match access.advance(
                r,
            ).ended() {
                None => GateStage::Restoring(access.advance(r)),
                Some(Ok(_)) => GateStage::Over(Ok(true)),
                Some(Err(e)) => GateStage::Over(Err(e)),
            },
            (stage, _) => stage,
        }
    }
}

impl<'a> Protocol for GatedRestore<'a> {
    type Call = GateCall<'a>;

    type Reply = GateReply;

    open spec fn pending(self) -> Option<GateCall<'a>> {
        match self.stage {
            GateStage::Number => Some(GateCall::SequenceNumber),
            GateStage::Restoring(access) => match access.pending() {
                Some(call) => Some(GateCall::Clipboard(call)),
                None => None,
            },
            GateStage::Over(_) => None,
        }
    }

    open spec fn fits(self, reply: GateReply) -> bool {
        match self.stage {
            GateStage::Number => reply is Sequence,
            GateStage::Restoring(access) => reply is Clipboard && access.fits(
                reply->Clipboard_0,
            ),
            GateStage::Over(_) => false,
        }
    }

    open spec fn advance(self, reply: GateReply) -> GatedRestore<'a> {
        GatedRestore { stage: self.next_stage(reply), ..self }
    }
}

impl<'a> GatedRestore<'a> {
    /// What to do next, `None` once the restore is over.
    pub fn call(&self) -> (call: Option<GateCall<'a>>)
        ensures
            call == self.pending(),
    {
        match self.stage {
            GateStage::Number => Some(GateCall::SequenceNumber),
            GateStage::Restoring(access) => match access.call() {
                Some(call) => Some(GateCall::Clipboard(call)),
                None => None,
            },
            GateStage::Over(_) => None,
        }
    }

    /// Takes the reply to the pending call.
    pub fn reply(self, reply: GateReply) -> (next: GatedRestore<'a>)
        requires
            self.fits(reply),
        ensures
            next == self.advance(reply),
            self.wf() ==> next.wf(),
    {
        let stage = match (self.stage, reply) {
            (GateStage::Number, GateReply::Sequence(current)) => {
                if current == self.expected {
                    GateStage::Restoring(access(self.task))
                } else {
                    GateStage::Over(Ok(false))
                }
            },
            (GateStage::Restoring(access), GateReply::Clipboard(r)) => {
                let next = access.reply(r);
                match next.result() {
                    None => GateStage::Restoring(next),
                    Some(Ok(_)) => GateStage::Over(Ok(true)),
                    Some(Err(e)) => GateStage::Over(Err(e)),
                }
            },
            (stage, _) => stage,
        };
        GatedRestore { stage, ..self }
    }

    /// Whether the snapshot was restored, `None` while a call is pending.
    pub fn result(&self) -> (result: Option<Result<bool, Error>>)
        ensures
            result == self.ended(),
            self.wf() ==> (result is None <==> self.pending() is Some),
    {
        match self.stage {
            GateStage::Over(result) => Some(result),
            _ => None,
        }
    }
}

/// What filling a block of global memory asks of the system.
#[derive(Debug, Clone, Copy)]
pub enum BlockCall<'a> {
    /// Allocate a moveable block.
    Allocate {
        /// Its size in bytes.
        len: usize,
    },
    /// Lock the block.
    Lock {
        /// The block.
        block: usize,
    },
    /// Copy bytes to where the locked block begins.
    Copy {
        /// Where that is.
        address: usize,
        /// The bytes.
        bytes: &'a [u8],
    },
    /// Unlock the block.
    Unlock {
        /// The block.
        block: usize,
    },
}

/// What the system answers.
#[derive(Debug, Clone, Copy)]
pub enum BlockReply {
    /// The allocated block.
    Allocated(Result<usize, OsError>),
    /// Where the locked block begins, zero on failure, and the last error of the thread.
    Locked {
        /// The address.
        address: usize,
        /// The last error.
        last_error: OsError,
    },
    /// The call is over.
    Finished,
}

/// Where filling a block stands.
#[derive(Debug, Clone, Copy)]
pub enum BlockStage {
    /// About to allocate.
    Allocate,
    /// About to lock.
    Lock { block: usize },
    /// About to copy.
    Copy { block: usize, address: usize },
    /// About to unlock.
    Unlock { block: usize },
    /// The end.
    Over(Result<usize, Error>),
}

/// A moveable block of global memory being filled.
///
/// Ownership of the block passes to the clipboard once it is set, so it must not be freed then.
#[derive(Debug, Clone, Copy)]
pub struct BlockFill<'a> {
    /// What it is to hold.
    pub bytes: &'a [u8],
    /// Where it stands.
    pub stage: BlockStage,
}

impl<'a> BlockFill<'a> {
    /// The block or the failure, once it is over.
    pub open spec fn ended(self) -> Option<Result<usize, Error>> {
        match self.stage {
            BlockStage::Over(result) => Some(result),
            _ => None,
        }
    }
}

impl<'a> Protocol for BlockFill<'a> {
    type Call = BlockCall<'a>;

    type Reply = BlockReply;

    open spec fn pending(self) -> Option<BlockCall<'a>> {
        match self.stage {
            BlockStage::Allocate => Some(
                BlockCall::Allocate { len: self.bytes@.len() as usize },
            ),
            BlockStage::Lock { block } => Some(BlockCall::Lock { block }),
            BlockStage::Copy { address, .. } => Some(
                BlockCall::Copy { address, bytes: self.bytes },
            ),
            BlockStage::Unlock { block } => Some(BlockCall::Unlock { block }),
            BlockStage::Over(_) => None,
        }
    }

    open spec fn fits(self, reply: BlockReply) -> bool {
        match self.stage {
            BlockStage::Allocate => reply is Allocated,
            BlockStage::Lock { .. } => reply is Locked,
            BlockStage::Over(_) => false,
            _ => reply is Finished,
        }
    }

    open spec fn advance(self, reply: BlockReply) -> BlockFill<'a> {
        let stage = match (self.stage, reply) {
            (BlockStage::Allocate, BlockReply::Allocated(r)) => match r {
                Ok(block) => BlockStage::Lock { block },
                Err(e) => BlockStage::Over(Err(Error::Alloc(e))),
            },
            (BlockStage::Lock { block }, BlockReply::Locked { address, last_error }) => if address
                == 0 {
                BlockStage::Over(Err(Error::Alloc(last_error)))
            } else {
                BlockStage::Copy { block, address }
            },
            (BlockStage::Copy { block, .. }, _) => BlockStage::Unlock { block },
            (BlockStage::Unlock { block }, _) => BlockStage::Over(Ok(block)),
            (stage, _) => stage,
        };
        BlockFill { stage, ..self }
    }
}

/// Begins to fill a block of global memory with `bytes`.
pub fn alloc_global<'a>(bytes: &'a [u8]) -> (fill: BlockFill<'a>)
    ensures
        fill == (BlockFill { bytes, stage: BlockStage::Allocate }),
{
    BlockFill { bytes, stage: BlockStage::Allocate }
}

impl<'a> BlockFill<'a> {
    /// What to do next, `None` once the block is filled or cannot be.
    pub fn call(&self) -> (call: Option<BlockCall<'a>>)
        ensures
            call == self.pending(),
    {
        match self.stage {
            BlockStage::Allocate => Some(BlockCall::Allocate { len: self.bytes.len() }),
            BlockStage::Lock { block } => Some(BlockCall::Lock { block }),
            BlockStage::Copy { address, .. } => Some(
                BlockCall::Copy { address, bytes: self.bytes },
            ),
            BlockStage::Unlock { block } => Some(BlockCall::Unlock { block }),
            BlockStage::Over(_) => None,
        }
    }

    /// Takes the reply to the pending call.
    pub fn reply(self, reply: BlockReply) -> (next: BlockFill<'a>)
        requires
            self.fits(reply),
        ensures
            next == self.advance(reply),
    {
        let stage = match (self.stage, reply) {
            (BlockStage::Allocate, BlockReply::Allocated(r)) => match r {
                Ok(block) => BlockStage::Lock { block },
                Err(e) => BlockStage::Over(Err(Error::Alloc(e))),
            },
            (BlockStage::Lock { block }, BlockReply::Locked { address, last_error }) => {
                if address == 0 {
                    BlockStage::Over(Err(Error::Alloc(last_error)))
                } else {
                    BlockStage::Copy { block, address }
                }
            },
            (BlockStage::Copy { block, .. }, _) => BlockStage::Unlock { block },
            (BlockStage::Unlock { block }, _) => BlockStage::Over(Ok(block)),
            (stage, _) => stage,
        };
        BlockFill { stage, ..self }
    }

    /// The block or the failure, `None` while a call is pending.
    pub fn result(&self) -> (result: Option<Result<usize, Error>>)
        ensures
            result == self.ended(),
            result is None <==> self.pending() is Some,
    {
        match self.stage {
            BlockStage::Over(result) => Some(result),
            _ => None,
        }
    }
}

} // verus!
