//! Supplying a promised text to the consumer that asks for it.

use vstd::prelude::*;

use crate::clipboard::CF_UNICODETEXT;
use crate::delayed::{OwnerDuty, Rendering};
use crate::error::Error;
use crate::protocol::Protocol;

verus! {

/// What supplying a promised text asks of the system.
#[derive(Debug, Clone, Copy)]
pub enum SupplyCall<'a> {
    /// Open the clipboard for our window.
    Open {
        /// The window.
        window: isize,
    },
    /// What answers a request for a format? See [`crate::delayed::State::render`]. The record must
    /// not change from here until the read is noted.
    Ask {
        /// The format.
        format: u32,
    },
    /// Fill a fresh block of global memory with the bytes of the answer.
    Fill(&'a Rendering),
    /// Set the data of a format.
    SetData {
        /// The format.
        format: u32,
        /// The block.
        block: usize,
    },
    /// Note the read, see [`crate::delayed::State::note_render`], and wake whoever waits for it.
    Note(&'a Rendering),
    /// Close the clipboard.
    Close,
}

/// What the system answers.
#[derive(Debug, Clone, Copy)]
pub enum SupplyReply<'a> {
    /// Whether the clipboard was opened.
    Opened(bool),
    /// The answer, `None` where there is none or the record is unusable.
    Answer(Option<&'a Rendering>),
    /// The filled block.
    Block(Result<usize, Error>),
    /// Whether the data was taken.
    Taken(bool),
    /// The call is over.
    Finished,
}

/// Where supplying a text stands. `opened` says whether the clipboard is to be closed in the end.
#[derive(Debug, Clone, Copy)]
pub enum SupplyStage<'a> {
    /// About to open the clipboard.
    Open { window: isize, format: u32 },
    /// About to ask for the answer.
    Ask { format: u32, opened: bool },
    /// About to fill a block.
    Fill { answer: &'a Rendering, opened: bool },
    /// About to set the data.
    Place { answer: &'a Rendering, block: usize, opened: bool },
    /// About to note the read.
    Note { answer: &'a Rendering, opened: bool },
    /// About to close the clipboard.
    Close { noted: bool },
    /// The end: whether a read was noted.
    Over { noted: bool },
}

/// A promised text being supplied.
///
/// The text is always set as `CF_UNICODETEXT`, whichever text format was asked for: Windows
/// synthesizes the narrow formats from it. A read is noted even where the data could not be set,
/// for the consumer has asked all the same.
#[derive(Debug, Clone, Copy)]
pub struct Supply<'a> {
    /// Where it stands.
    pub stage: SupplyStage<'a>,
}

/// Where an exchange with the clipboard open or not goes once there is no more to supply.
pub open spec fn leave<'a>(opened: bool, noted: bool) -> SupplyStage<'a> {
    if opened {
        SupplyStage::Close { noted }
    } else {
        SupplyStage::Over { noted }
    }
}

impl<'a> Supply<'a> {
    /// Whether a read was noted, once it is over.
    pub open spec fn ended(self) -> Option<bool> {
        match self.stage {
            SupplyStage::Over { noted } => Some(noted),
            _ => None,
        }
    }

    /// The stage that a reply leads to.
    pub open spec fn next_stage(self, reply: SupplyReply<'a>) -> SupplyStage<'a> {
        match (self.stage, reply) {
            (SupplyStage::Open { format, .. }, SupplyReply::Opened(opened)) => if opened {
                SupplyStage::Ask { format, opened: true }
            } else {
                SupplyStage::Over { noted: false }
            },
            (SupplyStage::Ask { opened, .. }, SupplyReply::Answer(answer)) => match answer {
                Some(answer) => SupplyStage::Fill { answer, opened },
                None => leave(opened, false),
            },
            (SupplyStage::Fill { answer, opened }, SupplyReply::Block(r)) => match r {
                Ok(block) => SupplyStage::Place { answer, block, opened },
                Err(_) => SupplyStage::Note { answer, opened },
            },
            (SupplyStage::Place { answer, opened, .. }, _) => SupplyStage::Note { answer, opened },
            (SupplyStage::Note { opened, .. }, _) => leave(opened, true),
            (SupplyStage::Close { noted }, _) => SupplyStage::Over { noted },
            (stage, _) => stage,
        }
    }
}

impl<'a> Protocol for Supply<'a> {
    type Call = SupplyCall<'a>;

    type Reply = SupplyReply<'a>;

    open spec fn pending(self) -> Option<SupplyCall<'a>> {
        match self.stage {
            SupplyStage::Open { window, .. } => Some(SupplyCall::Open { window }),
            SupplyStage::Ask { format, .. } => Some(SupplyCall::Ask { format }),
            SupplyStage::Fill { answer, .. } => Some(SupplyCall::Fill(answer)),
            SupplyStage::Place { block, .. } => Some(
                SupplyCall::SetData { format: CF_UNICODETEXT, block },
            ),
            SupplyStage::Note { answer, .. } => Some(SupplyCall::Note(answer)),
            SupplyStage::Close { .. } => Some(SupplyCall::Close),
            SupplyStage::Over { .. } => None,
        }
    }

    open spec fn fits(self, reply: SupplyReply<'a>) -> bool {
        match self.stage {
            SupplyStage::Open { .. } => reply is Opened,
            SupplyStage::Ask { format, .. } => reply is Answer && (reply->Answer_0 is Some
                ==> crate::delayed::is_text_format(format)),
            SupplyStage::Fill { .. } => reply is Block && (reply->Block_0 matches Err(e) ==> e
                is Alloc),
            SupplyStage::Place { .. } => reply is Taken,
            SupplyStage::Note { .. } => reply is Finished,
            SupplyStage::Close { .. } => reply is Finished,
            SupplyStage::Over { .. } => false,
        }
    }

    open spec fn advance(self, reply: SupplyReply<'a>) -> Supply<'a> {
        Supply { stage: self.next_stage(reply) }
    }
}

/// Begins to supply what a message asks of our window, `None` where it asks for no text.
///
/// One format is asked for by a consumer that holds the clipboard open. To supply everything, the
/// clipboard has to be opened first, and where that fails nothing is supplied.
pub fn supply<'a>(duty: OwnerDuty, window: isize) -> (supply: Option<Supply<'a>>)
    ensures
        supply == match duty {
            OwnerDuty::Render(format) => Some(
                Supply { stage: SupplyStage::Ask { format, opened: false } },
            ),
            OwnerDuty::RenderAll(format) => Some(
                Supply { stage: SupplyStage::Open { window, format } },
            ),
            _ => None,
        },
{
    match duty {
        OwnerDuty::Render(format) => Some(
            Supply { stage: SupplyStage::Ask { format, opened: false } },
        ),
        OwnerDuty::RenderAll(format) => Some(
            Supply { stage: SupplyStage::Open { window, format } },
        ),
        _ => None,
    }
}

fn left<'a>(opened: bool, noted: bool) -> (stage: SupplyStage<'a>)
    ensures
        stage == leave::<'a>(opened, noted),
{
    if opened {
        SupplyStage::Close { noted }
    } else {
        SupplyStage::Over { noted }
    }
}

impl<'a> Supply<'a> {
    /// What to do next, `None` once it is over.
    pub fn call(&self) -> (call: Option<SupplyCall<'a>>)
        ensures
            call == self.pending(),
    {
        match self.stage {
            SupplyStage::Open { window, .. } => Some(SupplyCall::Open { window }),
            SupplyStage::Ask { format, .. } => Some(SupplyCall::Ask { format }),
            SupplyStage::Fill { answer, .. } => Some(SupplyCall::Fill(answer)),
            SupplyStage::Place { answer, block, .. } => Some(
                SupplyCall::SetData { format: answer.format(), block },
            ),
            SupplyStage::Note { answer, .. } => Some(SupplyCall::Note(answer)),
            SupplyStage::Close { .. } => Some(SupplyCall::Close),
            SupplyStage::Over { .. } => None,
        }
    }

    /// Takes the reply to the pending call.
    pub fn reply(self, reply: SupplyReply<'a>) -> (next: Supply<'a>)
        requires
            self.fits(reply),
        ensures
            next == self.advance(reply),
    {
        let stage = match (self.stage, reply) {
            (SupplyStage::Open { format, .. }, SupplyReply::Opened(opened)) => {
                if opened {
                    SupplyStage::Ask { format, opened: true }
                } else {
                    SupplyStage::Over { noted: false }
                }
            },
            (SupplyStage::Ask { opened, .. }, SupplyReply::Answer(answer)) => match answer {
                Some(answer) => SupplyStage::Fill { answer, opened },
                None => left(opened, false),
            },
            (SupplyStage::Fill { answer, opened }, SupplyReply::Block(r)) => match r {
                Ok(block) => SupplyStage::Place { answer, block, opened },
                Err(_) => SupplyStage::Note { answer, opened },
            },
            (SupplyStage::Place { answer, opened, .. }, _) => SupplyStage::Note { answer, opened },
            (SupplyStage::Note { opened, .. }, _) => left(opened, true),
            (SupplyStage::Close { noted }, _) => SupplyStage::Over { noted },
            (stage, _) => stage,
        };
        Supply { stage }
    }

    /// Whether a read was noted, `None` while a call is pending.
    pub fn result(&self) -> (noted: Option<bool>)
        ensures
            noted == self.ended(),
            noted is None <==> self.pending() is Some,
    {
        match self.stage {
            SupplyStage::Over { noted } => Some(noted),
            _ => None,
        }
    }
}

} // verus!
