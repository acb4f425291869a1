//! What can be learnt of another process: the name of its executable, and its integrity level.
//!
//! Whatever is opened on the way is closed again, also where a later step fails.

use vstd::prelude::*;

use crate::image_path;
use crate::protocol::Protocol;
use crate::target::Integrity;
use crate::text::{chars_of, string_of};
use crate::utf16;

verus! {

/// The lowercase form of a text, as `str::to_lowercase` gives it.
pub uninterp spec fn lowercased(text: Seq<char>) -> Seq<char>;

/// Trusted: `str::to_lowercase` gives the lowercase form of the whole text. Its mapping is
/// Unicode's and depends on the text alone; it is not spelled out here.
#[verifier::external_body]
fn to_lowercase(text: &str) -> (lower: String)
    ensures
        lower@ == lowercased(text@),
{
    text.to_lowercase()
}

/// The lowercase file name in an image path given as UTF-16, `None` where the path ends in no name.
pub open spec fn exe_name(path: Seq<u16>) -> Option<Seq<char>> {
    match image_path::name_in(utf16::decoded(path)) {
        Some(name) => Some(lowercased(name)),
        None => None,
    }
}

/// The lowercase name of a process's executable, `path` being its full image path as UTF-16.
pub fn process_exe_name(path: &[u16]) -> (name: Option<String>)
    ensures
        name is Some <==> exe_name(path@) is Some,
        name matches Some(text) ==> text@ == exe_name(path@)->0,
{
    let full = utf16::decode_lossy(path);
    let chars = chars_of(full.as_str());
    match image_path::file_name(chars.as_slice()) {
        Some(name) => Some(to_lowercase(string_of(name.as_slice()).as_str())),
        None => None,
    }
}

/// What reading an image path asks of the system.
#[derive(Debug, Clone, Copy)]
pub enum ImageCall {
    /// Open a process for limited queries.
    OpenProcess {
        /// The process.
        pid: u32,
    },
    /// Ask for its full image path.
    QueryPath {
        /// The opened process.
        process: isize,
    },
    /// Close it.
    CloseProcess {
        /// The opened process.
        process: isize,
    },
}

/// What the system answers.
#[derive(Debug)]
pub enum ImageReply {
    /// The opened process, `None` if it could not be opened.
    Opened(Option<isize>),
    /// The path as UTF-16, `None` if it could not be read.
    Path(Option<Vec<u16>>),
    /// The process is closed.
    Closed,
}

/// Where reading an image path stands.
#[derive(Debug)]
pub enum ImageStage {
    /// Opening the process.
    Open,
    /// Asking for the path.
    Query {
        /// The opened process.
        process: isize,
    },
    /// Closing the process.
    Close {
        /// The opened process.
        process: isize,
        /// The path.
        path: Option<Vec<u16>>,
    },
    /// The end: the path, `None` where it could not be read.
    Over(Option<Vec<u16>>),
}

/// Reading the image path of a process.
#[derive(Debug)]
pub struct ImageProbe {
    /// The process.
    pub pid: u32,
    /// Where it stands.
    pub stage: ImageStage,
}

impl ImageProbe {
    /// Nothing has been asked yet.
    pub open spec fn begun(pid: u32) -> ImageProbe {
        ImageProbe { pid, stage: ImageStage::Open }
    }

    /// The path, once it is over.
    pub open spec fn ended(self) -> Option<Option<Vec<u16>>> {
        match self.stage {
            ImageStage::Over(path) => Some(path),
            _ => None,
        }
    }

    /// The stage that a reply leads to.
    pub open spec fn next_stage(self, reply: ImageReply) -> ImageStage {
        match (self.stage, reply) {
            (ImageStage::Open, ImageReply::Opened(Some(process))) => ImageStage::Query { process },
            (ImageStage::Open, ImageReply::Opened(None)) => ImageStage::Over(None),
            (ImageStage::Query { process }, ImageReply::Path(path)) => ImageStage::Close {
                process,
                path,
            },
            (ImageStage::Close { path, .. }, ImageReply::Closed) => ImageStage::Over(path),
            (stage, _) => stage,
        }
    }
}

impl Protocol for ImageProbe {
    type Call = ImageCall;

    type Reply = ImageReply;

    open spec fn pending(self) -> Option<ImageCall> {
        match self.stage {
            ImageStage::Open => Some(ImageCall::OpenProcess { pid: self.pid }),
            ImageStage::Query { process } => Some(ImageCall::QueryPath { process }),
            ImageStage::Close { process, .. } => Some(ImageCall::CloseProcess { process }),
            ImageStage::Over(_) => None,
        }
    }

    open spec fn fits(self, reply: ImageReply) -> bool {
        match self.stage {
            ImageStage::Open => reply is Opened,
            ImageStage::Query { .. } => reply is Path,
            ImageStage::Close { .. } => reply is Closed,
            ImageStage::Over(_) => false,
        }
    }

    open spec fn advance(self, reply: ImageReply) -> ImageProbe {
        ImageProbe { pid: self.pid, stage: self.next_stage(reply) }
    }
}

/// Starts reading the image path of a process.
pub fn process_image(pid: u32) -> (probe: ImageProbe)
    ensures
        probe == ImageProbe::begun(pid),
{
    ImageProbe { pid, stage: ImageStage::Open }
}

impl ImageProbe {
    /// What to do next, `None` once it is over.
    pub fn call(&self) -> (call: Option<ImageCall>)
        ensures
            call == self.pending(),
    {
        match &self.stage {
            ImageStage::Open => Some(ImageCall::OpenProcess { pid: self.pid }),
            ImageStage::Query { process } => Some(ImageCall::QueryPath { process: *process }),
            ImageStage::Close { process, .. } => Some(
                ImageCall::CloseProcess { process: *process },
            ),
            ImageStage::Over(_) => None,
        }
    }

    /// Takes the reply to the pending call.
    pub fn reply(self, reply: ImageReply) -> (next: ImageProbe)
        requires
            self.fits(reply),
        ensures
            next == self.advance(reply),
    {
        let stage = match (self.stage, reply) {
            (ImageStage::Open, ImageReply::Opened(Some(process))) => ImageStage::Query { process },
            (ImageStage::Open, ImageReply::Opened(None)) => ImageStage::Over(None),
            (ImageStage::Query { process }, ImageReply::Path(path)) => ImageStage::Close {
                process,
                path,
            },
            (ImageStage::Close { path, .. }, ImageReply::Closed) => ImageStage::Over(path),
            (stage, _) => stage,
        };
        ImageProbe { pid: self.pid, stage }
    }

    /// The lowercase name of the executable, empty where it could not be read, once it is over.
    pub fn result(&self) -> (name: Option<String>)
        ensures
            name is None <==> self.pending() is Some,
            self.stage matches ImageStage::Over(path) ==> name->0@ == exe_or_empty(path),
    {
        match &self.stage {
            ImageStage::Over(Some(path)) => match process_exe_name(path.as_slice()) {
                Some(name) => Some(name),
                None => Some(String::new()),
            },
            ImageStage::Over(None) => Some(String::new()),
            _ => None,
        }
    }
}

/// The lowercase name of the executable, empty where there is no path or it ends in no name.
pub open spec fn exe_or_empty(path: Option<Vec<u16>>) -> Seq<char> {
    match path {
        Some(units) => match exe_name(units@) {
            Some(name) => name,
            None => seq![],
        },
        None => seq![],
    }
}

/// What reading a process's integrity level asks of the system.
#[derive(Debug, Clone, Copy, PartialEq, Eq, Structural)]
pub enum TokenCall {
    /// Open the access token of a process for queries.
    OpenToken {
        /// The opened process.
        process: isize,
    },
    /// Ask how many bytes the token's integrity label takes.
    QuerySize {
        /// The token.
        token: isize,
    },
    /// Read the label into a buffer of `size` bytes.
    QueryLabel {
        /// The token.
        token: isize,
        /// The size of the buffer.
        size: u32,
    },
    /// Close the token.
    CloseToken {
        /// The token.
        token: isize,
    },
    /// Where is the label's SID?
    LabelSid,
    /// How many sub-authorities does the SID have?
    SubAuthorityCount {
        /// The SID.
        sid: usize,
    },
    /// What is one of them?
    SubAuthority {
        /// The SID.
        sid: usize,
        /// Which one.
        index: u32,
    },
}

/// What the system answers.
#[derive(Debug, Clone, Copy, PartialEq, Eq, Structural)]
pub enum TokenReply {
    /// The token, `None` if it could not be opened.
    Opened(Option<isize>),
    /// The size of the label.
    Size(u32),
    /// Whether the label was read.
    Read(bool),
    /// The token is closed.
    Closed,
    /// The address of the SID, zero if there is none.
    Sid(usize),
    /// The number of sub-authorities, `None` where there is no such number.
    Count(Option<u8>),
    /// The sub-authority, `None` where there is none.
    Rid(Option<u32>),
}

/// Where reading an integrity level stands.
#[derive(Debug, Clone, Copy, PartialEq, Eq, Structural)]
pub enum TokenStage {
    /// Opening the token.
    Open,
    /// Asking for the size of the label.
    Size {
        /// The token.
        token: isize,
    },
    /// Reading the label.
    Label {
        /// The token.
        token: isize,
        /// The size of the label.
        size: u32,
    },
    /// Closing the token.
    Close {
        /// The token.
        token: isize,
        /// Whether the label was read.
        read: bool,
    },
    /// Finding the SID in the label.
    Sid,
    /// Counting its sub-authorities.
    Count {
        /// The SID.
        sid: usize,
    },
    /// Reading the last one.
    Rid {
        /// The SID.
        sid: usize,
        /// Its place.
        index: u32,
    },
    /// The end: the level, `None` where it could not be read.
    Over(Option<Integrity>),
}

/// Reading the integrity level of an opened process: the last sub-authority of the SID in the
/// mandatory label of its token.
#[derive(Debug, Clone, Copy, PartialEq, Eq, Structural)]
pub struct TokenProbe {
    /// The opened process.
    pub process: isize,
    /// Where it stands.
    pub stage: TokenStage,
}

impl TokenProbe {
    /// Nothing has been asked yet.
    pub open spec fn begun(process: isize) -> TokenProbe {
        TokenProbe { process, stage: TokenStage::Open }
    }

    /// The level, once it is over.
    pub open spec fn ended(self) -> Option<Option<Integrity>> {
        match self.stage {
            TokenStage::Over(level) => Some(level),
            _ => None,
        }
    }

    /// The stage that a reply leads to.
    pub open spec fn next_stage(self, reply: TokenReply) -> TokenStage {
        match (self.stage, reply) {
            (TokenStage::Open, TokenReply::Opened(Some(token))) => TokenStage::Size { token },
            (TokenStage::Open, TokenReply::Opened(None)) => TokenStage::Over(None),
            (TokenStage::Size { token }, TokenReply::Size(size)) => if size == 0 {
                TokenStage::Close { token, read: false }
            } else {
                TokenStage::Label { token, size }
            },
            (TokenStage::Label { token, .. }, TokenReply::Read(read)) => TokenStage::Close {
                token,
                read,
            },
            (TokenStage::Close { read, .. }, TokenReply::Closed) => if read {
                TokenStage::Sid
            } else {
                TokenStage::Over(None)
            },
            (TokenStage::Sid, TokenReply::Sid(sid)) => if sid == 0 {
                TokenStage::Over(None)
            } else {
                TokenStage::Count { sid }
            },
            (TokenStage::Count { sid }, TokenReply::Count(Some(count))) => TokenStage::Rid {
                sid,
                index: last_index(count),
            },
            (TokenStage::Count { .. }, TokenReply::Count(None)) => TokenStage::Over(None),
            (TokenStage::Rid { .. }, TokenReply::Rid(Some(rid))) => TokenStage::Over(
                Some(Integrity::of_rid(rid)),
            ),
            (TokenStage::Rid { .. }, TokenReply::Rid(None)) => TokenStage::Over(None),
            (stage, _) => stage,
        }
    }
}

/// The place of the last of `count` things, the first where there is none.
pub open spec fn last_index(count: u8) -> u32 {
    if count == 0 {
        0
    } else {
        (count - 1) as u32
    }
}

impl Protocol for TokenProbe {
    type Call = TokenCall;

    type Reply = TokenReply;

    open spec fn pending(self) -> Option<TokenCall> {
        match self.stage {
            TokenStage::Open => Some(TokenCall::OpenToken { process: self.process }),
            TokenStage::Size { token } => Some(TokenCall::QuerySize { token }),
            TokenStage::Label { token, size } => Some(TokenCall::QueryLabel { token, size }),
            TokenStage::Close { token, .. } => Some(TokenCall::CloseToken { token }),
            TokenStage::Sid => Some(TokenCall::LabelSid),
            TokenStage::Count { sid } => Some(TokenCall::SubAuthorityCount { sid }),
            TokenStage::Rid { sid, index } => Some(TokenCall::SubAuthority { sid, index }),
            TokenStage::Over(_) => None,
        }
    }

    open spec fn fits(self, reply: TokenReply) -> bool {
        match self.stage {
            TokenStage::Open => reply is Opened,
            TokenStage::Size { .. } => reply is Size,
            TokenStage::Label { .. } => reply is Read,
            TokenStage::Close { .. } => reply is Closed,
            TokenStage::Sid => reply is Sid,
            TokenStage::Count { .. } => reply is Count,
            TokenStage::Rid { .. } => reply is Rid,
            TokenStage::Over(_) => false,
        }
    }

    open spec fn advance(self, reply: TokenReply) -> TokenProbe {
        TokenProbe { stage: self.next_stage(reply), ..self }
    }
}

/// Starts reading the integrity level of an opened process.
pub fn token_integrity(process: isize) -> (probe: TokenProbe)
    ensures
        probe == TokenProbe::begun(process),
{
    TokenProbe { process, stage: TokenStage::Open }
}

/// Starts reading our own integrity level, `current` being the handle that stands for the current
/// process. That handle needs no closing.
pub fn our_integrity(current: isize) -> (probe: TokenProbe)
    ensures
        probe == TokenProbe::begun(current),
{
    token_integrity(current)
}

impl TokenProbe {
    /// What to do next, `None` once it is over.
    pub fn call(&self) -> (call: Option<TokenCall>)
        ensures
            call == self.pending(),
    {
        match self.stage {
            TokenStage::Open => Some(TokenCall::OpenToken { process: self.process }),
            TokenStage::Size { token } => Some(TokenCall::QuerySize { token }),
            TokenStage::Label { token, size } => Some(TokenCall::QueryLabel { token, size }),
            TokenStage::Close { token, .. } => Some(TokenCall::CloseToken { token }),
            TokenStage::Sid => Some(TokenCall::LabelSid),
            TokenStage::Count { sid } => Some(TokenCall::SubAuthorityCount { sid }),
            TokenStage::Rid { sid, index } => Some(TokenCall::SubAuthority { sid, index }),
            TokenStage::Over(_) => None,
        }
    }

    /// Takes the reply to the pending call.
    pub fn reply(self, reply: TokenReply) -> (next: TokenProbe)
        requires
            self.fits(reply),
        ensures
            next == self.advance(reply),
    {
        let stage = match (self.stage, reply) {
            (TokenStage::Open, TokenReply::Opened(Some(token))) => TokenStage::Size { token },
            (TokenStage::Open, TokenReply::Opened(None)) => TokenStage::Over(None),
            (TokenStage::Size { token }, TokenReply::Size(size)) => {
                if size == 0 {
                    TokenStage::Close { token, read: false }
                } else {
                    TokenStage::Label { token, size }
                }
            },
            (TokenStage::Label { token, .. }, TokenReply::Read(read)) => TokenStage::Close {
                token,
                read,
            },
            (TokenStage::Close { read, .. }, TokenReply::Closed) => {
                if read {
                    TokenStage::Sid
                } else {
                    TokenStage::Over(None)
                }
            },
            (TokenStage::Sid, TokenReply::Sid(sid)) => {
                if sid == 0 {
                    TokenStage::Over(None)
                } else {
                    TokenStage::Count { sid }
                }
            },
            (TokenStage::Count { sid }, TokenReply::Count(Some(count))) => TokenStage::Rid {
                sid,
                index: count.saturating_sub(1) as u32,
            },
            (TokenStage::Count { .. }, TokenReply::Count(None)) => TokenStage::Over(None),
            (TokenStage::Rid { .. }, TokenReply::Rid(Some(rid))) => TokenStage::Over(
                Some(Integrity::from_rid(rid)),
            ),
            (TokenStage::Rid { .. }, TokenReply::Rid(None)) => TokenStage::Over(None),
            (stage, _) => stage,
        };
        TokenProbe { stage, ..self }
    }

    /// The level, itself `None` where it could not be read, once it is over.
    pub fn result(&self) -> (level: Option<Option<Integrity>>)
        ensures
            level == self.ended(),
            level is None <==> self.pending() is Some,
    {
        match self.stage {
            TokenStage::Over(level) => Some(level),
            _ => None,
        }
    }
}

/// What reading another process's integrity level asks of the system.
#[derive(Debug, Clone, Copy, PartialEq, Eq, Structural)]
pub enum LevelCall {
    /// Open a process for limited queries.
    OpenProcess {
        /// The process.
        pid: u32,
    },
    /// A step of reading the level of the opened process.
    Token(TokenCall),
    /// Close it.
    CloseProcess {
        /// The opened process.
        process: isize,
    },
}

/// What the system answers.
#[derive(Debug, Clone, Copy, PartialEq, Eq, Structural)]
pub enum LevelReply {
    /// The opened process, `None` if it could not be opened.
    Opened(Option<isize>),
    /// The answer to a step of reading the level.
    Token(TokenReply),
    /// The process is closed.
    Closed,
}

/// Where reading another process's integrity level stands.
#[derive(Debug, Clone, Copy, PartialEq, Eq, Structural)]
pub enum LevelStage {
    /// Opening the process.
    Open,
    /// Reading the level of the opened process.
    Token(TokenProbe),
    /// Closing the process.
    Close {
        /// The opened process.
        process: isize,
        /// The level.
        level: Option<Integrity>,
    },
    /// The end: the level, `None` where it could not be read.
    Over(Option<Integrity>),
}

/// Reading the integrity level of another process.
#[derive(Debug, Clone, Copy, PartialEq, Eq, Structural)]
pub struct LevelProbe {
    /// The process.
    pub pid: u32,
    /// Where it stands.
    pub stage: LevelStage,
}

impl LevelProbe {
    /// Nothing has been asked yet.
    pub open spec fn begun(pid: u32) -> LevelProbe {
        LevelProbe { pid, stage: LevelStage::Open }
    }

    /// What goes on inside is not over.
    pub open spec fn wf(self) -> bool {
        self.stage matches LevelStage::Token(probe) ==> probe.ended() is None
    }

    /// The level, once it is over.
    pub open spec fn ended(self) -> Option<Option<Integrity>> {
        match self.stage {
            LevelStage::Over(level) => Some(level),
            _ => None,
        }
    }

    /// The stage that a reply leads to.
    pub open spec fn next_stage(self, reply: LevelReply) -> LevelStage {
        match (self.stage, reply) {
            (LevelStage::Open, LevelReply::Opened(Some(process))) => LevelStage::Token(
                TokenProbe::begun(process),
            ),
            (LevelStage::Open, LevelReply::Opened(None)) => LevelStage::Over(None),
            (LevelStage::Token(probe), LevelReply::Token(r)) => match probe.advance(r).ended() {
                None => LevelStage::Token(probe.advance(r)),
                Some(level) => LevelStage::Close { process: probe.process, level },
            },
            (LevelStage::Close { level, .. }, LevelReply::Closed) => LevelStage::Over(level),
            (stage, _) => stage,
        }
    }
}

impl Protocol for LevelProbe {
    type Call = LevelCall;

    type Reply = LevelReply;

    open spec fn pending(self) -> Option<LevelCall> {
        match self.stage {
            LevelStage::Open => Some(LevelCall::OpenProcess { pid: self.pid }),
            LevelStage::Token(probe) => match probe.pending() {
                Some(call) => Some(LevelCall::Token(call)),
                None => None,
            },
            LevelStage::Close { process, .. } => Some(LevelCall::CloseProcess { process }),
            LevelStage::Over(_) => None,
        }
    }

    open spec fn fits(self, reply: LevelReply) -> bool {
        match self.stage {
            LevelStage::Open => reply is Opened,
            LevelStage::Token(probe) => reply is Token && probe.fits(reply->Token_0),
            LevelStage::Close { .. } => reply is Closed,
            LevelStage::Over(_) => false,
        }
    }

    open spec fn advance(self, reply: LevelReply) -> LevelProbe {
        LevelProbe { stage: self.next_stage(reply), ..self }
    }
}

/// Starts reading the integrity level of a process.
pub fn process_integrity(pid: u32) -> (probe: LevelProbe)
    ensures
        probe == LevelProbe::begun(pid),
        probe.wf(),
{
    LevelProbe { pid, stage: LevelStage::Open }
}

impl LevelProbe {
    /// What to do next, `None` once it is over.
    pub fn call(&self) -> (call: Option<LevelCall>)
        ensures
            call == self.pending(),
    {
        match self.stage {
            LevelStage::Open => Some(LevelCall::OpenProcess { pid: self.pid }),
            LevelStage::Token(probe) => match probe.call() {
                Some(call) => Some(LevelCall::Token(call)),
                None => None,
            },
            LevelStage::Close { process, .. } => Some(LevelCall::CloseProcess { process }),
            LevelStage::Over(_) => None,
        }
    }

    /// Takes the reply to the pending call.
    pub fn reply(self, reply: LevelReply) -> (next: LevelProbe)
        requires
            self.fits(reply),
        ensures
            next == self.advance(reply),
            self.wf() ==> next.wf(),
    {
        let stage = match (self.stage, reply) {
            (LevelStage::Open, LevelReply::Opened(Some(process))) => LevelStage::Token(
                token_integrity(process),
            ),
            (LevelStage::Open, LevelReply::Opened(None)) => LevelStage::Over(None),
            (LevelStage::Token(probe), LevelReply::Token(r)) => {
                let next = probe.reply(r);
                match next.result() {
                    None => LevelStage::Token(next),
                    Some(level) => LevelStage::Close { process: probe.process, level },
                }
            },
            (LevelStage::Close { level, .. }, LevelReply::Closed) => LevelStage::Over(level),
            (stage, _) => stage,
        };
        LevelProbe { stage, ..self }
    }

    /// The level, itself `None` where it could not be read, once it is over.
    pub fn result(&self) -> (level: Option<Option<Integrity>>)
        ensures
            level == self.ended(),
            self.wf() ==> (level is None <==> self.pending() is Some),
    {
        match self.stage {
            LevelStage::Over(level) => Some(level),
            _ => None,
        }
    }
}

} // verus!
