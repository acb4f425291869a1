//! What holds of every snapshot of a target, and of everything opened while it is taken.

use core::cmp::Ordering;

use vstd::prelude::*;
use vstd::std_specs::cmp::PartialOrdSpec;

use crate::image_path;
use crate::probe::{ImageCall, ImageProbe, ImageReply, ImageStage, LevelCall, LevelProbe,
    LevelReply, LevelStage, TokenCall, TokenProbe, TokenReply, TokenStage};
use crate::protocol::Protocol;
use crate::target::{Capture, CaptureCall, CaptureReply, CaptureStage, Integrity, Target};

verus! {

/// Levels follow the order of their RIDs, and a RID between two named levels belongs to the lower
/// one.
pub proof fn law_rids_are_ordered(low: u32, high: u32)
    requires
        low <= high,
    ensures
        Integrity::of_rid(low).rank() <= Integrity::of_rid(high).rank(),
        Integrity::of_rid(low) == Integrity::of_rid((low - low % 0x1000) as u32),
{
}

/// A process may always send input to its own level, and to every level below one that it may send
/// to; to a level above its own it may not.
pub proof fn law_input_flows_down(level: Integrity, lower: Integrity, ours: Integrity)
    requires
        lower.rank() <= level.rank(),
    ensures
        crate::target::permits(ours, Some(ours)),
        crate::target::permits(level, Some(ours)) ==> crate::target::permits(lower, Some(ours)),
        crate::target::permits(level, Some(ours)) <==> !(level.rank() > ours.rank()),
{
}

/// Where reading an image path stands, by the number of replies.
proof fn lemma_image_trail(pid: u32, replies: Seq<ImageReply>)
    requires
        crate::protocol::answers(ImageProbe::begun(pid), replies),
    ensures
        ({
            let now = crate::protocol::after(ImageProbe::begun(pid), replies);
            let n = replies.len() as int;
            &&& now.pid == pid
            &&& match now.stage {
                ImageStage::Open => n == 0,
                ImageStage::Query { process } => n == 1 && replies[0] == ImageReply::Opened(
                    Some(process),
                ),
                ImageStage::Close { process, path } => n == 2 && replies[0] == ImageReply::Opened(
                    Some(process),
                ) && replies[1] == ImageReply::Path(path),
                ImageStage::Over(path) => {
                    ||| n == 1 && replies[0] == ImageReply::Opened(None) && path is None
                    ||| n == 3 && replies[0] is Opened && replies[0]->Opened_0 is Some && replies[1]
                        == ImageReply::Path(path)
                },
            }
        }),
    decreases replies.len(),
{
    if replies.len() > 0 {
        let shorter = replies.drop_last();
        lemma_image_trail(pid, shorter);
        assert(replies.len() >= 2 ==> replies[0] == shorter[0]);
        assert(replies.len() >= 3 ==> replies[1] == shorter[1]);
    }
}

/// A process that was opened to read its image path is closed, once and last; the result is the
/// path that was read. One that could not be opened is asked nothing.
pub proof fn law_image_process_is_closed(pid: u32, replies: Seq<ImageReply>)
    requires
        crate::protocol::completes(ImageProbe::begun(pid), replies),
    ensures
        replies.len() > 0 && replies[0] is Opened,
        ({
            let p = ImageProbe::begun(pid);
            let path = crate::protocol::after(p, replies).ended()->0;
            match replies[0]->Opened_0 {
                Some(process) => {
                    &&& crate::protocol::calls(p, replies) == seq![
                        ImageCall::OpenProcess { pid },
                        ImageCall::QueryPath { process },
                        ImageCall::CloseProcess { process },
                    ]
                    &&& replies[1] == ImageReply::Path(path)
                },
                None => {
                    &&& crate::protocol::calls(p, replies) == seq![ImageCall::OpenProcess { pid }]
                    &&& path is None
                },
            }
        }),
{
    let p = ImageProbe::begun(pid);
    lemma_image_trail(pid, replies);
    let calls = crate::protocol::calls(p, replies);
    assert(replies.take(0) =~= seq![]);
    crate::protocol::lemma_prefix(p, replies, 0);
    if replies.len() == 3 {
        crate::protocol::lemma_prefix(p, replies, 1);
        lemma_image_trail(pid, replies.take(1));
        crate::protocol::lemma_prefix(p, replies, 2);
        lemma_image_trail(pid, replies.take(2));
        let process = replies[0]->Opened_0->0;
        assert(calls =~= seq![
            ImageCall::OpenProcess { pid },
            ImageCall::QueryPath { process },
            ImageCall::CloseProcess { process },
        ]);
    } else {
        assert(calls =~= seq![ImageCall::OpenProcess { pid }]);
    }
}

/// Whether the token was opened and has a label to read.
spec fn label_known(replies: Seq<TokenReply>, token: isize) -> bool {
    &&& replies[0] == TokenReply::Opened(Some(token))
    &&& replies[1] is Size && replies[1]->Size_0 != 0
}

/// Where reading an integrity level stands, by the number of replies.
proof fn lemma_token_trail(process: isize, replies: Seq<TokenReply>)
    requires
        crate::protocol::answers(TokenProbe::begun(process), replies),
    ensures
        ({
            let now = crate::protocol::after(TokenProbe::begun(process), replies);
            let n = replies.len() as int;
            let token = replies[0]->Opened_0->0;
            &&& now.process == process
            &&& match now.stage {
                TokenStage::Open => n == 0,
                TokenStage::Size { token } => n == 1 && replies[0] == TokenReply::Opened(
                    Some(token),
                ),
                TokenStage::Label { token, size } => n == 2 && label_known(replies, token)
                    && replies[1] == TokenReply::Size(size),
                TokenStage::Close { token, read } => {
                    ||| n == 2 && replies[0] == TokenReply::Opened(Some(token)) && replies[1]
                        == TokenReply::Size(0) && !read
                    ||| n == 3 && label_known(replies, token) && replies[2] == TokenReply::Read(read)
                },
                TokenStage::Sid => n == 4 && label_known(replies, token) && replies[2]
                    == TokenReply::Read(true) && replies[3] is Closed,
                TokenStage::Count { sid } => n == 5 && label_known(replies, token) && replies[2]
                    == TokenReply::Read(true) && replies[3] is Closed && replies[4]
                    == TokenReply::Sid(sid) && sid != 0,
                TokenStage::Rid { sid, index } => n == 6 && label_known(replies, token)
                    && replies[2] == TokenReply::Read(true) && replies[3] is Closed && replies[4]
                    == TokenReply::Sid(sid) && sid != 0 && replies[5] is Count
                    && replies[5]->Count_0 is Some && index == crate::probe::last_index(
                    replies[5]->Count_0->0,
                ),
                TokenStage::Over(level) => {
                    ||| n == 1 && replies[0] == TokenReply::Opened(None) && level is None
                    ||| n == 3 && replies[0] == TokenReply::Opened(Some(token)) && replies[1]
                        == TokenReply::Size(0) && replies[2] is Closed && level is None
                    ||| n >= 4 && label_known(replies, token) && replies[3] is Closed && (level
                        is Some ==> n == 7 && replies[2] == TokenReply::Read(true)
                        && replies[4] is Sid && replies[4]->Sid_0 != 0 && replies[5] is Count
                        && replies[5]->Count_0 is Some && replies[6] is Rid && replies[6]->Rid_0
                        is Some && level->0 == Integrity::of_rid(replies[6]->Rid_0->0)) && n <= 7
                },
            }
        }),
    decreases replies.len(),
{
    if replies.len() > 0 {
        let shorter = replies.drop_last();
        lemma_token_trail(process, shorter);
        assert forall|i: int| 0 <= i < shorter.len() implies #[trigger] replies[i] == shorter[i] by {
        }
    }
}

/// A token that was opened is closed, once, and before anything is made of what was read from it;
/// one that could not be opened is asked nothing.
pub proof fn law_token_is_closed(process: isize, replies: Seq<TokenReply>)
    requires
        crate::protocol::completes(TokenProbe::begun(process), replies),
    ensures
        replies.len() > 0 && replies[0] is Opened,
        ({
            let p = TokenProbe::begun(process);
            let calls = crate::protocol::calls(p, replies);
            match replies[0]->Opened_0 {
                Some(token) => exists|i: int|
                    0 < i < calls.len() && #[trigger] calls[i] == (TokenCall::CloseToken { token })
                        && forall|j: int|
                        0 <= j < calls.len() && j != i ==> match #[trigger] calls[j] {
                            TokenCall::CloseToken { .. } => false,
                            TokenCall::OpenToken { .. } => j == 0,
                            TokenCall::QuerySize { token: t } => j < i && t == token,
                            TokenCall::QueryLabel { token: t, .. } => j < i && t == token,
                            _ => j > i,
                        },
                None => calls == seq![TokenCall::OpenToken { process }] && crate::protocol::after(
                    p,
                    replies,
                ).ended() == Some(None::<Integrity>),
            }
        }),
{
    let p = TokenProbe::begun(process);
    lemma_token_trail(process, replies);
    let calls = crate::protocol::calls(p, replies);
    crate::protocol::lemma_prefix(p, replies, 0);
    assert(replies.take(0) =~= seq![]);
    match replies[0]->Opened_0 {
        Some(token) => {
            let i: int = if replies[1] == TokenReply::Size(0) {
                2
            } else {
                3
            };
            assert forall|j: int| 0 <= j < calls.len() implies match #[trigger] calls[j] {
                TokenCall::CloseToken { token: t } => j == i && t == token,
                TokenCall::OpenToken { .. } => j == 0,
                TokenCall::QuerySize { token: t } => j < i && t == token,
                TokenCall::QueryLabel { token: t, .. } => j < i && t == token,
                _ => j > i,
            } by {
                crate::protocol::lemma_prefix(p, replies, j);
                lemma_token_trail(process, replies.take(j));
                assert forall|k: int| 0 <= k < j implies #[trigger] replies.take(j)[k]
                    == replies[k] by {}
            }
            crate::protocol::lemma_prefix(p, replies, i);
            lemma_token_trail(process, replies.take(i));
            assert forall|k: int| 0 <= k < i implies #[trigger] replies.take(i)[k]
                == replies[k] by {}
            assert(calls[i] == (TokenCall::CloseToken { token }));
        },
        None => {
            assert(calls =~= seq![TokenCall::OpenToken { process }]);
        },
    }
}

/// A level that comes back was read from the process's own label: it is that of the last
/// sub-authority of the label's SID, and every step on the way succeeded.
pub proof fn law_level_is_last_sub_authority(
    process: isize,
    replies: Seq<TokenReply>,
    level: Integrity,
)
    requires
        crate::protocol::completes(TokenProbe::begun(process), replies),
        crate::protocol::after(TokenProbe::begun(process), replies).ended() == Some(Some(level)),
    ensures
        replies.len() == 7,
        replies[0] is Opened && replies[0]->Opened_0 is Some,
        replies[1] is Size && replies[1]->Size_0 > 0,
        replies[2] == TokenReply::Read(true),
        replies[4] is Sid && replies[4]->Sid_0 != 0,
        replies[5] is Count && replies[5]->Count_0 is Some,
        crate::protocol::calls(TokenProbe::begun(process), replies)[6] == (
        TokenCall::SubAuthority {
            sid: replies[4]->Sid_0,
            index: crate::probe::last_index(replies[5]->Count_0->0),
        }),
        replies[6] is Rid && replies[6]->Rid_0 is Some,
        level == Integrity::of_rid(replies[6]->Rid_0->0),
{
    let p = TokenProbe::begun(process);
    lemma_token_trail(process, replies);
    crate::protocol::lemma_prefix(p, replies, 6);
    lemma_token_trail(process, replies.take(6));
    assert forall|k: int| 0 <= k < 6 implies #[trigger] replies.take(6)[k] == replies[k] by {}
}

/// Where reading another process's level stands: what was opened is what is being read or closed.
proof fn lemma_level_trail(pid: u32, replies: Seq<LevelReply>)
    requires
        crate::protocol::answers(LevelProbe::begun(pid), replies),
    ensures
        ({
            let now = crate::protocol::after(LevelProbe::begun(pid), replies);
            let n = replies.len() as int;
            let opened = n > 0 && replies[0] is Opened && replies[0]->Opened_0 is Some;
            let process = replies[0]->Opened_0->0;
            &&& now.pid == pid
            &&& now.wf()
            &&& match now.stage {
                LevelStage::Open => n == 0,
                LevelStage::Token(probe) => opened && probe.process == process && forall|i: int|
                    0 < i < n ==> #[trigger] replies[i] is Token,
                LevelStage::Close { process: p, .. } => opened && p == process && forall|i: int|
                    0 < i < n ==> #[trigger] replies[i] is Token,
                LevelStage::Over(level) => {
                    ||| n == 1 && replies[0] == LevelReply::Opened(None) && level is None
                    ||| n > 1 && opened && replies[n - 1] is Closed && forall|i: int|
                        0 < i < n - 1 ==> #[trigger] replies[i] is Token
                },
            }
        }),
    decreases replies.len(),
{
    if replies.len() > 0 {
        let shorter = replies.drop_last();
        lemma_level_trail(pid, shorter);
        assert forall|i: int| 0 <= i < shorter.len() implies #[trigger] replies[i] == shorter[i] by {
        }
    }
}

/// A process that was opened to read its level is closed, once and last.
pub proof fn law_level_process_is_closed(pid: u32, replies: Seq<LevelReply>)
    requires
        crate::protocol::completes(LevelProbe::begun(pid), replies),
    ensures
        replies.len() > 0 && replies[0] is Opened,
        ({
            let calls = crate::protocol::calls(LevelProbe::begun(pid), replies);
            match replies[0]->Opened_0 {
                Some(process) => {
                    &&& calls.len() >= 2
                    &&& calls[0] == (LevelCall::OpenProcess { pid })
                    &&& calls.last() == (LevelCall::CloseProcess { process })
                    &&& forall|i: int|
                        0 < i < calls.len() - 1 ==> #[trigger] calls[i] is Token
                },
                None => calls == seq![LevelCall::OpenProcess { pid }],
            }
        }),
{
    let p = LevelProbe::begun(pid);
    let n = replies.len() as int;
    lemma_level_trail(pid, replies);
    crate::protocol::lemma_prefix(p, replies, 0);
    assert(replies.take(0) =~= seq![]);
    let calls = crate::protocol::calls(p, replies);
    if n == 1 {
        assert(calls =~= seq![LevelCall::OpenProcess { pid }]);
    } else {
        crate::protocol::lemma_prefix(p, replies, n - 1);
        lemma_level_trail(pid, replies.take(n - 1));
        assert(replies.take(n - 1)[0] == replies[0]);
        assert forall|i: int| 0 < i < n - 1 implies #[trigger] calls[i] is Token by {
            crate::protocol::lemma_prefix(p, replies, i);
            lemma_level_trail(pid, replies.take(i));
            assert(replies[i] is Token);
        }
    }
}

/// Where taking a snapshot stands, by the first two replies.
proof fn lemma_capture_trail(replies: Seq<CaptureReply>)
    requires
        crate::protocol::answers(Capture { stage: CaptureStage::Window }, replies),
    ensures
        ({
            let now = crate::protocol::after(Capture { stage: CaptureStage::Window }, replies);
            let n = replies.len() as int;
            let named = |hwnd: isize, pid: u32|
                n >= 2 && replies[0] == CaptureReply::Window(hwnd) && replies[1]
                    == CaptureReply::Process(pid) && hwnd != 0 && pid != 0;
            &&& now.wf()
            &&& match now.stage {
                CaptureStage::Window => n == 0,
                CaptureStage::Process { hwnd } => n == 1 && replies[0] == CaptureReply::Window(
                    hwnd,
                ) && hwnd != 0,
                CaptureStage::Image { hwnd, image } => named(hwnd, image.pid),
                CaptureStage::Class { hwnd, image } => named(hwnd, image.pid),
                CaptureStage::Level { hwnd, image, probe, .. } => named(hwnd, image.pid)
                    && probe.pid == image.pid,
                CaptureStage::Taken { hwnd, image, .. } => named(hwnd, image.pid),
                CaptureStage::Nothing => {
                    ||| n == 1 && replies[0] == CaptureReply::Window(0)
                    ||| n == 2 && replies[1] == CaptureReply::Process(0)
                },
            }
        }),
    decreases replies.len(),
{
    if replies.len() > 0 {
        let shorter = replies.drop_last();
        lemma_capture_trail(shorter);
        assert(shorter.len() >= 1 ==> replies[0] == shorter[0]);
        assert(shorter.len() >= 2 ==> replies[1] == shorter[1]);
    }
}

/// A snapshot names a real window of a real process: the one that had the foreground when it was
/// begun. There is none exactly where there is no such window, or nothing owns it.
pub proof fn law_snapshot_names_the_foreground(replies: Seq<CaptureReply>, target: Target)
    requires
        crate::protocol::completes(Capture { stage: CaptureStage::Window }, replies),
    ensures
        ({
            let end = crate::protocol::after(Capture { stage: CaptureStage::Window }, replies);
            &&& end.stage is Nothing <==> replies[0] == CaptureReply::Window(0) || replies[1]
                == CaptureReply::Process(0)
            &&& end.took(target) ==> {
                &&& target.hwnd != 0 && target.pid != 0
                &&& replies[0] == CaptureReply::Window(target.hwnd)
                &&& replies[1] == CaptureReply::Process(target.pid)
            }
        }),
{
    lemma_capture_trail(replies);
    let p = Capture { stage: CaptureStage::Window };
    if replies.len() > 0 {
        assert(replies.take(0) =~= seq![]);
        crate::protocol::lemma_prefix(p, replies, 0);
        if replies.len() > 1 {
            crate::protocol::lemma_prefix(p, replies, 1);
            lemma_capture_trail(replies.take(1));
            assert(replies.take(1)[0] == replies[0]);
        }
    }
}

/// Everything read for a snapshot is read of the same window and process: whichever call is made,
/// it names the window and the process of the snapshot.
pub proof fn law_snapshot_is_of_one_window(replies: Seq<CaptureReply>, i: int, target: Target)
    requires
        crate::protocol::completes(Capture { stage: CaptureStage::Window }, replies),
        crate::protocol::after(Capture { stage: CaptureStage::Window }, replies).took(target),
        0 <= i < replies.len(),
    ensures
        match crate::protocol::calls(Capture { stage: CaptureStage::Window }, replies)[i] {
            CaptureCall::ForegroundWindow => i == 0,
            CaptureCall::WindowProcess { hwnd } => hwnd == target.hwnd,
            CaptureCall::WindowClass { hwnd } => hwnd == target.hwnd,
            CaptureCall::Image(ImageCall::OpenProcess { pid }) => pid == target.pid,
            CaptureCall::Level(LevelCall::OpenProcess { pid }) => pid == target.pid,
            _ => true,
        },
{
    let p = Capture { stage: CaptureStage::Window };
    law_snapshot_names_the_foreground(replies, target);
    crate::protocol::lemma_prefix(p, replies, i);
    lemma_capture_trail(replies.take(i));
    assert(i >= 1 ==> replies.take(i)[0] == replies[0]);
    assert(i >= 2 ==> replies.take(i)[1] == replies[1]);
}

/// The last component of a path ends at its last separator.
proof fn lemma_last_component(path: Seq<char>, start: int, from: int, end: int, verbatim: bool)
    requires
        start <= from <= end <= path.len(),
        from == start || image_path::separates(path[from - 1], verbatim),
        forall|i: int| from <= i < end ==> !image_path::separates(#[trigger] path[i], verbatim),
    ensures
        image_path::component_start(path, start, end, verbatim) == from,
    decreases end - from,
{
    if end > from {
        lemma_last_component(path, start, from, end - 1, verbatim);
    }
}

/// The executable of a drive path is what stands behind its last backslash.
pub proof fn law_drive_path_names_its_file(dir: Seq<char>, name: Seq<char>)
    requires
        image_path::drive_at(dir, 0),
        name.len() > 0,
        forall|i: int| 0 <= i < name.len() ==> !image_path::is_slash(#[trigger] name[i]),
        name != seq!['.'],
        name != seq!['.', '.'],
    ensures
        image_path::name_in(dir + seq!['\\'] + name) == Some(name),
{
    let path = dir + seq!['\\'] + name;
    let end = path.len() as int;
    let from = dir.len() as int + 1;
    assert(path[0] == dir[0] && path[1] == dir[1]);
    assert(image_path::drive_at(path, 0));
    assert(!image_path::is_verbatim(path));
    assert(image_path::prefix_len(path) == 2);
    let start = image_path::body_start(path);
    assert(path[dir.len() as int] == '\\');
    assert(start <= from);
    assert forall|i: int| from <= i < end implies !image_path::separates(
        #[trigger] path[i],
        false,
    ) by {
        assert(path[i] == name[i - from]);
    }
    lemma_last_component(path, start, from, end, false);
    assert(path.subrange(from, end) =~= name);
}

/// Every RID has the level that Windows gives it: each named level begins at the next 0x1000, and
/// everything from 0x6000 on is protected.
pub proof fn law_rid_ranges(rid: u32)
    ensures
        Integrity::of_rid(rid) == Integrity::Untrusted <==> rid < 0x1000,
        Integrity::of_rid(rid) == Integrity::Low <==> 0x1000 <= rid < 0x2000,
        Integrity::of_rid(rid) == Integrity::Medium <==> 0x2000 <= rid < 0x3000,
        Integrity::of_rid(rid) == Integrity::MediumPlus <==> 0x3000 <= rid < 0x4000,
        Integrity::of_rid(rid) == Integrity::High <==> 0x4000 <= rid < 0x5000,
        Integrity::of_rid(rid) == Integrity::System <==> 0x5000 <= rid < 0x6000,
        Integrity::of_rid(rid) == Integrity::Protected <==> 0x6000 <= rid,
        rid < 0x7000 ==> Integrity::of_rid(rid).rank() == rid as int / 0x1000,
{
}

/// The seven levels are ordered as they are named, lowest first.
pub proof fn law_levels_are_ordered()
    ensures
        Integrity::Untrusted.rank() < Integrity::Low.rank(),
        Integrity::Low.rank() < Integrity::Medium.rank(),
        Integrity::Medium.rank() < Integrity::MediumPlus.rank(),
        Integrity::MediumPlus.rank() < Integrity::High.rank(),
        Integrity::High.rank() < Integrity::System.rank(),
        Integrity::System.rank() < Integrity::Protected.rank(),
{
}

/// Input is refused only where both RIDs are known and the target's level is above ours: a process
/// with the RID `ours` may send to one with the RID `theirs` exactly where the latter does not begin
/// a higher level. Where our own level is unknown it may send to any.
pub proof fn law_input_is_refused_upward_only(theirs: u32, ours: u32, level: Integrity)
    requires
        theirs < 0x7000,
        ours < 0x7000,
    ensures
        crate::target::permits(Integrity::of_rid(theirs), Some(Integrity::of_rid(ours)))
            <==> theirs as int / 0x1000 <= ours as int / 0x1000,
        crate::target::permits(level, None),
{
}

/// Whether a reply means that a level cannot be read.
pub open spec fn fails_level(reply: TokenReply) -> bool {
    match reply {
        TokenReply::Opened(token) => token is None,
        TokenReply::Size(size) => size == 0,
        TokenReply::Read(read) => !read,
        TokenReply::Closed => false,
        TokenReply::Sid(sid) => sid == 0,
        TokenReply::Count(count) => count is None,
        TokenReply::Rid(rid) => rid is None,
    }
}

/// Whether no reply so far means that a level cannot be read.
spec fn level_readable(replies: Seq<TokenReply>) -> bool {
    forall|i: int| 0 <= i < replies.len() ==> !fails_level(#[trigger] replies[i])
}

proof fn lemma_level_readable(process: isize, replies: Seq<TokenReply>)
    requires
        crate::protocol::answers(TokenProbe::begun(process), replies),
    ensures
        ({
            let now = crate::protocol::after(TokenProbe::begun(process), replies);
            match now.stage {
                TokenStage::Close { read, .. } => read == level_readable(replies),
                TokenStage::Over(level) => {
                    &&& level is Some <==> level_readable(replies)
                    &&& level matches Some(found) ==> replies.last() is Rid
                        && replies.last()->Rid_0 is Some && found == Integrity::of_rid(
                        replies.last()->Rid_0->0,
                    )
                },
                _ => level_readable(replies),
            }
        }),
    decreases replies.len(),
{
    if replies.len() > 0 {
        let shorter = replies.drop_last();
        lemma_level_readable(process, shorter);
        let n = replies.len() - 1;
        assert forall|i: int| 0 <= i < n implies #[trigger] replies[i] == shorter[i] by {}
        if level_readable(replies) {
            assert forall|i: int| 0 <= i < n implies !fails_level(#[trigger] shorter[i]) by {
                assert(!fails_level(replies[i]));
            }
            assert(!fails_level(replies[n]));
        } else {
            let i = choose|i: int| 0 <= i <= n && fails_level(#[trigger] replies[i]);
            if i < n {
                assert(fails_level(shorter[i]));
            }
        }
        if level_readable(shorter) && !fails_level(replies[n]) {
            assert forall|i: int| 0 <= i <= n implies !fails_level(#[trigger] replies[i]) by {
                if i < n {
                    assert(!fails_level(shorter[i]));
                }
            }
        }
        if !level_readable(shorter) {
            let i = choose|i: int| 0 <= i < n && fails_level(#[trigger] shorter[i]);
            assert(fails_level(replies[i]));
        }
        if fails_level(replies[n]) {
            assert(!level_readable(replies));
        }
    }
}

/// A level is read wherever it can be: where every step succeeds the result is the level of the RID
/// that was replied last, and it is none exactly where some step failed.
pub proof fn law_level_is_read_where_it_can_be(process: isize, replies: Seq<TokenReply>)
    requires
        crate::protocol::completes(TokenProbe::begun(process), replies),
    ensures
        ({
            let level = crate::protocol::after(TokenProbe::begun(process), replies).ended();
            &&& level == Some(None::<Integrity>) <==> exists|i: int|
                0 <= i < replies.len() && fails_level(#[trigger] replies[i])
            &&& level != Some(None::<Integrity>) ==> replies.last() is Rid
                && replies.last()->Rid_0 is Some && level == Some(
                Some(Integrity::of_rid(replies.last()->Rid_0->0)),
            )
        }),
{
    lemma_level_readable(process, replies);
    if !level_readable(replies) {
        let i = choose|i: int| 0 <= i < replies.len() && fails_level(#[trigger] replies[i]);
        assert(fails_level(replies[i]));
    }
}

/// What each reply of reading a level leads to: the token is asked for the size of its label and for
/// the label itself, then closed; the SID in the label is asked for the number of its
/// sub-authorities and for the last one, the first where the number is zero.
pub proof fn law_level_steps(process: isize, replies: Seq<TokenReply>, i: int)
    requires
        crate::protocol::answers(TokenProbe::begun(process), replies),
        0 <= i < replies.len(),
    ensures
        ({
            let p = TokenProbe::begun(process);
            let call = crate::protocol::calls(p, replies)[i];
            let next = crate::protocol::after(p, replies.take(i + 1)).pending();
            &&& i == 0 ==> call == (TokenCall::OpenToken { process })
            &&& match (call, replies[i]) {
                (_, TokenReply::Opened(Some(token))) => next == Some(
                    TokenCall::QuerySize { token },
                ),
                (TokenCall::QuerySize { token }, TokenReply::Size(size)) => next == Some(
                    if size > 0 {
                        TokenCall::QueryLabel { token, size }
                    } else {
                        TokenCall::CloseToken { token }
                    },
                ),
                (TokenCall::QueryLabel { token, .. }, _) => next == Some(
                    TokenCall::CloseToken { token },
                ),
                (TokenCall::CloseToken { .. }, _) => replies[i - 1] == TokenReply::Read(true)
                    ==> next == Some(TokenCall::LabelSid),
                (TokenCall::LabelSid, TokenReply::Sid(sid)) => sid != 0 ==> next == Some(
                    TokenCall::SubAuthorityCount { sid },
                ),
                (TokenCall::SubAuthorityCount { sid }, TokenReply::Count(Some(count))) => {
                    &&& next matches Some(TokenCall::SubAuthority { sid: s, index })
                    &&& s == sid
                    &&& index == if count == 0 {
                        0
                    } else {
                        count - 1
                    }
                },
                _ => next is None,
            }
        }),
{
    let p = TokenProbe::begun(process);
    crate::protocol::lemma_prefix(p, replies, i);
    lemma_token_trail(process, replies.take(i));
    assert(replies.take(i + 1).drop_last() =~= replies.take(i));
    assert(replies.take(i + 1).last() == replies[i]);
    assert(i > 0 ==> replies.take(i)[i - 1] == replies[i - 1]);
}

/// The RID among the replies to reading another process's level, the last where there were several.
pub open spec fn replied_rid(replies: Seq<LevelReply>) -> Option<u32>
    decreases replies.len(),
{
    if replies.len() == 0 {
        None
    } else {
        match replies.last() {
            LevelReply::Token(TokenReply::Rid(Some(rid))) => Some(rid),
            _ => replied_rid(replies.drop_last()),
        }
    }
}

/// The level of a RID, none where there is none.
pub open spec fn level_of(rid: Option<u32>) -> Option<Integrity> {
    match rid {
        Some(rid) => Some(Integrity::of_rid(rid)),
        None => None,
    }
}

/// The level that reading another process's level stands at is that of the RID replied so far.
spec fn level_so_far(stage: LevelStage, rid: Option<u32>) -> bool {
    match stage {
        LevelStage::Open => rid is None,
        LevelStage::Token(probe) => rid is None && probe.stage !is Over,
        LevelStage::Close { level, .. } => level == level_of(rid),
        LevelStage::Over(level) => level == level_of(rid),
    }
}

proof fn lemma_replied_level(pid: u32, replies: Seq<LevelReply>)
    requires
        crate::protocol::answers(LevelProbe::begun(pid), replies),
    ensures
        level_so_far(
            crate::protocol::after(LevelProbe::begun(pid), replies).stage,
            replied_rid(replies),
        ),
    decreases replies.len(),
{
    if replies.len() > 0 {
        lemma_replied_level(pid, replies.drop_last());
    }
}

/// The level of another process is the one that its token gave: where a RID was replied it is the
/// level of that RID, and where none was, there is none.
pub proof fn law_level_is_that_of_the_replied_rid(pid: u32, replies: Seq<LevelReply>)
    requires
        crate::protocol::completes(LevelProbe::begun(pid), replies),
    ensures
        crate::protocol::after(LevelProbe::begun(pid), replies).ended() == Some(
            level_of(replied_rid(replies)),
        ),
{
    lemma_replied_level(pid, replies);
    lemma_level_trail(pid, replies);
}

/// The same, reply by reply: a RID anywhere among the replies is the one that decides.
pub proof fn law_replied_rid_decides(pid: u32, replies: Seq<LevelReply>, i: int, rid: u32)
    requires
        crate::protocol::completes(LevelProbe::begun(pid), replies),
        0 <= i < replies.len(),
        replies[i] == LevelReply::Token(TokenReply::Rid(Some(rid))),
    ensures
        crate::protocol::after(LevelProbe::begun(pid), replies).ended() == Some(
            Some(Integrity::of_rid(rid)),
        ),
{
    law_level_is_that_of_the_replied_rid(pid, replies);
    let p = LevelProbe::begun(pid);
    crate::protocol::lemma_prefix(p, replies, i);
    lemma_replied_level(pid, replies.take(i));
    let head = replies.take(i + 1);
    assert(head.drop_last() =~= replies.take(i));
    assert(head.last() == replies[i]);
    lemma_no_rid_behind(pid, replies, i + 1);
}

/// Behind the reply that ended the token's part no RID is replied.
proof fn lemma_no_rid_behind(pid: u32, replies: Seq<LevelReply>, n: int)
    requires
        crate::protocol::answers(LevelProbe::begun(pid), replies),
        0 <= n <= replies.len(),
        crate::protocol::after(LevelProbe::begun(pid), replies.take(n)).stage is Close,
    ensures
        replied_rid(replies) == replied_rid(replies.take(n)),
        n < replies.len() ==> crate::protocol::after(LevelProbe::begun(pid), replies).stage is Over,
    decreases replies.len(),
{
    if n == replies.len() {
        assert(replies.take(n) =~= replies);
    } else {
        let shorter = replies.drop_last();
        assert(shorter.take(n) =~= replies.take(n));
        lemma_no_rid_behind(pid, shorter, n);
        if n == shorter.len() {
            assert(shorter =~= replies.take(n));
        }
    }
}

/// The token of a process that was opened is read as [`crate::probe::token_integrity`] reads it: the
/// replies between opening and closing are a whole exchange of its own, and its result is the
/// result.
pub proof fn law_level_is_read_from_the_token(pid: u32, replies: Seq<LevelReply>, process: isize)
    requires
        crate::protocol::completes(LevelProbe::begun(pid), replies),
        replies[0] == LevelReply::Opened(Some(process)),
    ensures
        replies.len() >= 2,
        ({
            let token = token_part(replies.subrange(1, replies.len() - 1));
            let p = TokenProbe::begun(process);
            &&& crate::protocol::completes(p, token)
            &&& crate::protocol::after(LevelProbe::begun(pid), replies).ended()
                == crate::protocol::after(p, token).ended()
        }),
{
    let p = LevelProbe::begun(pid);
    let n = replies.len() as int;
    lemma_level_trail(pid, replies);
    if n > 0 {
        crate::protocol::lemma_prefix(p, replies, 0);
        assert(replies.take(0) =~= seq![]);
        lemma_token_inside(pid, replies, process);
        crate::protocol::lemma_prefix(p, replies, n - 1);
        lemma_level_trail(pid, replies.take(n - 1));
        lemma_token_inside(pid, replies.take(n - 1), process);
        assert(replies.take(n - 1) =~= replies.drop_last());
        assert(replies.take(n - 1).skip(1) =~= replies.subrange(1, n - 1));
    }
}

/// The answers to reading the token inside reading another process's level.
pub open spec fn token_part(replies: Seq<LevelReply>) -> Seq<TokenReply> {
    replies.map_values(|r: LevelReply| r->Token_0)
}

proof fn lemma_token_inside(pid: u32, replies: Seq<LevelReply>, process: isize)
    requires
        crate::protocol::answers(LevelProbe::begun(pid), replies),
        replies.len() > 0 ==> replies[0] == LevelReply::Opened(Some(process)),
    ensures
        ({
            let now = crate::protocol::after(LevelProbe::begun(pid), replies);
            let token = token_part(replies.skip(1));
            let p = TokenProbe::begun(process);
            match now.stage {
                LevelStage::Open => replies.len() == 0,
                LevelStage::Token(probe) => replies.len() > 0 && crate::protocol::answers(p, token)
                    && probe == crate::protocol::after(p, token) && probe.ended() is None,
                LevelStage::Close { level, .. } => replies.len() > 1 && crate::protocol::answers(
                    p,
                    token,
                ) && crate::protocol::after(p, token).ended() == Some(level),
                LevelStage::Over(_) => replies.len() > 0,
            }
        }),
    decreases replies.len(),
{
    if replies.len() > 0 {
        let shorter = replies.drop_last();
        assert(shorter.len() > 0 ==> shorter[0] == replies[0]);
        lemma_token_inside(pid, shorter, process);
        let token = token_part(replies.skip(1));
        if shorter.len() > 0 {
            assert(token.drop_last() =~= token_part(shorter.skip(1)));
            assert(token.last() == replies.last()->Token_0);
        } else {
            assert(token =~= Seq::<TokenReply>::empty());
        }
    }
}

/// What the replies to taking a snapshot said of the image path, the class and the RID: the last of
/// each, none where there was none.
pub struct Told {
    /// The image path.
    pub path: Option<Vec<u16>>,
    /// The class.
    pub class: Option<Vec<u16>>,
    /// The RID.
    pub rid: Option<u32>,
}

/// What the replies said.
pub open spec fn told(replies: Seq<CaptureReply>) -> Told
    decreases replies.len(),
{
    if replies.len() == 0 {
        Told { path: None, class: None, rid: None }
    } else {
        let before = told(replies.drop_last());
        match replies.last() {
            CaptureReply::Image(ImageReply::Path(path)) => Told { path, ..before },
            CaptureReply::Class(class) => Told { class: Some(class), ..before },
            CaptureReply::Level(LevelReply::Token(TokenReply::Rid(Some(rid)))) => Told {
                rid: Some(rid),
                ..before
            },
            _ => before,
        }
    }
}

/// Where taking a snapshot stands holds what the replies said.
spec fn holds_told(stage: CaptureStage, known: Told) -> bool {
    match stage {
        CaptureStage::Window => known.path is None && known.class is None && known.rid is None,
        CaptureStage::Process { .. } => known.path is None && known.class is None && known.rid
            is None,
        CaptureStage::Image { image, .. } => known.class is None && known.rid is None
            && match image.stage {
            ImageStage::Close { path, .. } => path == known.path,
            ImageStage::Over(_) => false,
            _ => known.path is None,
        },
        CaptureStage::Class { image, .. } => known.class is None && known.rid is None
            && image.ended() == Some(known.path),
        CaptureStage::Level { image, class, probe, .. } => image.ended() == Some(known.path)
            && known.class == Some(class) && level_so_far(probe.stage, known.rid)
            && probe.ended() is None,
        CaptureStage::Taken { image, class, level, .. } => image.ended() == Some(known.path)
            && known.class == Some(class) && level == level_of(known.rid),
        CaptureStage::Nothing => true,
    }
}

proof fn lemma_told(replies: Seq<CaptureReply>)
    requires
        crate::protocol::answers(Capture { stage: CaptureStage::Window }, replies),
    ensures
        holds_told(
            crate::protocol::after(Capture { stage: CaptureStage::Window }, replies).stage,
            told(replies),
        ),
    decreases replies.len(),
{
    if replies.len() > 0 {
        lemma_told(replies.drop_last());
    }
}

/// A snapshot holds what the system replied, and nothing else: the level is that of the RID that was
/// replied for its process, an ordinary one where none was; the class is the one that was replied,
/// read as UTF-16; and the executable is the lowercase file name at the end of the path that was
/// replied, empty where there is no path or no such name.
pub proof fn law_snapshot_is_what_was_replied(replies: Seq<CaptureReply>, target: Target)
    requires
        crate::protocol::completes(Capture { stage: CaptureStage::Window }, replies),
        crate::protocol::after(Capture { stage: CaptureStage::Window }, replies).took(target),
    ensures
        target.integrity == match told(replies).rid {
            Some(rid) => Integrity::of_rid(rid),
            None => Integrity::Medium,
        },
        told(replies).class matches Some(class) && target.class@ == crate::utf16::decoded(class@),
        target.exe@ == match told(replies).path {
            Some(path) => match image_path::name_in(crate::utf16::decoded(path@)) {
                Some(name) => crate::probe::lowercased(name),
                None => seq![],
            },
            None => seq![],
        },
{
    lemma_told(replies);
}

/// A path that ends in a file name gives its executable, read as UTF-16 and lowercased.
pub proof fn law_image_names_the_executable(text: Seq<char>, path: Vec<u16>)
    ensures
        crate::probe::exe_or_empty(Some(path)) == match image_path::name_in(
            crate::utf16::decoded(path@),
        ) {
            Some(name) => crate::probe::lowercased(name),
            None => seq![],
        },
        crate::probe::exe_name(crate::utf16::units(text)) == match image_path::name_in(text) {
            Some(name) => Some(crate::probe::lowercased(name)),
            None => None,
        },
        crate::probe::exe_or_empty(None) == Seq::<char>::empty(),
{
    crate::utf16::lemma_decode_inverts_encode(text);
}

/// The exchanges behind a snapshot take every answer that a call can have.
pub proof fn law_snapshot_takes_every_answer(
    image: ImageProbe,
    token: TokenProbe,
    level: LevelProbe,
    capture: Capture,
    handle: Option<isize>,
    path: Option<Vec<u16>>,
    units: Vec<u16>,
    number: u32,
    yes: bool,
    address: usize,
    count: Option<u8>,
    rid: Option<u32>,
)
    ensures
        match image.pending() {
            Some(ImageCall::OpenProcess { .. }) => image.fits(ImageReply::Opened(handle)),
            Some(ImageCall::QueryPath { .. }) => image.fits(ImageReply::Path(path)),
            Some(ImageCall::CloseProcess { .. }) => image.fits(ImageReply::Closed),
            None => true,
        },
        match token.pending() {
            Some(TokenCall::OpenToken { .. }) => token.fits(TokenReply::Opened(handle)),
            Some(TokenCall::QuerySize { .. }) => token.fits(TokenReply::Size(number)),
            Some(TokenCall::QueryLabel { .. }) => token.fits(TokenReply::Read(yes)),
            Some(TokenCall::CloseToken { .. }) => token.fits(TokenReply::Closed),
            Some(TokenCall::LabelSid) => token.fits(TokenReply::Sid(address)),
            Some(TokenCall::SubAuthorityCount { .. }) => token.fits(TokenReply::Count(count)),
            Some(TokenCall::SubAuthority { .. }) => token.fits(TokenReply::Rid(rid)),
            None => true,
        },
        match level.stage {
            LevelStage::Open => level.fits(LevelReply::Opened(handle)),
            LevelStage::Token(probe) => forall|r: TokenReply| #[trigger]
                probe.fits(r) ==> level.fits(LevelReply::Token(r)),
            LevelStage::Close { .. } => level.fits(LevelReply::Closed),
            LevelStage::Over(_) => level.pending() is None,
        },
        match capture.stage {
            CaptureStage::Window => forall|hwnd: isize| #[trigger]
                capture.fits(CaptureReply::Window(hwnd)),
            CaptureStage::Process { .. } => capture.fits(CaptureReply::Process(number)),
            CaptureStage::Image { image: inside, .. } => forall|r: ImageReply| #[trigger]
                inside.fits(r) ==> capture.fits(CaptureReply::Image(r)),
            CaptureStage::Class { .. } => capture.fits(CaptureReply::Class(units)),
            CaptureStage::Level { probe, .. } => forall|r: LevelReply| #[trigger]
                probe.fits(r) ==> capture.fits(CaptureReply::Level(r)),
            _ => capture.pending() is None,
        },
{
}

/// The answers to reading the image path inside taking a snapshot.
pub open spec fn image_part(replies: Seq<CaptureReply>) -> Seq<ImageReply> {
    replies.map_values(|r: CaptureReply| r->Image_0)
}

/// The answers to reading the level inside taking a snapshot.
pub open spec fn level_part(replies: Seq<CaptureReply>) -> Seq<LevelReply> {
    replies.map_values(|r: CaptureReply| r->Level_0)
}

/// Whether the replies up to number `n` are those of the window, its process and a whole reading of
/// the image path of process `pid`, and reply number `n` is the class.
pub open spec fn image_then_class(replies: Seq<CaptureReply>, pid: u32, n: int) -> bool {
    &&& 2 <= n < replies.len()
    &&& crate::protocol::completes(ImageProbe::begun(pid), image_part(replies.subrange(2, n)))
    &&& replies[n] is Class
}

/// Where taking a snapshot stands, by its parts.
spec fn capture_parts(stage: CaptureStage, replies: Seq<CaptureReply>) -> bool {
    let len = replies.len() as int;
    match stage {
        CaptureStage::Window => len == 0,
        CaptureStage::Process { .. } => len == 1,
        CaptureStage::Image { image, .. } => {
            let part = image_part(replies.skip(2));
            let begun = ImageProbe::begun(image.pid);
            &&& len >= 2
            &&& image.ended() is None
            &&& crate::protocol::answers(begun, part)
            &&& image == crate::protocol::after(begun, part)
        },
        CaptureStage::Class { image, .. } => {
            let part = image_part(replies.skip(2));
            let begun = ImageProbe::begun(image.pid);
            &&& len >= 2
            &&& crate::protocol::completes(begun, part)
            &&& image == crate::protocol::after(begun, part)
        },
        CaptureStage::Level { image, probe, .. } => exists|n: int| #[trigger]
            image_then_class(replies, image.pid, n) && {
                let part = level_part(replies.skip(n + 1));
                let begun = LevelProbe::begun(image.pid);
                &&& probe.ended() is None
                &&& crate::protocol::answers(begun, part)
                &&& probe == crate::protocol::after(begun, part)
            },
        CaptureStage::Taken { image, level, .. } => exists|n: int| #[trigger]
            image_then_class(replies, image.pid, n) && {
                let part = level_part(replies.skip(n + 1));
                let begun = LevelProbe::begun(image.pid);
                &&& crate::protocol::completes(begun, part)
                &&& crate::protocol::after(begun, part).ended() == Some(level)
            },
        CaptureStage::Nothing => true,
    }
}

proof fn lemma_capture_parts(replies: Seq<CaptureReply>)
    requires
        crate::protocol::answers(Capture { stage: CaptureStage::Window }, replies),
    ensures
        capture_parts(
            crate::protocol::after(Capture { stage: CaptureStage::Window }, replies).stage,
            replies,
        ),
    decreases replies.len(),
{
    if replies.len() > 0 {
        let shorter = replies.drop_last();
        let before = crate::protocol::after(Capture { stage: CaptureStage::Window }, shorter);
        lemma_capture_parts(shorter);
        lemma_capture_trail(shorter);
        match before.stage {
            CaptureStage::Process { .. } => {
                assert(image_part(replies.skip(2)) =~= Seq::<ImageReply>::empty());
            },
            CaptureStage::Image { image, .. } => {
                let part = image_part(replies.skip(2));
                assert(part.drop_last() =~= image_part(shorter.skip(2)));
                assert(part.last() == replies.last()->Image_0);
            },
            CaptureStage::Class { image, .. } => {
                let n = shorter.len() as int;
                assert(replies.subrange(2, n) =~= shorter.skip(2));
                assert(image_then_class(replies, image.pid, n));
                assert(level_part(replies.skip(n + 1)) =~= Seq::<LevelReply>::empty());
            },
            CaptureStage::Level { image, probe, .. } => {
                let n = choose|n: int|
                    #![trigger image_then_class(shorter, image.pid, n)]
                    image_then_class(shorter, image.pid, n) && {
                        let part = level_part(shorter.skip(n + 1));
                        let begun = LevelProbe::begun(image.pid);
                        &&& probe.ended() is None
                        &&& crate::protocol::answers(begun, part)
                        &&& probe == crate::protocol::after(begun, part)
                    };
                let part = level_part(replies.skip(n + 1));
                assert(replies.subrange(2, n) =~= shorter.subrange(2, n));
                assert(image_then_class(replies, image.pid, n));
                assert(part.drop_last() =~= level_part(shorter.skip(n + 1)));
                assert(part.last() == replies.last()->Level_0);
                lemma_level_trail(image.pid, part);
            },
            _ => {},
        }
    }
}

/// A snapshot leaves nothing out: behind the window and its process come a whole reading of the
/// image path of that process, the class, and a whole reading of the level of that process, in this
/// order, and the level of the snapshot is the one that this reading ended in.
pub proof fn law_snapshot_reads_everything(replies: Seq<CaptureReply>, target: Target)
    requires
        crate::protocol::completes(Capture { stage: CaptureStage::Window }, replies),
        crate::protocol::after(Capture { stage: CaptureStage::Window }, replies).took(target),
    ensures
        exists|n: int| #[trigger]
            image_then_class(replies, target.pid, n) && {
                let part = level_part(replies.skip(n + 1));
                let begun = LevelProbe::begun(target.pid);
                &&& crate::protocol::completes(begun, part)
                &&& crate::protocol::after(begun, part).ended() matches Some(level)
                &&& level matches Some(known) ==> target.integrity == known
                &&& level is None ==> target.integrity == Integrity::Medium
            },
{
    lemma_capture_parts(replies);
}

/// Levels compare as they rank.
pub proof fn law_levels_compare_as_they_rank(a: Integrity, b: Integrity)
    ensures
        a.partial_cmp_spec(&b) == Some(Ordering::Less) <==> a.rank() < b.rank(),
        a.partial_cmp_spec(&b) == Some(Ordering::Equal) <==> a == b,
        a.partial_cmp_spec(&b) == Some(Ordering::Greater) <==> a.rank() > b.rank(),
{
}

/// Whatever is asked inside is asked as it is, and of the right window: while the token of an opened
/// process is read, and while the image path and the level are read for a snapshot, the pending call
/// is the one that is due there.
pub proof fn law_inner_calls_are_passed_on(level: LevelProbe, capture: Capture)
    ensures
        level.stage matches LevelStage::Token(probe) ==> (probe.pending() matches Some(call)
            ==> level.pending() == Some(LevelCall::Token(call))),
        level.stage matches LevelStage::Close { process, .. } ==> level.pending() == Some(
            LevelCall::CloseProcess { process },
        ),
        capture.stage matches CaptureStage::Image { image, .. } ==> (image.pending() matches Some(
            call,
        ) ==> capture.pending() == Some(CaptureCall::Image(call))),
        capture.stage matches CaptureStage::Level { probe, .. } ==> (probe.pending() matches Some(
            call,
        ) ==> capture.pending() == Some(CaptureCall::Level(call))),
{
}

/// Which call each answer of a snapshot is the answer to: the window to the question for the
/// foreground, the process and the class to questions for that window.
pub proof fn law_snapshot_answers_its_calls(replies: Seq<CaptureReply>, i: int)
    requires
        crate::protocol::answers(Capture { stage: CaptureStage::Window }, replies),
        0 <= i < replies.len(),
    ensures
        ({
            let call = crate::protocol::calls(Capture { stage: CaptureStage::Window }, replies)[i];
            match replies[i] {
                CaptureReply::Window(_) => i == 0 && call is ForegroundWindow,
                CaptureReply::Process(_) => i == 1 && replies[0] is Window && call == (
                CaptureCall::WindowProcess { hwnd: replies[0]->Window_0 }),
                CaptureReply::Image(_) => call is Image,
                CaptureReply::Class(_) => replies[0] is Window && call == (
                CaptureCall::WindowClass { hwnd: replies[0]->Window_0 }),
                CaptureReply::Level(_) => call is Level,
            }
        }),
{
    let p = Capture { stage: CaptureStage::Window };
    crate::protocol::lemma_prefix(p, replies, i);
    lemma_capture_trail(replies.take(i));
    assert(i >= 1 ==> replies.take(i)[0] == replies[0]);
}

} // verus!
