//! Snapshots of the foreground window.

use win_text_inject::error::Error;
use win_text_inject::probe::{our_integrity, process_image, process_integrity, ImageCall, ImageReply,
    LevelCall, LevelReply, TokenCall, TokenReply};
use win_text_inject::target::{permitted, window_class, CaptureCall, CaptureReply};
use win_text_inject::{Integrity, Target};

/// A system whose foreground window is `hwnd`, owned by `pid`.
struct System {
    hwnd: isize,
    pid: u32,
    path: Option<&'static str>,
    rid: Option<u32>,
    opened: Vec<isize>,
}

impl System {
    fn image(&mut self, call: ImageCall) -> ImageReply {
        match call {
            ImageCall::OpenProcess { pid } => {
                assert_eq!(pid, self.pid);
                self.opened.push(40);
                ImageReply::Opened(Some(40))
            }
            ImageCall::QueryPath { process } => {
                assert!(self.opened.contains(&process));
                ImageReply::Path(self.path.map(|path| path.encode_utf16().collect()))
            }
            ImageCall::CloseProcess { process } => {
                self.opened.retain(|open| *open != process);
                ImageReply::Closed
            }
        }
    }

    fn token(&mut self, call: TokenCall) -> TokenReply {
        match call {
            TokenCall::OpenToken { process } => {
                assert!(self.opened.contains(&process));
                if self.rid.is_none() {
                    return TokenReply::Opened(None);
                }
                self.opened.push(60);
                TokenReply::Opened(Some(60))
            }
            TokenCall::QuerySize { token } => {
                assert!(self.opened.contains(&token));
                TokenReply::Size(28)
            }
            TokenCall::QueryLabel { token, size } => {
                assert!(self.opened.contains(&token));
                assert_eq!(size, 28);
                TokenReply::Read(true)
            }
            TokenCall::CloseToken { token } => {
                self.opened.retain(|open| *open != token);
                TokenReply::Closed
            }
            TokenCall::LabelSid => TokenReply::Sid(0x1000),
            TokenCall::SubAuthorityCount { sid } => {
                assert_eq!(sid, 0x1000);
                TokenReply::Count(Some(1))
            }
            TokenCall::SubAuthority { sid, index } => {
                assert_eq!((sid, index), (0x1000, 0));
                TokenReply::Rid(self.rid)
            }
        }
    }

    fn level(&mut self, call: LevelCall) -> LevelReply {
        match call {
            LevelCall::OpenProcess { pid } => {
                assert_eq!(pid, self.pid);
                self.opened.push(50);
                LevelReply::Opened(Some(50))
            }
            LevelCall::Token(call) => LevelReply::Token(self.token(call)),
            LevelCall::CloseProcess { process } => {
                self.opened.retain(|open| *open != process);
                LevelReply::Closed
            }
        }
    }

    fn foreground(&mut self) -> Result<Target, Error> {
        let mut capture = Target::foreground();
        while let Some(call) = capture.call() {
            let reply = match call {
                CaptureCall::ForegroundWindow => CaptureReply::Window(self.hwnd),
                CaptureCall::WindowProcess { hwnd } => {
                    assert_eq!(hwnd, self.hwnd);
                    CaptureReply::Process(self.pid)
                }
                CaptureCall::Image(call) => CaptureReply::Image(self.image(call)),
                CaptureCall::WindowClass { hwnd } => {
                    assert_eq!(hwnd, self.hwnd);
                    CaptureReply::Class("Notepad".encode_utf16().collect())
                }
                CaptureCall::Level(call) => CaptureReply::Level(self.level(call)),
            };
            capture = capture.reply(reply);
        }
        assert!(self.opened.is_empty());
        capture.result().unwrap()
    }
}

fn token_level(replies: &[TokenReply]) -> (Vec<TokenCall>, Option<Option<Integrity>>) {
    let mut probe = our_integrity(-1);
    let mut calls = Vec::new();
    for reply in replies {
        calls.push(probe.call().unwrap());
        probe = probe.reply(*reply);
    }
    (calls, probe.result())
}

#[test]
fn integrity_is_ordered() {
    assert!(Integrity::Low < Integrity::Medium);
    assert!(Integrity::Medium < Integrity::High);
    assert!(Integrity::High < Integrity::System);
}

#[test]
fn rid_ranges_map_to_named_levels() {
    assert_eq!(Integrity::from_rid(0x0000), Integrity::Untrusted);
    assert_eq!(Integrity::from_rid(0x1000), Integrity::Low);
    assert_eq!(Integrity::from_rid(0x2000), Integrity::Medium);
    assert_eq!(Integrity::from_rid(0x3000), Integrity::MediumPlus);
    assert_eq!(Integrity::from_rid(0x4000), Integrity::High);
    assert_eq!(Integrity::from_rid(0x5000), Integrity::System);
}

#[test]
fn in_between_rids_fall_to_the_lower_named_level() {
    // Windows treats values between named levels as the lower level, not the higher one.
    assert_eq!(Integrity::from_rid(0x2100), Integrity::Medium);
    assert_eq!(Integrity::from_rid(0x4FFF), Integrity::High);
}

#[test]
fn rids_above_every_named_level_are_protected() {
    assert_eq!(Integrity::from_rid(0x5FFF), Integrity::System);
    assert_eq!(Integrity::from_rid(0x6000), Integrity::Protected);
    assert_eq!(Integrity::from_rid(u32::MAX), Integrity::Protected);
}

#[test]
fn every_level_is_ordered_by_its_rid() {
    let levels: Vec<Integrity> = (0..7).map(|n| Integrity::from_rid(n * 0x1000)).collect();
    for i in 0..7 {
        for j in 0..7 {
            assert_eq!(levels[i] < levels[j], i < j);
            assert_eq!(levels[i].partial_cmp(&levels[j]), Some(levels[i].cmp(&levels[j])));
            assert_eq!(permitted(levels[i], Some(levels[j])), i <= j);
        }
        assert!(permitted(levels[i], None));
    }
}

#[test]
fn a_foreground_window_is_captured() {
    let mut system = System {
        hwnd: 7,
        pid: 99,
        path: Some(r"C:\Windows\NOTEPAD.EXE"),
        rid: Some(0x3000),
        opened: vec![],
    };
    let target = system.foreground().unwrap();
    assert_eq!(target.hwnd, 7);
    assert_eq!(target.pid, 99);
    assert_eq!(target.exe, "notepad.exe");
    assert_eq!(target.class, "Notepad");
    assert_eq!(target.integrity, Integrity::MediumPlus);
    assert!(target.still_foreground(7));
    assert!(!target.still_foreground(8));
    assert!(target.accepts_injection(Some(Integrity::High)));
    assert!(!target.accepts_injection(Some(Integrity::Medium)));
    assert!(target.accepts_injection(None));
}

#[test]
fn unreadable_details_have_defaults() {
    let mut system = System { hwnd: 7, pid: 99, path: None, rid: None, opened: vec![] };
    let target = system.foreground().unwrap();
    assert_eq!(target.exe, "");
    assert_eq!(target.integrity, Integrity::Medium);
}

#[test]
fn there_may_be_no_foreground_window() {
    let mut nothing = System { hwnd: 0, pid: 99, path: None, rid: None, opened: vec![] };
    assert_eq!(nothing.foreground().err(), Some(Error::NoForegroundWindow));
    let mut unowned = System { hwnd: 7, pid: 0, path: None, rid: None, opened: vec![] };
    assert_eq!(unowned.foreground().err(), Some(Error::NoForegroundWindow));
}

/// Our own level, in a process whose token carries `rid`.
fn own_level(rid: u32) -> Option<Integrity> {
    let mut system = System { hwnd: 0, pid: 0, path: None, rid: Some(rid), opened: vec![-1] };
    let mut probe = our_integrity(-1);
    while let Some(call) = probe.call() {
        probe = probe.reply(system.token(call));
    }
    // The handle that stands for the current process needs no closing.
    assert_eq!(system.opened, vec![-1]);
    probe.result().unwrap()
}

#[test]
fn our_own_integrity_is_readable() {
    // A process must be able to read its own token; failure means the SID walk is wrong.
    assert!(own_level(0x2000).is_some());
}

#[test]
fn a_normal_test_process_runs_at_medium_or_high() {
    for rid in [0x2000, 0x2100, 0x3000] {
        let level = own_level(rid).unwrap();
        assert!(level >= Integrity::Medium, "unexpected level {level:?}");
    }
}

#[test]
fn a_token_is_read_and_closed() {
    let (calls, level) = token_level(&[
        TokenReply::Opened(Some(60)),
        TokenReply::Size(28),
        TokenReply::Read(true),
        TokenReply::Closed,
        TokenReply::Sid(0x1000),
        TokenReply::Count(Some(3)),
        TokenReply::Rid(Some(0x4000)),
    ]);
    assert_eq!(
        calls,
        vec![
            TokenCall::OpenToken { process: -1 },
            TokenCall::QuerySize { token: 60 },
            TokenCall::QueryLabel { token: 60, size: 28 },
            TokenCall::CloseToken { token: 60 },
            TokenCall::LabelSid,
            TokenCall::SubAuthorityCount { sid: 0x1000 },
            TokenCall::SubAuthority { sid: 0x1000, index: 2 },
        ]
    );
    assert_eq!(level, Some(Some(Integrity::High)));
}

#[test]
fn a_sid_without_sub_authorities_is_asked_for_its_first() {
    let (calls, level) = token_level(&[
        TokenReply::Opened(Some(60)),
        TokenReply::Size(28),
        TokenReply::Read(true),
        TokenReply::Closed,
        TokenReply::Sid(0x1000),
        TokenReply::Count(Some(0)),
        TokenReply::Rid(None),
    ]);
    assert_eq!(calls[6], TokenCall::SubAuthority { sid: 0x1000, index: 0 });
    assert_eq!(level, Some(None));
}

#[test]
fn an_unreadable_token_gives_no_level() {
    let opened = TokenReply::Opened(Some(60));
    let size = TokenReply::Size(28);
    let read = TokenReply::Read(true);
    let closed = TokenReply::Closed;
    let runs: [&[TokenReply]; 5] = [
        &[TokenReply::Opened(None)],
        &[opened, TokenReply::Size(0), closed],
        &[opened, size, TokenReply::Read(false), closed],
        &[opened, size, read, closed, TokenReply::Sid(0)],
        &[opened, size, read, closed, TokenReply::Sid(1), TokenReply::Count(None)],
    ];
    for replies in runs {
        let (calls, level) = token_level(replies);
        assert_eq!(level, Some(None));
        let closes = calls.iter().filter(|call| matches!(call, TokenCall::CloseToken { .. }));
        assert_eq!(closes.count(), if replies.len() > 1 { 1 } else { 0 });
    }
}

#[test]
fn a_process_that_cannot_be_opened_is_asked_nothing() {
    let image = process_image(5).reply(ImageReply::Opened(None));
    assert!(image.call().is_none());
    assert_eq!(image.result(), Some(String::new()));
    let level = process_integrity(5).reply(LevelReply::Opened(None));
    assert_eq!(level.call(), None);
    assert_eq!(level.result(), Some(None));
}

#[test]
fn window_classes_are_decoded() {
    assert_eq!(window_class(&[0x43, 0x62, 0xD800]), "Cb\u{FFFD}");
    assert_eq!(window_class(&[]), "");
}
