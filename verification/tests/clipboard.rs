//! Uses of the clipboard, against a clipboard held in memory.

use win_text_inject::clipboard::{access, alloc_global, privacy_format, privacy_payload,
    read_unicode_text, set_text_private, utf16_bytes, Access, BlockCall, BlockReply, ClipboardCall,
    ClipboardReply, Done, GateCall, GateReply, GatedRestore, Payload, Snapshot, Task,
    CF_UNICODETEXT, OPEN_BACKOFF_MS, OPEN_RETRIES, PRIVACY_FORMATS};
use win_text_inject::{Error, OsError};

/// A clipboard in memory. Opening fails `contended` times.
#[derive(Default)]
struct Board {
    contended: u32,
    open: bool,
    opener: isize,
    owner: isize,
    sequence: u32,
    data: Vec<(u32, Option<Vec<u8>>)>,
    blocks: Vec<Vec<u8>>,
    slept: u64,
    unregistered: Option<usize>,
    fail_text: bool,
    promised: Option<String>,
    unusable: bool,
    read: Option<Vec<u8>>,
}

const DENIED: OsError = OsError { code: -2147024891 };

impl Board {
    fn get(&self, format: u32) -> Option<&Option<Vec<u8>>> {
        self.data.iter().find(|(f, _)| *f == format).map(|(_, data)| data)
    }

    fn answer(&mut self, call: ClipboardCall<'_>) -> ClipboardReply {
        match call {
            ClipboardCall::Open { owner } => {
                assert!(!self.open);
                if self.contended > 0 {
                    self.contended -= 1;
                    return ClipboardReply::Status(Err(DENIED));
                }
                self.open = true;
                self.opener = owner;
                ClipboardReply::Status(Ok(()))
            }
            ClipboardCall::Sleep { millis } => {
                self.slept += millis;
                ClipboardReply::Finished
            }
            ClipboardCall::Empty => {
                assert!(self.open);
                self.data.clear();
                self.owner = self.opener;
                self.sequence += 1;
                ClipboardReply::Status(Ok(()))
            }
            ClipboardCall::Record(text) => {
                assert!(self.open && self.data.is_empty());
                if !self.unusable {
                    self.promised = Some(text.to_string());
                }
                ClipboardReply::Recorded(!self.unusable)
            }
            ClipboardCall::Allocate(payload) => {
                if self.fail_text && matches!(payload, Payload::Text(_)) {
                    return ClipboardReply::Block(Err(Error::Alloc(DENIED)));
                }
                self.blocks.push(payload.bytes());
                ClipboardReply::Block(Ok(self.blocks.len()))
            }
            ClipboardCall::SetData { format, block } => {
                assert!(self.open);
                let data = block.map(|block| self.blocks[block - 1].clone());
                let promise = data.is_none();
                self.data.push((format, data));
                self.sequence += 1;
                // Setting no data gives no handle, which looks like a failure.
                ClipboardReply::Status(if promise { Err(DENIED) } else { Ok(()) })
            }
            ClipboardCall::Register { index } => {
                assert!(!privacy_format(index).is_empty());
                if self.unregistered == Some(index) {
                    return ClipboardReply::Format(0);
                }
                ClipboardReply::Format(0xC000 + index as u32)
            }
            ClipboardCall::Owner => ClipboardReply::Owner(self.owner),
            ClipboardCall::Advertised { format } => {
                ClipboardReply::Advertised(self.get(format).is_some())
            }
            ClipboardCall::SequenceNumber => ClipboardReply::Sequence(self.sequence),
            ClipboardCall::ReadText => {
                assert!(self.open);
                self.read = self.get(CF_UNICODETEXT).cloned().flatten();
                ClipboardReply::Finished
            }
            ClipboardCall::Close => {
                assert!(self.open);
                self.open = false;
                ClipboardReply::Finished
            }
        }
    }

    fn run(&mut self, mut access: Access<'_>) -> Result<Done, Error> {
        while let Some(call) = access.call() {
            access = access.reply(self.answer(call));
        }
        assert!(!self.open);
        access.result().unwrap()
    }

    fn run_gated(&mut self, mut restore: GatedRestore<'_>) -> Result<bool, Error> {
        while let Some(call) = restore.call() {
            restore = restore.reply(match call {
                GateCall::SequenceNumber => GateReply::Sequence(self.sequence),
                GateCall::Clipboard(call) => GateReply::Clipboard(self.answer(call)),
            });
        }
        assert!(!self.open);
        restore.result().unwrap()
    }

    fn capture(&mut self) -> Snapshot {
        match self.run(access(Task::Capture)) {
            Ok(Done::Captured { sequence }) => Snapshot::capture(sequence, self.read.as_deref()),
            other => panic!("not captured: {other:?}"),
        }
    }

    fn text(&self) -> Option<String> {
        read_unicode_text(self.get(CF_UNICODETEXT).and_then(|data| data.as_deref()))
    }
}

#[test]
fn utf16_bytes_are_nul_terminated_little_endian() {
    assert_eq!(utf16_bytes("hi"), vec![b'h', 0, b'i', 0, 0, 0]);
}

#[test]
fn utf16_bytes_encodes_surrogate_pairs() {
    // U+1F600 encodes to the pair D83D DE00.
    assert_eq!(utf16_bytes("\u{1F600}"), vec![0x3D, 0xD8, 0x00, 0xDE, 0, 0]);
}

#[test]
fn only_the_dword_formats_carry_a_payload() {
    assert_eq!(privacy_payload(0), None);
    assert_eq!(privacy_payload(1), Some(0));
    assert_eq!(privacy_payload(2), Some(0));
    assert_eq!(privacy_payload(3), None);
}

#[test]
fn the_four_opt_outs_have_their_names() {
    let names: Vec<&str> = (0..PRIVACY_FORMATS).map(privacy_format).collect();
    assert_eq!(
        names,
        vec![
            "ExcludeClipboardContentFromMonitorProcessing",
            "CanIncludeInClipboardHistory",
            "CanUploadToCloudClipboard",
            "Clipboard Viewer Ignore",
        ]
    );
}

#[test]
fn dwords_are_little_endian() {
    assert_eq!(Payload::Dword(0).bytes(), vec![0, 0, 0, 0]);
    assert_eq!(Payload::Dword(0x01020304).bytes(), vec![4, 3, 2, 1]);
}

#[test]
fn a_private_write_attaches_every_opt_out() {
    let mut board = Board::default();
    assert!(matches!(board.run(set_text_private("secret")), Ok(Done::Wrote)));
    assert_eq!(board.text(), Some("secret".to_string()));
    assert_eq!(board.get(0xC000), Some(&None));
    assert_eq!(board.get(0xC001), Some(&Some(vec![0, 0, 0, 0])));
    assert_eq!(board.get(0xC002), Some(&Some(vec![0, 0, 0, 0])));
    assert_eq!(board.get(0xC003), Some(&None));
    assert_eq!(board.data.len(), 5);
}

#[test]
fn a_missing_opt_out_does_not_fail_the_write() {
    let mut board = Board { unregistered: Some(1), ..Board::default() };
    assert!(matches!(board.run(set_text_private("secret")), Ok(Done::Wrote)));
    assert_eq!(board.get(0xC001), None);
    assert_eq!(board.data.len(), 4);
}

#[test]
fn a_contended_open_is_retried() {
    let mut board = Board { contended: 4, ..Board::default() };
    assert!(matches!(board.run(set_text_private("late")), Ok(Done::Wrote)));
    assert_eq!(board.text(), Some("late".to_string()));
    assert_eq!(board.slept, 48);
}

#[test]
fn a_clipboard_that_stays_locked_is_an_error() {
    let mut board = Board { contended: 5, ..Board::default() };
    let result = board.run(set_text_private("never"));
    assert_eq!(result.err(), Some(Error::ClipboardLocked(DENIED)));
    assert_eq!(board.slept, 4 * OPEN_BACKOFF_MS);
    assert_eq!(board.contended, 0);
    assert_eq!(OPEN_RETRIES, 5);
}

#[test]
fn a_clipboard_that_cannot_be_emptied_is_closed() {
    let opened = set_text_private("x").reply(ClipboardReply::Status(Ok(())));
    assert!(matches!(opened.call(), Some(ClipboardCall::Empty)));
    let failed = opened.reply(ClipboardReply::Status(Err(DENIED)));
    assert!(matches!(failed.call(), Some(ClipboardCall::Close)));
    let over = failed.reply(ClipboardReply::Finished);
    assert_eq!(over.result().unwrap().err(), Some(Error::Clipboard(DENIED)));
}

#[test]
fn a_failed_allocation_is_reported() {
    let mut board = Board { fail_text: true, ..Board::default() };
    assert_eq!(board.run(set_text_private("x")).err(), Some(Error::Alloc(DENIED)));
}

#[test]
fn a_promise_is_confirmed_by_what_is_observed() {
    let mut board = Board::default();
    let result = board.run(access(Task::Publish { owner: 77, text: "later" }));
    assert!(matches!(result, Ok(Done::Published)));
    assert_eq!(board.get(CF_UNICODETEXT), Some(&None));
    assert_eq!(board.owner, 77);
    assert_eq!(board.promised, Some("later".to_string()));
}

#[test]
fn a_promise_owned_by_another_window_is_an_error() {
    let mut publish = access(Task::Publish { owner: 77, text: "later" });
    let mut board = Board::default();
    while let Some(call) = publish.call() {
        publish = publish.reply(match call {
            ClipboardCall::Owner => ClipboardReply::Owner(78),
            other => board.answer(other),
        });
    }
    assert_eq!(publish.result().unwrap().err(), Some(Error::OwnerWindowFailed));
}

#[test]
fn a_promise_that_cannot_be_recorded_is_an_error() {
    let mut board = Board { unusable: true, ..Board::default() };
    let result = board.run(access(Task::Publish { owner: 77, text: "later" }));
    assert_eq!(result.err(), Some(Error::OwnerWindowFailed));
    assert!(board.data.is_empty());
}

#[test]
fn a_promise_that_is_not_advertised_is_an_error() {
    let mut publish = access(Task::Publish { owner: 77, text: "later" });
    let mut board = Board::default();
    while let Some(call) = publish.call() {
        publish = publish.reply(match call {
            ClipboardCall::Advertised { .. } => ClipboardReply::Advertised(false),
            other => board.answer(other),
        });
    }
    assert_eq!(publish.result().unwrap().err(), Some(Error::OwnerWindowFailed));
}

#[test]
fn reading_stops_at_the_first_nul() {
    assert_eq!(read_unicode_text(None), None);
    assert_eq!(read_unicode_text(Some(&[])), Some(String::new()));
    assert_eq!(read_unicode_text(Some(&[b'h', 0, b'i', 0, 0, 0, b'x', 0])), Some("hi".to_string()));
    assert_eq!(read_unicode_text(Some(&[b'h', 0, b'i'])), Some("h".to_string()));
    assert_eq!(read_unicode_text(Some(&[0x3D, 0xD8, 0, 0])), Some("\u{FFFD}".to_string()));
}

#[test]
fn reading_gives_back_what_was_written() {
    for text in ["", "hi", "\u{1F600}", "line\r\nline"] {
        let mut block = utf16_bytes(text);
        block.extend([7, 7, 7]);
        assert_eq!(read_unicode_text(Some(&block)), Some(text.to_string()));
    }
    assert_eq!(read_unicode_text(Some(&utf16_bytes("ab\0cd"))), Some("ab".to_string()));
}

#[test]
fn a_snapshot_restores_what_it_captured() {
    let mut board = Board::default();
    board.run(set_text_private("mine")).unwrap();
    let snapshot = board.capture();
    assert_eq!(snapshot.text(), Some("mine"));
    assert!(!snapshot.superseded(board.sequence));
    board.run(set_text_private("dictated")).unwrap();
    assert!(snapshot.superseded(board.sequence));
    assert!(board.run(access(snapshot.restore())).is_ok());
    assert_eq!(board.text(), Some("mine".to_string()));
}

#[test]
fn an_empty_snapshot_restores_an_empty_clipboard() {
    let mut board = Board::default();
    let snapshot = board.capture();
    assert_eq!(snapshot.text(), None);
    board.run(set_text_private("dictated")).unwrap();
    assert!(matches!(board.run(access(snapshot.restore())), Ok(Done::Cleared)));
    assert!(board.data.is_empty());
}

#[test]
fn a_gated_restore_restores_our_own_write() {
    let mut board = Board::default();
    board.run(set_text_private("mine")).unwrap();
    let snapshot = board.capture();
    board.run(set_text_private("dictated")).unwrap();
    let ours = board.sequence;
    assert_eq!(board.run_gated(snapshot.restore_if_ours(ours)), Ok(true));
    assert_eq!(board.text(), Some("mine".to_string()));
}

#[test]
fn a_gated_restore_spares_a_third_party() {
    let mut board = Board::default();
    let snapshot = board.capture();
    board.run(set_text_private("dictated")).unwrap();
    let ours = board.sequence;
    board.run(set_text_private("theirs")).unwrap();
    assert_eq!(board.run_gated(snapshot.restore_if_ours(ours)), Ok(false));
    assert_eq!(board.text(), Some("theirs".to_string()));
}

#[test]
fn a_gated_restore_reports_a_locked_clipboard() {
    let mut board = Board::default();
    let snapshot = board.capture();
    board.contended = 5;
    let ours = board.sequence;
    assert_eq!(
        board.run_gated(snapshot.restore_if_ours(ours)),
        Err(Error::ClipboardLocked(DENIED))
    );
}

#[test]
fn a_block_is_allocated_locked_copied_and_unlocked() {
    let fill = alloc_global(&[1, 2, 3]);
    assert!(matches!(fill.call(), Some(BlockCall::Allocate { len: 3 })));
    let fill = fill.reply(BlockReply::Allocated(Ok(5)));
    assert!(matches!(fill.call(), Some(BlockCall::Lock { block: 5 })));
    let fill = fill.reply(BlockReply::Locked { address: 0x500, last_error: DENIED });
    assert!(matches!(
        fill.call(),
        Some(BlockCall::Copy { address: 0x500, bytes: &[1, 2, 3] })
    ));
    let fill = fill.reply(BlockReply::Finished);
    assert!(matches!(fill.call(), Some(BlockCall::Unlock { block: 5 })));
    let fill = fill.reply(BlockReply::Finished);
    assert!(fill.call().is_none());
    assert_eq!(fill.result(), Some(Ok(5)));
}

#[test]
fn a_block_that_cannot_be_had_is_an_error() {
    let fill = alloc_global(&[1]).reply(BlockReply::Allocated(Err(DENIED)));
    assert_eq!(fill.result(), Some(Err(Error::Alloc(DENIED))));
    let fill = alloc_global(&[1]).reply(BlockReply::Allocated(Ok(5)));
    let fill = fill.reply(BlockReply::Locked { address: 0, last_error: DENIED });
    assert_eq!(fill.result(), Some(Err(Error::Alloc(DENIED))));
}

#[test]
fn errors_speak_for_themselves() {
    let detail = "Access is denied.";
    let said = [
        (Error::NoForegroundWindow, "no foreground window"),
        (
            Error::ClipboardLocked(DENIED),
            "clipboard held by another process: Access is denied.",
        ),
        (Error::Clipboard(DENIED), "clipboard operation failed: Access is denied."),
        (Error::Alloc(DENIED), "global allocation failed: Access is denied."),
        (Error::SendInputBlocked, "SendInput was blocked, most likely by UIPI"),
        (Error::FocusChanged, "focus moved away from the captured target"),
        (Error::OwnerWindowFailed, "clipboard owner window could not be created"),
    ];
    for (error, message) in said {
        assert_eq!(error.message(detail), message);
        assert_eq!(error.os_error().is_some(), message.ends_with(detail));
    }
}

#[test]
fn a_write_leaves_the_text_and_opt_outs_only() {
    let mut board = Board::default();
    board.data.push((2, Some(vec![9, 9])));
    board.run(set_text_private("first")).unwrap();
    board.run(set_text_private("second")).unwrap();
    assert!(board.data.iter().all(|(format, _)| *format == CF_UNICODETEXT || *format >= 0xC000));
    assert_eq!(board.get(CF_UNICODETEXT), Some(&Some(utf16_bytes("second"))));
}

#[test]
fn a_capture_leaves_the_clipboard_alone() {
    let mut board = Board::default();
    board.run(set_text_private("mine")).unwrap();
    let before = board.data.clone();
    board.capture();
    assert_eq!(board.data, before);
}
