//! Whole deliveries, followed together with the clipboard.

use win_text_inject::clipboard::{access, read_unicode_text, utf16_bytes, Access, ClipboardCall,
    ClipboardReply, Done, GateCall, GateReply, Snapshot, Task, CF_UNICODETEXT};
use win_text_inject::delayed::{wndproc, OwnerCall, OwnerDuty, OwnerReply, PublishCall,
    PublishReply, State, WM_DESTROYCLIPBOARD};
use win_text_inject::{inject, Error, InjectCall, InjectReply, Integrity, Offer, Options, Outcome,
    Target};

const WINDOW: isize = 0x77;

/// A desktop: its clipboard, and our window, which keeps promises.
struct Desktop {
    data: Vec<(u32, Option<Vec<u8>>)>,
    blocks: Vec<Vec<u8>>,
    owner: isize,
    opener: isize,
    number: u32,
    state: State,
    read: Option<Vec<u8>>,
}

/// What happens around a paste.
#[derive(Clone, Copy, Default)]
struct Around {
    manager_reads: bool,
    target_reads: bool,
    stolen_with: Option<&'static str>,
    chord_refused: bool,
}

impl Desktop {
    fn with_text(text: &str) -> Desktop {
        let mut desktop = Desktop {
            data: vec![],
            blocks: vec![],
            owner: 0,
            opener: 0,
            number: 1,
            state: State::new(),
            read: None,
        };
        desktop.write(0, text);
        desktop
    }

    fn empty(&mut self, owner: isize) {
        if self.owner == WINDOW && wndproc(WM_DESTROYCLIPBOARD, 0) == OwnerDuty::Void {
            self.state.void();
        }
        self.owner = owner;
        self.data.clear();
        self.number += 1;
    }

    /// Another process writes to the clipboard.
    fn write(&mut self, owner: isize, text: &str) {
        self.empty(owner);
        self.data.push((CF_UNICODETEXT, Some(utf16_bytes(text))));
        self.number += 1;
    }

    /// A consumer asks for the text.
    fn consume(&mut self) -> Option<String> {
        let entry = self.data.iter().position(|(format, _)| *format == CF_UNICODETEXT)?;
        if self.data[entry].1.is_none() && self.owner == WINDOW {
            let rendering = self.state.render(CF_UNICODETEXT)?;
            self.data[entry].1 = Some(rendering.bytes().to_vec());
            self.number += 1;
            self.state.note_render(&rendering, 1);
        }
        read_unicode_text(self.data[entry].1.as_deref())
    }

    fn answer(&mut self, call: ClipboardCall<'_>) -> ClipboardReply {
        match call {
            ClipboardCall::Open { owner } => {
                self.opener = owner;
                ClipboardReply::Status(Ok(()))
            }
            ClipboardCall::Sleep { .. } => ClipboardReply::Finished,
            ClipboardCall::Empty => {
                self.empty(self.opener);
                ClipboardReply::Status(Ok(()))
            }
            ClipboardCall::Record(text) => {
                self.state.promise(text);
                ClipboardReply::Recorded(true)
            }
            ClipboardCall::Allocate(payload) => {
                self.blocks.push(payload.bytes());
                ClipboardReply::Block(Ok(self.blocks.len()))
            }
            ClipboardCall::SetData { format, block } => {
                self.data.push((format, block.map(|block| self.blocks[block - 1].clone())));
                self.number += 1;
                ClipboardReply::Status(Ok(()))
            }
            ClipboardCall::Register { index } => ClipboardReply::Format(0xC000 + index as u32),
            ClipboardCall::Owner => ClipboardReply::Owner(self.owner),
            ClipboardCall::Advertised { format } => {
                ClipboardReply::Advertised(self.data.iter().any(|(f, _)| *f == format))
            }
            ClipboardCall::SequenceNumber => ClipboardReply::Sequence(self.number),
            ClipboardCall::ReadText => {
                self.read = self.consume().map(|text| utf16_bytes(&text));
                ClipboardReply::Finished
            }
            ClipboardCall::Close => ClipboardReply::Finished,
        }
    }

    fn run(&mut self, mut access: Access<'_>) -> Result<Done, Error> {
        while let Some(call) = access.call() {
            access = access.reply(self.answer(call));
        }
        access.result().unwrap()
    }

    fn publish(&mut self, text: &str) -> Result<Offer, Error> {
        let mut publication = Offer::publish(text);
        while let Some(call) = publication.call() {
            publication = publication.reply(match call {
                PublishCall::Owner(OwnerCall::LoadHandle) => {
                    PublishReply::Owner(OwnerReply::Handle(WINDOW))
                }
                PublishCall::Owner(other) => panic!("unexpected {other:?}"),
                PublishCall::Record(text) => {
                    self.state.promise(text);
                    PublishReply::Recorded(true)
                }
                PublishCall::Clipboard(call) => PublishReply::Clipboard(self.answer(call)),
            });
        }
        publication.result().unwrap()
    }

    fn dictate(&mut self, text: &str, options: Options, around: Around) -> Result<Outcome, Error> {
        let target = Target {
            hwnd: 7,
            pid: 99,
            exe: "notepad.exe".to_string(),
            class: "Notepad".to_string(),
            integrity: Integrity::Medium,
        };
        let mut snapshot: Option<Snapshot> = None;
        let offer = Offer {};
        let mut injection = inject(&target, text, options);
        while let Some(call) = injection.call() {
            injection = injection.reply(match call {
                InjectCall::ForegroundWindow => InjectReply::Window(7),
                InjectCall::OwnIntegrity => InjectReply::Level(Some(Integrity::Medium)),
                InjectCall::WriteText(text) => InjectReply::Status(
                    self.run(access(Task::WriteText(text))).map(|_| ()),
                ),
                InjectCall::Sanitize => InjectReply::Status(Ok(())),
                InjectCall::TypeText(_) => InjectReply::Status(Ok(())),
                InjectCall::Capture => {
                    if let Ok(Done::Captured { sequence }) = self.run(access(Task::Capture)) {
                        snapshot = Some(Snapshot::capture(sequence, self.read.as_deref()));
                    }
                    InjectReply::Captured(snapshot.is_some())
                }
                InjectCall::Publish(text) => {
                    let status = self.publish(text).map(|_| ());
                    if around.manager_reads {
                        self.consume();
                    }
                    InjectReply::Status(status)
                }
                InjectCall::MarkPasteSent => {
                    offer.mark_paste_sent(&mut self.state);
                    InjectReply::Finished
                }
                InjectCall::SendChord(_) => {
                    if around.target_reads {
                        assert_eq!(self.consume().as_deref(), Some(text));
                    }
                    if let Some(theirs) = around.stolen_with {
                        self.write(0x99, theirs);
                    }
                    InjectReply::Status(if around.chord_refused {
                        Err(Error::SendInputBlocked)
                    } else {
                        Ok(())
                    })
                }
                InjectCall::WaitForTargetRead { .. } => {
                    let reads = self.state.reads();
                    let arrived = !reads.awaited(true);
                    InjectReply::Reads(arrived.then_some(1))
                }
                InjectCall::ConsumedBeforePaste => InjectReply::Consumed(
                    offer.consumed_before_paste(Some(self.state.reads())),
                ),
                InjectCall::StillOffered => {
                    InjectReply::Offered(offer.still_offered(&self.state))
                }
                InjectCall::Sleep(_) => InjectReply::Finished,
                InjectCall::Restore => {
                    let task = snapshot.as_ref().unwrap().restore();
                    assert!(self.run(access(task)).is_ok());
                    InjectReply::Finished
                }
                InjectCall::SequenceNumber => InjectReply::Sequence(self.number),
                InjectCall::RestoreIfOurs(ours) => {
                    let mut restore = snapshot.as_ref().unwrap().restore_if_ours(ours);
                    while let Some(call) = restore.call() {
                        restore = restore.reply(match call {
                            GateCall::SequenceNumber => GateReply::Sequence(self.number),
                            GateCall::Clipboard(call) => GateReply::Clipboard(self.answer(call)),
                        });
                    }
                    assert!(restore.result().unwrap().is_ok());
                    InjectReply::Finished
                }
            });
        }
        injection.result().unwrap()
    }
}

fn pasted(read_confirmed: bool) -> Result<Outcome, Error> {
    Ok(Outcome::Pasted { read_confirmed })
}

#[test]
fn a_confirmed_paste_ends_with_the_captured_text() {
    let mut desktop = Desktop::with_text("mine");
    let around = Around { target_reads: true, ..Around::default() };
    assert_eq!(desktop.dictate("dictated", Options::default(), around), pasted(true));
    assert_eq!(desktop.consume(), Some("mine".to_string()));
}

#[test]
fn a_paste_behind_a_clipboard_manager_ends_with_the_captured_text() {
    let mut desktop = Desktop::with_text("mine");
    let around = Around { manager_reads: true, ..Around::default() };
    assert_eq!(desktop.dictate("dictated", Options::default(), around), pasted(false));
    assert_eq!(desktop.consume(), Some("mine".to_string()));
}

#[test]
fn a_timed_paste_ends_with_the_captured_text() {
    let mut desktop = Desktop::with_text("mine");
    let options = Options { delayed_render: false, ..Options::default() };
    let around = Around { target_reads: true, ..Around::default() };
    assert_eq!(desktop.dictate("dictated", options, around), pasted(false));
    assert_eq!(desktop.consume(), Some("mine".to_string()));
}

#[test]
fn an_unread_paste_ends_with_the_text_on_offer() {
    let mut desktop = Desktop::with_text("mine");
    let result = desktop.dictate("dictated", Options::default(), Around::default());
    assert_eq!(result, pasted(false));
    assert_eq!(desktop.owner, WINDOW);
    assert_eq!(desktop.consume(), Some("dictated".to_string()));
}

#[test]
fn a_dictation_after_an_unread_one_is_delivered() {
    let mut desktop = Desktop::with_text("mine");
    let options = Options { restore_clipboard: false, ..Options::default() };
    assert_eq!(desktop.dictate("first", options, Around::default()), pasted(false));
    assert_eq!(desktop.owner, WINDOW);
    let around = Around { target_reads: true, ..Around::default() };
    assert_eq!(desktop.dictate("second", options, around), pasted(true));
    assert_eq!(desktop.consume(), Some("second".to_string()));
}

#[test]
fn a_third_party_keeps_the_clipboard_it_took() {
    for delayed_render in [true, false] {
        for manager_reads in [true, false] {
            for target_reads in [true, false] {
                let mut desktop = Desktop::with_text("mine");
                let options = Options { delayed_render, ..Options::default() };
                let stolen_with = Some("theirs");
                let around =
                    Around { manager_reads, target_reads, stolen_with, ..Around::default() };
                let result = desktop.dictate("dictated", options, around);
                assert!(matches!(result, Ok(Outcome::Pasted { .. })));
                assert_eq!(desktop.consume(), Some("theirs".to_string()));
                assert_eq!(desktop.owner, 0x99);
            }
        }
    }
}

#[test]
fn a_refused_paste_keeps_the_text() {
    for delayed_render in [true, false] {
        let mut desktop = Desktop::with_text("mine");
        let options = Options { delayed_render, ..Options::default() };
        let around = Around { chord_refused: true, ..Around::default() };
        let result = desktop.dictate("dictated", options, around);
        assert_eq!(result, Err(Error::SendInputBlocked));
        assert_eq!(desktop.consume(), Some("dictated".to_string()));
    }
}
