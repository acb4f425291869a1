//! Promises and their reads.

use win_text_inject::clipboard::{utf16_bytes, ClipboardCall, ClipboardReply, CF_UNICODETEXT};
use win_text_inject::delayed::{ensure_owner, wndproc, OwnerCall, OwnerDuty, OwnerReply, OwnerStart,
    PublishCall, PublishReply, ReadWait, Reads, State, WaitCall, WaitReply, CF_OEMTEXT, CF_TEXT,
    OWNER_POLLS, WM_DESTROYCLIPBOARD, WM_RENDERALLFORMATS, WM_RENDERFORMAT};
use win_text_inject::supply::{supply, Supply, SupplyCall, SupplyReply};
use win_text_inject::{Delay, Error, Offer, OsError};

/// The threads and windows of a process: the owner window appears `delay` looks after its thread
/// was started.
struct Process {
    claimed: bool,
    spawns: u32,
    can_spawn: bool,
    delay: u32,
    slept: u64,
}

impl Process {
    fn new(can_spawn: bool, delay: u32) -> Process {
        Process { claimed: false, spawns: 0, can_spawn, delay, slept: 0 }
    }

    fn answer(&mut self, call: OwnerCall) -> OwnerReply {
        match call {
            OwnerCall::LoadHandle => {
                if self.spawns > 0 && self.delay == 0 {
                    OwnerReply::Handle(0x77)
                } else {
                    self.delay = self.delay.saturating_sub(if self.spawns > 0 { 1 } else { 0 });
                    OwnerReply::Handle(0)
                }
            }
            OwnerCall::Claim => {
                let before = self.claimed;
                self.claimed = true;
                OwnerReply::Claimed(before)
            }
            OwnerCall::Spawn => {
                if self.can_spawn {
                    self.spawns += 1;
                }
                OwnerReply::Spawned(self.can_spawn)
            }
            OwnerCall::Sleep { millis } => {
                self.slept += millis;
                OwnerReply::Finished
            }
        }
    }

    fn run(&mut self, mut start: OwnerStart) -> Result<isize, Error> {
        while let Some(call) = start.call() {
            start = start.reply(self.answer(call));
        }
        start.result().unwrap()
    }
}

/// A consumer reads the promise at `now`.
fn read(state: &mut State, now: u128) {
    let answer = state.render(CF_UNICODETEXT).unwrap();
    state.note_render(&answer, now);
}

fn rendered(state: &State, format: u32) -> Option<Vec<u8>> {
    state.render(format).map(|answer| answer.bytes().to_vec())
}

/// A promise with `before` reads before the paste and `after` reads behind it, the last at `last`.
fn read_state(before: u32, after: u32, last: u128) -> State {
    let mut state = State::new();
    state.promise("x");
    for _ in 0..before {
        read(&mut state, last);
    }
    Offer {}.mark_paste_sent(&mut state);
    for _ in 0..after {
        read(&mut state, last);
    }
    state
}

fn await_reads(wait: ReadWait, reads: Option<Reads>) -> ReadWait {
    assert!(matches!(wait.call(), Some(WaitCall::AwaitRead { .. })));
    wait.reply(WaitReply::Reads(reads))
}

#[test]
fn owner_window_starts_and_is_reused() {
    let mut process = Process::new(true, 3);
    let a = process.run(ensure_owner()).expect("owner window");
    let b = process.run(ensure_owner()).expect("owner window again");
    assert_eq!(a, b);
    assert!(a != 0);
    assert_eq!(process.spawns, 1);
    assert_eq!(process.slept, 15);
}

#[test]
fn an_owner_started_by_another_caller_is_waited_for() {
    let mut process = Process::new(true, 2);
    process.claimed = true;
    process.spawns = 1;
    assert_eq!(process.run(ensure_owner()), Ok(0x77));
    assert_eq!(process.spawns, 1);
}

#[test]
fn an_owner_thread_that_cannot_start_is_an_error() {
    let mut process = Process::new(false, 0);
    assert_eq!(process.run(ensure_owner()), Err(Error::OwnerWindowFailed));
    assert_eq!(process.slept, 0);
}

#[test]
fn an_owner_that_never_appears_is_an_error() {
    let mut process = Process::new(true, 1000);
    assert_eq!(process.run(ensure_owner()), Err(Error::OwnerWindowFailed));
    assert_eq!(process.slept, 1000);
    assert_eq!(OWNER_POLLS, 200);
}

#[test]
fn non_text_formats_are_not_rendered() {
    // CF_BITMAP (2) is not something we promise; asking for it must not mark a read.
    let mut state = State::new();
    state.promise("x");
    assert_eq!(rendered(&state, 2), None);
    assert!(!Offer {}.wait_for_read(Some(state.reads())));
}

#[test]
fn text_formats_are_rendered_as_unicode() {
    let mut state = State::new();
    assert_eq!(rendered(&state, CF_UNICODETEXT), None);
    state.promise("hi\u{1F600}");
    for format in [CF_UNICODETEXT, CF_TEXT, CF_OEMTEXT] {
        assert_eq!(rendered(&state, format), Some(utf16_bytes("hi\u{1F600}")));
    }
    state.void();
    assert_eq!(rendered(&state, CF_UNICODETEXT), None);
}

#[test]
fn messages_have_their_duties() {
    assert_eq!((WM_RENDERFORMAT, WM_RENDERALLFORMATS, WM_DESTROYCLIPBOARD), (0x305, 0x306, 0x307));
    assert_eq!(wndproc(WM_RENDERFORMAT, 13), OwnerDuty::Render(13));
    assert_eq!(wndproc(WM_RENDERFORMAT, 2), OwnerDuty::Render(2));
    assert_eq!(wndproc(WM_RENDERALLFORMATS, 0), OwnerDuty::RenderAll(CF_UNICODETEXT));
    assert_eq!(wndproc(WM_DESTROYCLIPBOARD, 0), OwnerDuty::Void);
    assert_eq!(wndproc(0x0010, 13), OwnerDuty::Default);
}

#[test]
fn reads_are_counted_from_publishing() {
    let offer = Offer {};
    let mut state = read_state(1, 2, 5);
    assert_eq!(offer.read_count(Some(state.reads())), 3);
    assert!(offer.wait_for_read(Some(state.reads())));
    assert!(offer.consumed_before_paste(Some(state.reads())));
    state.promise("y");
    assert_eq!(offer.read_count(Some(state.reads())), 0);
    assert!(!offer.wait_for_read(Some(state.reads())));
    assert!(!offer.consumed_before_paste(Some(state.reads())));
}

#[test]
fn voiding_a_promise_keeps_its_reads() {
    let mut state = read_state(0, 2, 5);
    state.void();
    assert_eq!(Offer {}.read_count(Some(state.reads())), 2);
}

#[test]
fn an_unusable_record_knows_of_no_reads() {
    let offer = Offer {};
    assert_eq!(offer.read_count(None), 0);
    assert!(!offer.wait_for_read(None));
    assert!(!offer.consumed_before_paste(None));
}

#[test]
fn a_read_before_the_paste_is_no_read_of_the_target() {
    let reads = read_state(2, 0, 5).reads();
    assert!(reads.awaited(true));
    assert!(!reads.awaited(false));
    let reads = read_state(2, 1, 5).reads();
    assert!(!reads.awaited(true));
}

#[test]
fn waiting_for_the_target_ignores_earlier_reads() {
    let wait = Offer {}.wait_for_target_read(Delay::from_secs(3), Delay::from_millis(400));
    let over = await_reads(wait, Some(read_state(4, 0, 5).reads()));
    assert_eq!(over.result(), Some(None));
    let over = await_reads(wait, None);
    assert_eq!(over.result(), Some(None));
}

#[test]
fn reads_must_stay_quiet_before_they_count() {
    let quiet = Delay::from_millis(400);
    let wait = Offer {}.wait_for_target_read(Delay::from_secs(3), quiet);
    let early = read_state(1, 1, 1_000_000_000).reads();
    let late = read_state(1, 3, 1_200_000_000).reads();

    let wait = await_reads(wait, Some(early));
    assert!(matches!(wait.call(), Some(WaitCall::Observe)));
    let wait = wait.reply(WaitReply::Observed { reads: Some(early), now: 1_100_000_000 });
    assert!(matches!(wait.call(), Some(WaitCall::Sleep(Delay { nanos: 300_000_000 }))));
    let wait = wait.reply(WaitReply::Finished);
    let wait = wait.reply(WaitReply::Observed { reads: Some(late), now: 1_400_000_000 });
    assert!(matches!(wait.call(), Some(WaitCall::Sleep(Delay { nanos: 200_000_000 }))));
    let wait = wait.reply(WaitReply::Finished);
    let wait = wait.reply(WaitReply::Observed { reads: Some(late), now: 1_600_000_000 });
    assert!(matches!(wait.call(), Some(WaitCall::Tally)));
    let wait = wait.reply(WaitReply::Reads(Some(late)));
    assert!(wait.call().is_none());
    assert_eq!(wait.result(), Some(Some(3)));
}

#[test]
fn every_read_counts_where_the_paste_does_not_matter() {
    let quiet = Delay::from_millis(0);
    let wait = Offer {}.wait_for_reads_to_settle(Delay::from_secs(1), quiet);
    assert!(matches!(
        wait.call(),
        Some(WaitCall::AwaitRead { target_only: false, timeout: Delay { nanos: 1_000_000_000 } })
    ));
    let reads = Some(read_state(1, 3, 50).reads());
    let wait = await_reads(wait, reads);
    // A clock that seems to run backwards counts as no time at all.
    let wait = wait.reply(WaitReply::Observed { reads, now: 40 });
    let wait = wait.reply(WaitReply::Reads(reads));
    assert_eq!(wait.result(), Some(Some(4)));
}

#[test]
fn a_record_that_becomes_unusable_ends_the_wait() {
    let wait = Offer {}.wait_for_reads_to_settle(Delay::from_secs(1), Delay::from_secs(1));
    let reads = Some(read_state(0, 1, 50).reads());
    let observing = await_reads(wait, reads);
    let over = observing.reply(WaitReply::Observed { reads: None, now: 60 });
    assert_eq!(over.result(), Some(None));
    let tallying = observing.reply(WaitReply::Observed { reads, now: 2_000_000_000 });
    assert_eq!(tallying.reply(WaitReply::Reads(None)).result(), Some(None));
}

/// A clipboard that belongs to window `owner` and is told of by messages to window 0x77, whose
/// promises `state` records.
struct Desk {
    process: Process,
    state: State,
    owner: isize,
    usable: bool,
    locked: bool,
    calls: Vec<&'static str>,
}

const DENIED: OsError = OsError { code: -2147024891 };

impl Desk {
    fn new() -> Desk {
        Desk {
            process: Process::new(true, 1),
            state: State::new(),
            owner: 0,
            usable: true,
            locked: false,
            calls: vec![],
        }
    }

    /// Tells our window that the clipboard was emptied, where it owned it.
    fn take(&mut self, owner: isize) {
        if self.owner == 0x77 {
            assert_eq!(wndproc(WM_DESTROYCLIPBOARD, 0), OwnerDuty::Void);
            self.state.void();
        }
        self.owner = owner;
    }

    fn publish(&mut self, text: &str) -> Result<Offer, Error> {
        let mut publication = Offer::publish(text);
        while let Some(call) = publication.call() {
            publication = publication.reply(match call {
                PublishCall::Owner(call) => PublishReply::Owner(self.process.answer(call)),
                PublishCall::Record(text) => {
                    if self.usable {
                        self.calls.push("record");
                        self.state.promise(text);
                    }
                    PublishReply::Recorded(self.usable)
                }
                PublishCall::Clipboard(call) => PublishReply::Clipboard(match call {
                    ClipboardCall::Open { owner } => {
                        assert_eq!(owner, 0x77);
                        self.calls.push("open");
                        ClipboardReply::Status(if self.locked { Err(DENIED) } else { Ok(()) })
                    }
                    ClipboardCall::Sleep { .. } => ClipboardReply::Finished,
                    ClipboardCall::Empty => {
                        self.calls.push("empty");
                        self.take(0x77);
                        ClipboardReply::Status(Ok(()))
                    }
                    ClipboardCall::Record(text) => {
                        self.calls.push("record");
                        self.state.promise(text);
                        ClipboardReply::Recorded(true)
                    }
                    ClipboardCall::SetData { .. } => {
                        self.calls.push("set");
                        ClipboardReply::Status(Ok(()))
                    }
                    ClipboardCall::Register { .. } => ClipboardReply::Format(0),
                    ClipboardCall::Owner => ClipboardReply::Owner(self.owner),
                    ClipboardCall::Advertised { .. } => ClipboardReply::Advertised(true),
                    ClipboardCall::Close => ClipboardReply::Finished,
                    other => panic!("unexpected {other:?}"),
                }),
            });
        }
        publication.result().unwrap()
    }
}

#[test]
fn a_promise_is_recorded_first_and_again_once_the_clipboard_is_empty() {
    let mut desk = Desk::new();
    assert!(desk.publish("later").is_ok());
    assert_eq!(desk.calls, vec!["record", "open", "empty", "record", "set"]);
    assert_eq!(rendered(&desk.state, CF_UNICODETEXT), Some(utf16_bytes("later")));
}

#[test]
fn the_newest_offer_replaces_an_older_one() {
    let mut desk = Desk::new();
    assert!(desk.publish("a").is_ok());
    let offer = desk.publish("b").unwrap();
    assert!(offer.still_offered(&desk.state));
    assert_eq!(rendered(&desk.state, CF_UNICODETEXT), Some(utf16_bytes("b")));
    read(&mut desk.state, 5);
    assert_eq!(offer.read_count(Some(desk.state.reads())), 1);
}

#[test]
fn a_publication_that_finds_the_clipboard_locked_leaves_its_record() {
    let mut desk = Desk::new();
    assert!(desk.publish("a").is_ok());
    read(&mut desk.state, 5);
    desk.locked = true;
    assert_eq!(desk.publish("b").err(), Some(Error::ClipboardLocked(DENIED)));
    assert_eq!(rendered(&desk.state, CF_UNICODETEXT), Some(utf16_bytes("b")));
    assert_eq!(Offer {}.read_count(Some(desk.state.reads())), 0);
}

#[test]
fn an_offer_ends_when_another_process_takes_the_clipboard() {
    let mut desk = Desk::new();
    let offer = desk.publish("a").unwrap();
    read(&mut desk.state, 5);
    assert!(offer.still_offered(&desk.state));
    desk.take(0x99);
    assert!(!offer.still_offered(&desk.state));
    assert_eq!(rendered(&desk.state, CF_UNICODETEXT), None);
}

#[test]
fn a_promise_that_could_not_be_kept_leaves_the_clipboard_alone() {
    let mut desk = Desk::new();
    desk.usable = false;
    assert_eq!(desk.publish("x").err(), Some(Error::OwnerWindowFailed));
    assert!(desk.calls.is_empty());
}

/// Serves a request from `state`, and gives back the names of the calls, the data that was set and
/// whether a read was noted.
fn serve(
    state: &mut State,
    duty: OwnerDuty,
    opens: bool,
    memory: bool,
) -> (Vec<&'static str>, Option<(u32, Vec<u8>)>, bool) {
    let answer = match duty {
        OwnerDuty::Render(format) => state.render(format),
        OwnerDuty::RenderAll(format) => state.render(format),
        _ => None,
    };
    let mut request: Supply<'_> = supply(duty, 0x77).unwrap();
    let mut calls = Vec::new();
    let mut block = Vec::new();
    let mut data = None;
    while let Some(call) = request.call() {
        request = request.reply(match call {
            SupplyCall::Open { window } => {
                assert_eq!(window, 0x77);
                calls.push("open");
                SupplyReply::Opened(opens)
            }
            SupplyCall::Ask { .. } => {
                calls.push("ask");
                SupplyReply::Answer(answer.as_ref())
            }
            SupplyCall::Fill(answer) => {
                calls.push("fill");
                block = answer.bytes().to_vec();
                SupplyReply::Block(if memory { Ok(1) } else { Err(Error::Alloc(DENIED)) })
            }
            SupplyCall::SetData { format, block: handle } => {
                calls.push("set");
                assert_eq!(handle, 1);
                data = Some((format, block.clone()));
                SupplyReply::Taken(true)
            }
            SupplyCall::Note(answer) => {
                calls.push("note");
                state.note_render(answer, 9);
                SupplyReply::Finished
            }
            SupplyCall::Close => {
                calls.push("close");
                SupplyReply::Finished
            }
        });
    }
    (calls, data, request.result().unwrap())
}

#[test]
fn a_request_is_served_as_unicode_whichever_text_format_was_asked() {
    let offer = Offer {};
    for format in [CF_UNICODETEXT, CF_TEXT, CF_OEMTEXT] {
        let mut state = State::new();
        state.promise("hi");
        assert_eq!(state.render(format).unwrap().format(), 13);
        let (calls, data, noted) = serve(&mut state, OwnerDuty::Render(format), true, true);
        assert_eq!(calls, vec!["ask", "fill", "set", "note"]);
        assert_eq!(data, Some((13, utf16_bytes("hi"))));
        assert!(noted);
        assert_eq!(offer.read_count(Some(state.reads())), 1);
        assert!(offer.wait_for_read(Some(state.reads())));
        assert!(offer.still_offered(&state));
    }
}

#[test]
fn a_request_that_is_not_covered_changes_nothing() {
    let mut state = State::new();
    let (calls, data, noted) = serve(&mut state, OwnerDuty::Render(13), true, true);
    assert_eq!((calls, data, noted), (vec!["ask"], None, false));
    state.promise("hi");
    let (calls, data, noted) = serve(&mut state, OwnerDuty::Render(2), true, true);
    assert_eq!((calls, data, noted), (vec!["ask"], None, false));
    assert_eq!(Offer {}.read_count(Some(state.reads())), 0);
}

#[test]
fn a_read_counts_even_where_there_is_no_memory() {
    let mut state = State::new();
    state.promise("hi");
    let (calls, data, noted) = serve(&mut state, OwnerDuty::Render(13), true, false);
    assert_eq!((calls, data, noted), (vec!["ask", "fill", "note"], None, true));
    assert_eq!(Offer {}.read_count(Some(state.reads())), 1);
}

#[test]
fn everything_is_supplied_with_the_clipboard_open() {
    let mut state = State::new();
    state.promise("hi");
    let all = OwnerDuty::RenderAll(CF_UNICODETEXT);
    let (calls, data, noted) = serve(&mut state, all, false, true);
    assert_eq!((calls, data, noted), (vec!["open"], None, false));
    let (calls, data, noted) = serve(&mut state, all, true, true);
    assert_eq!(calls, vec!["open", "ask", "fill", "set", "note", "close"]);
    assert_eq!((data, noted), (Some((13, utf16_bytes("hi"))), true));
    state.void();
    let (calls, data, noted) = serve(&mut state, all, true, true);
    assert_eq!((calls, data, noted), (vec!["open", "ask", "close"], None, false));
}

#[test]
fn other_duties_supply_nothing() {
    assert!(supply(OwnerDuty::Void, 0x77).is_none());
    assert!(supply(OwnerDuty::Default, 0x77).is_none());
}

#[test]
fn concurrent_callers_start_one_thread_and_share_its_window() {
    for pattern in 0..64u32 {
        let mut process = Process::new(true, 4);
        let mut callers = [ensure_owner(), ensure_owner(), ensure_owner()];
        let mut step: u32 = 0;
        while callers.iter().any(|caller| caller.call().is_some()) {
            let turn = (pattern.rotate_right(step) % 3) as usize;
            for i in [turn, step as usize % 3] {
                if let Some(call) = callers[i].call() {
                    callers[i] = callers[i].reply(process.answer(call));
                }
            }
            step += 1;
        }
        assert_eq!(process.spawns, 1);
        for caller in callers {
            assert_eq!(caller.result(), Some(Ok(0x77)));
        }
        let later = process.run(ensure_owner());
        assert_eq!(later, Ok(0x77));
        assert_eq!(process.spawns, 1);
    }
}
