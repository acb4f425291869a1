//! Whole injections.

use win_text_inject::{inject, Chord, ClipboardOnlyReason, Delay, Error, InjectCall, InjectReply,
    Integrity, Options, OsError, Outcome, Strategy, Target};

fn target() -> Target {
    Target {
        hwnd: 7,
        pid: 99,
        exe: "mintty.exe".to_string(),
        class: "mintty".to_string(),
        integrity: Integrity::Medium,
    }
}

/// How a system behaves during an injection.
#[derive(Clone, Copy)]
struct Run {
    window: isize,
    level: Option<Integrity>,
    captured: bool,
    reads: Option<u32>,
    consumed: bool,
    offered: bool,
    fail: &'static str,
    error: Error,
}

const GOOD: Run = Run {
    window: 7,
    level: Some(Integrity::Medium),
    captured: true,
    reads: Some(1),
    consumed: false,
    offered: true,
    fail: "",
    error: Error::SendInputBlocked,
};

fn name(call: &InjectCall<'_>) -> String {
    match call {
        InjectCall::ForegroundWindow => "window".to_string(),
        InjectCall::OwnIntegrity => "level".to_string(),
        InjectCall::WriteText(text) => format!("write {text}"),
        InjectCall::Sanitize => "sanitize".to_string(),
        InjectCall::TypeText(text) => format!("type {text}"),
        InjectCall::Capture => "capture".to_string(),
        InjectCall::Publish(text) => format!("publish {text}"),
        InjectCall::MarkPasteSent => "mark".to_string(),
        InjectCall::SendChord(chord) => format!("{chord:?}"),
        InjectCall::WaitForTargetRead { timeout, quiet } => {
            format!("wait {} {}", timeout.nanos / 1_000_000, quiet.nanos / 1_000_000)
        }
        InjectCall::ConsumedBeforePaste => "consumed".to_string(),
        InjectCall::StillOffered => "offered".to_string(),
        InjectCall::Sleep(delay) => format!("sleep {}", delay.nanos / 1_000_000),
        InjectCall::Restore => "restore".to_string(),
        InjectCall::SequenceNumber => "sequence".to_string(),
        InjectCall::RestoreIfOurs(ours) => format!("restore {ours}"),
    }
}

impl Run {
    fn inject(self, options: Options) -> (Vec<String>, Result<Outcome, Error>) {
        let target = target();
        let mut injection = inject(&target, "hi", options);
        let mut calls = Vec::new();
        while let Some(call) = injection.call() {
            let name = name(&call);
            let status = if !self.fail.is_empty() && name.starts_with(self.fail) {
                Err(self.error)
            } else {
                Ok(())
            };
            injection = injection.reply(match call {
                InjectCall::ForegroundWindow => InjectReply::Window(self.window),
                InjectCall::OwnIntegrity => InjectReply::Level(self.level),
                InjectCall::Capture => InjectReply::Captured(self.captured),
                InjectCall::WaitForTargetRead { .. } => InjectReply::Reads(self.reads),
                InjectCall::ConsumedBeforePaste => InjectReply::Consumed(self.consumed),
                InjectCall::StillOffered => InjectReply::Offered(self.offered),
                InjectCall::SequenceNumber => InjectReply::Sequence(31),
                InjectCall::MarkPasteSent => InjectReply::Finished,
                InjectCall::Sleep(_) => InjectReply::Finished,
                InjectCall::Restore => InjectReply::Finished,
                InjectCall::RestoreIfOurs(_) => InjectReply::Finished,
                InjectCall::WriteText(_) => InjectReply::Status(status),
                InjectCall::Sanitize => InjectReply::Status(status),
                InjectCall::TypeText(_) => InjectReply::Status(status),
                InjectCall::Publish(_) => InjectReply::Status(status),
                InjectCall::SendChord(_) => InjectReply::Status(status),
            });
            calls.push(name);
        }
        (calls, injection.result().unwrap())
    }
}

#[test]
fn only_clipboard_only_requires_manual_paste() {
    assert!(!Outcome::Pasted { read_confirmed: true }.needs_manual_paste());
    assert!(!Outcome::Typed.needs_manual_paste());
    assert!(Outcome::ClipboardOnly(ClipboardOnlyReason::ElevatedTarget).needs_manual_paste());
}

#[test]
fn defaults_restore_the_clipboard_and_pin_the_target() {
    let o = Options::default();
    assert!(o.restore_clipboard);
    assert!(o.require_same_target);
    assert_eq!(o.strategy, Strategy::ClipboardPaste);
}

#[test]
fn delayed_render_is_the_default() {
    // The timer path is the known-broken one; it must be opt-in, not the default.
    assert!(Options::default().delayed_render);
}

#[test]
fn timer_path_cannot_confirm_a_read() {
    // Only the delayed-render path can know the target actually read the clipboard.
    assert!(!Outcome::Pasted { read_confirmed: false }.needs_manual_paste());
}

#[test]
fn the_default_delays_are_exact() {
    let o = Options::default();
    assert_eq!(o.pre_paste, Delay::from_millis(30));
    assert_eq!(o.post_paste, Delay::from_millis(120));
    assert_eq!(o.read_timeout, Delay::from_secs(3));
    assert_eq!(o.read_quiet, Delay::from_millis(400));
    assert_eq!(o.chord, None);
    assert_eq!(Delay::from_millis(400), Delay { nanos: 400_000_000 });
    assert_eq!(Delay::from_secs(3), Delay { nanos: 3_000_000_000 });
    assert_eq!(Strategy::default(), Strategy::ClipboardPaste);
}

#[test]
fn a_promise_is_pasted_and_restored_after_the_read() {
    let (calls, result) = GOOD.inject(Options::default());
    assert_eq!(
        calls,
        vec![
            "window", "level", "capture", "publish hi", "sleep 30", "sanitize", "mark",
            "CtrlShiftV", "wait 3000 400", "offered", "restore",
        ]
    );
    assert_eq!(result, Ok(Outcome::Pasted { read_confirmed: true }));
}

#[test]
fn a_consumed_promise_is_restored_after_the_read_timeout() {
    let run = Run { reads: None, consumed: true, ..GOOD };
    let (calls, result) = run.inject(Options::default());
    assert_eq!(
        calls[8..].to_vec(),
        vec!["wait 3000 400", "consumed", "offered", "restore"]
    );
    assert_eq!(result, Ok(Outcome::Pasted { read_confirmed: false }));
}

#[test]
fn an_unread_promise_is_left_on_the_clipboard() {
    let run = Run { reads: None, ..GOOD };
    let (calls, result) = run.inject(Options::default());
    assert_eq!(calls[8..].to_vec(), vec!["wait 3000 400", "consumed"]);
    assert_eq!(result, Ok(Outcome::Pasted { read_confirmed: false }));
}

#[test]
fn a_clipboard_taken_by_another_process_is_not_restored() {
    for (reads, consumed, confirmed) in [(Some(1), false, true), (None, true, false)] {
        let run = Run { reads, consumed, offered: false, ..GOOD };
        let (calls, result) = run.inject(Options::default());
        assert_eq!(calls.last().map(String::as_str), Some("offered"));
        assert_eq!(result, Ok(Outcome::Pasted { read_confirmed: confirmed }));
    }
}

#[test]
fn post_paste_is_only_consulted_by_the_timer() {
    let slow = Options { post_paste: Delay::from_secs(9), ..Options::default() };
    for run in [
        GOOD,
        Run { reads: None, consumed: true, ..GOOD },
        Run { reads: None, ..GOOD },
        Run { offered: false, ..GOOD },
    ] {
        assert_eq!(run.inject(Options::default()), run.inject(slow));
    }
    let timed = Options { delayed_render: false, ..slow };
    let (calls, _) = GOOD.inject(timed);
    assert!(calls.contains(&"sleep 9000".to_string()));
}

#[test]
fn without_a_snapshot_nothing_is_restored() {
    let run = Run { captured: false, ..GOOD };
    let (calls, result) = run.inject(Options::default());
    assert_eq!(calls.last().map(String::as_str), Some("wait 3000 400"));
    assert_eq!(result, Ok(Outcome::Pasted { read_confirmed: true }));
    let options = Options { restore_clipboard: false, ..Options::default() };
    let (calls, _) = GOOD.inject(options);
    assert!(!calls.contains(&"capture".to_string()));
    assert!(!calls.contains(&"restore".to_string()));
}

#[test]
fn a_timed_paste_restores_its_own_write() {
    let options = Options { delayed_render: false, ..Options::default() };
    let (calls, result) = GOOD.inject(options);
    assert_eq!(
        calls,
        vec![
            "window", "level", "capture", "write hi", "sequence", "sleep 30", "sanitize",
            "CtrlShiftV", "sleep 120", "restore 31",
        ]
    );
    assert_eq!(result, Ok(Outcome::Pasted { read_confirmed: false }));
}

#[test]
fn typing_releases_modifiers_first() {
    let options = Options { strategy: Strategy::UnicodeType, ..Options::default() };
    let (calls, result) = GOOD.inject(options);
    assert_eq!(calls, vec!["window", "level", "sanitize", "type hi"]);
    assert_eq!(result, Ok(Outcome::Typed));
}

#[test]
fn a_requested_clipboard_write_stops_there() {
    let options = Options { strategy: Strategy::ClipboardOnly, ..Options::default() };
    let (calls, result) = GOOD.inject(options);
    assert_eq!(calls, vec!["window", "level", "write hi"]);
    assert_eq!(result, Ok(Outcome::ClipboardOnly(ClipboardOnlyReason::Requested)));
}

#[test]
fn an_elevated_target_gets_the_clipboard_only() {
    let run = Run { level: Some(Integrity::Low), ..GOOD };
    for strategy in [Strategy::ClipboardPaste, Strategy::UnicodeType, Strategy::ClipboardOnly] {
        let (calls, result) = run.inject(Options { strategy, ..Options::default() });
        assert_eq!(calls, vec!["window", "level", "write hi"]);
        assert_eq!(result, Ok(Outcome::ClipboardOnly(ClipboardOnlyReason::ElevatedTarget)));
    }
}

#[test]
fn an_unknown_own_level_is_no_obstacle() {
    let run = Run { level: None, ..GOOD };
    let (_, result) = run.inject(Options::default());
    assert_eq!(result, Ok(Outcome::Pasted { read_confirmed: true }));
}

#[test]
fn a_changed_focus_aborts_at_once() {
    let run = Run { window: 8, ..GOOD };
    let (calls, result) = run.inject(Options::default());
    assert_eq!(calls, vec!["window"]);
    assert_eq!(result, Err(Error::FocusChanged));
    let options = Options { require_same_target: false, ..Options::default() };
    let (calls, result) = run.inject(options);
    assert_eq!(calls[0], "level");
    assert!(result.is_ok());
}

#[test]
fn a_chord_can_be_overridden() {
    let options = Options { chord: Some(Chord::ShiftInsert), ..Options::default() };
    let (calls, _) = GOOD.inject(options);
    assert!(calls.contains(&"ShiftInsert".to_string()));
    assert!(!calls.contains(&"CtrlShiftV".to_string()));
}

#[test]
fn the_first_failure_ends_an_injection() {
    for (fail, last, error) in [
        ("publish", "publish hi", Error::OwnerWindowFailed),
        ("sanitize", "sanitize", Error::SendInputBlocked),
        ("CtrlShiftV", "CtrlShiftV", Error::SendInputBlocked),
    ] {
        let run = Run { fail, error, ..GOOD };
        let (calls, result) = run.inject(Options::default());
        assert_eq!(calls.last().map(String::as_str), Some(last));
        assert_eq!(result, Err(error));
    }
    let error = Error::Clipboard(OsError { code: -2147024891 });
    let run = Run { fail: "write", error, ..GOOD };
    let options = Options { delayed_render: false, ..Options::default() };
    let (calls, result) = run.inject(options);
    assert_eq!(calls.last().map(String::as_str), Some("write hi"));
    assert_eq!(result, Err(error));
}

#[test]
fn no_injection_makes_more_than_twelve_calls() {
    let run = Run { reads: None, consumed: true, ..GOOD };
    let (calls, _) = run.inject(Options::default());
    assert_eq!(calls.len(), 12);
}
