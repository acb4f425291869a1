//! Synthesized keyboard events.

use win_text_inject::error::Error;
use win_text_inject::modifiers::{any_held, is_down, key_up, sanitize, KEY_DOWN_MASK, MODIFIERS,
    VK_LCONTROL, VK_LMENU, VK_LSHIFT, VK_LWIN, VK_RCONTROL, VK_RMENU, VK_RSHIFT, VK_RWIN};
use win_text_inject::options::chord_inputs;
use win_text_inject::sendinput::{send, tagged_keyboard_input, unicode_inputs, unicode_unit, Chunk,
    KeyEvent, Sending, KEYEVENTF_KEYUP, KEYEVENTF_UNICODE, VK_CONTROL, VK_INSERT, VK_SHIFT, VK_V};
use win_text_inject::{type_text, Chord, INJECT_TAG};

fn scans(text: &str) -> Vec<u16> {
    unicode_inputs(text).iter().map(|event| event.scan).collect()
}

/// Sends `len` events to a queue that takes at most `room` of them, and gives back the chunks and
/// the result.
fn send_all(mut sending: Sending, room: usize) -> (Vec<Chunk>, Result<(), Error>) {
    let mut chunks = Vec::new();
    while let Some(chunk) = sending.call() {
        chunks.push(chunk);
        let taken = room.min(chunk.to).saturating_sub(chunk.from);
        sending = sending.reply(taken as u32);
    }
    (chunks, sending.result().unwrap())
}

#[test]
fn each_code_unit_produces_a_down_and_an_up() {
    assert_eq!(unicode_inputs("abc").len(), 6);
}

#[test]
fn non_bmp_characters_produce_four_events() {
    // One emoji is a surrogate pair, so two code units, so four events.
    assert_eq!(unicode_inputs("\u{1F600}").len(), 4);
    assert_eq!(scans("\u{1F600}"), vec![0xD83D, 0xD83D, 0xDE00, 0xDE00]);
}

#[test]
fn unicode_events_must_not_carry_a_virtual_key() {
    for input in unicode_inputs("hi\u{1F600}") {
        assert_eq!(input.vk, 0);
    }
}

#[test]
fn every_event_is_tagged_for_hook_filtering() {
    for input in unicode_inputs("hi") {
        assert_eq!(input.extra, INJECT_TAG);
    }
}

#[test]
fn empty_text_produces_no_events() {
    assert!(unicode_inputs("").is_empty());
    assert!(send(&[]).result().unwrap().is_ok());
}

#[test]
fn alternating_events_are_down_then_up() {
    let inputs = unicode_inputs("ab");
    let ups: Vec<bool> = inputs.iter().map(|i| i.flags & KEYEVENTF_KEYUP != 0).collect();
    assert_eq!(ups, vec![false, true, false, true]);
}

#[test]
fn the_tag_and_the_flags_are_exact() {
    assert_eq!(INJECT_TAG, 0x5754494A);
    assert_eq!(
        unicode_unit(0x41, true),
        KeyEvent { vk: 0, scan: 0x41, flags: 6, time: 0, extra: INJECT_TAG }
    );
    assert_eq!(
        unicode_unit(0x41, false),
        KeyEvent { vk: 0, scan: 0x41, flags: KEYEVENTF_UNICODE, time: 0, extra: INJECT_TAG }
    );
    assert_eq!(
        tagged_keyboard_input(VK_V, 0),
        KeyEvent { vk: 0x56, scan: 0, flags: 0, time: 0, extra: INJECT_TAG }
    );
    assert_eq!(key_up(VK_V), tagged_keyboard_input(VK_V, 2));
}

#[test]
fn long_input_is_sent_in_chunks() {
    let (events, sending) = type_text(&"x".repeat(300));
    assert_eq!(events.len(), 600);
    let (chunks, result) = send_all(sending, 600);
    assert_eq!(
        chunks,
        vec![
            Chunk { from: 0, to: 256 },
            Chunk { from: 256, to: 512 },
            Chunk { from: 512, to: 600 },
        ]
    );
    assert_eq!(result, Ok(()));
}

#[test]
fn a_full_chunk_is_sent_at_once() {
    let (_, sending) = type_text(&"x".repeat(128));
    let (chunks, result) = send_all(sending, 256);
    assert_eq!(chunks, vec![Chunk { from: 0, to: 256 }]);
    assert_eq!(result, Ok(()));
}

#[test]
fn a_short_count_blocks_the_rest() {
    let (_, sending) = type_text(&"x".repeat(300));
    let (chunks, result) = send_all(sending, 300);
    assert_eq!(chunks, vec![Chunk { from: 0, to: 256 }, Chunk { from: 256, to: 512 }]);
    assert_eq!(result, Err(Error::SendInputBlocked));
}

#[test]
fn terminals_get_ctrl_shift_v() {
    assert_eq!(Chord::for_exe("windowsterminal.exe"), Chord::CtrlShiftV);
    assert_eq!(Chord::for_exe("alacritty.exe"), Chord::CtrlShiftV);
}

#[test]
fn every_listed_terminal_gets_ctrl_shift_v() {
    for exe in ["conhost.exe", "mintty.exe", "putty.exe", "wezterm-gui.exe"] {
        assert_eq!(Chord::for_exe(exe), Chord::CtrlShiftV);
    }
}

#[test]
fn vs_code_gets_ctrl_v_not_shift_insert() {
    // Shift+Insert does nothing in the editor and the paste never fires. The Shift+Insert advice
    // in vendor docs describes the integrated terminal.
    assert_eq!(Chord::for_exe("code.exe"), Chord::CtrlV);
    assert_eq!(Chord::for_exe("cursor.exe"), Chord::CtrlV);
}

#[test]
fn unknown_apps_fall_back_to_ctrl_v() {
    assert_eq!(Chord::for_exe("notepad.exe"), Chord::CtrlV);
    assert_eq!(Chord::for_exe(""), Chord::CtrlV);
}

#[test]
fn chord_lookup_assumes_lowercased_input() {
    // A captured target has its executable name in lowercase, so the table only needs lowercase.
    assert_eq!(Chord::for_exe("Code.exe"), Chord::CtrlV);
}

#[test]
fn an_uppercase_terminal_is_not_recognized() {
    assert_eq!(Chord::for_exe("WindowsTerminal.exe"), Chord::CtrlV);
}

#[test]
fn chord_key_sequences_are_well_formed() {
    assert_eq!(Chord::CtrlV.keys().0.len(), 1);
    assert_eq!(Chord::CtrlShiftV.keys().0.len(), 2);
    assert_eq!(Chord::ShiftInsert.keys().1, VK_INSERT);
}

#[test]
fn chords_press_and_release_in_reverse() {
    assert_eq!(
        chord_inputs(Chord::CtrlShiftV),
        vec![
            tagged_keyboard_input(VK_CONTROL, 0),
            tagged_keyboard_input(VK_SHIFT, 0),
            tagged_keyboard_input(VK_V, 0),
            key_up(VK_V),
            key_up(VK_SHIFT),
            key_up(VK_CONTROL),
        ]
    );
    assert_eq!(
        chord_inputs(Chord::ShiftInsert),
        vec![
            tagged_keyboard_input(VK_SHIFT, 0),
            tagged_keyboard_input(VK_INSERT, 0),
            key_up(VK_INSERT),
            key_up(VK_SHIFT),
        ]
    );
}

#[test]
fn modifier_set_covers_both_sides_of_every_modifier() {
    assert_eq!(MODIFIERS.len(), 8);
    for pair in [
        (VK_LSHIFT, VK_RSHIFT),
        (VK_LCONTROL, VK_RCONTROL),
        (VK_LMENU, VK_RMENU),
        (VK_LWIN, VK_RWIN),
    ] {
        assert!(MODIFIERS.contains(&pair.0));
        assert!(MODIFIERS.contains(&pair.1));
    }
}

#[test]
fn any_held_agrees_with_per_key_state() {
    // Whatever the keyboard state is, the aggregate must match the individual checks.
    for mask in 0..256u32 {
        let mut states = [0i16; 8];
        for (i, state) in states.iter_mut().enumerate() {
            *state = if mask >> i & 1 == 1 { i16::MIN } else { 1 };
        }
        let individually = states.into_iter().any(is_down);
        assert_eq!(any_held(&states), individually);
    }
}

#[test]
fn only_the_high_bit_means_down() {
    assert_eq!(KEY_DOWN_MASK, 0x8000);
    assert!(is_down(i16::MIN));
    assert!(is_down(-1));
    assert!(!is_down(0));
    assert!(!is_down(1));
    assert!(!is_down(i16::MAX));
}

#[test]
fn held_modifiers_are_released_in_order() {
    let release = sanitize(&[0, 1, -1, 0, 0, i16::MIN, 0, 0]);
    assert_eq!(release.held, vec![VK_LCONTROL, VK_RMENU]);
    assert_eq!(release.due(), Some(&[key_up(VK_LCONTROL), key_up(VK_RMENU)][..]));
    assert_eq!(release.finish(Some(2)), Ok(vec![VK_LCONTROL, VK_RMENU]));
}

#[test]
fn a_blocked_release_is_an_error() {
    let release = sanitize(&[-1, -1, 0, 0, 0, 0, 0, 0]);
    assert_eq!(release.finish(Some(1)), Err(Error::SendInputBlocked));
}

#[test]
fn with_no_modifier_held_nothing_is_sent() {
    let release = sanitize(&[0; 8]);
    assert_eq!(release.due(), None);
    assert_eq!(release.finish(None), Ok(vec![]));
}

#[test]
fn a_paste_after_a_release_meets_a_clear_keyboard() {
    let states = [-1i16, 0, 0, 0, 0, -1, 0, 0];
    let mut down: Vec<u16> = vec![VK_LSHIFT, VK_RMENU];
    let mut at_press = Vec::new();
    let mut events = sanitize(&states).inputs;
    events.extend(chord_inputs(Chord::CtrlV));
    for event in events {
        if event.flags & KEYEVENTF_KEYUP != 0 {
            down.retain(|vk| *vk != event.vk);
        } else {
            down.push(event.vk);
        }
        if event == tagged_keyboard_input(VK_V, 0) {
            at_press = down.clone();
        }
    }
    assert_eq!(at_press, vec![VK_CONTROL, VK_V]);
    assert!(down.is_empty());
}
