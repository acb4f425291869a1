//! Texts, code units and paths.

use win_text_inject::image_path::file_name;
use win_text_inject::probe::process_exe_name;
use win_text_inject::text::{chars_of, same_text, string_of};
use win_text_inject::utf16::{decode_lossy, encode, REPLACEMENT};

fn name_of(path: &str) -> Option<String> {
    let chars: Vec<char> = path.chars().collect();
    file_name(&chars).map(|name| name.into_iter().collect())
}

#[test]
fn encoding_agrees_with_the_standard_library() {
    for text in ["", "hi", "\u{1F600}", "a\u{FFFF}b\u{10000}c\u{10FFFF}", "\u{D7FF}\u{E000}", "\0x"] {
        let expected: Vec<u16> = text.encode_utf16().collect();
        assert_eq!(encode(text), expected);
    }
}

#[test]
fn decoding_agrees_with_the_standard_library() {
    let runs: [&[u16]; 9] = [
        &[],
        &[0x68, 0x69],
        &[0xD83D, 0xDE00],
        &[0xD83D],
        &[0xDE00],
        &[0xDE00, 0xD83D],
        &[0xD83D, 0xD83D, 0xDE00],
        &[0x41, 0xD800, 0x42],
        &[0xD7FF, 0xE000, 0xFFFF, 0x0000],
    ];
    for units in runs {
        assert_eq!(decode_lossy(units), String::from_utf16_lossy(units));
    }
}

#[test]
fn unpaired_surrogates_are_replaced() {
    assert_eq!(decode_lossy(&[0x41, 0xD800, 0x42]), "A\u{FFFD}B");
    assert_eq!(REPLACEMENT, '\u{FFFD}');
}

#[test]
fn decoding_undoes_encoding() {
    for text in ["", "plain", "\u{1F600} and \u{10FFFF}", "a\0b"] {
        assert_eq!(decode_lossy(&encode(text)), text);
    }
}

#[test]
fn strings_come_back_from_their_characters() {
    let text = "x\u{1F600}y";
    assert_eq!(chars_of(text), vec!['x', '\u{1F600}', 'y']);
    assert_eq!(string_of(&chars_of(text)), text);
}

#[test]
fn same_text_compares_every_character() {
    assert!(same_text("", ""));
    assert!(same_text("conhost.exe", "conhost.exe"));
    assert!(!same_text("conhost.exe", "conhost.exf"));
    assert!(!same_text("conhost.exe", "conhost.ex"));
    assert!(!same_text("a", "A"));
}

#[test]
fn drive_paths_end_in_their_file() {
    assert_eq!(name_of(r"C:\Windows\System32\conhost.exe"), Some("conhost.exe".to_string()));
    assert_eq!(name_of(r"C:\a"), Some("a".to_string()));
    assert_eq!(name_of(r"C:/mixed\slashes/x.exe"), Some("x.exe".to_string()));
    assert_eq!(name_of(r"C:relative.exe"), Some("relative.exe".to_string()));
}

#[test]
fn trailing_separators_and_dots_do_not_count() {
    assert_eq!(name_of(r"C:\dir\"), Some("dir".to_string()));
    assert_eq!(name_of(r"C:\dir\\.\"), Some("dir".to_string()));
    assert_eq!(name_of(r"C:\dir\."), Some("dir".to_string()));
}

#[test]
fn some_paths_end_in_no_file() {
    assert_eq!(name_of(""), None);
    assert_eq!(name_of(r"C:\"), None);
    assert_eq!(name_of("C:"), None);
    assert_eq!(name_of(r"C:\dir\.."), None);
    assert_eq!(name_of(r"\\server\share"), None);
    assert_eq!(name_of(r"\\server\share\"), None);
    assert_eq!(name_of(r"\\?\C:\"), None);
    assert_eq!(name_of(r"\\?\UNC\server\share"), None);
    assert_eq!(name_of(r"\\.\device"), None);
}

#[test]
fn prefixed_paths_end_in_their_file() {
    assert_eq!(name_of(r"\\server\share\app.exe"), Some("app.exe".to_string()));
    assert_eq!(name_of(r"\\?\C:\app.exe"), Some("app.exe".to_string()));
    assert_eq!(name_of(r"\\?\UNC\server\share\app.exe"), Some("app.exe".to_string()));
    assert_eq!(name_of(r"\\.\device\app.exe"), Some("app.exe".to_string()));
}

#[test]
fn only_backslashes_separate_in_verbatim_paths() {
    assert_eq!(name_of(r"\\?\C:\dir/app.exe"), Some("dir/app.exe".to_string()));
    assert_eq!(name_of(r"\\?\C:\dir\."), None);
}

#[test]
fn executable_names_are_lowercased() {
    let path: Vec<u16> = r"C:\Program Files\WindowsTerminal.exe".encode_utf16().collect();
    assert_eq!(process_exe_name(&path), Some("windowsterminal.exe".to_string()));
    let accented: Vec<u16> = "C:\\\u{C4}PP.EXE".encode_utf16().collect();
    assert_eq!(process_exe_name(&accented), Some("\u{E4}pp.exe".to_string()));
}

#[test]
fn a_path_without_a_file_has_no_executable_name() {
    let root: Vec<u16> = r"C:\".encode_utf16().collect();
    assert_eq!(process_exe_name(&root), None);
}
