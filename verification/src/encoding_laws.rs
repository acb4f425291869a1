//! The encodings that other applications read: UTF-16, its bytes, and the numbers that Windows
//! assigns.

use vstd::prelude::*;

use crate::clipboard::{Payload, CF_UNICODETEXT, OPEN_BACKOFF_MS, OPEN_RETRIES, PRIVACY_FORMATS};
use crate::delayed::{CF_OEMTEXT, CF_TEXT, OWNER_POLLS, OWNER_POLL_MS, WM_DESTROYCLIPBOARD,
    WM_RENDERALLFORMATS, WM_RENDERFORMAT};
use crate::error::{Error, OsError};

verus! {

/// A character is encoded as UTF-16 has it, wherever in a text it stands: below U+10000 as the one
/// unit that is its code, above as two surrogates that hold the upper and the lower ten bits of what
/// its code exceeds 0x10000 by. What stands before and behind it is encoded independently.
pub proof fn law_encoding_is_utf16(before: Seq<char>, c: char, behind: Seq<char>)
    ensures
        ({
            let all = crate::utf16::units(before + seq![c] + behind);
            let n = crate::utf16::units(before).len() as int;
            let code = c as u32 as int;
            let width: int = if code < 0x10000 {
                1
            } else {
                2
            };
            &&& all.len() == n + width + crate::utf16::units(behind).len()
            &&& all.take(n) == crate::utf16::units(before)
            &&& all.skip(n + width) == crate::utf16::units(behind)
            &&& code < 0x10000 ==> all[n] as int == code
            &&& code >= 0x10000 ==> {
                &&& all[n] as int == 0xD800 + (code - 0x10000) / 0x400
                &&& all[n + 1] as int == 0xDC00 + (code - 0x10000) % 0x400
            }
        }),
{
    let one = seq![c];
    let units = crate::utf16::units(one);
    crate::utf16::lemma_units_concat(before + one, behind);
    crate::utf16::lemma_units_concat(before, one);
    assert(one.drop_last() =~= Seq::<char>::empty());
    reveal_with_fuel(crate::utf16::units, 2);
    assert(units =~= crate::utf16::char_units(c));
    crate::text::lemma_char_code(c);
    let all = crate::utf16::units(before + one + behind);
    let n = crate::utf16::units(before).len() as int;
    assert(all =~= crate::utf16::units(before) + units + crate::utf16::units(behind));
    assert(all.take(n) =~= crate::utf16::units(before));
    assert(all.skip(n + units.len()) =~= crate::utf16::units(behind));
    assert(all[n] == units[0]);
    if c as u32 >= 0x10000 {
        assert(all[n + 1] == units[1]);
    }
}

/// The empty text has no code units, and no code units are the empty text.
pub proof fn law_nothing_encodes_nothing()
    ensures
        crate::utf16::units(seq![]) == Seq::<u16>::empty(),
        crate::utf16::decoded(seq![]) == Seq::<char>::empty(),
{
}

/// Code units are read as UTF-16 has it: a unit that is no surrogate is the character with that very
/// code, a high surrogate followed by a low one is the character that the two hold, and any other
/// surrogate is U+FFFD. What follows is read independently.
pub proof fn law_decoding_is_utf16(unit: u16, rest: Seq<u16>)
    ensures
        ({
            let text = crate::utf16::decoded(seq![unit] + rest);
            let low = rest.len() > 0 && 0xDC00 <= rest[0] <= 0xDFFF;
            &&& text.len() > 0
            &&& unit < 0xD800 || unit > 0xDFFF ==> text[0] as u32 as int == unit as int
                && text.skip(1) == crate::utf16::decoded(rest)
            &&& 0xD800 <= unit <= 0xDBFF && low ==> text[0] as u32 as int == 0x10000 + (unit
                - 0xD800) * 0x400 + (rest[0] - 0xDC00) && text.skip(1) == crate::utf16::decoded(
                rest.skip(1),
            )
            &&& (0xD800 <= unit <= 0xDBFF && !low) || 0xDC00 <= unit <= 0xDFFF ==> text[0] as u32
                == 0xFFFD && text.skip(1) == crate::utf16::decoded(rest)
        }),
{
    let all = seq![unit] + rest;
    let text = crate::utf16::decoded(all);
    assert(all.skip(1) =~= rest);
    assert(all[0] == unit);
    if rest.len() > 0 {
        assert(all[1] == rest[0]);
        assert(all.skip(2) =~= rest.skip(1));
    }
    if unit < 0xD800 || unit > 0xDFFF {
        assert(text.skip(1) =~= crate::utf16::decoded(rest));
    } else if 0xD800 <= unit <= 0xDBFF && rest.len() > 0 && 0xDC00 <= rest[0] <= 0xDFFF {
        assert(text.skip(1) =~= crate::utf16::decoded(rest.skip(1)));
    } else {
        assert(text.skip(1) =~= crate::utf16::decoded(rest));
    }
}

/// The bytes of a text are its code units, each with its low byte first, and a NUL unit at the end.
pub proof fn law_text_bytes_are_little_endian(text: Seq<char>)
    ensures
        ({
            let units = crate::utf16::units(text);
            let bytes = crate::clipboard::text_bytes(text);
            &&& bytes.len() == 2 * units.len() + 2
            &&& forall|i: int| #![trigger units[i]]
                0 <= i < units.len() ==> bytes[2 * i] as int + 256 * bytes[2 * i + 1] as int
                    == units[i] as int
            &&& bytes[2 * units.len() as int] == 0
            &&& bytes[2 * units.len() as int + 1] == 0
        }),
{
    let units = crate::utf16::units(text);
    let ended = units.push(0);
    let bytes = crate::clipboard::text_bytes(text);
    assert forall|i: int| 0 <= i < ended.len() implies bytes[2 * i] as int + 256 * bytes[2 * i
        + 1] as int == #[trigger] ended[i] as int by {
        assert((2 * i) / 2 == i && (2 * i) % 2 == 0);
        assert((2 * i + 1) / 2 == i && (2 * i + 1) % 2 == 1);
    }
    assert forall|i: int| #![trigger units[i]] 0 <= i < units.len() implies bytes[2 * i] as int
        + 256 * bytes[2 * i + 1] as int == units[i] as int by {
        assert(ended[i] == units[i]);
    }
    assert(ended[units.len() as int] == 0);
}

/// The bytes of a `DWORD` are its value, lowest byte first.
pub proof fn law_dword_bytes_are_little_endian(value: u32)
    ensures
        ({
            let bytes = crate::clipboard::dword_bytes(value);
            &&& bytes.len() == 4
            &&& bytes[0] as int + 0x100 * bytes[1] as int + 0x10000 * bytes[2] as int + 0x1000000
                * bytes[3] as int == value as int
        }),
{
}

/// A block is read up to its first NUL unit, or up to its end where it has none, the odd byte at the
/// end left out.
pub proof fn law_block_is_read_up_to_nul(bytes: Seq<u8>, n: int)
    requires
        0 <= 2 * n <= bytes.len(),
        forall|i: int| #![trigger bytes[2 * i]]
            0 <= i < n ==> bytes[2 * i] != 0 || bytes[2 * i + 1] != 0,
        2 * n + 1 >= bytes.len() || (bytes[2 * n] == 0 && bytes[2 * n + 1] == 0),
    ensures
        crate::clipboard::block_text(bytes) == crate::utf16::decoded(
            Seq::new(n as nat, |i: int| (bytes[2 * i] as int + 256 * bytes[2 * i + 1] as int) as u16),
        ),
{
    let head = Seq::new(
        n as nat,
        |i: int| (bytes[2 * i] as int + 256 * bytes[2 * i + 1] as int) as u16,
    );
    let units = crate::clipboard::block_units(bytes);
    assert(n <= units.len());
    assert forall|i: int| 0 <= i < n implies #[trigger] units[i] != 0 by {
        assert(bytes[2 * i] != 0 || bytes[2 * i + 1] != 0);
    }
    lemma_read_up_to(units, n);
    assert(units.take(n) =~= head);
}

proof fn lemma_read_up_to(units: Seq<u16>, n: int)
    requires
        0 <= n <= units.len(),
        forall|i: int| 0 <= i < n ==> #[trigger] units[i] != 0,
        n == units.len() || units[n] == 0,
    ensures
        crate::clipboard::before_nul(units) == units.take(n),
    decreases n,
{
    if n == 0 {
        assert(units.take(0) =~= seq![]);
    } else {
        assert(units[0] != 0);
        let rest = units.skip(1);
        assert forall|i: int| 0 <= i < n - 1 implies #[trigger] rest[i] != 0 by {
            assert(rest[i] == units[i + 1]);
        }
        lemma_read_up_to(rest, n - 1);
        assert(units.take(n) =~= seq![units[0]] + rest.take(n - 1));
    }
}

/// The opt-outs carry what other applications look for: the two that are read as a `DWORD` carry a
/// zero, the other two nothing, and each has the name that is looked for.
pub proof fn law_opt_outs_are_the_known_ones(index: usize)
    requires
        index < 4,
    ensures
        PRIVACY_FORMATS == 4,
        crate::clipboard::payload_of(index) is Some <==> 1 <= index <= 2,
        crate::clipboard::payload_of(index) matches Some(value) ==> value == 0,
        index == 0 ==> crate::clipboard::privacy_name(index as int)
            == "ExcludeClipboardContentFromMonitorProcessing"@,
        index == 1 ==> crate::clipboard::privacy_name(index as int)
            == "CanIncludeInClipboardHistory"@,
        index == 2 ==> crate::clipboard::privacy_name(index as int) == "CanUploadToCloudClipboard"@,
        index == 3 ==> crate::clipboard::privacy_name(index as int) == "Clipboard Viewer Ignore"@,
{
}

/// The promise covers the three text formats and no other.
pub proof fn law_text_formats(format: u32)
    ensures
        crate::delayed::is_text_format(format) <==> format == 13 || format == 1 || format == 7,
{
}

/// The numbers that Windows assigns, and how long and how often is waited.
pub proof fn law_assigned_numbers()
    ensures
        CF_UNICODETEXT == 13,
        CF_TEXT == 1,
        CF_OEMTEXT == 7,
        WM_RENDERFORMAT == 0x0305,
        WM_RENDERALLFORMATS == 0x0306,
        WM_DESTROYCLIPBOARD == 0x0307,
        OPEN_RETRIES == 5,
        OPEN_BACKOFF_MS == 12,
        OWNER_POLLS == 200,
        OWNER_POLL_MS == 5,
{
}

/// A block of memory holds what it was filled for: the bytes of the text, or those of the number.
pub proof fn law_payload_is_its_bytes(text: &str, value: u32)
    ensures
        Payload::Text(text).content() == crate::clipboard::text_bytes(text@),
        Payload::Dword(value).content() == crate::clipboard::dword_bytes(value),
{
}

/// What an error says: which step failed, and where the system reported the failure, its own
/// description behind that, unaltered.
pub proof fn law_errors_say_what_failed(e: OsError, detail: Seq<char>)
    ensures
        Error::ClipboardLocked(e).text(detail) == "clipboard held by another process: "@ + detail,
        Error::Clipboard(e).text(detail) == "clipboard operation failed: "@ + detail,
        Error::Alloc(e).text(detail) == "global allocation failed: "@ + detail,
        Error::NoForegroundWindow.text(detail) == "no foreground window"@,
        Error::SendInputBlocked.text(detail) == "SendInput was blocked, most likely by UIPI"@,
        Error::FocusChanged.text(detail) == "focus moved away from the captured target"@,
        Error::OwnerWindowFailed.text(detail) == "clipboard owner window could not be created"@,
{
}

} // verus!
