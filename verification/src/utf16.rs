//! UTF-16, the encoding of every string that crosses the Windows boundary.

use vstd::prelude::*;

use crate::text::chars_of;

verus! {

/// The UTF-16 code units of one character: the code point itself inside the Basic Multilingual
/// Plane, a surrogate pair outside it.
pub open spec fn char_units(c: char) -> Seq<u16> {
    let code = c as u32;
    if code < 0x10000 {
        seq![code as u16]
    } else {
        seq![(0xD800 + (code - 0x10000) / 0x400) as u16, (0xDC00 + (code - 0x10000) % 0x400) as u16]
    }
}

/// The UTF-16 code units of a string.
pub open spec fn units(text: Seq<char>) -> Seq<u16>
    decreases text.len(),
{
    if text.len() == 0 {
        seq![]
    } else {
        units(text.drop_last()) + char_units(text.last())
    }
}

/// Appends the code units of one character.
fn push_char(out: &mut Vec<u16>, c: char)
    ensures
        final(out)@ == old(out)@ + char_units(c),
{
    let code: u32 = c as u32;
    if code < 0x10000 {
        out.push(code as u16);
    } else {
        let offset: u32 = code - 0x10000;
        out.push((0xD800 + offset / 0x400) as u16);
        out.push((0xDC00 + offset % 0x400) as u16);
    }
}

/// Encodes `text` as UTF-16 code units.
pub fn encode(text: &str) -> (out: Vec<u16>)
    ensures
        out@ == units(text@),
{
    let chars = chars_of(text);
    let mut out: Vec<u16> = Vec::new();
    let mut i: usize = 0;
    while i < chars.len()
        invariant
            i <= chars.len(),
            out@ == units(chars@.take(i as int)),
        decreases chars.len() - i,
    {
        push_char(&mut out, chars[i]);
        assert(chars@.take(i + 1).drop_last() =~= chars@.take(i as int));
        i += 1;
    }
    assert(chars@.take(i as int) =~= chars@);
    out
}

/// What stands for an unpaired surrogate in decoded text.
pub const REPLACEMENT: char = '\u{FFFD}';

/// Whether `unit` is one half of a surrogate pair.
pub open spec fn is_surrogate(unit: u16) -> bool {
    0xD800 <= unit <= 0xDFFF
}

/// Whether `high` followed by `low` is a surrogate pair.
pub open spec fn is_pair(high: u16, low: u16) -> bool {
    0xD800 <= high <= 0xDBFF && 0xDC00 <= low <= 0xDFFF
}

/// The character that a surrogate pair stands for.
pub open spec fn pair_char(high: u16, low: u16) -> char {
    (0x10000 + (high - 0xD800) * 0x400 + (low - 0xDC00)) as char
}

/// The text that a run of code units stands for, each unpaired surrogate read as [`REPLACEMENT`].
pub open spec fn decoded(units: Seq<u16>) -> Seq<char>
    decreases units.len(),
{
    if units.len() == 0 {
        seq![]
    } else if !is_surrogate(units[0]) {
        seq![units[0] as char] + decoded(units.skip(1))
    } else if units.len() >= 2 && is_pair(units[0], units[1]) {
        seq![pair_char(units[0], units[1])] + decoded(units.skip(2))
    } else {
        seq![REPLACEMENT] + decoded(units.skip(1))
    }
}

/// Decodes UTF-16, with [`REPLACEMENT`] for each unpaired surrogate.
pub fn decode_lossy(units: &[u16]) -> (text: String)
    ensures
        text@ == decoded(units@),
{
    let mut text = String::new();
    let mut i: usize = 0;
    assert(units@.skip(0) =~= units@);
    while i < units.len()
        invariant
            i <= units.len(),
            text@ + decoded(units@.skip(i as int)) == decoded(units@),
        decreases units.len() - i,
    {
        let ghost rest = units@.skip(i as int);
        let ghost before = text@;
        let unit: u16 = units[i];
        assert(rest.skip(1) =~= units@.skip(i + 1));
        if unit < 0xD800 || unit > 0xDFFF {
            let c = char::from_u32(unit as u32);
            if let Some(c) = c {
                text.push(c);
                proof {
                    crate::text::lemma_char_code(c);
                }
                assert(before.push(c) + decoded(rest.skip(1)) =~= before + (seq![c] + decoded(
                    rest.skip(1),
                )));
            }
            i += 1;
        } else if unit <= 0xDBFF && units.len() - i >= 2 && units[i + 1] >= 0xDC00 && units[i + 1]
            <= 0xDFFF {
            let low: u16 = units[i + 1];
            let code: u32 = 0x10000 + (unit as u32 - 0xD800) * 0x400 + (low as u32 - 0xDC00);
            assert(rest.skip(2) =~= units@.skip(i + 2));
            let c = char::from_u32(code);
            if let Some(c) = c {
                text.push(c);
                proof {
                    crate::text::lemma_char_code(c);
                }
                assert(before.push(c) + decoded(rest.skip(2)) =~= before + (seq![c] + decoded(
                    rest.skip(2),
                )));
            }
            i += 2;
        } else {
            text.push(REPLACEMENT);
            assert(before.push(REPLACEMENT) + decoded(rest.skip(1)) =~= before + (seq![REPLACEMENT]
                + decoded(rest.skip(1))));
            i += 1;
        }
    }
    assert(units@.skip(i as int).len() == 0);
    text
}

/// Encoding a concatenation concatenates the encodings.
pub proof fn lemma_units_concat(a: Seq<char>, b: Seq<char>)
    ensures
        units(a + b) == units(a) + units(b),
    decreases b.len(),
{
    if b.len() == 0 {
        assert(a + b =~= a);
        assert(units(a) + units(b) =~= units(a));
    } else {
        assert((a + b).drop_last() =~= a + b.drop_last());
        lemma_units_concat(a, b.drop_last());
        assert(units(a + b) =~= units(a) + units(b));
    }
}

/// The code units of a string begin with those of its first character.
proof fn lemma_units_first(text: Seq<char>)
    requires
        text.len() > 0,
    ensures
        units(text) == char_units(text[0]) + units(text.skip(1)),
{
    let first = seq![text[0]];
    assert(first + text.skip(1) =~= text);
    lemma_units_concat(first, text.skip(1));
    assert(first.drop_last() =~= Seq::<char>::empty());
    reveal_with_fuel(units, 2);
    assert(units(first) =~= char_units(text[0]));
}

/// Decoding undoes encoding: every string comes back from its own code units.
pub proof fn lemma_decode_inverts_encode(text: Seq<char>)
    ensures
        decoded(units(text)) == text,
    decreases text.len(),
{
    if text.len() > 0 {
        let c = text[0];
        let rest = text.skip(1);
        let all = units(text);
        lemma_units_first(text);
        lemma_decode_inverts_encode(rest);
        let code = c as u32;
        crate::text::lemma_char_code(c);
        if code < 0x10000 {
            assert(all.skip(1) =~= units(rest));
            assert(all[0] == code as u16);
            assert(decoded(all) == seq![c] + decoded(units(rest)));
        } else {
            assert(all.skip(2) =~= units(rest));
            assert(is_pair(all[0], all[1]));
            assert(pair_char(all[0], all[1]) == c);
            assert(decoded(all) == seq![c] + decoded(units(rest)));
        }
        assert(seq![c] + rest =~= text);
    }
}

} // verus!
