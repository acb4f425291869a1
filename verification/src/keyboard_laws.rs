//! What the synthesized events do to the keyboard, and how they reach the input queue.

use vstd::prelude::*;

use crate::modifiers::MODIFIERS;
use crate::options::Chord;
use crate::protocol::Protocol;
use crate::sendinput::{Chunk, KeyEvent, Sending, CHUNK, INJECT_TAG, KEYEVENTF_KEYUP,
    KEYEVENTF_UNICODE, VK_CONTROL, VK_SHIFT, VK_V};

verus! {

/// Whether an event releases its key.
pub open spec fn releases(event: KeyEvent) -> bool {
    event.flags & KEYEVENTF_KEYUP != 0
}

/// The keys that are down after one event. A Unicode event concerns no key.
pub open spec fn keys_after(down: Set<u16>, event: KeyEvent) -> Set<u16> {
    if event.vk == 0 {
        down
    } else if releases(event) {
        down.remove(event.vk)
    } else {
        down.insert(event.vk)
    }
}

/// The keys that are down after a run of events.
pub open spec fn keys_down(down: Set<u16>, events: Seq<KeyEvent>) -> Set<u16>
    decreases events.len(),
{
    if events.len() == 0 {
        down
    } else {
        keys_after(keys_down(down, events.drop_last()), events.last())
    }
}

/// The modifier keys.
pub open spec fn modifier_keys() -> Set<u16> {
    Set::new(|vk: u16| exists|i: int| 0 <= i < 8 && #[trigger] MODIFIERS@[i] == vk)
}

proof fn lemma_flags()
    ensures
        KEYEVENTF_KEYUP & KEYEVENTF_KEYUP != 0,
        0u32 & KEYEVENTF_KEYUP == 0,
        KEYEVENTF_UNICODE & KEYEVENTF_KEYUP == 0,
        (KEYEVENTF_UNICODE | KEYEVENTF_KEYUP) & KEYEVENTF_KEYUP != 0,
{
    assert(2u32 & 2u32 != 0 && 0u32 & 2u32 == 0 && 4u32 & 2u32 == 0 && (4u32 | 2u32) & 2u32 != 0)
        by (bit_vector);
}

/// Releasing `keys` takes exactly them off the keyboard.
proof fn lemma_releasing(down: Set<u16>, keys: Seq<u16>)
    requires
        !keys.contains(0),
    ensures
        keys_down(down, crate::modifiers::releasing(keys)) == Set::new(
            |vk: u16| down.contains(vk) && !keys.contains(vk),
        ),
    decreases keys.len(),
{
    let events = crate::modifiers::releasing(keys);
    if keys.len() == 0 {
        assert(keys_down(down, events) =~= Set::new(
            |vk: u16| down.contains(vk) && !keys.contains(vk),
        ));
    } else {
        lemma_flags();
        let shorter = keys.drop_last();
        assert(keys.last() != 0) by {
            assert(keys.contains(keys[keys.len() - 1]));
        }
        assert forall|vk: u16| shorter.contains(vk) implies keys.contains(vk) by {
            let i = choose|i: int| 0 <= i < shorter.len() && shorter[i] == vk;
            assert(keys[i] == vk);
        }
        lemma_releasing(down, shorter);
        assert(events.drop_last() =~= crate::modifiers::releasing(shorter));
        assert forall|vk: u16| keys.contains(vk) implies shorter.contains(vk) || vk
            == keys.last() by {
            let i = choose|i: int| 0 <= i < keys.len() && keys[i] == vk;
            if i < shorter.len() {
                assert(shorter[i] == vk);
            }
        }
        assert(keys_down(down, events) =~= Set::new(
            |vk: u16| down.contains(vk) && !keys.contains(vk),
        ));
    }
}

/// The held modifiers are those whose state is negative.
proof fn lemma_held_members(states: Seq<i16>, n: int, vk: u16)
    requires
        0 <= n <= 8,
    ensures
        crate::modifiers::held_among(states, n).contains(vk) <==> exists|i: int|
            0 <= i < n && states[i] < 0 && #[trigger] MODIFIERS@[i] == vk,
    decreases n,
{
    if n > 0 {
        lemma_held_members(states, n - 1, vk);
        let before = crate::modifiers::held_among(states, n - 1);
        let keys = crate::modifiers::held_among(states, n);
        if states[n - 1] < 0 {
            assert(keys[keys.len() - 1] == MODIFIERS@[n - 1]);
            if before.contains(vk) {
                let j = choose|j: int| 0 <= j < before.len() && before[j] == vk;
                assert(keys[j] == vk);
            }
            if keys.contains(vk) && vk != MODIFIERS@[n - 1] {
                let j = choose|j: int| 0 <= j < keys.len() && keys[j] == vk;
                assert(before[j] == vk);
            }
        }
    }
}

/// After the held modifiers are released no modifier is down, and no other key has changed.
/// `states` tells of each modifier whether it is among the keys `down`.
pub proof fn law_sanitize_releases_every_modifier(down: Set<u16>, states: Seq<i16>)
    requires
        states.len() == 8,
        forall|i: int| 0 <= i < 8 ==> (#[trigger] states[i] < 0 <==> down.contains(MODIFIERS@[i])),
    ensures
        keys_down(down, crate::modifiers::releasing(crate::modifiers::held(states)))
            == down.difference(modifier_keys()),
{
    let keys = crate::modifiers::held(states);
    assert forall|vk: u16| keys.contains(vk) <==> down.contains(vk) && modifier_keys().contains(
        vk,
    ) by {
        lemma_held_members(states, 8, vk);
        if down.contains(vk) && modifier_keys().contains(vk) {
            let i = choose|i: int| 0 <= i < 8 && #[trigger] MODIFIERS@[i] == vk;
            assert(states[i] < 0);
        }
    }
    assert(!keys.contains(0)) by {
        lemma_held_members(states, 8, 0);
    }
    lemma_releasing(down, keys);
    assert(keys_down(down, crate::modifiers::releasing(keys)) =~= down.difference(
        modifier_keys(),
    ));
}

/// A chord means what it says and leaves nothing pressed: on a keyboard on which none of its keys
/// is down, exactly its own keys are added at the moment its last key goes down, and all of them
/// are up again at the end.
pub proof fn law_chord_is_clean(down: Set<u16>, chord: Chord)
    requires
        !down.contains(chord.last()),
        forall|i: int| 0 <= i < chord.held().len() ==> !down.contains(#[trigger] chord.held()[i]),
    ensures
        keys_down(down, chord.events().take(chord.held().len() as int + 1)) == down.union(
            chord.held().to_set(),
        ).insert(chord.last()),
        keys_down(down, chord.events()) == down,
{
    lemma_flags();
    let events = chord.events();
    let held = chord.held();
    assert(!down.contains(held[0]));
    match chord {
        Chord::CtrlShiftV => {
            assert(!down.contains(held[1]));
            assert(held.to_set() =~= set![VK_CONTROL, VK_SHIFT]) by {
                assert(held[0] == VK_CONTROL && held[1] == VK_SHIFT);
            }
            assert(events.len() == 6);
            lemma_extend(down, events, 0);
            lemma_extend(down, events, 1);
            lemma_extend(down, events, 2);
            lemma_extend(down, events, 3);
            lemma_extend(down, events, 4);
            lemma_extend(down, events, 5);
            assert(events.take(0) =~= seq![]);
            assert(events.take(6) =~= events);
            assert(keys_down(down, events.take(3)) =~= down.union(held.to_set()).insert(VK_V));
            assert(keys_down(down, events) =~= down);
        },
        Chord::CtrlV => {
            lemma_short_chord(down, chord);
        },
        Chord::ShiftInsert => {
            lemma_short_chord(down, chord);
        },
    }
}

proof fn lemma_extend(down: Set<u16>, events: Seq<KeyEvent>, n: int)
    requires
        0 <= n < events.len(),
    ensures
        keys_down(down, events.take(n + 1)) == keys_after(
            keys_down(down, events.take(n)),
            events[n],
        ),
{
    assert(events.take(n + 1).drop_last() =~= events.take(n));
}

proof fn lemma_short_chord(down: Set<u16>, chord: Chord)
    requires
        chord is CtrlV || chord is ShiftInsert,
        !down.contains(chord.last()),
        !down.contains(chord.held()[0]),
    ensures
        keys_down(down, chord.events().take(2)) == down.union(chord.held().to_set()).insert(
            chord.last(),
        ),
        keys_down(down, chord.events()) == down,
{
    lemma_flags();
    let events = chord.events();
    let held = chord.held();
    assert(held.to_set() =~= set![held[0]]);
    assert(events.len() == 4);
    lemma_extend(down, events, 0);
    lemma_extend(down, events, 1);
    lemma_extend(down, events, 2);
    lemma_extend(down, events, 3);
    assert(events.take(0) =~= seq![]);
    assert(events.take(4) =~= events);
    assert(keys_down(down, events.take(2)) =~= down.union(held.to_set()).insert(chord.last()));
    assert(keys_down(down, events) =~= down);
}

/// A paste pressed right after the modifiers were released reaches the target unaltered: where
/// only modifiers were down, the keys that are down when the chord completes are exactly the
/// chord's, and in the end none is.
pub proof fn law_sanitized_paste_is_unaltered(down: Set<u16>, states: Seq<i16>, chord: Chord)
    requires
        states.len() == 8,
        forall|i: int| 0 <= i < 8 ==> (#[trigger] states[i] < 0 <==> down.contains(MODIFIERS@[i])),
        down.subset_of(modifier_keys()),
    ensures
        ({
            let clear = keys_down(
                down,
                crate::modifiers::releasing(crate::modifiers::held(states)),
            );
            &&& keys_down(clear, chord.events().take(chord.held().len() as int + 1))
                == chord.held().to_set().insert(chord.last())
            &&& keys_down(clear, chord.events()) == Set::<u16>::empty()
        }),
{
    law_sanitize_releases_every_modifier(down, states);
    let clear = keys_down(down, crate::modifiers::releasing(crate::modifiers::held(states)));
    assert(clear =~= Set::<u16>::empty());
    law_chord_is_clean(clear, chord);
    assert(clear.union(chord.held().to_set()) =~= chord.held().to_set());
}

/// Typing presses no key: each code unit is a down and an up that carry no virtual key, so the
/// keyboard is left as it was.
pub proof fn law_typing_presses_no_key(down: Set<u16>, units: Seq<u16>)
    ensures
        keys_down(down, KeyEvent::typing(units)) == down,
        forall|i: int| #![trigger KeyEvent::typing(units)[i]]
            0 <= i < 2 * units.len() ==> {
                let event = KeyEvent::typing(units)[i];
                &&& event.vk == 0
                &&& event.scan == units[i / 2]
                &&& releases(event) <==> i % 2 == 1
            },
{
    lemma_flags();
    lemma_no_keys(down, KeyEvent::typing(units));
}

proof fn lemma_no_keys(down: Set<u16>, events: Seq<KeyEvent>)
    requires
        forall|i: int| 0 <= i < events.len() ==> (#[trigger] events[i]).vk == 0,
    ensures
        keys_down(down, events) == down,
    decreases events.len(),
{
    if events.len() > 0 {
        lemma_no_keys(down, events.drop_last());
    }
}

/// Every event that is ever synthesized carries the tag by which the sender's own hook knows it:
/// the typed ones, those of a chord, and those that release modifiers.
pub proof fn law_every_event_is_tagged(units: Seq<u16>, chord: Chord, keys: Seq<u16>)
    ensures
        forall|i: int|
            0 <= i < KeyEvent::typing(units).len() ==> (#[trigger] KeyEvent::typing(units)[i]).extra
                == INJECT_TAG,
        forall|i: int|
            0 <= i < chord.events().len() ==> (#[trigger] chord.events()[i]).extra == INJECT_TAG,
        forall|i: int|
            0 <= i < crate::modifiers::releasing(keys).len() ==> (
            #[trigger] crate::modifiers::releasing(keys)[i]).extra == INJECT_TAG,
{
}

/// The events that a run of chunks hands over, one chunk after the other.
pub open spec fn handed_over(events: Seq<KeyEvent>, chunks: Seq<Chunk>) -> Seq<KeyEvent>
    decreases chunks.len(),
{
    if chunks.len() == 0 {
        seq![]
    } else {
        handed_over(events, chunks.drop_last()) + events.subrange(
            chunks.last().from as int,
            chunks.last().to as int,
        )
    }
}

/// Sending keeps the order and loses nothing: whatever the queue answers, the chunks handed over
/// so far join up to a beginning of the events, and none is larger than a chunk may be. While every
/// chunk was taken whole, that beginning is what counts as sent.
pub proof fn law_sending_keeps_order(events: Seq<KeyEvent>, p: Sending, replies: Seq<u32>)
    requires
        events.len() == p.len,
        p.offset == 0,
        !p.blocked,
        crate::protocol::answers(p, replies),
    ensures
        ({
            let chunks = crate::protocol::calls(p, replies);
            let now = crate::protocol::after(p, replies);
            &&& now.wf() && now.len == p.len
            &&& !now.blocked ==> handed_over(events, chunks) == events.take(now.offset as int)
            &&& replies.len() > 0 ==> handed_over(events, chunks) == events.take(
                chunks.last().to as int,
            )
            &&& forall|i: int|
                0 <= i < chunks.len() ==> (#[trigger] chunks[i]).from < chunks[i].to
                    && chunks[i].to - chunks[i].from <= CHUNK
        }),
    decreases replies.len(),
{
    let chunks = crate::protocol::calls(p, replies);
    if replies.len() == 0 {
        assert(chunks =~= seq![]);
        assert(events.take(0) =~= seq![]);
    } else {
        let shorter = replies.drop_last();
        law_sending_keeps_order(events, p, shorter);
        crate::protocol::lemma_last_step(p, replies);
        let before = crate::protocol::after(p, shorter);
        assert(chunks.drop_last() =~= crate::protocol::calls(p, shorter));
        assert(handed_over(events, chunks) =~= events.take(before.due().to as int));
        assert forall|i: int| 0 <= i < chunks.len() implies (#[trigger] chunks[i]).from
            < chunks[i].to && chunks[i].to - chunks[i].from <= CHUNK by {
            if i < shorter.len() {
                assert(chunks[i] == crate::protocol::calls(p, shorter)[i]);
            }
        }
    }
}

/// A sending that succeeds handed over all the events, each once and in order, and the queue took
/// every chunk whole.
pub proof fn law_sent_means_all_sent(events: Seq<KeyEvent>, p: Sending, replies: Seq<u32>)
    requires
        events.len() == p.len,
        p.offset == 0,
        !p.blocked,
        crate::protocol::completes(p, replies),
        !crate::protocol::after(p, replies).blocked,
    ensures
        handed_over(events, crate::protocol::calls(p, replies)) == events,
        forall|i: int|
            0 <= i < replies.len() ==> replies[i] as int == (#[trigger] crate::protocol::calls(
                p,
                replies,
            )[i]).to - crate::protocol::calls(p, replies)[i].from,
{
    law_sending_keeps_order(events, p, replies);
    assert(events.take(p.len as int) =~= events);
    lemma_taken_whole(p, replies);
}

/// While sending is not blocked every chunk so far was taken whole.
proof fn lemma_taken_whole(p: Sending, replies: Seq<u32>)
    requires
        !p.blocked,
        crate::protocol::answers(p, replies),
        !crate::protocol::after(p, replies).blocked,
    ensures
        forall|i: int|
            0 <= i < replies.len() ==> replies[i] as int == (#[trigger] crate::protocol::calls(
                p,
                replies,
            )[i]).to - crate::protocol::calls(p, replies)[i].from,
    decreases replies.len(),
{
    if replies.len() > 0 {
        let shorter = replies.drop_last();
        lemma_taken_whole(p, shorter);
        crate::protocol::lemma_last_step(p, replies);
        assert forall|i: int| 0 <= i < replies.len() implies replies[i] as int == (
        #[trigger] crate::protocol::calls(p, replies)[i]).to - crate::protocol::calls(
            p,
            replies,
        )[i].from by {
            if i < shorter.len() {
                assert(crate::protocol::calls(p, replies)[i] == crate::protocol::calls(
                    p,
                    shorter,
                )[i]);
                assert(replies[i] == shorter[i]);
            }
        }
    }
}

/// A refusal stops the sending at once: where the queue takes a chunk short, nothing is handed over
/// behind that chunk, and everything before it was taken whole.
pub proof fn law_refusal_stops_sending(p: Sending, replies: Seq<u32>)
    requires
        !p.blocked,
        p.wf(),
        crate::protocol::answers(p, replies),
        crate::protocol::after(p, replies).blocked,
    ensures
        replies.len() > 0,
        crate::protocol::after(p, replies).pending() is None,
        ({
            let chunks = crate::protocol::calls(p, replies);
            &&& replies.last() as int != chunks.last().to - chunks.last().from
            &&& forall|i: int|
                0 <= i < replies.len() - 1 ==> replies[i] as int == (#[trigger] chunks[i]).to
                    - chunks[i].from
        }),
{
    let shorter = replies.drop_last();
    crate::protocol::lemma_last_step(p, replies);
    lemma_taken_whole(p, shorter);
    let chunks = crate::protocol::calls(p, replies);
    assert forall|i: int| 0 <= i < replies.len() - 1 implies replies[i] as int == (
    #[trigger] chunks[i]).to - chunks[i].from by {
        assert(chunks[i] == crate::protocol::calls(p, shorter)[i]);
        assert(replies[i] == shorter[i]);
    }
}

proof fn lemma_unicode_flags()
    ensures
        KEYEVENTF_UNICODE & KEYEVENTF_UNICODE != 0,
        (KEYEVENTF_UNICODE | KEYEVENTF_KEYUP) & KEYEVENTF_UNICODE != 0,
        KEYEVENTF_KEYUP & KEYEVENTF_UNICODE == 0,
        0u32 & KEYEVENTF_UNICODE == 0,
{
    assert(4u32 & 4u32 != 0 && (4u32 | 2u32) & 4u32 != 0 && 2u32 & 4u32 == 0 && 0u32 & 4u32 == 0)
        by (bit_vector);
}

/// Whether an event carries a code unit rather than a key.
pub open spec fn is_unicode(event: KeyEvent) -> bool {
    event.flags & KEYEVENTF_UNICODE != 0
}

/// The code units that a receiver gets from a run of events: one from each Unicode event that is not
/// a release.
pub open spec fn received(events: Seq<KeyEvent>) -> Seq<u16>
    decreases events.len(),
{
    if events.len() == 0 {
        seq![]
    } else if is_unicode(events.last()) && !releases(events.last()) {
        received(events.drop_last()).push(events.last().scan)
    } else {
        received(events.drop_last())
    }
}

/// Typed text arrives as it is: every event of typing is a Unicode one, whatever the unit, and the
/// receiver gets exactly the units, in order.
pub proof fn law_typed_units_are_received(units: Seq<u16>)
    ensures
        forall|i: int|
            0 <= i < KeyEvent::typing(units).len() ==> is_unicode(
                #[trigger] KeyEvent::typing(units)[i],
            ),
        received(KeyEvent::typing(units)) == units,
        KeyEvent::typing(units).len() == 2 * units.len(),
    decreases units.len(),
{
    lemma_flags();
    lemma_unicode_flags();
    let events = KeyEvent::typing(units);
    if units.len() == 0 {
        assert(events =~= seq![]);
        assert(received(events) =~= units);
    } else {
        let shorter = units.drop_last();
        law_typed_units_are_received(shorter);
        let n = units.len() as int;
        let pressed = events.drop_last();
        assert(events.last() == KeyEvent::unicode(units[n - 1], true)) by {
            assert((2 * n - 1) / 2 == n - 1 && (2 * n - 1) % 2 == 1);
        }
        assert(pressed.last() == KeyEvent::unicode(units[n - 1], false)) by {
            assert((2 * n - 2) / 2 == n - 1 && (2 * n - 2) % 2 == 0);
        }
        assert(pressed.drop_last() =~= KeyEvent::typing(shorter));
        reveal_with_fuel(received, 3);
        assert(received(events) =~= received(KeyEvent::typing(shorter)).push(units[n - 1]));
        assert(units =~= shorter.push(units[n - 1]));
    }
}

/// The receiver reads the very text that was typed.
pub proof fn law_typed_text_is_read(text: Seq<char>)
    ensures
        crate::utf16::decoded(received(KeyEvent::typing(crate::utf16::units(text)))) == text,
{
    law_typed_units_are_received(crate::utf16::units(text));
    crate::utf16::lemma_decode_inverts_encode(text);
}

/// A receiver gets no text from the events of a chord, nor from the release of modifiers.
pub proof fn law_keys_carry_no_text(chord: Chord, keys: Seq<u16>)
    ensures
        received(chord.events()) == Seq::<u16>::empty(),
        received(crate::modifiers::releasing(keys)) == Seq::<u16>::empty(),
{
    lemma_unicode_flags();
    lemma_no_text(chord.events());
    lemma_no_text(crate::modifiers::releasing(keys));
}

proof fn lemma_no_text(events: Seq<KeyEvent>)
    requires
        forall|i: int| 0 <= i < events.len() ==> !is_unicode(#[trigger] events[i]),
    ensures
        received(events) == Seq::<u16>::empty(),
    decreases events.len(),
{
    if events.len() > 0 {
        lemma_no_text(events.drop_last());
    }
}

/// One stroke of a key as `SendInput` takes it: the key by its virtual code, no scan code, a time
/// stamp of the system's own, and the tag.
pub open spec fn stroke(vk: u16, up: bool) -> KeyEvent {
    KeyEvent {
        vk,
        scan: 0,
        flags: if up {
            2
        } else {
            0
        },
        time: 0,
        extra: 0x57_54_49_4A,
    }
}

/// Each chord is the strokes that its name says: Ctrl (0x11) and Shift (0x10) go down before V
/// (0x56) or Insert (0x2D) and come up behind it, the first down being the last up.
pub proof fn law_chords_are_their_strokes()
    ensures
        Chord::CtrlV.events() == seq![
            stroke(0x11, false),
            stroke(0x56, false),
            stroke(0x56, true),
            stroke(0x11, true),
        ],
        Chord::CtrlShiftV.events() == seq![
            stroke(0x11, false),
            stroke(0x10, false),
            stroke(0x56, false),
            stroke(0x56, true),
            stroke(0x10, true),
            stroke(0x11, true),
        ],
        Chord::ShiftInsert.events() == seq![
            stroke(0x10, false),
            stroke(0x2D, false),
            stroke(0x2D, true),
            stroke(0x10, true),
        ],
{
    assert(Chord::CtrlV.events() =~= seq![
        stroke(0x11, false),
        stroke(0x56, false),
        stroke(0x56, true),
        stroke(0x11, true),
    ]);
    assert(Chord::CtrlShiftV.events() =~= seq![
        stroke(0x11, false),
        stroke(0x10, false),
        stroke(0x56, false),
        stroke(0x56, true),
        stroke(0x10, true),
        stroke(0x11, true),
    ]);
    assert(Chord::ShiftInsert.events() =~= seq![
        stroke(0x10, false),
        stroke(0x2D, false),
        stroke(0x2D, true),
        stroke(0x10, true),
    ]);
}

/// A release is one key-up stroke for each key, in order.
pub proof fn law_releases_are_key_ups(keys: Seq<u16>)
    ensures
        crate::modifiers::releasing(keys).len() == keys.len(),
        forall|i: int|
            0 <= i < keys.len() ==> (#[trigger] crate::modifiers::releasing(keys)[i]) == stroke(
                keys[i],
                true,
            ),
{
}

/// A typed unit is carried by two events, its press and its release, which differ in the release
/// flag alone: no virtual key, the unit for a scan code, a time stamp of the system's own, and the
/// tag.
pub proof fn law_typed_unit_is_pressed_and_released(units: Seq<u16>, i: int)
    requires
        0 <= i < units.len(),
    ensures
        ({
            let press = KeyEvent::typing(units)[2 * i];
            let release = KeyEvent::typing(units)[2 * i + 1];
            &&& press == (KeyEvent {
                vk: 0,
                scan: units[i],
                flags: 4,
                time: 0,
                extra: 0x57_54_49_4A,
            })
            &&& release == (KeyEvent { flags: 6, ..press })
        }),
{
    assert((2 * i) / 2 == i && (2 * i) % 2 == 0);
    assert((2 * i + 1) / 2 == i && (2 * i + 1) % 2 == 1);
    assert(4u32 | 2u32 == 6u32) by (bit_vector);
}

/// How many of the first `n` keys are down.
pub open spec fn down_among(states: Seq<i16>, n: int) -> nat
    decreases n,
{
    if n <= 0 {
        0
    } else {
        down_among(states, n - 1) + if states[n - 1] < 0 {
            1nat
        } else {
            0nat
        }
    }
}

/// The held modifiers are those that are down, each once and in the fixed order: left and right
/// Shift (0xA0, 0xA1), Ctrl (0xA2, 0xA3), Alt (0xA4, 0xA5) and Windows key (0x5B, 0x5C).
pub proof fn law_held_modifiers_are_those_down(states: Seq<i16>, i: int)
    requires
        0 <= i < 8,
    ensures
        MODIFIERS@ == seq![0xA0u16, 0xA1, 0xA2, 0xA3, 0xA4, 0xA5, 0x5B, 0x5C],
        crate::modifiers::held(states).len() == down_among(states, 8),
        states[i] < 0 ==> {
            let at = down_among(states, i) as int;
            at < crate::modifiers::held(states).len() && crate::modifiers::held(states)[at]
                == MODIFIERS@[i]
        },
{
    lemma_held_place(states, 8, i);
    assert(MODIFIERS@ =~= seq![0xA0u16, 0xA1, 0xA2, 0xA3, 0xA4, 0xA5, 0x5B, 0x5C]);
}

proof fn lemma_held_place(states: Seq<i16>, n: int, i: int)
    requires
        0 <= n <= 8,
    ensures
        crate::modifiers::held_among(states, n).len() == down_among(states, n),
        0 <= i < n && states[i] < 0 ==> {
            let at = down_among(states, i) as int;
            at < crate::modifiers::held_among(states, n).len() && crate::modifiers::held_among(
                states,
                n,
            )[at] == MODIFIERS@[i]
        },
    decreases n,
{
    if n > 0 {
        lemma_held_place(states, n - 1, i);
    }
}

/// Chunks are as large as they may be: chunk number `i` begins at event 256 times `i` and holds 256
/// events, fewer only where the events end.
pub proof fn law_chunks_are_full(p: Sending, replies: Seq<u32>, i: int)
    requires
        p.offset == 0,
        !p.blocked,
        crate::protocol::answers(p, replies),
        0 <= i < replies.len(),
    ensures
        ({
            let chunk = crate::protocol::calls(p, replies)[i];
            &&& chunk.from == 256 * i
            &&& chunk.from < p.len
            &&& chunk.to == if 256 * (i + 1) < p.len {
                256 * (i + 1)
            } else {
                p.len as int
            }
        }),
{
    crate::protocol::lemma_prefix(p, replies, i);
    lemma_chunks_before(p, replies.take(i));
}

proof fn lemma_chunks_before(p: Sending, replies: Seq<u32>)
    requires
        p.offset == 0,
        !p.blocked,
        crate::protocol::answers(p, replies),
    ensures
        ({
            let now = crate::protocol::after(p, replies);
            &&& now.len == p.len
            &&& !now.blocked && now.offset < now.len ==> now.offset == 256 * replies.len()
        }),
    decreases replies.len(),
{
    if replies.len() > 0 {
        lemma_chunks_before(p, replies.drop_last());
    }
}

/// Sending is blocked exactly where the queue took a chunk short, and any number may be answered.
pub proof fn law_blocked_iff_taken_short(p: Sending, replies: Seq<u32>, any: u32)
    requires
        p.offset == 0,
        !p.blocked,
        crate::protocol::completes(p, replies),
    ensures
        p.fits(any),
        crate::protocol::after(p, replies).blocked <==> exists|i: int|
            0 <= i < replies.len() && replies[i] as int != (#[trigger] crate::protocol::calls(
                p,
                replies,
            )[i]).to - crate::protocol::calls(p, replies)[i].from,
        p.len == 0 ==> replies.len() == 0,
{
    if crate::protocol::after(p, replies).blocked {
        law_refusal_stops_sending(p, replies);
        let last = crate::protocol::calls(p, replies)[replies.len() - 1];
        assert(replies[replies.len() - 1] as int != last.to - last.from);
    } else {
        lemma_taken_whole(p, replies);
    }
    if replies.len() > 0 {
        crate::protocol::lemma_prefix(p, replies, 0);
        assert(replies.take(0) =~= seq![]);
    }
}

/// The terminals are these six and no others; they get Ctrl+Shift+V, everything else Ctrl+V.
pub proof fn law_only_terminals_get_ctrl_shift_v(exe: Seq<char>)
    ensures
        Chord::suited(exe) == Chord::CtrlShiftV <==> {
            ||| exe == "windowsterminal.exe"@
            ||| exe == "conhost.exe"@
            ||| exe == "mintty.exe"@
            ||| exe == "putty.exe"@
            ||| exe == "alacritty.exe"@
            ||| exe == "wezterm-gui.exe"@
        },
        Chord::suited(exe) != Chord::CtrlShiftV ==> Chord::suited(exe) == Chord::CtrlV,
{
}

/// An event says what it was built from, whatever key, flags or unit it was: a key event carries the
/// key and the flags and no scan code, a Unicode event the unit and no key.
pub proof fn law_events_carry_what_they_are_built_from(
    vk: u16,
    flags: u32,
    unit: u16,
    key_up: bool,
)
    ensures
        KeyEvent::key(vk, flags) == (KeyEvent { vk, scan: 0, flags, time: 0, extra: 0x57_54_49_4A }),
        KeyEvent::unicode(unit, key_up).scan == unit,
        KeyEvent::unicode(unit, key_up).vk == 0,
        KeyEvent::unicode(unit, key_up).time == 0,
        KeyEvent::unicode(unit, key_up).extra == 0x57_54_49_4A,
        is_unicode(KeyEvent::unicode(unit, key_up)),
        releases(KeyEvent::unicode(unit, key_up)) <==> key_up,
{
    lemma_flags();
    lemma_unicode_flags();
}

/// The numbers that Windows assigns to keys and flags, and our own tag.
pub proof fn law_key_numbers()
    ensures
        INJECT_TAG == 0x57_54_49_4A,
        KEYEVENTF_KEYUP == 2,
        KEYEVENTF_UNICODE == 4,
        VK_SHIFT == 0x10,
        VK_CONTROL == 0x11,
        VK_V == 0x56,
        CHUNK == 256,
{
}

} // verus!
