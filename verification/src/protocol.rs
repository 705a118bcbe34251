//! What the daemon and the light take for granted of each other.
use crate::daemon::ble::{mode_in, service_number};
use crate::daemon::types::Mode as Wanted;
use crate::firmware::ble::{advertised, every_mode_can_be_written, SERVICE_UUID_128};
use crate::light_core::modes::{words_are_short, Mode as Effect};
use crate::text::{trimmed, Blank};
use vstd::prelude::*;
use vstd::utf8::{decode_utf8, encode_utf8};

verus! {

/// The effect for a mode.
pub open spec fn effect_for(mode: Wanted) -> Effect {
    match mode {
        Wanted::Demo => Effect::Demo,
        Wanted::Thinking => Effect::Thinking,
        Wanted::Ai => Effect::Ai,
        Wanted::Busy => Effect::Busy,
        Wanted::Success => Effect::Success,
        Wanted::Error => Effect::Error,
        Wanted::Alarm => Effect::Alarm,
        Wanted::Off => Effect::Off,
        Wanted::Red => Effect::Red,
        Wanted::Yellow => Effect::Yellow,
        Wanted::Green => Effect::Green,
    }
}

/// The light understands every mode that the daemon can write.
pub proof fn the_light_understands_the_daemon(mode: Wanted)
    ensures
        crate::firmware::ble::mode_in(encode_utf8(mode.word())) == Some(effect_for(mode)),
{
    every_mode_can_be_written(effect_for(mode));
}

/// The daemon understands every mode that the light can show.
pub proof fn the_daemon_understands_the_light(mode: Wanted)
    ensures
        mode_in(decode_utf8(encode_utf8(effect_for(mode).word()))) == Some(mode),
{
    let w = mode.word();
    words_are_short(effect_for(mode));
    vstd::utf8::encode_utf8_decode_utf8(w);
    crate::daemon::types::words_are_lower_case(mode);
    crate::daemon::types::word_names_its_mode(mode, w);
    lemma_words_have_no_blanks(mode);
    assert(trimmed(Blank::Unicode, w) == w);
}

proof fn lemma_words_have_no_blanks(mode: Wanted)
    ensures
        !crate::text::blank(Blank::Unicode, mode.word()[0]),
        !crate::text::blank(Blank::Unicode, mode.word().last()),
{
    reveal_strlit("demo");
    reveal_strlit("thinking");
    reveal_strlit("ai");
    reveal_strlit("busy");
    reveal_strlit("success");
    reveal_strlit("error");
    reveal_strlit("alarm");
    reveal_strlit("off");
    reveal_strlit("red");
    reveal_strlit("yellow");
    reveal_strlit("green");
}

/// The number whose bytes are given, the lowest first.
pub open spec fn number_of_bytes(bytes: Seq<u8>) -> nat
    decreases bytes.len(),
{
    if bytes.len() == 0 {
        0
    } else {
        bytes[0] as nat + 256 * number_of_bytes(bytes.skip(1))
    }
}

proof fn lemma_lowest_byte(bytes: Seq<u8>, i: int)
    requires
        0 <= i < bytes.len(),
    ensures
        number_of_bytes(bytes.skip(i)) == bytes[i] as nat + 256 * number_of_bytes(
            bytes.skip(i + 1),
        ),
{
    assert(bytes.skip(i).skip(1) == bytes.skip(i + 1));
}

/// The identifier in the advertisement is that of the service that the daemon knows.
pub proof fn the_light_advertises_its_service()
    ensures
        number_of_bytes(advertised().skip(5)) == service_number(),
{
    let id = SERVICE_UUID_128@;
    assert(advertised().skip(5) =~= id);
    assert(id.skip(16) =~= Seq::<u8>::empty());
    lemma_lowest_byte(id, 15);
    assert(number_of_bytes(id.skip(15)) == 0xb8);
    lemma_lowest_byte(id, 14);
    assert(number_of_bytes(id.skip(14)) == 0xb8b7);
    lemma_lowest_byte(id, 13);
    assert(number_of_bytes(id.skip(13)) == 0xb8b7e0);
    lemma_lowest_byte(id, 12);
    assert(number_of_bytes(id.skip(12)) == 0xb8b7e001);
    lemma_lowest_byte(id, 11);
    assert(number_of_bytes(id.skip(11)) == 0xb8b7e0017a);
    lemma_lowest_byte(id, 10);
    assert(number_of_bytes(id.skip(10)) == 0xb8b7e0017a6b);
    lemma_lowest_byte(id, 9);
    assert(number_of_bytes(id.skip(9)) == 0xb8b7e0017a6b4f);
    lemma_lowest_byte(id, 8);
    assert(number_of_bytes(id.skip(8)) == 0xb8b7e0017a6b4f4f);
    lemma_lowest_byte(id, 7);
    assert(number_of_bytes(id.skip(7)) == 0xb8b7e0017a6b4f4f9a);
    lemma_lowest_byte(id, 6);
    assert(number_of_bytes(id.skip(6)) == 0xb8b7e0017a6b4f4f9a8b);
    lemma_lowest_byte(id, 5);
    assert(number_of_bytes(id.skip(5)) == 0xb8b7e0017a6b4f4f9a8b11);
    lemma_lowest_byte(id, 4);
    assert(number_of_bytes(id.skip(4)) == 0xb8b7e0017a6b4f4f9a8b11c0);
    lemma_lowest_byte(id, 3);
    assert(number_of_bytes(id.skip(3)) == 0xb8b7e0017a6b4f4f9a8b11c0ff);
    lemma_lowest_byte(id, 2);
    assert(number_of_bytes(id.skip(2)) == 0xb8b7e0017a6b4f4f9a8b11c0ffee);
    lemma_lowest_byte(id, 1);
    assert(number_of_bytes(id.skip(1)) == 0xb8b7e0017a6b4f4f9a8b11c0ffee00);
    lemma_lowest_byte(id, 0);
    assert(number_of_bytes(id.skip(0)) == 0xb8b7e0017a6b4f4f9a8b11c0ffee0001);
    assert(id.skip(0) =~= id);
}

} // verus!
