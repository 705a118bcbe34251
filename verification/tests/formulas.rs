use cursorlight::light_core::effects::{
    ai, alarm, clamp_255, demo, effect, error, fade_in_out, thinking, tri_wave, Rgb,
};
use cursorlight::light_core::modes::Mode;
use cursorlight::light_core::otadata::{Crc32, OtaSelectEntry};
use cursorlight::text::{
    contains, ends_with, parse_u32, push_decimal, split, starts_with, to_lower, trim, Blank,
};

#[test]
fn lines_are_rounded_toward_their_start() {
    assert_eq!(cursorlight::light_core::effects::map(5, 0, 10, 0, 100), 50);
    assert_eq!(cursorlight::light_core::effects::map(1, 0, 3, 0, 100), 33);
    assert_eq!(cursorlight::light_core::effects::map(1, 0, 3, 100, 0), 67);
    assert_eq!(cursorlight::light_core::effects::map(-1, 0, 3, 0, 100), -33);
    assert_eq!((clamp_255(-1), clamp_255(256), clamp_255(77)), (0, 255, 77));
}

#[test]
fn waves_have_exact_values() {
    assert_eq!(tri_wave(0, 1200, 220), 0);
    assert_eq!(tri_wave(300, 1200, 220), 110);
    assert_eq!(tri_wave(600, 1200, 220), 220);
    assert_eq!(tri_wave(900, 1200, 220), 110);
    assert_eq!(tri_wave(1500, 1200, 220), 110);
    assert_eq!(fade_in_out(150, 300, 200, 400, 300, 220), 110);
    assert_eq!(fade_in_out(400, 300, 200, 400, 300, 220), 220);
    assert_eq!(fade_in_out(700, 300, 200, 400, 300, 220), 110);
    assert_eq!(fade_in_out(1000, 300, 200, 400, 300, 220), 0);
}

#[test]
fn effects_have_exact_values() {
    assert_eq!(thinking(150), Rgb::new(0, 110, 110));
    assert_eq!(ai(300), Rgb::new(140, 110, 0));
    assert_eq!(ai(570), Rgb::new(0, 0, 0));
    assert_eq!(error(20), Rgb::new(127, 0, 0));
    assert_eq!(error(100), Rgb::new(255, 0, 0));
    assert_eq!(alarm(100), Rgb::new(255, 0, 0));
    assert_eq!(alarm(360), Rgb::new(0, 220, 0));
    assert_eq!(alarm(290), Rgb::new(0, 127, 0));
    assert_eq!(demo(1800, 0), Rgb::new(0, 220, 0));
    assert_eq!(demo(3000, 0), Rgb::new(255, 0, 0));
    assert_eq!(demo(14_500, 0), Rgb::new(255, 0, 0));
    assert_eq!(demo(15_000, 0), Rgb::new(0, 0, 220));
    assert_eq!(demo(15_500, 0), Rgb::new(0, 220, 0));
    assert_eq!(demo(9_000, 0), Rgb::new(0, 220, 0));
    assert_eq!(effect(Mode::Red, 1, 2), Rgb::new(255, 0, 0));
    assert_eq!(effect(Mode::Off, 1, 2), Rgb::off());
}

#[test]
fn effects_repeat() {
    for t in [0u32, 77, 519, 1199] {
        assert_eq!(alarm(t), alarm(t + 520));
        assert_eq!(thinking(t), thinking(t + 1200));
        assert_eq!(demo(t, 5), demo(t + 16_000, 5));
    }
    // The clock may wrap in the middle of an effect.
    assert_eq!(thinking(u32::MAX).red, 0);
}

#[test]
fn the_checksum_is_the_usual_one() {
    let mut c = Crc32::new();
    c.update(b"1234");
    c.update(b"56789");
    assert_eq!(c.finalize(), 0xCBF4_3926);
    assert_eq!(Crc32::new().finalize(), 0);
}

#[test]
fn entries_are_little_endian() {
    let e = OtaSelectEntry::new(0x0102_0304);
    let bytes = e.to_bytes();
    assert_eq!(&bytes[..4], &[4, 3, 2, 1]);
    assert!(bytes[4..24].iter().all(|b| *b == 0));
    assert_eq!(&bytes[24..28], &e.crc.to_le_bytes());
    assert_eq!(&bytes[28..], &[0xFF; 4]);
    assert_eq!(OtaSelectEntry::from_bytes(&bytes), Some(e));
    for at in 0..28 {
        let mut bad = bytes;
        bad[at] ^= 0x10;
        assert_eq!(OtaSelectEntry::from_bytes(&bad), None);
    }
}

#[test]
fn texts_are_searched_and_cut() {
    assert!(contains("a plan review b", "plan review"));
    assert!(contains("x", ""));
    assert!(!contains("pla", "plan"));
    assert!(starts_with("start:1", "start:") && !starts_with("star", "start:"));
    assert!(ends_with("p.md", ".md") && !ends_with("md", ".md"));
    assert_eq!(to_lower("AbZ\u{c4}"), "abz\u{c4}");
    assert_eq!(split("a::b:", ':'), vec!["a", "", "b", ""]);
    assert_eq!(split("", ':'), vec![""]);
    assert_eq!(trim(Blank::Unicode, "\u{2003}x y\u{85}"), "x y");
    assert_eq!(trim(Blank::Ascii, "\u{b}x"), "\u{b}x");
    assert_eq!(trim(Blank::Unicode, "\u{b}x"), "x");
}

#[test]
fn numbers_are_written_and_read() {
    for n in [0u32, 9, 10, 1_000_007, u32::MAX] {
        let mut s = String::new();
        push_decimal(&mut s, n);
        assert_eq!(s, n.to_string());
        assert_eq!(parse_u32(&s), Some(n));
    }
    assert_eq!(parse_u32("007"), Some(7));
    assert_eq!(parse_u32("+"), None);
    assert_eq!(parse_u32("+ 1"), None);
    assert_eq!(parse_u32("99999999999"), None);
}
