use cursorlight::light_core::modes::Mode;


#[test]
fn round_trip_all_modes() {
    for m in Mode::ALL {
        assert_eq!(Mode::from_str(m.as_str()), Some(m));
    }
}

#[test]
fn rejects_unknown() {
    assert_eq!(Mode::from_str("blink"), None);
    assert_eq!(Mode::from_str(""), None);
    assert_eq!(Mode::from_str("RED"), None);
    assert_eq!(Mode::from_str(" green"), None);
}
