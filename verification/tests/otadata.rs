use cursorlight::light_core::otadata::{Crc32, OtaSelectEntry};


#[test]
fn crc32_known_vector() {
    let mut c = Crc32::new();
    c.update(b"123456789");
    assert_eq!(c.finalize(), 0xCBF4_3926);
}

#[test]
fn entry_roundtrip_and_validity() {
    let e = OtaSelectEntry::new(3);
    assert!(e.is_valid());
    assert_eq!(e.version, u32::MAX);

    let mut bad = e;
    bad.seq_label[0] ^= 0xFF;
    assert!(!bad.is_valid());

    let b = e.to_bytes();
    assert_eq!(&b[0..4], &3u32.to_le_bytes());
    assert_eq!(&b[24..28], &e.crc.to_le_bytes());
}

#[test]
fn entry_bytes_roundtrip() {
    let e = OtaSelectEntry::new(7);
    assert_eq!(OtaSelectEntry::from_bytes(&e.to_bytes()), Some(e));
    assert_eq!(OtaSelectEntry::from_bytes(&[0xFF; 32]), None);
}
