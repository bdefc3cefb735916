use exfat_fs::label::Label;
use exfat_fs::timestamp::{utc_offset, Timestamp, Timestamps};
use exfat_fs::upcase_table::{is_default_table, table_checksum};
use exfat_fs::utf16::encode_utf16;

#[test]
fn label_of_ascii_text() {
    let l = Label::new("Hello".to_string()).unwrap();
    assert_eq!(l.1, 5);
    let mut expected = [0u8; 22];
    expected[..10].copy_from_slice(b"H\0e\0l\0l\0o\0");
    assert_eq!(l.0, expected);
    assert_eq!(l.to_string(), "Hello");
}

#[test]
fn label_of_eleven_units_is_the_longest() {
    let l = Label::new("ABCDEFGHIJK".to_string()).unwrap();
    assert_eq!(l.1, 11);
    assert_eq!(l.0[20], b'K');
    assert_eq!(l.0[21], 0);
    assert_eq!(l.to_string(), "ABCDEFGHIJK");
    assert!(Label::new("ABCDEFGHIJKL".to_string()).is_none());
}

#[test]
fn label_counts_code_units_not_bytes() {
    // Six characters of three bytes each in UTF-8, six code units in UTF-16.
    let l = Label::new("\u{20AC}\u{20AC}\u{20AC}\u{20AC}\u{20AC}\u{20AC}".to_string()).unwrap();
    assert_eq!(l.1, 6);
    assert_eq!(&l.0[..4], &[0xAC, 0x20, 0xAC, 0x20]);
    // Characters beyond the basic plane take two code units each.
    let five = "\u{1F600}".repeat(5);
    let l = Label::new(five.clone()).unwrap();
    assert_eq!(l.1, 10);
    assert_eq!(&l.0[..4], &[0x3D, 0xD8, 0x00, 0xDE]);
    assert_eq!(l.to_string(), five);
    assert!(Label::new("\u{1F600}".repeat(6)).is_none());
    let mixed = format!("{}a", "\u{1F600}".repeat(5));
    assert_eq!(Label::new(mixed).unwrap().1, 11);
}

#[test]
fn empty_label() {
    let l = Label::new(String::new()).unwrap();
    assert_eq!(l.1, 0);
    assert_eq!(l.0, [0u8; 22]);
    assert_eq!(l.to_string(), "");
    assert_eq!(Label::default(), l);
}

#[test]
fn label_with_a_lone_surrogate_has_no_text() {
    let mut bytes = [0u8; 22];
    bytes[0] = 0x00;
    bytes[1] = 0xD8;
    assert_eq!(Label(bytes, 1).to_string(), "<invalid utf16>");
    bytes[2] = 0x00;
    bytes[3] = 0xDC;
    assert_eq!(Label(bytes, 2).to_string(), "\u{10000}");
    // No more than eleven code units are looked at.
    assert_eq!(Label([0x41; 22], 200).to_string(), "\u{4141}".repeat(11));
}

#[test]
fn utf16_encoding() {
    assert_eq!(encode_utf16("", 0), Some(vec![]));
    assert_eq!(encode_utf16("ab", 2), Some(vec![0x61, 0x62]));
    assert_eq!(encode_utf16("ab", 1), None);
    assert_eq!(
        encode_utf16("a\u{10FFFF}\u{FFFF}", 10),
        Some(vec![0x61, 0xDBFF, 0xDFFF, 0xFFFF])
    );
    assert_eq!(encode_utf16("\u{10000}", 2), Some(vec![0xD800, 0xDC00]));
    assert_eq!(encode_utf16("\u{10000}", 1), None);
}

#[test]
fn utc_offsets() {
    assert_eq!(utc_offset(0), 0);
    assert_eq!(utc_offset(0x7F), 0);
    assert_eq!(utc_offset(0x80), 0);
    assert_eq!(utc_offset(0x81), 1);
    assert_eq!(utc_offset(0x80 | 63), 63);
    assert_eq!(utc_offset(0x80 | 64), -64);
    assert_eq!(utc_offset(0xFF), -1);
    assert_eq!(utc_offset(0x80 | 0x7C), -4);
}

#[test]
fn packed_timestamps() {
    // 2024-02-29 13:45:58
    let packed: u32 = ((2024 - 1980) << 25) | (2 << 21) | (29 << 16) | (13 << 11) | (45 << 5) | 29;
    let t = Timestamp::new(packed, 150, 4);
    assert_eq!(t.year(), 2024);
    assert_eq!(t.month(), 2);
    assert_eq!(t.day(), 29);
    assert_eq!(t.hour(), 13);
    assert_eq!(t.minute(), 45);
    assert_eq!(t.second(), 58);
    assert_eq!(t.ten_ms_increment, 150);
    assert_eq!(t.utc_offset, 4);
    let all = Timestamp::new(u32::MAX, 0, 0);
    assert_eq!(all.year(), 1980 + 127);
    assert_eq!(all.month(), 15);
    assert_eq!(all.second(), 62);
    let ts = Timestamps::new(t, all, t);
    assert_eq!(*ts.created(), t);
    assert_eq!(*ts.modified(), all);
    assert_eq!(*ts.accessed(), t);
}

#[test]
fn table_checksums() {
    assert_eq!(table_checksum(&[]), 0);
    assert_eq!(table_checksum(&[1]), 1);
    assert_eq!(table_checksum(&[1, 0]), 0x8000_0000);
    assert_eq!(table_checksum(&[1, 2]), 0x8000_0002);
    assert_eq!(table_checksum(&[0xFF, 0xFF]), 0x8000_007F + 0xFF);
    let mut table = vec![0u8; 5836];
    assert!(!is_default_table(&table));
    table[5835 - 24] = 0xD3;
    table[5835 - 16] = 0x19;
    table[5835 - 8] = 0xE6;
    table[5835] = 0x0D;
    assert_eq!(table_checksum(&table), 0xE619D30D);
    assert!(is_default_table(&table));
    table.push(0);
    assert!(!is_default_table(&table));
}
