use exfat_fs::entry::{
    BitmapEntry, ClusterAllocation, DirEntry, FileAttributes, GeneralSecondaryFlags,
    StreamExtensionEntry, UpcaseTableEntry, VolumeGuidEntry, VolumeLabelEntry,
};
use exfat_fs::error::DirEntryError;
use exfat_fs::root::RawRoot;
use exfat_fs::Label;

fn sample(entry_type: u8) -> [u8; 32] {
    let mut b = [0u8; 32];
    for (i, x) in b.iter_mut().enumerate() {
        *x = (i as u8).wrapping_mul(37).wrapping_add(entry_type ^ 0x5A);
    }
    b[0] = entry_type;
    b
}

fn recognised(t: u8) -> bool {
    t <= 0x83 || t == 0x85 || t == 0xA0 || t == 0xC0 || t == 0xC1 || t == 0xE0 || t == 0xE1
}

/// The checksum of an entry as the format defines it.
fn reference_checksum(bytes: &[u8; 32], input: u16) -> u16 {
    let primary = bytes[0] & 0x40 == 0;
    let mut sum = input;
    for (i, b) in bytes.iter().enumerate() {
        if primary && (i == 2 || i == 3) {
            continue;
        }
        sum = sum.rotate_right(1).wrapping_add(*b as u16);
    }
    sum
}

#[test]
fn every_recognised_entry_spells_its_bytes_again() {
    for t in 0..=255u8 {
        let b = sample(t);
        match DirEntry::try_from(b) {
            Ok(e) => {
                assert!(recognised(t));
                assert_eq!(e.entry_type(), t);
                assert_eq!(e.bytes(), b);
            }
            Err(e) => {
                assert!(!recognised(t));
                assert_eq!(e, DirEntryError::InvalidEntry(t));
            }
        }
    }
}

#[test]
fn entries_are_read_into_their_variants() {
    assert!(matches!(
        DirEntry::try_from(sample(0x00)),
        Ok(DirEntry::EndOfDirectory(_))
    ));
    assert!(matches!(
        DirEntry::try_from(sample(0x01)),
        Ok(DirEntry::Unused(0x01, _))
    ));
    assert!(matches!(
        DirEntry::try_from(sample(0x7F)),
        Ok(DirEntry::Unused(0x7F, _))
    ));
    assert!(matches!(
        DirEntry::try_from(sample(0x80)),
        Ok(DirEntry::Invalid(_))
    ));
    assert!(matches!(
        DirEntry::try_from(sample(0x81)),
        Ok(DirEntry::Bitmap(_))
    ));
    assert!(matches!(
        DirEntry::try_from(sample(0x82)),
        Ok(DirEntry::UpcaseTable(_))
    ));
    assert!(matches!(
        DirEntry::try_from(sample(0x83)),
        Ok(DirEntry::VolumeLabel(_))
    ));
    assert!(matches!(
        DirEntry::try_from(sample(0x85)),
        Ok(DirEntry::File(_))
    ));
    assert!(matches!(
        DirEntry::try_from(sample(0xA0)),
        Ok(DirEntry::VolumeGuid(_))
    ));
    assert!(matches!(
        DirEntry::try_from(sample(0xC0)),
        Ok(DirEntry::StreamExtension(_))
    ));
    assert!(matches!(
        DirEntry::try_from(sample(0xC1)),
        Ok(DirEntry::FileName(_))
    ));
    assert!(matches!(
        DirEntry::try_from(sample(0xE0)),
        Ok(DirEntry::VendorExtension(_))
    ));
    assert!(matches!(
        DirEntry::try_from(sample(0xE1)),
        Ok(DirEntry::VendorAllocation(_))
    ));
    assert_eq!(
        DirEntry::try_from(sample(0x84)),
        Err(DirEntryError::InvalidEntry(0x84))
    );
}

#[test]
fn fields_are_little_endian() {
    let mut b = [0u8; 32];
    b[0] = 0xC0;
    b[1] = 0x03;
    b[3] = 9;
    b[4] = 0x34;
    b[5] = 0x12;
    b[8..16].copy_from_slice(&0x0102_0304_0506_0708u64.to_le_bytes());
    b[20..24].copy_from_slice(&0xAABB_CCDDu32.to_le_bytes());
    b[24..32].copy_from_slice(&0x1112_1314_1516_1718u64.to_le_bytes());
    let e = match DirEntry::try_from(b).unwrap() {
        DirEntry::StreamExtension(e) => e,
        _ => panic!("not a stream extension"),
    };
    assert_eq!(e.general_secondary_flags, GeneralSecondaryFlags(3));
    assert!(e.general_secondary_flags.allocation_possible());
    assert!(e.general_secondary_flags.no_fat_chain());
    assert_eq!(e.name_length, 9);
    assert_eq!(e.name_hash, 0x1234);
    assert_eq!(e.valid_data_length, 0x0102_0304_0506_0708);
    assert_eq!(e.first_cluster, 0xAABB_CCDD);
    assert_eq!(e.data_len, 0x1112_1314_1516_1718);

    let mut g = [0u8; 32];
    g[0] = 0xA0;
    g[6..22].copy_from_slice(&0x0011_2233_4455_6677_8899_AABB_CCDD_EEFFu128.to_le_bytes());
    match DirEntry::try_from(g).unwrap() {
        DirEntry::VolumeGuid(e) => {
            assert_eq!(e.volume_guid, 0x0011_2233_4455_6677_8899_AABB_CCDD_EEFF)
        }
        _ => panic!("not a volume GUID"),
    }
}

#[test]
fn entry_checksum_follows_the_format() {
    for t in [0x81u8, 0x82, 0x83, 0x85, 0xA0, 0xC0, 0xC1, 0xE0, 0xE1] {
        let b = sample(t);
        let e = DirEntry::try_from(b).unwrap();
        for input in [0u16, 1, 0x8000, 0xFFFF, 0x1234] {
            assert_eq!(e.checksum(input), reference_checksum(&b, input));
        }
    }
    // A primary entry's own checksum field does not count.
    let mut a = sample(0x85);
    let before = DirEntry::try_from(a).unwrap().checksum(0);
    a[2] ^= 0xFF;
    a[3] ^= 0x0F;
    assert_eq!(DirEntry::try_from(a).unwrap().checksum(0), before);
    // A secondary entry's bytes all count.
    let mut s = sample(0xC0);
    let before = DirEntry::try_from(s).unwrap().checksum(0);
    s[2] ^= 0xFF;
    assert_ne!(DirEntry::try_from(s).unwrap().checksum(0), before);
    // One exact value: a single one in the last byte of a secondary entry.
    let mut one = [0u8; 32];
    one[0] = 0xC0;
    one[31] = 1;
    // 0xC0 is rotated right 31 times, which moves it left by one bit.
    assert_eq!(DirEntry::try_from(one).unwrap().checksum(0), 0x0180 + 1);
}

#[test]
fn primary_regular_unused() {
    let e = DirEntry::try_from(sample(0x85)).unwrap();
    assert!(e.regular() && e.primary() && !e.unused());
    let e = DirEntry::try_from(sample(0xC0)).unwrap();
    assert!(e.regular() && !e.primary() && !e.unused());
    let e = DirEntry::try_from(sample(0x20)).unwrap();
    assert!(!e.regular() && e.primary() && e.unused());
    let e = DirEntry::try_from(sample(0x00)).unwrap();
    assert!(!e.regular() && e.primary() && !e.unused());
    let e = DirEntry::try_from(sample(0x80)).unwrap();
    assert!(!e.regular() && !e.unused());
    let e = DirEntry::try_from(sample(0x7F)).unwrap();
    assert!(!e.regular() && e.unused());
}

#[test]
fn unused_slot_of_an_entry_type() {
    let e = DirEntry::new_unused(0xA0);
    let mut expected = [0u8; 32];
    expected[0] = 0x20;
    assert_eq!(e.bytes(), expected);
    assert!(e.unused());
    assert_eq!(DirEntry::new_unused(0x85).entry_type(), 0x05);
    assert_eq!(DirEntry::new_unused(0x80).bytes(), [0u8; 32]);
}

#[test]
fn fresh_entries() {
    let b = BitmapEntry::new(960);
    assert_eq!(b.flags, 0);
    assert_eq!(b.first_cluster, 2);
    assert_eq!(b.data_len, 960);
    assert_eq!(b.index(), 0);
    assert!(b.valid());
    let mut second = b;
    second.flags = 0xFF;
    assert_eq!(second.index(), 1);
    second.first_cluster = 1;
    assert!(!second.valid());

    let u = UpcaseTableEntry::new(4);
    assert_eq!(u.table_checksum, 0xE619D30D);
    assert_eq!(u.first_cluster, 4);
    assert_eq!(u.data_len, 5836);
    assert!(u.valid());

    let label = Label::new("Hello".to_string()).unwrap();
    let l = VolumeLabelEntry::new(label);
    assert_eq!(l.character_count, 5);
    assert_eq!(&l.volume_label[..10], b"H\0e\0l\0l\0o\0");

    let g = VolumeGuidEntry::new(0x0102_0304_0506_0708_090A_0B0C_0D0E_0F10);
    let bytes = DirEntry::VolumeGuid(g).bytes();
    assert_eq!(bytes[0], 0xA0);
    assert_eq!(
        u16::from_le_bytes([bytes[2], bytes[3]]),
        reference_checksum(&bytes, 0)
    );
    assert_eq!(g.set_checksum, reference_checksum(&bytes, 0));
    assert_ne!(g.set_checksum, 0);
}

#[test]
fn stream_extension_validity() {
    let ok = StreamExtensionEntry {
        general_secondary_flags: GeneralSecondaryFlags(1),
        _reserved1: 0,
        name_length: 1,
        name_hash: 0,
        _reserved2: 0,
        valid_data_length: 10,
        _reserved3: 0,
        first_cluster: 2,
        data_len: 10,
    };
    assert!(ok.valid());
    assert!(!StreamExtensionEntry { first_cluster: 1, ..ok }.valid());
    assert!(!StreamExtensionEntry { first_cluster: 0, ..ok }.valid());
    assert!(!StreamExtensionEntry { general_secondary_flags: GeneralSecondaryFlags(2), ..ok }.valid());
    assert!(!StreamExtensionEntry { name_length: 0, ..ok }.valid());
    assert!(!StreamExtensionEntry { valid_data_length: 11, ..ok }.valid());
}

#[test]
fn file_attributes() {
    let a = FileAttributes(0x0001 | 0x0010);
    assert!(a.is_read_only());
    assert!(!a.is_hidden());
    assert!(!a.is_system());
    assert!(a.is_directory());
    assert!(!a.is_archive());
    let b = FileAttributes(0x0002 | 0x0004 | 0x0020);
    assert!(!b.is_read_only());
    assert!(b.is_hidden());
    assert!(b.is_system());
    assert!(!b.is_directory());
    assert!(b.is_archive());
}

#[test]
fn fresh_root_directory_bytes() {
    let label = Label::new("Hello".to_string()).unwrap();
    let bytes = RawRoot::new(label, None, 960, 3).bytes();
    assert_eq!(bytes.len(), 128);
    assert_eq!(bytes[0], 0x83);
    assert_eq!(bytes[1], 5);
    assert_eq!(&bytes[2..12], b"H\0e\0l\0l\0o\0");
    assert_eq!(&bytes[12..32], &[0u8; 20]);
    assert_eq!(bytes[32], 0x20);
    assert_eq!(&bytes[33..64], &[0u8; 31]);
    assert_eq!(bytes[64], 0x81);
    assert_eq!(&bytes[65..84], &[0u8; 19]);
    assert_eq!(&bytes[84..88], &2u32.to_le_bytes());
    assert_eq!(&bytes[88..96], &960u64.to_le_bytes());
    assert_eq!(bytes[96], 0x82);
    assert_eq!(&bytes[97..100], &[0u8; 3]);
    assert_eq!(&bytes[100..104], &0xE619D30Du32.to_le_bytes());
    assert_eq!(&bytes[104..116], &[0u8; 12]);
    assert_eq!(&bytes[116..120], &3u32.to_le_bytes());
    assert_eq!(&bytes[120..128], &5836u64.to_le_bytes());

    let with_guid = RawRoot::new(label, Some(7), 960, 3).bytes();
    assert_eq!(with_guid[32], 0xA0);
    assert_eq!(&with_guid[38..54], &7u128.to_le_bytes());
    let mut entry = [0u8; 32];
    entry.copy_from_slice(&with_guid[32..64]);
    assert_eq!(
        u16::from_le_bytes([entry[2], entry[3]]),
        reference_checksum(&entry, 0)
    );
}
