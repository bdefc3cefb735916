use exfat_fs::boot_sector::BootSector;
use exfat_fs::cluster::reader::ClusterChainReader;
use exfat_fs::cluster::ClusterChainOptions;
use exfat_fs::disk::SeekFrom;
use exfat_fs::entry::parsed::ParsedFileEntry;
use exfat_fs::entry::reader::DirEntryReader;
use exfat_fs::entry::{
    DirEntry, FileAttributes, FileEntry, FileNameEntry, GeneralSecondaryFlags,
    StreamExtensionEntry,
};
use exfat_fs::error::{
    ClusterChainError, DirEntryError, DirectoryError, EntryReaderError, FatLoadError,
    FileParserError, RootError,
};
use exfat_fs::fat::{ClusterChain, Fat, FatEntry};
use exfat_fs::format::{Exfat, FormatVolumeOptionsBuilder};
use exfat_fs::fs::file::FileSeekError;
use exfat_fs::fs::FsElement;
use exfat_fs::ramdisk::{RamDisk, RamDiskError};
use exfat_fs::root::Root;
use exfat_fs::{Label, MB};
use std::sync::Arc;

const SIZE: u64 = 32 * MB as u64;
const FAT_OFFSET: usize = 2048 * 512;
const HEAP_OFFSET: usize = 4096 * 512;
const CLUSTER: usize = 4096;
const ROOT_OFFSET: usize = 0x203000;

fn table() -> Vec<u8> {
    let mut table = vec![0u8; 5836];
    table[5835 - 24] = 0xD3;
    table[5835 - 16] = 0x19;
    table[5835 - 8] = 0xE6;
    table[5835] = 0x0D;
    table
}

/// A fresh volume of 32 MiB with the label `Hello`.
fn fresh(guid: Option<u128>) -> Vec<u8> {
    let options = FormatVolumeOptionsBuilder::default()
        .label(Label::new("Hello".to_string()).unwrap())
        .guid(guid)
        .pack_bitmap(false)
        .dev_size(SIZE)
        .bytes_per_sector(512)
        .build()
        .unwrap();
    let mut formatter = Exfat::try_from(options).unwrap();
    let mut disk = RamDisk::new(vec![0u8; SIZE as usize]);
    formatter.write(&mut disk, &table()).unwrap();
    assert_eq!(formatter.geometry.root_offset_bytes as usize, ROOT_OFFSET);
    assert_eq!(formatter.geometry.first_cluster_of_root_directory, 5);
    disk.data
}

fn cluster_offset(cluster: u32) -> usize {
    HEAP_OFFSET + (cluster as usize - 2) * CLUSTER
}

fn set_fat(image: &mut [u8], cluster: u32, next: u32) {
    let at = FAT_OFFSET + 4 * cluster as usize;
    image[at..at + 4].copy_from_slice(&next.to_le_bytes());
}

/// The entries of a file set.
fn file_set(
    name: &[u16],
    attributes: u16,
    flags: u8,
    first_cluster: u32,
    valid_data_length: u64,
    data_len: u64,
) -> Vec<[u8; 32]> {
    let names = name.len().div_ceil(15);
    let mut out = Vec::new();
    out.push(
        DirEntry::File(FileEntry {
            secondary_count: 1 + names as u8,
            set_checksum: 0,
            file_attributes: FileAttributes(attributes),
            _reserved1: 0,
            create_timestamp: 0x5862_6D00,
            last_modified_timestamp: 0x5862_6D01,
            last_accessed_timestamp: 0x5862_6D02,
            create_10ms_increment: 7,
            last_modified_10ms_increment: 8,
            create_utc_offset: 0x84,
            last_modified_utc_offset: 0xFC,
            last_accessed_utc_offset: 0x04,
            _reserved2: [0; 7],
        })
        .bytes(),
    );
    out.push(
        DirEntry::StreamExtension(StreamExtensionEntry {
            general_secondary_flags: GeneralSecondaryFlags(flags),
            _reserved1: 0,
            name_length: name.len() as u8,
            name_hash: 0,
            _reserved2: 0,
            valid_data_length,
            _reserved3: 0,
            first_cluster,
            data_len,
        })
        .bytes(),
    );
    for chunk in name.chunks(15) {
        let mut file_name = [0u8; 30];
        for (i, unit) in chunk.iter().enumerate() {
            file_name[2 * i..2 * i + 2].copy_from_slice(&unit.to_le_bytes());
        }
        out.push(
            DirEntry::FileName(FileNameEntry {
                general_secondary_flags: GeneralSecondaryFlags(0),
                file_name,
            })
            .bytes(),
        );
    }
    out
}

fn put_entries(image: &mut [u8], at: usize, entries: &[[u8; 32]]) {
    for (i, e) in entries.iter().enumerate() {
        image[at + 32 * i..at + 32 * i + 32].copy_from_slice(e);
    }
}

fn units(s: &str) -> Vec<u16> {
    s.encode_utf16().collect()
}

/// A volume with a file, a directory with two files in it, and an empty slot
/// between the entries.
fn populated() -> Vec<u8> {
    let mut image = fresh(None);
    // hello.txt: eleven bytes in cluster 6, found through the FAT.
    let mut entries = file_set(&units("hello.txt"), 0x20, 1, 6, 11, 11);
    // A slot out of use.
    let mut unused = [0u8; 32];
    unused[0] = 0x05;
    entries.push(unused);
    // docs: a directory that takes cluster 7.
    entries.extend(file_set(&units("docs"), 0x10, 1, 7, 4096, 4096));
    put_entries(&mut image, ROOT_OFFSET + 128, &entries);
    set_fat(&mut image, 6, 0xFFFF_FFFF);
    set_fat(&mut image, 7, 0xFFFF_FFFF);
    image[cluster_offset(6)..cluster_offset(6) + 11].copy_from_slice(b"hello world");
    // In docs: a.bin of 5000 bytes in the clusters 8 and 9, without FAT
    // chain, and a file with a long name in the clusters 10 and 12.
    let mut inner = file_set(&units("a.bin"), 0x20, 3, 8, 5000, 8192);
    inner.extend(file_set(
        &units("a name of thirty-one characters"),
        0x21,
        1,
        10,
        4100,
        8192,
    ));
    put_entries(&mut image, cluster_offset(7), &inner);
    for i in 0..5000 {
        image[cluster_offset(8) + i] = (i % 251) as u8;
    }
    set_fat(&mut image, 10, 12);
    set_fat(&mut image, 12, 0xFFFF_FFFF);
    for i in 0..4096 {
        image[cluster_offset(10) + i] = 0xAA;
    }
    for i in 0..4 {
        image[cluster_offset(12) + i] = 0xBB;
    }
    image
}

#[test]
fn open_what_was_formatted() {
    let root = Root::open(RamDisk::new(fresh(None))).unwrap();
    assert_eq!(root.label().unwrap().to_string(), "Hello");
    assert_eq!(*root.label().unwrap(), Label::new("Hello".to_string()).unwrap());
    assert!(root.items().is_empty());
}

#[test]
fn open_what_was_formatted_with_other_options() {
    for (size, bps, pack, align) in [
        (4 * MB as u64, 512u16, true, 65536u32),
        (64 * MB as u64, 4096, true, 1024 * 1024),
        (300 * MB as u64, 1024, false, 4096),
        (8 * MB as u64, 2048, false, 512),
    ] {
        let label = Label::new("\u{1F600}x".to_string()).unwrap();
        let options = FormatVolumeOptionsBuilder::default()
            .label(label)
            .pack_bitmap(pack)
            .dev_size(size)
            .bytes_per_sector(bps)
            .boundary_align(align)
            .build()
            .unwrap();
        let mut formatter = Exfat::try_from(options).unwrap();
        let mut disk = RamDisk::new(vec![0xEEu8; size as usize]);
        formatter.write(&mut disk, &table()).unwrap();
        let root = Root::open(disk).unwrap();
        assert_eq!(root.label(), Some(&label));
        assert!(root.items().is_empty());
    }
}

#[test]
fn a_volume_guid_has_no_place_in_the_root_directory() {
    let r = Root::open(RamDisk::new(fresh(Some(1))));
    assert!(matches!(r, Err(RootError::UnexpectedRootEntry(0xA0))));
}

#[test]
fn files_and_directories_of_the_root() {
    let root = Root::open(RamDisk::new(populated())).unwrap();
    assert_eq!(root.items().len(), 2);
    match &root.items()[0] {
        FsElement::F(f) => {
            assert_eq!(f.name(), "hello.txt");
            assert_eq!(f.len(), 11);
            assert!(!f.is_empty());
            let t = f.timestamps();
            assert_eq!(t.created.timestamp, 0x5862_6D00);
            assert_eq!(t.created.ten_ms_increment, 7);
            assert_eq!(t.created.utc_offset, 4);
            assert_eq!(t.modified.timestamp, 0x5862_6D01);
            assert_eq!(t.modified.ten_ms_increment, 8);
            assert_eq!(t.modified.utc_offset, -4);
            assert_eq!(t.accessed.timestamp, 0x5862_6D02);
            assert_eq!(t.accessed.ten_ms_increment, 0);
            assert_eq!(t.accessed.utc_offset, 0);
        }
        FsElement::D(_) => panic!("hello.txt is a file"),
    }
    match &root.items()[1] {
        FsElement::D(d) => {
            assert_eq!(d.name(), "docs");
            assert_eq!(d.timestamps().created.timestamp, 0x5862_6D00);
        }
        FsElement::F(_) => panic!("docs is a directory"),
    }
}

#[test]
fn reading_a_file() {
    let mut root = Root::open(RamDisk::new(populated())).unwrap();
    let file = match &mut root.items[0] {
        FsElement::F(f) => f,
        FsElement::D(_) => panic!("hello.txt is a file"),
    };
    let mut buf = [0u8; 64];
    assert_eq!(file.stream_position(), 0);
    assert_eq!(file.read(&mut buf[..5]), Ok(5));
    assert_eq!(&buf[..5], b"hello");
    assert_eq!(file.stream_position(), 5);
    assert_eq!(file.read(&mut buf), Ok(6));
    assert_eq!(&buf[..6], b" world");
    assert_eq!(file.read(&mut buf), Ok(0));
    file.rewind();
    assert_eq!(file.read(&mut buf), Ok(11));
    assert_eq!(&buf[..11], b"hello world");
    assert_eq!(buf[11], 0);

    assert_eq!(file.seek(SeekFrom::Start(6)), Ok(6));
    assert_eq!(file.read(&mut buf), Ok(5));
    assert_eq!(&buf[..5], b"world");
    assert_eq!(file.seek(SeekFrom::Start(100)), Ok(11));
    assert_eq!(file.seek(SeekFrom::End(5)), Ok(11));
    assert_eq!(file.seek(SeekFrom::End(-5)), Ok(6));
    assert_eq!(file.seek(SeekFrom::End(-11)), Ok(0));
    assert_eq!(file.seek(SeekFrom::End(-12)), Err(FileSeekError::InvalidInput));
    assert_eq!(file.stream_position(), 0);
    assert_eq!(file.seek(SeekFrom::Current(4)), Ok(4));
    assert_eq!(file.seek(SeekFrom::Current(-3)), Ok(1));
    assert_eq!(file.seek(SeekFrom::Current(-2)), Err(FileSeekError::InvalidInput));
    assert_eq!(file.seek(SeekFrom::Current(i64::MAX)), Ok(11));
    assert_eq!(file.seek(SeekFrom::Current(i64::MIN)), Err(FileSeekError::InvalidInput));
    assert_eq!(file.seek(SeekFrom::End(i64::MIN)), Err(FileSeekError::InvalidInput));
    assert_eq!(file.stream_position(), 11);
}

#[test]
fn listing_a_directory() {
    let root = Root::open(RamDisk::new(populated())).unwrap();
    let docs = match &root.items()[1] {
        FsElement::D(d) => d,
        FsElement::F(_) => panic!("docs is a directory"),
    };
    let mut items = docs.open().unwrap();
    assert_eq!(items.len(), 2);
    let mut all = vec![0u8; 5000];
    match &mut items[0] {
        FsElement::F(f) => {
            assert_eq!(f.name(), "a.bin");
            assert_eq!(f.len(), 5000);
            // One read ends at the cluster's end.
            assert_eq!(f.read(&mut all), Ok(4096));
            assert_eq!(f.read(&mut all[4096..]), Ok(904));
            assert_eq!(f.read(&mut all), Ok(0));
            for (i, b) in all.iter().enumerate() {
                assert_eq!(*b, (i % 251) as u8);
            }
            let reader = f.reader.as_mut().unwrap();
            assert_eq!(reader.chain, vec![8, 9]);
            reader.rewind();
            let mut exact = vec![0u8; 5000];
            assert_eq!(reader.read_exact(&mut exact), Ok(()));
            assert_eq!(exact, all);
            assert_eq!(
                reader.read_exact(&mut exact[..1]),
                Err(RamDiskError::UnexpectedEop)
            );
            assert!(reader.seek(4999));
            assert_eq!(reader.current(), 9);
            assert!(!reader.seek(5001));
            assert_eq!(reader.stream_position(), 4999);
            assert_eq!(reader.data_length(), 5000);
        }
        FsElement::D(_) => panic!("a.bin is a file"),
    }
    match &mut items[1] {
        FsElement::F(f) => {
            assert_eq!(f.name(), "a name of thirty-one characters");
            assert_eq!(f.len(), 4100);
            let reader = f.reader.as_mut().unwrap();
            assert_eq!(reader.chain, vec![10, 12]);
            let mut data = vec![0u8; 4100];
            assert_eq!(reader.read_exact(&mut data), Ok(()));
            assert!(data[..4096].iter().all(|b| *b == 0xAA));
            assert!(data[4096..].iter().all(|b| *b == 0xBB));
        }
        FsElement::D(_) => panic!("the second entry is a file"),
    }
}

#[test]
fn boot_sector_checks() {
    let image = fresh(None);
    let open = |change: &dyn Fn(&mut Vec<u8>)| {
        let mut copy = image.clone();
        change(&mut copy);
        Root::open(RamDisk::new(copy)).err()
    };
    assert!(matches!(open(&|i| i[3] = b'N'), Some(RootError::WrongFs)));
    assert!(matches!(
        open(&|i| i[108] = 8),
        Some(RootError::InvalidBytesPerSectorShift(8))
    ));
    assert!(matches!(
        open(&|i| i[108] = 13),
        Some(RootError::InvalidBytesPerSectorShift(13))
    ));
    assert!(matches!(
        open(&|i| i[109] = 17),
        Some(RootError::InvalidSectorsPerClusterShift(17))
    ));
    assert!(matches!(
        open(&|i| i[110] = 0),
        Some(RootError::InvalidNumberOfFats(0))
    ));
    assert!(matches!(
        open(&|i| i[110] = 3),
        Some(RootError::InvalidNumberOfFats(3))
    ));
    // Two FATs without the flag of the active FAT, and the flag with one FAT.
    assert!(matches!(
        open(&|i| i[110] = 2),
        Some(RootError::InvalidNumberOfFats(2))
    ));
    assert!(matches!(
        open(&|i| i[106] = 1),
        Some(RootError::InvalidNumberOfFats(1))
    ));
    assert!(matches!(
        open(&|i| i[96..100].copy_from_slice(&1u32.to_le_bytes())),
        Some(RootError::InvalidRootDirectoryClusterIndex(1))
    ));
    assert!(matches!(
        open(&|i| i[96..100].copy_from_slice(&7682u32.to_le_bytes())),
        Some(RootError::InvalidRootDirectoryClusterIndex(7682))
    ));
    // The last cluster of the heap has no entry in the FAT that is read.
    assert!(matches!(
        open(&|i| i[96..100].copy_from_slice(&7681u32.to_le_bytes())),
        Some(RootError::ClusterChain(ClusterChainError::InvalidFirstCluster))
    ));
    // The root directory's cluster is looked at ahead of the FAT.
    assert!(matches!(
        open(&|i| {
            i[96..100].copy_from_slice(&1u32.to_le_bytes());
            i.truncate(FAT_OFFSET + 100)
        }),
        Some(RootError::InvalidRootDirectoryClusterIndex(1))
    ));
    assert!(matches!(
        open(&|i| {
            i[96..100].copy_from_slice(&7682u32.to_le_bytes());
            i.truncate(512)
        }),
        Some(RootError::InvalidRootDirectoryClusterIndex(7682))
    ));
    // A device that ends within the boot sector, or within the FAT.
    assert!(matches!(
        open(&|i| i.truncate(511)),
        Some(RootError::Io(RamDiskError::UnexpectedEop))
    ));
    assert!(matches!(
        open(&|i| i.truncate(FAT_OFFSET + 100)),
        Some(RootError::Fat(FatLoadError::ReadFailed(0x100000, RamDiskError::UnexpectedEop)))
    ));
    // A device that ends ahead of the root directory.
    assert!(matches!(
        open(&|i| i.truncate(ROOT_OFFSET + 16)),
        Some(RootError::DirEntry(EntryReaderError::ReadFailed(
            0,
            5,
            RamDiskError::UnexpectedEop
        )))
    ));
}

#[test]
fn root_directory_checks() {
    let image = fresh(None);
    let open = |change: &dyn Fn(&mut Vec<u8>)| {
        let mut copy = image.clone();
        change(&mut copy);
        Root::open(RamDisk::new(copy)).err()
    };
    let bitmap = ROOT_OFFSET + 64;
    let uptable = ROOT_OFFSET + 96;
    let free = ROOT_OFFSET + 128;
    assert!(matches!(
        open(&|i| i[free] = 0x84),
        Some(RootError::DirEntry(EntryReaderError::Entry(
            DirEntryError::InvalidEntry(0x84)
        )))
    ));
    assert!(matches!(
        open(&|i| i[free] = 0xC0),
        Some(RootError::RootEntryNotPrimary(0xC0))
    ));
    assert!(matches!(
        open(&|i| i[free] = 0xE1),
        Some(RootError::RootEntryNotPrimary(0xE1))
    ));
    // A second label, a second up-case table.
    assert!(matches!(
        open(&|i| i[free] = 0x83),
        Some(RootError::InvalidNumberOfVolumeLabels)
    ));
    assert!(matches!(
        open(&|i| i.copy_within(uptable..uptable + 32, free)),
        Some(RootError::InvalidNumberOfUpcaseTables)
    ));
    // A second bitmap must say that it is the second.
    assert!(matches!(
        open(&|i| i.copy_within(bitmap..bitmap + 32, free)),
        Some(RootError::InvalidAllocationBitmap)
    ));
    // With one FAT a second bitmap is let through; a third is not.
    assert!(open(&|i| {
        i.copy_within(bitmap..bitmap + 32, free);
        i[free + 1] = 1;
    })
    .is_none());
    assert!(matches!(
        open(&|i| {
            i.copy_within(bitmap..bitmap + 32, free);
            i[free + 1] = 1;
            i.copy_within(bitmap..bitmap + 32, free + 32);
        }),
        Some(RootError::InvalidNumberOfAllocationBitmaps)
    ));
    // A first bitmap that says that it is the second, or that starts nowhere.
    assert!(matches!(
        open(&|i| i[bitmap + 1] = 1),
        Some(RootError::InvalidAllocationBitmap)
    ));
    assert!(matches!(
        open(&|i| i[bitmap + 20] = 1),
        Some(RootError::InvalidAllocationBitmap)
    ));
    assert!(matches!(
        open(&|i| i[uptable + 20] = 0),
        Some(RootError::InvalidUpcaseTable)
    ));
    assert!(matches!(
        open(&|i| i[ROOT_OFFSET + 1] = 12),
        Some(RootError::InvalidVolumeLabel)
    ));
    // No bitmap, no up-case table.
    assert!(matches!(
        open(&|i| i[bitmap] = 0x01),
        Some(RootError::InvalidNumberOfAllocationBitmaps)
    ));
    assert!(matches!(
        open(&|i| i[uptable] = 0x01),
        Some(RootError::InvalidNumberOfUpcaseTables)
    ));
    // The type 0x80 ends the directory as the type 0x00 does.
    assert!(open(&|i| i[free] = 0x80).is_none());
    // Without a label the volume has none.
    let mut copy = image.clone();
    copy[ROOT_OFFSET] = 0x03;
    assert!(Root::open(RamDisk::new(copy)).unwrap().label().is_none());
    // A directory that is full to its last entry has no end.
    assert!(matches!(
        open(&|i| {
            for k in 4..128 {
                i[ROOT_OFFSET + 32 * k] = 0x01;
            }
        }),
        Some(RootError::DirEntry(EntryReaderError::ReadFailed(
            128,
            5,
            RamDiskError::UnexpectedEop
        )))
    ));
}

#[test]
fn file_set_checks() {
    let image = fresh(None);
    let free = ROOT_OFFSET + 128;
    let open = |entries: Vec<[u8; 32]>| {
        let mut copy = image.clone();
        put_entries(&mut copy, free, &entries);
        set_fat(&mut copy, 6, 0xFFFF_FFFF);
        Root::open(RamDisk::new(copy))
    };
    let good = file_set(&units("sixteen letters!"), 0x20, 1, 6, 11, 11);
    assert_eq!(good.len(), 4);
    assert!(open(good.clone()).is_ok());

    let mut e = good.clone();
    e[0][1] = 0;
    assert!(matches!(
        open(e).err(),
        Some(RootError::InvalidFileEntry(FileParserError::NoStreamExtension))
    ));
    let mut e = good.clone();
    e[0][1] = 1;
    assert!(matches!(
        open(e).err(),
        Some(RootError::InvalidFileEntry(FileParserError::NoFileName))
    ));
    let mut e = good.clone();
    e[1][0] = 0xC1;
    assert!(matches!(
        open(e).err(),
        Some(RootError::InvalidFileEntry(FileParserError::NoStreamExtension))
    ));
    let mut e = good.clone();
    e[1][20] = 1;
    assert!(matches!(
        open(e).err(),
        Some(RootError::InvalidFileEntry(FileParserError::InvalidStreamExtension))
    ));
    let mut e = good.clone();
    e[1][1] = 0;
    assert!(matches!(
        open(e).err(),
        Some(RootError::InvalidFileEntry(FileParserError::InvalidStreamExtension))
    ));
    let mut e = good.clone();
    e[1][8] = 12;
    assert!(matches!(
        open(e).err(),
        Some(RootError::InvalidFileEntry(FileParserError::InvalidStreamExtension))
    ));
    // A directory's data must all be valid.
    let mut e = good.clone();
    e[0][4] = 0x10;
    e[1][24] = 12;
    assert!(matches!(
        open(e).err(),
        Some(RootError::InvalidFileEntry(FileParserError::InvalidStreamExtension))
    ));
    let mut e = good.clone();
    e[3][0] = 0xC0;
    assert!(matches!(
        open(e).err(),
        Some(RootError::InvalidFileEntry(FileParserError::NoFileName))
    ));
    let mut e = good.clone();
    e[3][0] = 0x90;
    assert!(matches!(
        open(e).err(),
        Some(RootError::InvalidFileEntry(FileParserError::ReadFailed(
            EntryReaderError::Entry(DirEntryError::InvalidEntry(0x90))
        )))
    ));
    // Fifteen code units take one name entry, not two.
    let mut e = good.clone();
    e[1][3] = 15;
    assert!(matches!(
        open(e).err(),
        Some(RootError::InvalidFileEntry(FileParserError::WrongFileNameEntries))
    ));
    let mut e = good.clone();
    e[2][1] = 1;
    assert!(matches!(
        open(e).err(),
        Some(RootError::InvalidFileEntry(FileParserError::InvalidFileName))
    ));
    // A surrogate that stands alone.
    let mut e = good.clone();
    e[2][2] = 0x00;
    e[2][3] = 0xDC;
    assert!(matches!(
        open(e).err(),
        Some(RootError::InvalidFileEntry(FileParserError::InvalidFileName))
    ));
    // A pair of surrogates across two name entries is one character.
    let mut name = units("fourteen chars");
    name.extend(units("\u{1F600}!"));
    assert_eq!(name.len(), 17);
    let root = open(file_set(&name, 0x20, 1, 6, 0, 0)).unwrap();
    match &root.items()[0] {
        FsElement::F(f) => {
            assert_eq!(f.name(), "fourteen chars\u{1F600}!");
            assert!(f.is_empty());
        }
        FsElement::D(_) => panic!("a file"),
    }
    // What lies behind the name's length in the last name entry is not
    // looked at.
    let mut e = good.clone();
    e[3][4] = 0x00;
    e[3][5] = 0xD8;
    match &open(e).unwrap().items()[0] {
        FsElement::F(f) => assert_eq!(f.name(), "sixteen letters!"),
        FsElement::D(_) => panic!("a file"),
    }
    // A file whose chain the FAT does not have, and one with more data than
    // its chain holds.
    assert!(matches!(
        open(file_set(&units("x"), 0x20, 1, 9000, 1, 1)).err(),
        Some(RootError::ClusterChain(ClusterChainError::InvalidFirstCluster))
    ));
    assert!(matches!(
        open(file_set(&units("x"), 0x20, 1, 6, 4097, 4097)).err(),
        Some(RootError::ClusterChain(ClusterChainError::InvalidDataLength))
    ));
    assert!(matches!(
        open(file_set(&units("x"), 0x20, 3, u32::MAX, 4097, 4097)).err(),
        Some(RootError::ClusterChain(ClusterChainError::InvalidDataLength))
    ));
}

#[test]
fn directory_checks() {
    let image = populated();
    let list = |change: &dyn Fn(&mut Vec<u8>)| {
        let mut copy = image.clone();
        change(&mut copy);
        let root = Root::open(RamDisk::new(copy)).unwrap();
        match &root.items()[1] {
            FsElement::D(d) => d.open().err(),
            FsElement::F(_) => panic!("docs is a directory"),
        }
    };
    let at = cluster_offset(7);
    assert!(list(&|_| {}).is_none());
    assert!(matches!(
        list(&|i| i[at] = 0x83),
        Some(DirectoryError::NotFileEntry(0x83))
    ));
    assert!(matches!(
        list(&|i| i[at] = 0xC1),
        Some(DirectoryError::NotPrimaryEntry(0xC1))
    ));
    assert!(matches!(
        list(&|i| i[at] = 0xF0),
        Some(DirectoryError::ReadEntryFailed(EntryReaderError::Entry(
            DirEntryError::InvalidEntry(0xF0)
        )))
    ));
    assert!(matches!(
        list(&|i| i[at + 1] = 1),
        Some(DirectoryError::InvalidFileEntry(FileParserError::NoFileName))
    ));
    // The mark of a bad cluster in a cluster's entry ends the chain behind
    // that cluster: the directory keeps its one cluster, the file loses its
    // second.
    assert!(list(&|i| set_fat(i, 7, 0xFFFF_FFF7)).is_none());
    assert!(matches!(
        list(&|i| set_fat(i, 10, 0xFFFF_FFF7)),
        Some(DirectoryError::CreateClustersReaderFailed(
            ClusterChainError::InvalidDataLength
        ))
    ));
    // A file whose first cluster the FAT does not have.
    assert!(matches!(
        list(&|i| i[at + 4 * 32 + 20..at + 4 * 32 + 24].copy_from_slice(&7680u32.to_le_bytes())),
        Some(DirectoryError::CreateClustersReaderFailed(
            ClusterChainError::InvalidFirstCluster
        ))
    ));
    // A first cluster below 2 that is not 0 makes the stream extension
    // itself invalid.
    assert!(matches!(
        list(&|i| i[at + 4 * 32 + 20..at + 4 * 32 + 24].copy_from_slice(&1u32.to_le_bytes())),
        Some(DirectoryError::InvalidFileEntry(
            FileParserError::InvalidStreamExtension
        ))
    ));
    // A directory whose only entry is the end has nothing in it.
    let mut copy = image.clone();
    copy[at] = 0;
    let root = Root::open(RamDisk::new(copy)).unwrap();
    match &root.items()[1] {
        FsElement::D(d) => assert!(d.open().unwrap().is_empty()),
        FsElement::F(_) => panic!("docs is a directory"),
    }
}

#[test]
fn fat_chains() {
    let mut entries = vec![0u32; 16];
    entries[2] = 3;
    entries[3] = 9;
    entries[9] = 4;
    entries[4] = 0xFFFF_FFFF;
    entries[5] = 0xFFFF_FFF7;
    entries[6] = 5;
    entries[7] = 1;
    entries[10] = 11;
    entries[11] = 10;
    entries[12] = 100;
    let fat = Fat { entries };
    assert_eq!(fat.chain(2), vec![2, 3, 9, 4]);
    assert_eq!(fat.chain(9), vec![9, 4]);
    assert_eq!(fat.chain(4), vec![4]);
    // The mark of a bad cluster ends a chain as any index beyond the table
    // does: the cluster whose entry holds it is the chain's last.
    assert_eq!(fat.chain(5), vec![5]);
    assert_eq!(fat.chain(6), vec![6, 5]);
    assert_eq!(fat.chain(7), vec![7]);
    assert_eq!(fat.chain(12), vec![12]);
    assert_eq!(fat.chain(0), Vec::<u32>::new());
    assert_eq!(fat.chain(1), Vec::<u32>::new());
    assert_eq!(fat.chain(16), Vec::<u32>::new());
    assert_eq!(fat.chain(u32::MAX), Vec::<u32>::new());
    // A chain that bites its tail ends after as many clusters as the FAT has
    // entries.
    assert_eq!(fat.chain(10).len(), 16);
    assert_eq!(&fat.chain(10)[..3], &[10, 11, 10]);

    let mut walk = ClusterChain::new(&fat, 3);
    assert_eq!(walk.next(), Some(3));
    assert_eq!(walk.next(), Some(9));
    assert_eq!(walk.next(), Some(4));
    assert_eq!(walk.next(), None);
    assert_eq!(walk.next(), None);

    assert_eq!(FatEntry::media_type().0, 0xFFFF_FFF8);
    assert_eq!(FatEntry::eof().0, 0xFFFF_FFFF);
    assert_eq!(FatEntry::bad().0, 0xFFFF_FFF7);
}

#[test]
fn loading_the_fat() {
    let image = populated();
    let boot = BootSector::from_bytes(&image);
    assert_eq!(boot.cluster_count, 7680);
    assert_eq!(boot.bytes_per_sector(), 512);
    assert_eq!(boot.sectors_per_cluster(), 8);
    assert_eq!(boot.bytes_per_cluster(), 4096);
    assert_eq!(boot.cluster_offset(2), Some(HEAP_OFFSET as u64));
    assert_eq!(boot.cluster_offset(7), Some(cluster_offset(7) as u64));
    assert_eq!(boot.cluster_offset(7681), Some(cluster_offset(7681) as u64));
    assert_eq!(boot.cluster_offset(7682), None);
    assert_eq!(boot.cluster_offset(1), None);
    assert_eq!(boot.cluster_offset(0), None);
    assert_eq!(boot.to_bytes(), &image[..512]);
    let disk = RamDisk::new(image);
    let fat = Fat::load(&disk, &boot).unwrap();
    assert_eq!(fat.entries.len(), 7680);
    assert_eq!(
        &fat.entries[..13],
        &[
            0xFFFF_FFF8,
            0xFFFF_FFFF,
            0xFFFF_FFFF,
            4,
            0xFFFF_FFFF,
            0xFFFF_FFFF,
            0xFFFF_FFFF,
            0xFFFF_FFFF,
            0,
            0,
            12,
            0,
            0xFFFF_FFFF
        ]
    );
    assert!(fat.entries[13..].iter().all(|e| *e == 0));
    // The second FAT is read where the volume has two and says so.
    let mut two = boot;
    two.number_of_fats = 2;
    two.volume_flags = 1;
    let mut image = disk.data;
    assert_eq!(boot.fat_length, 62);
    let second = FAT_OFFSET + 62 * 512;
    image[second..second + 4].copy_from_slice(&0x1234_5678u32.to_le_bytes());
    let disk = RamDisk::new(image);
    assert_eq!(Fat::load(&disk, &two).unwrap().entries[0], 0x1234_5678);
    two.volume_flags = 0;
    assert_eq!(Fat::load(&disk, &two).unwrap().entries[0], 0xFFFF_FFF8);
}

#[test]
fn cluster_chain_readers() {
    let image = populated();
    let boot = Arc::new(BootSector::from_bytes(&image));
    let disk = Arc::new(RamDisk::new(image));
    let fat = Fat::load(&disk, &boot).unwrap();
    let new = |first: u32, options: ClusterChainOptions| {
        ClusterChainReader::try_new(boot.clone(), &fat, first, options, disk.clone())
    };
    let r = new(10, ClusterChainOptions::default()).unwrap();
    assert_eq!(r.chain, vec![10, 12]);
    assert_eq!(r.data_length, 8192);
    assert_eq!(r.offset, 0);
    let r = new(10, ClusterChainOptions::Fat { data_length: Some(8192) }).unwrap();
    assert_eq!(r.data_length, 8192);
    assert_eq!(
        new(10, ClusterChainOptions::Fat { data_length: Some(8193) }).err(),
        Some(ClusterChainError::InvalidDataLength)
    );
    assert_eq!(
        new(11, ClusterChainOptions::default()).err(),
        None
    );
    assert_eq!(
        new(1, ClusterChainOptions::default()).err(),
        Some(ClusterChainError::InvalidFirstCluster)
    );
    let r = new(100, ClusterChainOptions::Contiguous { data_length: 0 }).unwrap();
    assert!(r.chain.is_empty());
    assert_eq!(r.current(), 0);
    let r = new(100, ClusterChainOptions::Contiguous { data_length: 4096 }).unwrap();
    assert_eq!(r.chain, vec![100]);
    let mut r = new(100, ClusterChainOptions::Contiguous { data_length: 4097 }).unwrap();
    assert_eq!(r.chain, vec![100, 101]);
    assert_eq!(r.current(), 100);
    assert!(r.seek(4096));
    assert_eq!(r.current(), 101);
    assert_eq!(
        new(u32::MAX, ClusterChainOptions::Contiguous { data_length: 1 }).err(),
        Some(ClusterChainError::InvalidDataLength)
    );
    assert_eq!(
        new(u32::MAX - 1, ClusterChainOptions::Contiguous { data_length: 1 })
            .unwrap()
            .chain,
        vec![u32::MAX - 1]
    );
    // A cluster beyond the heap is not found.
    let mut r = new(7681, ClusterChainOptions::Contiguous { data_length: 8192 }).unwrap();
    let mut buf = vec![0u8; 8192];
    assert_eq!(r.read(&mut buf), Ok(4096));
    assert_eq!(r.read(&mut buf), Err(RamDiskError::ClusterNotFound(7682)));
    assert_eq!(r.stream_position(), 4096);
    assert_eq!(r.read(&mut []), Ok(0));
}

#[test]
fn directory_entry_readers() {
    let image = populated();
    let boot = Arc::new(BootSector::from_bytes(&image));
    let disk = Arc::new(RamDisk::new(image));
    let fat = Fat::load(&disk, &boot).unwrap();
    let chain = ClusterChainReader::try_new(
        boot.clone(),
        &fat,
        7,
        ClusterChainOptions::Fat { data_length: Some(96) },
        disk.clone(),
    )
    .unwrap();
    let mut reader = DirEntryReader::from(chain);
    let file = match reader.read().unwrap() {
        DirEntry::File(f) => f,
        _ => panic!("a file's entry"),
    };
    assert_eq!(reader.index, 1);
    let parsed = ParsedFileEntry::try_new(&file, &mut reader).unwrap();
    assert_eq!(parsed.name, "a.bin");
    assert_eq!(parsed.attributes, FileAttributes(0x20));
    assert_eq!(parsed.stream_extension_entry.first_cluster, 8);
    assert_eq!(parsed.timestamps.created.utc_offset, 4);
    assert_eq!(reader.index, 3);
    assert!(matches!(
        reader.read(),
        Err(EntryReaderError::ReadFailed(3, 7, RamDiskError::UnexpectedEop))
    ));
    // The entry's number starts again in every cluster.
    let chain = ClusterChainReader::try_new(
        boot.clone(),
        &fat,
        10,
        ClusterChainOptions::default(),
        disk.clone(),
    )
    .unwrap();
    let mut reader = DirEntryReader::from(chain);
    for i in 0..127 {
        assert_eq!(reader.index, i);
        assert!(matches!(
            reader.read(),
            Err(EntryReaderError::Entry(DirEntryError::InvalidEntry(0xAA)))
        ));
    }
    assert_eq!(reader.index, 127);
    let _ = reader.read();
    assert_eq!(reader.index, 0);
    assert_eq!(reader.cluster_reader.current(), 12);
    // A file set that the directory ends in.
    let chain = ClusterChainReader::try_new(
        boot,
        &fat,
        7,
        ClusterChainOptions::Fat { data_length: Some(64) },
        disk,
    )
    .unwrap();
    let mut reader = DirEntryReader::from(chain);
    let _ = reader.read().unwrap();
    assert!(matches!(
        ParsedFileEntry::try_new(&file, &mut reader),
        Err(FileParserError::ReadFailed(EntryReaderError::ReadFailed(
            2,
            7,
            RamDiskError::UnexpectedEop
        )))
    ));
}

#[test]
fn reading_beyond_the_data_stops_at_its_end() {
    let image = populated();
    let boot = Arc::new(BootSector::from_bytes(&image));
    let disk = Arc::new(RamDisk::new(image));
    let fat = Fat::load(&disk, &boot).unwrap();
    let mut reader = ClusterChainReader::try_new(
        boot,
        &fat,
        8,
        ClusterChainOptions::Contiguous { data_length: 5000 },
        disk,
    )
    .unwrap();
    assert!(reader.seek(4000));
    let mut buf = vec![0u8; 1001];
    assert_eq!(reader.read_exact(&mut buf), Err(RamDiskError::UnexpectedEop));
    assert_eq!(reader.stream_position(), 5000);
    // What was there came in on the way.
    for (i, b) in buf[..1000].iter().enumerate() {
        assert_eq!(*b, ((4000 + i) % 251) as u8);
    }
    assert_eq!(reader.read_exact(&mut buf[..1]), Err(RamDiskError::UnexpectedEop));
    assert_eq!(reader.stream_position(), 5000);
    assert_eq!(reader.read_exact(&mut []), Ok(()));
    reader.rewind();
    let mut all = vec![0u8; 5000];
    assert_eq!(reader.read_exact(&mut all), Ok(()));
    assert_eq!(reader.stream_position(), 5000);
}

#[test]
fn a_file_entry_without_secondaries_reads_nothing() {
    let image = populated();
    let boot = Arc::new(BootSector::from_bytes(&image));
    let disk = Arc::new(RamDisk::new(image));
    let fat = Fat::load(&disk, &boot).unwrap();
    let chain = ClusterChainReader::try_new(
        boot,
        &fat,
        7,
        ClusterChainOptions::default(),
        disk,
    )
    .unwrap();
    let mut reader = DirEntryReader::from(chain);
    let mut file = match reader.read().unwrap() {
        DirEntry::File(f) => f,
        _ => panic!("a file's entry"),
    };
    file.secondary_count = 0;
    assert!(matches!(
        ParsedFileEntry::try_new(&file, &mut reader),
        Err(FileParserError::NoStreamExtension)
    ));
    assert_eq!(reader.index, 1);
    assert_eq!(reader.cluster_reader.stream_position(), 32);
    file.secondary_count = 1;
    assert!(matches!(
        ParsedFileEntry::try_new(&file, &mut reader),
        Err(FileParserError::NoFileName)
    ));
    assert_eq!(reader.index, 1);
    assert_eq!(reader.cluster_reader.stream_position(), 32);
    // With both announced the set is read from where the reader stands.
    file.secondary_count = 2;
    assert_eq!(ParsedFileEntry::try_new(&file, &mut reader).unwrap().name, "a.bin");
    assert_eq!(reader.index, 3);
}

#[test]
fn the_readers_of_opened_files_stand_at_the_start() {
    let root = Root::open(RamDisk::new(populated())).unwrap();
    for item in root.items() {
        match item {
            FsElement::F(f) => assert_eq!(f.reader.as_ref().unwrap().stream_position(), 0),
            FsElement::D(d) => {
                for inner in d.open().unwrap() {
                    match inner {
                        FsElement::F(f) => {
                            assert_eq!(f.reader.as_ref().unwrap().stream_position(), 0)
                        }
                        FsElement::D(_) => panic!("docs holds files only"),
                    }
                }
            }
        }
    }
}
