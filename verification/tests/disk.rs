use exfat_fs::boot::checksum::Checksum;
use exfat_fs::boot::meta::BootSectorMeta;
use exfat_fs::boot::FormatOptions;
use exfat_fs::boot_sector::{BootSector, VolumeFlags, VolumeSerialNumber};
use exfat_fs::disk::{read_exact, write_at, write_zeroes, ReadOffset, SeekFrom, WriteSeek};
use exfat_fs::error::{ExfatError, ExfatFormatError};
use exfat_fs::format::boot::{
    checksum_sector_bytes, extended_sector_bytes, first_sector_bytes, write_boot_region,
};
use exfat_fs::format::{Exfat, FormatVolumeOptionsBuilder};
use exfat_fs::ramdisk::{RamDisk, RamDiskError};
use exfat_fs::MB;

fn table() -> Vec<u8> {
    let mut table = vec![0u8; 5836];
    table[5835 - 24] = 0xD3;
    table[5835 - 16] = 0x19;
    table[5835 - 8] = 0xE6;
    table[5835] = 0x0D;
    table
}

/// The checksum of a boot region's first eleven sectors as the format
/// defines it.
fn reference_boot_checksum(sectors: &[u8]) -> u32 {
    let mut sum: u32 = 0;
    for (i, b) in sectors.iter().enumerate() {
        if i == 106 || i == 107 || i == 112 {
            continue;
        }
        sum = sum.rotate_right(1).wrapping_add(*b as u32);
    }
    sum
}

#[test]
fn ram_disk_writes_and_seeks() {
    let mut d = RamDisk::new(vec![1, 2, 3, 4]);
    assert_eq!(d.stream_position(), Ok(0));
    assert_eq!(d.write(&[9, 9]), Ok(2));
    assert_eq!(d.data, vec![9, 9, 3, 4]);
    assert_eq!(d.stream_position(), Ok(2));
    assert_eq!(d.seek(SeekFrom::End(0)), Ok(4));
    assert_eq!(d.seek(SeekFrom::End(-3)), Ok(1));
    assert_eq!(d.seek(SeekFrom::Current(2)), Ok(3));
    assert_eq!(d.seek(SeekFrom::Current(-4)), Err(RamDiskError::OutOfRange));
    assert_eq!(d.seek(SeekFrom::End(-5)), Err(RamDiskError::OutOfRange));
    assert_eq!(d.stream_position(), Ok(3));
    // A write beyond the end lengthens the device, with zeroes in the gap.
    assert_eq!(d.seek(SeekFrom::Start(6)), Ok(6));
    assert_eq!(d.write_all(&[7]), Ok(()));
    assert_eq!(d.data, vec![9, 9, 3, 4, 0, 0, 7]);
    assert_eq!(d.write_all(&[]), Ok(()));
    assert_eq!(d.as_slice(), &[9, 9, 3, 4, 0, 0, 7]);
    assert_eq!(d.failed_to_write(), RamDiskError::WriteZero);
}

#[test]
fn ram_disk_reads() {
    let d = RamDisk::new(vec![1, 2, 3, 4]);
    let mut buf = [0u8; 3];
    assert_eq!(d.read_at(0, &mut buf), Ok(3));
    assert_eq!(buf, [1, 2, 3]);
    assert_eq!(d.read_at(2, &mut buf), Ok(2));
    assert_eq!(buf, [3, 4, 3]);
    assert_eq!(d.read_at(4, &mut buf), Ok(0));
    assert_eq!(d.read_at(u64::MAX, &mut buf), Ok(0));
    assert_eq!(buf, [3, 4, 3]);
    assert_eq!(read_exact(&d, 1, &mut buf), Ok(()));
    assert_eq!(buf, [2, 3, 4]);
    assert_eq!(read_exact(&d, 2, &mut buf), Err(RamDiskError::UnexpectedEop));
    assert_eq!(read_exact(&d, 9, &mut []), Ok(()));
}

#[test]
fn zeroes_and_writes_at_offsets() {
    let mut d = RamDisk::new(vec![0xAA; 10000]);
    write_zeroes(&mut d, 5000, 100).unwrap();
    assert!(d.data[..100].iter().all(|b| *b == 0xAA));
    assert!(d.data[100..5100].iter().all(|b| *b == 0));
    assert!(d.data[5100..].iter().all(|b| *b == 0xAA));
    assert_eq!(d.data.len(), 10000);
    write_zeroes(&mut d, 0, 3).unwrap();
    assert_eq!(d.data[3], 0xAA);
    write_at(&mut d, 9999, &[1, 2]).unwrap();
    assert_eq!(d.data.len(), 10001);
    assert_eq!(&d.data[9998..], &[0xAA, 1, 2]);
}

#[test]
fn boot_checksum_follows_the_format() {
    let mut sector = vec![0u8; 512];
    for (i, b) in sector.iter_mut().enumerate() {
        *b = (i * 7 + 3) as u8;
    }
    let mut c = Checksum::new(512);
    assert_eq!(c.get(), 0);
    c.boot_sector(&sector);
    assert_eq!(c.get(), reference_boot_checksum(&sector));
    let mut extended = vec![0u8; 512];
    extended[510] = 0x55;
    extended[511] = 0xAA;
    c.extended_boot_sector(&extended, 3);
    c.zero_sector();
    let mut all = sector.clone();
    for _ in 0..3 {
        all.extend(&extended);
    }
    all.extend(vec![0u8; 512]);
    assert_eq!(c.get(), reference_boot_checksum(&all));
    // The volatile bytes do not count.
    let mut other = sector.clone();
    other[106] ^= 0xFF;
    other[107] ^= 0xFF;
    other[112] ^= 0xFF;
    let mut c2 = Checksum::new(512);
    c2.boot_sector(&other);
    assert_eq!(c2.get(), reference_boot_checksum(&sector));
    // One exact value.
    let mut one = Checksum::new(512);
    let mut single = vec![0u8; 512];
    single[511] = 1;
    one.boot_sector(&single);
    assert_eq!(one.get(), 1);
    one.zero_sector();
    // 512 rotations of 32 bits are 16 full turns.
    assert_eq!(one.get(), 1);
    let mut two = Checksum::new(512);
    single[510] = 1;
    two.boot_sector(&single);
    assert_eq!(two.get(), 0x8000_0001);
}

#[test]
fn boot_region_sectors() {
    let first = {
        let options = FormatVolumeOptionsBuilder::default()
            .dev_size(32 * MB as u64)
            .bytes_per_sector(4096)
            .build()
            .unwrap();
        let x = Exfat::with_serial(options, VolumeSerialNumber(0xCAFE_F00D)).unwrap();
        first_sector_bytes(&BootSector::new(&x), 4096)
    };
    assert_eq!(first.len(), 4096);
    assert_eq!(&first[..3], &[0xEB, 0x76, 0x90]);
    assert_eq!(&first[3..11], b"EXFAT   ");
    assert_eq!(&first[11..64], &[0u8; 53]);
    assert_eq!(&first[100..104], &[0x0D, 0xF0, 0xFE, 0xCA]);
    assert_eq!(&first[104..106], &[0, 1]);
    assert_eq!(&first[106..108], &[0, 0]);
    assert_eq!(first[108], 12);
    assert_eq!(first[109], 0);
    assert_eq!(first[110], 1);
    assert_eq!(first[111], 0x80);
    assert_eq!(first[112], 0xFF);
    assert_eq!(&first[113..120], &[0u8; 7]);
    assert!(first[120..510].iter().all(|b| *b == 0xF4));
    assert_eq!(&first[510..512], &[0x55, 0xAA]);
    assert!(first[512..].iter().all(|b| *b == 0));

    let extended = extended_sector_bytes(1024);
    assert_eq!(extended.len(), 1024);
    assert!(extended[..1020].iter().all(|b| *b == 0));
    assert_eq!(&extended[1020..], &[0x00, 0x00, 0x55, 0xAA]);

    let sums = checksum_sector_bytes(0x0102_0304, 512);
    assert_eq!(sums.len(), 512);
    for chunk in sums.chunks(4) {
        assert_eq!(chunk, &[4, 3, 2, 1]);
    }
}

#[test]
fn main_and_backup_boot_regions_are_the_same() {
    for bps in [512u16, 1024, 2048, 4096] {
        let size = 32 * MB as u64;
        let options = FormatVolumeOptionsBuilder::default()
            .dev_size(size)
            .bytes_per_sector(bps)
            .build()
            .unwrap();
        let mut formatter = Exfat::try_from(options).unwrap();
        let mut disk = RamDisk::new(vec![0x77u8; size as usize]);
        formatter.write(&mut disk, &table()).unwrap();
        let n = bps as usize;
        let main = &disk.data[..12 * n];
        let backup = &disk.data[12 * n..24 * n];
        assert_eq!(main, backup);
        let sum = reference_boot_checksum(&main[..11 * n]);
        for chunk in main[11 * n..].chunks(4) {
            assert_eq!(chunk, &sum.to_le_bytes());
        }
        assert_eq!(main[11 * n..].len() / 4, n / 4);
        for k in 1..9 {
            assert!(main[k * n..(k + 1) * n - 4].iter().all(|b| *b == 0));
            assert_eq!(&main[(k + 1) * n - 4..(k + 1) * n], &[0, 0, 0x55, 0xAA]);
        }
        assert!(main[9 * n..11 * n].iter().all(|b| *b == 0));
    }
}

#[test]
fn formatted_volume_layout() {
    let size = 32 * MB as u64;
    let options = FormatVolumeOptionsBuilder::default()
        .dev_size(size)
        .bytes_per_sector(512)
        .pack_bitmap(false)
        .build()
        .unwrap();
    let mut formatter = Exfat::try_from(options).unwrap();
    let mut disk = RamDisk::new(vec![0x77u8; size as usize]);
    let mut upcase = table();
    upcase[0] = 0;
    formatter.write(&mut disk, &upcase).unwrap();
    let g = formatter.geometry;
    assert_eq!(formatter.cluster_count_used, 4);
    let d = &disk.data;
    // The FAT: media type, end mark, one cluster of bitmap, two of up-case
    // table, one of root directory.
    let fat = g.fat_offset as usize * 512;
    let words: Vec<u32> = d[fat..fat + 32]
        .chunks(4)
        .map(|c| u32::from_le_bytes(c.try_into().unwrap()))
        .collect();
    assert_eq!(
        words,
        vec![0xFFFF_FFF8, 0xFFFF_FFFF, 0xFFFF_FFFF, 4, 0xFFFF_FFFF, 0xFFFF_FFFF, 0, 0]
    );
    // The bitmap: four clusters in use.
    let bitmap = g.bitmap_offset_bytes as usize;
    assert_eq!(g.bitmap_length_bytes, 960);
    assert_eq!(d[bitmap], 0x0F);
    assert!(d[bitmap + 1..bitmap + 4096].iter().all(|b| *b == 0));
    // The up-case table.
    let uptable = g.uptable_offset_bytes as usize;
    assert_eq!(&d[uptable..uptable + 5836], &upcase[..]);
    assert!(d[uptable + 5836..uptable + 8192].iter().all(|b| *b == 0));
    // The root directory's cluster, and what lies behind it.
    let root = g.root_offset_bytes as usize;
    assert_eq!(d[root], 0x83);
    assert!(d[root + 128..root + 4096].iter().all(|b| *b == 0));
    assert!(d[root + 4096..].iter().all(|b| *b == 0x77));
    // Between the boot regions and the FAT, and between the FAT and the heap.
    assert!(d[24 * 512..fat].iter().all(|b| *b == 0));
    assert!(d[fat + 24..bitmap].iter().all(|b| *b == 0));
}

#[test]
fn full_format_zeroes_the_device() {
    let size = 2 * MB as u64 + 4096 * 9;
    let options = FormatVolumeOptionsBuilder::default()
        .dev_size(size)
        .bytes_per_sector(512)
        .pack_bitmap(false)
        .full_format(true)
        .boundary_align(512)
        .build()
        .unwrap();
    let mut formatter = Exfat::try_from(options).unwrap();
    let mut disk = RamDisk::new(vec![0x77u8; size as usize]);
    formatter.write(&mut disk, &table()).unwrap();
    let root = formatter.geometry.root_offset_bytes as usize;
    assert!(disk.data[root + 128..].iter().all(|b| *b == 0));
}

#[test]
fn bitmap_of_used_clusters() {
    let options = FormatVolumeOptionsBuilder::default()
        .dev_size(32 * MB as u64)
        .bytes_per_sector(512)
        .pack_bitmap(false)
        .build()
        .unwrap();
    let mut x = Exfat::try_from(options).unwrap();
    assert!(x.bitmap_bytes().iter().all(|b| *b == 0));
    x.cluster_count_used = 3;
    assert_eq!(&x.bitmap_bytes()[..2], &[0x07, 0]);
    x.cluster_count_used = 8;
    assert_eq!(&x.bitmap_bytes()[..2], &[0xFF, 0]);
    x.cluster_count_used = 17;
    assert_eq!(&x.bitmap_bytes()[..4], &[0xFF, 0xFF, 0x01, 0]);
    assert_eq!(x.bitmap_bytes().len(), 960);
    x.cluster_count_used = u32::MAX;
    assert!(x.bitmap_bytes().iter().all(|b| *b == 0xFF));
}

#[test]
fn device_of_another_size_is_not_formatted() {
    let size = 32 * MB as u64;
    let options = FormatVolumeOptionsBuilder::default()
        .dev_size(size)
        .bytes_per_sector(512)
        .build()
        .unwrap();
    let mut formatter = Exfat::try_from(options).unwrap();
    let mut disk = RamDisk::new(vec![0x77u8; size as usize - 1]);
    disk.seek(SeekFrom::Start(5)).unwrap();
    assert_eq!(
        formatter.write(&mut disk, &table()),
        Err(ExfatError::Format(ExfatFormatError::InvalidFileSize))
    );
    assert!(disk.data.iter().all(|b| *b == 0x77));
    assert_eq!(disk.position, 5);
    assert_eq!(formatter.cluster_count_used, 0);
}

#[test]
fn another_table_is_not_written() {
    let size = 32 * MB as u64;
    let options = FormatVolumeOptionsBuilder::default()
        .dev_size(size)
        .bytes_per_sector(512)
        .build()
        .unwrap();
    let mut formatter = Exfat::try_from(options).unwrap();
    let mut disk = RamDisk::new(vec![0x77u8; size as usize]);
    let mut wrong = table();
    wrong[17] ^= 1;
    assert_eq!(
        formatter.write(&mut disk, &wrong),
        Err(ExfatError::Format(ExfatFormatError::InvalidUpcaseTable))
    );
    assert_eq!(
        formatter.write(&mut disk, &table()[..5835]),
        Err(ExfatError::Format(ExfatFormatError::InvalidUpcaseTable))
    );
    assert!(disk.data.iter().all(|b| *b == 0x77));
}

#[test]
fn boot_region_alone() {
    let size = 32 * MB as u64;
    let meta = BootSectorMeta::with_serial(
        0,
        512,
        4096,
        size,
        1024 * 1024,
        FormatOptions::new(false, false, size),
        VolumeSerialNumber(0x1122_3344),
    )
    .unwrap();
    let mut disk = RamDisk::new(vec![0x77u8; size as usize]);
    meta.write(&mut disk).unwrap();
    let d = &disk.data;
    assert_eq!(&d[3..11], b"EXFAT   ");
    assert_eq!(&d[100..104], &[0x44, 0x33, 0x22, 0x11]);
    let sum = reference_boot_checksum(&d[..11 * 512]);
    assert_eq!(&d[11 * 512..11 * 512 + 4], &sum.to_le_bytes());
    assert!(d[12 * 512..0x203000 + 4096].iter().all(|b| *b == 0));
    assert!(d[0x203000 + 4096..].iter().all(|b| *b == 0x77));
    // The same region through the writer of single regions, at sector 3.
    let mut other = RamDisk::new(vec![0u8; 15 * 512]);
    write_boot_region(&mut other, &BootSector::new(&meta), 512, 3).unwrap();
    assert_eq!(&other.data[3 * 512..], &d[..12 * 512]);
    assert!(other.data[..3 * 512].iter().all(|b| *b == 0));
    // A device of another size.
    let mut short = RamDisk::new(vec![0u8; 100]);
    assert_eq!(
        meta.write(&mut short),
        Err(ExfatError::Format(ExfatFormatError::InvalidFileSize))
    );
}

#[test]
fn serial_numbers() {
    assert_eq!(VolumeSerialNumber::from_unix_seconds(0).0, 0);
    assert_eq!(VolumeSerialNumber::from_unix_seconds(0x1_2345_6789).0, 0x2345_6789);
    assert_eq!(VolumeSerialNumber::from_unix_seconds(u64::MAX).0, u32::MAX);
    // The clock stands behind the year 2020.
    let now = VolumeSerialNumber::try_new().unwrap();
    assert!(now.0 > 1_577_836_800 || now.0 < 0x1000_0000);
    assert_ne!(now.0, 0);
}

#[test]
fn volume_flags() {
    assert_eq!(VolumeFlags::empty().bits(), 0);
    let f = VolumeFlags::from_bits_truncate(0xFFF5);
    assert_eq!(f.bits(), 5);
    assert!(f.contains(VolumeFlags::ACTIVE_FAT));
    assert!(!f.contains(VolumeFlags::VOLUME_DIRTY));
    assert!(f.contains(VolumeFlags::MEDIA_FAILURE));
    assert!(f.contains(VolumeFlags::ACTIVE_FAT | VolumeFlags::MEDIA_FAILURE));
    assert!(!f.contains(VolumeFlags::CLEAR_TO_ZERO));
    assert_eq!(VolumeFlags::default(), VolumeFlags::empty());
}
