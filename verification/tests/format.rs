use exfat_fs::disk::read_exact;
use exfat_fs::format::{Exfat, FormatVolumeOptionsBuilder};
use exfat_fs::ramdisk::RamDisk;
use exfat_fs::{Label, DEFAULT_BOUNDARY_ALIGNEMENT, MB};

/// A table of the default table's length and checksum.
fn default_sized_table() -> Vec<u8> {
    let mut table = vec![0u8; 5836];
    table[5835 - 24] = 0xD3;
    table[5835 - 16] = 0x19;
    table[5835 - 8] = 0xE6;
    table[5835] = 0x0D;
    table
}

#[test]
fn small_fat_creation() {
    let size: u64 = 32 * MB as u64;
    let mut f = RamDisk::new(vec![0u8; size as usize]);

    let format_options = FormatVolumeOptionsBuilder::default()
        .pack_bitmap(false)
        .full_format(false)
        .partition_offset(0)
        .boundary_align(DEFAULT_BOUNDARY_ALIGNEMENT)
        .dev_size(size)
        .bytes_per_sector(512)
        .build()
        .unwrap();

    let mut formatter = Exfat::try_from(format_options).unwrap();

    formatter.write(&mut f, &default_sized_table()).unwrap();

    assert_eq!(formatter.cluster_count_used, 4);
}

#[test]
fn medium_fat_creation() {
    let size: u64 = 512 * MB as u64;
    let mut f = RamDisk::new(vec![0u8; size as usize]);

    let format_options = FormatVolumeOptionsBuilder::default()
        .pack_bitmap(false)
        .full_format(false)
        .partition_offset(0)
        .boundary_align(DEFAULT_BOUNDARY_ALIGNEMENT)
        .dev_size(size)
        .bytes_per_sector(512)
        .build()
        .unwrap();

    let mut formatter = Exfat::try_from(format_options).unwrap();

    formatter.write(&mut f, &default_sized_table()).unwrap();

    assert_eq!(formatter.cluster_count_used, 3);
}

#[test]
fn small_format() {
    let size: u64 = 32 * MB as u64;
    let mut f = RamDisk::new(vec![0u8; size as usize]);

    let label = Label::new("Hello".to_string()).expect("label creation failed");

    let format_options = FormatVolumeOptionsBuilder::default()
        .label(label)
        .pack_bitmap(false)
        .full_format(false)
        .dev_size(size)
        .bytes_per_sector(512)
        .boundary_align(DEFAULT_BOUNDARY_ALIGNEMENT)
        .build()
        .expect("building format volume option failed");

    let mut formatter = Exfat::try_from(format_options).expect("formatting failed");
    formatter
        .write(&mut f, &default_sized_table())
        .expect("writing failed");

    let offset_volume_label_entry_bytes = 0x203000;
    let mut read_buffer = vec![0u8; 32];
    read_exact(&f, offset_volume_label_entry_bytes, &mut read_buffer).unwrap();

    // assert volume label root directory entry is at the expected offset
    let vol_label_entry_type = read_buffer[0];
    assert_eq!(
        vol_label_entry_type, 0x83,
        "Volume Label Root Directory Entry has invalid type"
    );

    // assert volume label length is correct
    let vol_label_length = read_buffer[1];
    assert_eq!(
        vol_label_length, 5,
        "Volume Label Root Directory Entry has invalid label length"
    );

    // assert volume label data is correct
    assert_eq!(
        &read_buffer[2..2 + vol_label_length as usize],
        &label.0[..vol_label_length as usize],
        "Volume Label Root Directory Entry has invalid data"
    );
    let offset_upcase_table_entry_bytes = 0x203060;

    read_exact(&f, offset_upcase_table_entry_bytes, &mut read_buffer).unwrap();

    // assert upcase table root directory entry is at the expected offset
    assert_eq!(
        read_buffer[0], 0x82,
        "Upcase Table Root Directory Entry has invalid type"
    );

    // assert upcase table root directory entry checksum is correct
    assert_eq!(
        u32::from_le_bytes(read_buffer[4..8].try_into().unwrap()),
        0xe619d30d,
        "Upcase Table Root Directory Entry has invalid checksum"
    );

    let offset_bitmap_entry_bytes = 0x203040;

    read_exact(&f, offset_bitmap_entry_bytes, &mut read_buffer).unwrap();

    // assert bitmap root directory entry is at the expected offset
    assert_eq!(
        read_buffer[0], 0x81,
        "Allocation Bitmap Root Directory Entry has invalid type"
    );

    // assert bitmap root directory entry is of the expected size
    assert_eq!(
        &read_buffer[24..],
        960u64.to_le_bytes(),
        "Allocation Bitmap Root Directory Entry has invalid size"
    );
}
