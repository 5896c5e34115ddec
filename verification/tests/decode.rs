use fat32dec::FatError;
use fat32dec::boot::{decode_boot_sector, encode_boot_sector};
use fat32dec::ext::{decode_fat32_ext, encode_fat32_ext};
use fat32dec::time::datetime;

fn boot_window() -> Vec<u8> {
    let mut w = vec![0u8; 36];
    // jump instruction and OEM name
    w[0] = 0xEB;
    w[1] = 0x58;
    w[2] = 0x90;
    for (i, b) in b"MSWIN4.1".iter().enumerate() {
        w[3 + i] = *b;
    }
    // bytes per sector = 512
    w[11] = 0x00;
    w[12] = 0x02;
    w[13] = 8; // sectors per cluster
    // reserved sectors = 32
    w[14] = 0x20;
    w[15] = 0x00;
    w[16] = 2; // FAT count
    // root entries, total sectors 16: zero on FAT32
    w[21] = 0xF8; // media type
    // sectors per track = 63
    w[24] = 0x3F;
    w[25] = 0x00;
    // heads = 255
    w[26] = 0xFF;
    w[27] = 0x00;
    // hidden sectors = 0x00000800
    w[28] = 0x00;
    w[29] = 0x08;
    w[30] = 0x00;
    w[31] = 0x00;
    // total sectors 32 = 0x00F00000
    w[32] = 0x00;
    w[33] = 0x00;
    w[34] = 0xF0;
    w[35] = 0x00;
    w
}

fn ext_window() -> Vec<u8> {
    let mut w = vec![0u8; 54];
    // table size = 0x00003AFB
    w[0] = 0xFB;
    w[1] = 0x3A;
    w[2] = 0x00;
    w[3] = 0x00;
    // extended flags, version zero; root cluster = 2
    w[8] = 0x02;
    // FSInfo sector = 1
    w[12] = 0x01;
    // backup boot sector = 6
    w[14] = 0x06;
    // reserved bytes hold arbitrary junk that must survive a round trip
    for i in 16..28 {
        w[i] = 0xA0 + (i as u8 - 16);
    }
    w[28] = 0x80; // drive number
    w[30] = 0x29; // boot signature
    // volume id = 0xDEADBEEF
    w[31] = 0xEF;
    w[32] = 0xBE;
    w[33] = 0xAD;
    w[34] = 0xDE;
    for (i, b) in b"NO NAME    ".iter().enumerate() {
        w[35 + i] = *b;
    }
    for (i, b) in b"FAT32   ".iter().enumerate() {
        w[46 + i] = *b;
    }
    w
}

#[test]
fn boot_sector_fields_decode_little_endian() {
    let w = boot_window();
    let bs = decode_boot_sector(&w).unwrap();
    assert_eq!(bs.bootjmp, [0xEB, 0x58, 0x90]);
    assert_eq!(&bs.oem_name, b"MSWIN4.1");
    assert_eq!(bs.bytes_per_sector, 512);
    assert_eq!(bs.sectors_per_cluster, 8);
    assert_eq!(bs.reserved_sector_count, 32);
    assert_eq!(bs.table_count, 2);
    assert_eq!(bs.root_entry_count, 0);
    assert_eq!(bs.total_sectors_16, 0);
    assert_eq!(bs.media_type, 0xF8);
    assert_eq!(bs.table_size_16, 0);
    assert_eq!(bs.sectors_per_track, 63);
    assert_eq!(bs.head_side_count, 255);
    assert_eq!(bs.hidden_sector_count, 0x00000800);
    assert_eq!(bs.total_sectors_32, 0x00F00000);
}

#[test]
fn boot_sector_round_trips() {
    let w = boot_window();
    let bs = decode_boot_sector(&w).unwrap();
    assert_eq!(encode_boot_sector(&bs), w);
}

#[test]
fn boot_sector_rejects_short_window() {
    let w = vec![0u8; 35];
    assert_eq!(
        decode_boot_sector(&w),
        Err(FatError::TruncatedInput { expected: 36, available: 35 })
    );
}

#[test]
fn fat32_ext_fields_decode_little_endian() {
    let w = ext_window();
    let ext = decode_fat32_ext(&w).unwrap();
    assert_eq!(ext.table_size_32, 0x00003AFB);
    assert_eq!(ext.extended_flags, 0);
    assert_eq!(ext.fat_version, 0);
    assert_eq!(ext.root_cluster, 2);
    assert_eq!(ext.fat_info, 1);
    assert_eq!(ext.backup_bs_sector, 6);
    assert_eq!(
        ext.reserved_0,
        [0xA0, 0xA1, 0xA2, 0xA3, 0xA4, 0xA5, 0xA6, 0xA7, 0xA8, 0xA9, 0xAA, 0xAB]
    );
    assert_eq!(ext.drive_number, 0x80);
    assert_eq!(ext.reserved_1, 0);
    assert_eq!(ext.boot_signature, 0x29);
    assert_eq!(ext.volume_id, 0xDEADBEEF);
    assert_eq!(&ext.volume_label, b"NO NAME    ");
    assert_eq!(&ext.fat_type_label, b"FAT32   ");
}

#[test]
fn fat32_ext_round_trips() {
    let w = ext_window();
    let ext = decode_fat32_ext(&w).unwrap();
    assert_eq!(encode_fat32_ext(&ext), w);
}

#[test]
fn fat32_ext_rejects_short_window() {
    let w = vec![0u8; 53];
    assert_eq!(
        decode_fat32_ext(&w),
        Err(FatError::TruncatedInput { expected: 54, available: 53 })
    );
}

#[test]
fn datetime_renders_fields() {
    // year offset 37 (2017), month 6, day 15: 37<<9 | 6<<5 | 15 = 0x4ACF
    let date = [0xCF, 0x4A];
    // hour 10, minute 30, second tick 0: 10<<11 | 30<<5 = 0x53C0
    let time = [0xC0, 0x53];
    assert_eq!(datetime(date, time), "2017-6-15T10:30:0");
}

#[test]
fn datetime_epoch_is_1980() {
    assert_eq!(datetime([0x21, 0x00], [0x00, 0x00]), "1980-1-1T0:0:0");
}
