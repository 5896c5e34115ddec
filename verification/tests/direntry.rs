use fat32dec::FatError;
use fat32dec::dir::{DirEntry, decode_fragment, decode_short_entry};
use fat32dec::scan::scan_directory;

/// A short-entry slot with the given first byte, cluster words and size.
fn short_slot(first: u8, hi: [u8; 2], lo: [u8; 2], size: [u8; 4]) -> [u8; 32] {
    let mut s = [0u8; 32];
    s[0] = first;
    s[11] = 0x20; // an ordinary archive attribute, not the LFN marker
    s[20] = hi[0];
    s[21] = hi[1];
    s[26] = lo[0];
    s[27] = lo[1];
    s[28] = size[0];
    s[29] = size[1];
    s[30] = size[2];
    s[31] = size[3];
    s
}

/// An LFN slot with the given raw order byte and up to 13 name bytes,
/// stored as UCS-2 low bytes; the unit after the name is the 0x0000
/// terminator and the rest are 0xFFFF fill, as written on disk.
fn lfn_slot(order: u8, name: &[u8]) -> [u8; 32] {
    let mut units = [0xFFFFu16; 13];
    for (i, b) in name.iter().enumerate() {
        units[i] = *b as u16;
    }
    if name.len() < 13 {
        units[name.len()] = 0x0000;
    }
    let mut s = [0u8; 32];
    s[0] = order;
    s[11] = 0x0F;
    for i in 0..5 {
        s[1 + 2 * i] = (units[i] & 0xFF) as u8;
        s[2 + 2 * i] = (units[i] >> 8) as u8;
    }
    for i in 0..6 {
        s[14 + 2 * i] = (units[5 + i] & 0xFF) as u8;
        s[15 + 2 * i] = (units[5 + i] >> 8) as u8;
    }
    for i in 0..2 {
        s[28 + 2 * i] = (units[11 + i] & 0xFF) as u8;
        s[29 + 2 * i] = (units[11 + i] >> 8) as u8;
    }
    s
}

#[test]
fn cluster_composes_high_and_low_words() {
    let slot = short_slot(b'A', [0x02, 0x00], [0x05, 0x00], [0, 0, 0, 0]);
    let entry = DirEntry { long_name: vec![], meta: decode_short_entry(&slot) };
    assert_eq!(entry.cluster(), 0x00020005);
}

#[test]
fn size_composes_little_endian_bytes() {
    let slot = short_slot(b'A', [0, 0], [0, 0], [0x00, 0x10, 0x00, 0x00]);
    let entry = DirEntry { long_name: vec![], meta: decode_short_entry(&slot) };
    assert_eq!(entry.size(), 4096);
}

#[test]
fn fragment_order_masks_flag_and_top_bits() {
    let slot = lfn_slot(0x42, b"NOP");
    let frag = decode_fragment(&slot);
    assert_eq!(frag.order, 2);
    assert_eq!(frag.attribute, 0x0F);
    let slot_high = lfn_slot(0xB2, b"NOP");
    assert_eq!(decode_fragment(&slot_high).order, 0x12);
}

#[test]
fn short_entry_keeps_raw_fields() {
    let mut slot = short_slot(b'R', [0, 0], [0, 0], [0, 0, 0, 0]);
    for i in 0..11 {
        slot[i] = b"README  TXT"[i];
    }
    slot[13] = 99; // creation tenths of a second
    slot[14] = 0xC0;
    slot[15] = 0x53;
    slot[16] = 0xCF;
    slot[17] = 0x4A;
    let e = decode_short_entry(&slot);
    assert_eq!(&e.filename, b"README  TXT");
    assert_eq!(e.attributes, 0x20);
    assert_eq!(e.created_tenths_seconds, 99);
    assert_eq!(e.created_time, [0xC0, 0x53]);
    assert_eq!(e.created_date, [0xCF, 0x4A]);
}

#[test]
fn empty_fragment_list_gives_empty_name() {
    let slot = short_slot(b'A', [0, 0], [0, 0], [0, 0, 0, 0]);
    let entry = DirEntry { long_name: vec![], meta: decode_short_entry(&slot) };
    assert_eq!(entry.name(), "");
}

#[test]
fn default_entry_is_blank() {
    let entry = DirEntry::default();
    assert_eq!(entry.name(), "");
    assert_eq!(entry.cluster(), 0);
    assert_eq!(entry.size(), 0);
    assert_eq!(entry.meta.filename, [0u8; 11]);
}

#[test]
fn scan_stops_at_end_marker() {
    let region = [0u8; 32];
    let entries = scan_directory(&region, 1).unwrap();
    assert_eq!(entries.len(), 0);
}

#[test]
fn scan_reassembles_two_fragment_name() {
    let mut region = Vec::new();
    region.extend_from_slice(&lfn_slot(0x42, b"NOP"));
    region.extend_from_slice(&lfn_slot(0x01, b"ABCDEFGHIJKLM"));
    region.extend_from_slice(&short_slot(b'A', [0, 0], [0x07, 0x00], [0, 0, 0, 0]));
    let entries = scan_directory(&region, 3).unwrap();
    assert_eq!(entries.len(), 1);
    assert_eq!(entries[0].long_name.len(), 2);
    assert_eq!(entries[0].long_name[0].order, 1);
    assert_eq!(entries[0].long_name[1].order, 2);
    assert_eq!(entries[0].name(), "ABCDEFGHIJKLMNOP");
    assert_eq!(entries[0].cluster(), 7);
}

#[test]
fn scan_rejects_short_region() {
    let region = [0u8; 32];
    assert_eq!(
        scan_directory(&region, 2).unwrap_err(),
        FatError::TruncatedInput { expected: 64, available: 32 }
    );
}

#[test]
fn scan_flushes_each_short_entry() {
    let mut region = Vec::new();
    region.extend_from_slice(&short_slot(b'A', [0, 0], [0x01, 0x00], [0, 0, 0, 0]));
    region.extend_from_slice(&lfn_slot(0x01, b"HELLO"));
    region.extend_from_slice(&short_slot(b'B', [0, 0], [0x02, 0x00], [0, 0, 0, 0]));
    region.extend_from_slice(&short_slot(0x00, [0, 0], [0x03, 0x00], [0, 0, 0, 0]));
    let entries = scan_directory(&region, 4).unwrap();
    assert_eq!(entries.len(), 2);
    assert_eq!(entries[0].long_name.len(), 0);
    assert_eq!(entries[0].cluster(), 1);
    assert_eq!(entries[1].long_name.len(), 1);
    assert_eq!(entries[1].name(), "HELLO");
    assert_eq!(entries[1].cluster(), 2);
}

#[test]
fn scan_surfaces_deleted_entries() {
    let mut region = Vec::new();
    region.extend_from_slice(&short_slot(0xE5, [0, 0], [0x09, 0x00], [0, 0, 0, 0]));
    let entries = scan_directory(&region, 1).unwrap();
    assert_eq!(entries.len(), 1);
    assert_eq!(entries[0].meta.filename[0], 0xE5);
}

#[test]
fn name_decodes_invalid_bytes_lossily() {
    // 0xFF in the middle of the name is invalid UTF-8 and must become the
    // replacement character, not vanish or pass through.
    let mut region = Vec::new();
    region.extend_from_slice(&lfn_slot(0x01, &[b'A', 0xFF, b'B']));
    region.extend_from_slice(&short_slot(b'A', [0, 0], [0, 0], [0, 0, 0, 0]));
    let entries = scan_directory(&region, 2).unwrap();
    assert_eq!(entries.len(), 1);
    assert_eq!(entries[0].name(), "A\u{FFFD}B");
}

#[test]
fn scan_ignores_trailing_unterminated_fragments() {
    let mut region = Vec::new();
    region.extend_from_slice(&short_slot(b'A', [0, 0], [0x04, 0x00], [0, 0, 0, 0]));
    region.extend_from_slice(&lfn_slot(0x01, b"LOST"));
    let entries = scan_directory(&region, 2).unwrap();
    assert_eq!(entries.len(), 1);
    assert_eq!(entries[0].cluster(), 4);
}
