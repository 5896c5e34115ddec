//! Decoder for the common BIOS Parameter Block: the first 36 bytes of a
//! FAT32 volume, every multi-byte field composed little-endian.

use vstd::prelude::*;

use crate::FatError;
use crate::bytes::{
    le16, le16_byte, le32, le32_byte, lemma_le16_round_trip, lemma_le32_round_trip, push_le16,
    push_le32, read_le16, read_le32,
};

verus! {

/// The number of bytes a boot-sector window must hold.
pub const BOOT_SECTOR_LEN: usize = 36;

/// The common boot-sector fields, decoded from a 36-byte window.
///
/// On a true FAT32 volume `table_size_16` and `total_sectors_16` are zero
/// by convention (the real values live in the FAT32 extension); that is
/// expected of well-formed volumes but not enforced here.
#[derive(Debug, Clone, PartialEq, Eq)]
pub struct BootSector {
    pub bootjmp: [u8; 3],
    pub oem_name: [u8; 8],
    pub bytes_per_sector: u16,
    pub sectors_per_cluster: u8,
    pub reserved_sector_count: u16,
    pub table_count: u8,
    pub root_entry_count: u16,
    pub total_sectors_16: u16,
    pub media_type: u8,
    pub table_size_16: u16,
    pub sectors_per_track: u16,
    pub head_side_count: u16,
    pub hidden_sector_count: u32,
    pub total_sectors_32: u32,
}

/// `bs` holds exactly the fields that the first 36 bytes of `bytes` encode.
pub open spec fn boot_sector_decodes(bytes: Seq<u8>, bs: BootSector) -> bool {
    &&& bs.bootjmp@ == seq![bytes[0], bytes[1], bytes[2]]
    &&& bs.oem_name@ == seq![
        bytes[3], bytes[4], bytes[5], bytes[6], bytes[7], bytes[8], bytes[9], bytes[10],
    ]
    &&& bs.bytes_per_sector == le16(bytes[11], bytes[12])
    &&& bs.sectors_per_cluster == bytes[13]
    &&& bs.reserved_sector_count == le16(bytes[14], bytes[15])
    &&& bs.table_count == bytes[16]
    &&& bs.root_entry_count == le16(bytes[17], bytes[18])
    &&& bs.total_sectors_16 == le16(bytes[19], bytes[20])
    &&& bs.media_type == bytes[21]
    &&& bs.table_size_16 == le16(bytes[22], bytes[23])
    &&& bs.sectors_per_track == le16(bytes[24], bytes[25])
    &&& bs.head_side_count == le16(bytes[26], bytes[27])
    &&& bs.hidden_sector_count == le32(bytes[28], bytes[29], bytes[30], bytes[31])
    &&& bs.total_sectors_32 == le32(bytes[32], bytes[33], bytes[34], bytes[35])
}

/// The 36 bytes that encode `bs`.
pub open spec fn spec_encode_boot_sector(bs: BootSector) -> Seq<u8> {
    seq![
        bs.bootjmp@[0],
        bs.bootjmp@[1],
        bs.bootjmp@[2],
        bs.oem_name@[0],
        bs.oem_name@[1],
        bs.oem_name@[2],
        bs.oem_name@[3],
        bs.oem_name@[4],
        bs.oem_name@[5],
        bs.oem_name@[6],
        bs.oem_name@[7],
        le16_byte(bs.bytes_per_sector, 0),
        le16_byte(bs.bytes_per_sector, 1),
        bs.sectors_per_cluster,
        le16_byte(bs.reserved_sector_count, 0),
        le16_byte(bs.reserved_sector_count, 1),
        bs.table_count,
        le16_byte(bs.root_entry_count, 0),
        le16_byte(bs.root_entry_count, 1),
        le16_byte(bs.total_sectors_16, 0),
        le16_byte(bs.total_sectors_16, 1),
        bs.media_type,
        le16_byte(bs.table_size_16, 0),
        le16_byte(bs.table_size_16, 1),
        le16_byte(bs.sectors_per_track, 0),
        le16_byte(bs.sectors_per_track, 1),
        le16_byte(bs.head_side_count, 0),
        le16_byte(bs.head_side_count, 1),
        le32_byte(bs.hidden_sector_count, 0),
        le32_byte(bs.hidden_sector_count, 1),
        le32_byte(bs.hidden_sector_count, 2),
        le32_byte(bs.hidden_sector_count, 3),
        le32_byte(bs.total_sectors_32, 0),
        le32_byte(bs.total_sectors_32, 1),
        le32_byte(bs.total_sectors_32, 2),
        le32_byte(bs.total_sectors_32, 3),
    ]
}

/// Decode the common boot-sector fields from a window of at least 36 bytes;
/// a shorter window is rejected, never zero-filled.
pub fn decode_boot_sector(bytes: &[u8]) -> (r: Result<BootSector, FatError>)
    ensures
        bytes@.len() >= BOOT_SECTOR_LEN ==> r is Ok && boot_sector_decodes(bytes@, r->Ok_0),
        bytes@.len() < BOOT_SECTOR_LEN ==> r == Err::<BootSector, FatError>(
            FatError::TruncatedInput { expected: BOOT_SECTOR_LEN, available: bytes@.len() as usize },
        ),
{
    if bytes.len() < BOOT_SECTOR_LEN {
        return Err(FatError::TruncatedInput { expected: BOOT_SECTOR_LEN, available: bytes.len() });
    }
    let bs = BootSector {
        bootjmp: [bytes[0], bytes[1], bytes[2]],
        oem_name: [
            bytes[3],
            bytes[4],
            bytes[5],
            bytes[6],
            bytes[7],
            bytes[8],
            bytes[9],
            bytes[10],
        ],
        bytes_per_sector: read_le16(bytes[11], bytes[12]),
        sectors_per_cluster: bytes[13],
        reserved_sector_count: read_le16(bytes[14], bytes[15]),
        table_count: bytes[16],
        root_entry_count: read_le16(bytes[17], bytes[18]),
        total_sectors_16: read_le16(bytes[19], bytes[20]),
        media_type: bytes[21],
        table_size_16: read_le16(bytes[22], bytes[23]),
        sectors_per_track: read_le16(bytes[24], bytes[25]),
        head_side_count: read_le16(bytes[26], bytes[27]),
        hidden_sector_count: read_le32(bytes[28], bytes[29], bytes[30], bytes[31]),
        total_sectors_32: read_le32(bytes[32], bytes[33], bytes[34], bytes[35]),
    };
    proof {
        assert(bs.bootjmp@ =~= seq![bytes@[0], bytes@[1], bytes@[2]]);
        assert(bs.oem_name@ =~= seq![
            bytes@[3],
            bytes@[4],
            bytes@[5],
            bytes@[6],
            bytes@[7],
            bytes@[8],
            bytes@[9],
            bytes@[10],
        ]);
    }
    Ok(bs)
}

/// Re-encode a boot sector into the 36 bytes it was decoded from.
pub fn encode_boot_sector(bs: &BootSector) -> (r: Vec<u8>)
    ensures
        r@ == spec_encode_boot_sector(*bs),
{
    let mut out: Vec<u8> = Vec::new();
    out.push(bs.bootjmp[0]);
    out.push(bs.bootjmp[1]);
    out.push(bs.bootjmp[2]);
    out.push(bs.oem_name[0]);
    out.push(bs.oem_name[1]);
    out.push(bs.oem_name[2]);
    out.push(bs.oem_name[3]);
    out.push(bs.oem_name[4]);
    out.push(bs.oem_name[5]);
    out.push(bs.oem_name[6]);
    out.push(bs.oem_name[7]);
    push_le16(&mut out, bs.bytes_per_sector);
    out.push(bs.sectors_per_cluster);
    push_le16(&mut out, bs.reserved_sector_count);
    out.push(bs.table_count);
    push_le16(&mut out, bs.root_entry_count);
    push_le16(&mut out, bs.total_sectors_16);
    out.push(bs.media_type);
    push_le16(&mut out, bs.table_size_16);
    push_le16(&mut out, bs.sectors_per_track);
    push_le16(&mut out, bs.head_side_count);
    push_le32(&mut out, bs.hidden_sector_count);
    push_le32(&mut out, bs.total_sectors_32);
    assert(out@ =~= spec_encode_boot_sector(*bs));
    out
}

/// Round trip: a boot sector decoded from a 36-byte window re-encodes to
/// exactly that window, so little-endian composition loses nothing.
pub proof fn lemma_boot_sector_round_trip(bytes: Seq<u8>, bs: BootSector)
    requires
        bytes.len() == BOOT_SECTOR_LEN,
        boot_sector_decodes(bytes, bs),
    ensures
        spec_encode_boot_sector(bs) == bytes,
{
    lemma_le16_round_trip(bytes[11], bytes[12]);
    lemma_le16_round_trip(bytes[14], bytes[15]);
    lemma_le16_round_trip(bytes[17], bytes[18]);
    lemma_le16_round_trip(bytes[19], bytes[20]);
    lemma_le16_round_trip(bytes[22], bytes[23]);
    lemma_le16_round_trip(bytes[24], bytes[25]);
    lemma_le16_round_trip(bytes[26], bytes[27]);
    lemma_le32_round_trip(bytes[28], bytes[29], bytes[30], bytes[31]);
    lemma_le32_round_trip(bytes[32], bytes[33], bytes[34], bytes[35]);
    assert(spec_encode_boot_sector(bs) =~= bytes);
}

} // verus!
