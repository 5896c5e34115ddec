//! Decoder for the FAT32 extended BIOS Parameter Block: the 54 bytes that
//! immediately follow the common boot-sector region.

use vstd::prelude::*;

use crate::FatError;
use crate::bytes::{
    le16, le16_byte, le32, le32_byte, lemma_le16_round_trip, lemma_le32_round_trip, push_le16,
    push_le32, read_le16, read_le32,
};

verus! {

/// The number of bytes a FAT32-extension window must hold.
pub const FAT32_EXT_LEN: usize = 54;

/// The FAT32-specific extended fields, decoded from a 54-byte window.
///
/// A `boot_signature` of 0x29 marks the volume id, label and type fields
/// as valid; that is expected of well-formed volumes but not enforced here.
#[derive(Debug, Clone, PartialEq, Eq)]
pub struct Fat32Ext {
    pub table_size_32: u32,
    pub extended_flags: u16,
    pub fat_version: u16,
    pub root_cluster: u32,
    pub fat_info: u16,
    pub backup_bs_sector: u16,
    pub reserved_0: [u8; 12],
    pub drive_number: u8,
    pub reserved_1: u8,
    pub boot_signature: u8,
    pub volume_id: u32,
    pub volume_label: [u8; 11],
    pub fat_type_label: [u8; 8],
}

/// `ext` holds exactly the fields that the first 54 bytes of `bytes` encode.
pub open spec fn fat32_ext_decodes(bytes: Seq<u8>, ext: Fat32Ext) -> bool {
    &&& ext.table_size_32 == le32(bytes[0], bytes[1], bytes[2], bytes[3])
    &&& ext.extended_flags == le16(bytes[4], bytes[5])
    &&& ext.fat_version == le16(bytes[6], bytes[7])
    &&& ext.root_cluster == le32(bytes[8], bytes[9], bytes[10], bytes[11])
    &&& ext.fat_info == le16(bytes[12], bytes[13])
    &&& ext.backup_bs_sector == le16(bytes[14], bytes[15])
    &&& ext.reserved_0@ == bytes.subrange(16, 28)
    &&& ext.drive_number == bytes[28]
    &&& ext.reserved_1 == bytes[29]
    &&& ext.boot_signature == bytes[30]
    &&& ext.volume_id == le32(bytes[31], bytes[32], bytes[33], bytes[34])
    &&& ext.volume_label@ == bytes.subrange(35, 46)
    &&& ext.fat_type_label@ == bytes.subrange(46, 54)
}

/// The 54 bytes that encode `ext`.
pub open spec fn spec_encode_fat32_ext(ext: Fat32Ext) -> Seq<u8> {
    seq![
        le32_byte(ext.table_size_32, 0),
        le32_byte(ext.table_size_32, 1),
        le32_byte(ext.table_size_32, 2),
        le32_byte(ext.table_size_32, 3),
        le16_byte(ext.extended_flags, 0),
        le16_byte(ext.extended_flags, 1),
        le16_byte(ext.fat_version, 0),
        le16_byte(ext.fat_version, 1),
        le32_byte(ext.root_cluster, 0),
        le32_byte(ext.root_cluster, 1),
        le32_byte(ext.root_cluster, 2),
        le32_byte(ext.root_cluster, 3),
        le16_byte(ext.fat_info, 0),
        le16_byte(ext.fat_info, 1),
        le16_byte(ext.backup_bs_sector, 0),
        le16_byte(ext.backup_bs_sector, 1),
    ] + ext.reserved_0@ + seq![
        ext.drive_number,
        ext.reserved_1,
        ext.boot_signature,
        le32_byte(ext.volume_id, 0),
        le32_byte(ext.volume_id, 1),
        le32_byte(ext.volume_id, 2),
        le32_byte(ext.volume_id, 3),
    ] + ext.volume_label@ + ext.fat_type_label@
}

/// Decode the FAT32 extension from a window of at least 54 bytes; a
/// shorter window is rejected, never zero-filled.
pub fn decode_fat32_ext(bytes: &[u8]) -> (r: Result<Fat32Ext, FatError>)
    ensures
        bytes@.len() >= FAT32_EXT_LEN ==> r is Ok && fat32_ext_decodes(bytes@, r->Ok_0),
        bytes@.len() < FAT32_EXT_LEN ==> r == Err::<Fat32Ext, FatError>(
            FatError::TruncatedInput { expected: FAT32_EXT_LEN, available: bytes@.len() as usize },
        ),
{
    if bytes.len() < FAT32_EXT_LEN {
        return Err(FatError::TruncatedInput { expected: FAT32_EXT_LEN, available: bytes.len() });
    }
    let ext = Fat32Ext {
        table_size_32: read_le32(bytes[0], bytes[1], bytes[2], bytes[3]),
        extended_flags: read_le16(bytes[4], bytes[5]),
        fat_version: read_le16(bytes[6], bytes[7]),
        root_cluster: read_le32(bytes[8], bytes[9], bytes[10], bytes[11]),
        fat_info: read_le16(bytes[12], bytes[13]),
        backup_bs_sector: read_le16(bytes[14], bytes[15]),
        reserved_0: [
            bytes[16],
            bytes[17],
            bytes[18],
            bytes[19],
            bytes[20],
            bytes[21],
            bytes[22],
            bytes[23],
            bytes[24],
            bytes[25],
            bytes[26],
            bytes[27],
        ],
        drive_number: bytes[28],
        reserved_1: bytes[29],
        boot_signature: bytes[30],
        volume_id: read_le32(bytes[31], bytes[32], bytes[33], bytes[34]),
        volume_label: [
            bytes[35],
            bytes[36],
            bytes[37],
            bytes[38],
            bytes[39],
            bytes[40],
            bytes[41],
            bytes[42],
            bytes[43],
            bytes[44],
            bytes[45],
        ],
        fat_type_label: [
            bytes[46],
            bytes[47],
            bytes[48],
            bytes[49],
            bytes[50],
            bytes[51],
            bytes[52],
            bytes[53],
        ],
    };
    proof {
        assert(ext.reserved_0@ =~= bytes@.subrange(16, 28));
        assert(ext.volume_label@ =~= bytes@.subrange(35, 46));
        assert(ext.fat_type_label@ =~= bytes@.subrange(46, 54));
    }
    Ok(ext)
}

/// Re-encode a FAT32 extension into the 54 bytes it was decoded from.
pub fn encode_fat32_ext(ext: &Fat32Ext) -> (r: Vec<u8>)
    ensures
        r@ == spec_encode_fat32_ext(*ext),
{
    let mut out: Vec<u8> = Vec::new();
    push_le32(&mut out, ext.table_size_32);
    push_le16(&mut out, ext.extended_flags);
    push_le16(&mut out, ext.fat_version);
    push_le32(&mut out, ext.root_cluster);
    push_le16(&mut out, ext.fat_info);
    push_le16(&mut out, ext.backup_bs_sector);
    assert(out@ =~= spec_encode_fat32_ext(*ext).subrange(0, 16) + ext.reserved_0@.subrange(0, 0));
    let mut i: usize = 0;
    while i < 12
        invariant
            i <= 12,
            out@ == spec_encode_fat32_ext(*ext).subrange(0, 16) + ext.reserved_0@.subrange(
                0,
                i as int,
            ),
        decreases 12 - i,
    {
        out.push(ext.reserved_0[i]);
        proof {
            assert(out@ =~= spec_encode_fat32_ext(*ext).subrange(0, 16)
                + ext.reserved_0@.subrange(0, i + 1));
        }
        i = i + 1;
    }
    out.push(ext.drive_number);
    out.push(ext.reserved_1);
    out.push(ext.boot_signature);
    push_le32(&mut out, ext.volume_id);
    assert(out@ =~= spec_encode_fat32_ext(*ext).subrange(0, 35) + ext.volume_label@.subrange(0, 0));
    let mut j: usize = 0;
    while j < 11
        invariant
            j <= 11,
            out@ == spec_encode_fat32_ext(*ext).subrange(0, 35) + ext.volume_label@.subrange(
                0,
                j as int,
            ),
        decreases 11 - j,
    {
        out.push(ext.volume_label[j]);
        proof {
            assert(out@ =~= spec_encode_fat32_ext(*ext).subrange(0, 35)
                + ext.volume_label@.subrange(0, j + 1));
        }
        j = j + 1;
    }
    assert(out@ =~= spec_encode_fat32_ext(*ext).subrange(0, 46) + ext.fat_type_label@.subrange(
        0,
        0,
    ));
    let mut k: usize = 0;
    while k < 8
        invariant
            k <= 8,
            out@ == spec_encode_fat32_ext(*ext).subrange(0, 46) + ext.fat_type_label@.subrange(
                0,
                k as int,
            ),
        decreases 8 - k,
    {
        out.push(ext.fat_type_label[k]);
        proof {
            assert(out@ =~= spec_encode_fat32_ext(*ext).subrange(0, 46)
                + ext.fat_type_label@.subrange(0, k + 1));
        }
        k = k + 1;
    }
    assert(out@ =~= spec_encode_fat32_ext(*ext));
    out
}

/// Round trip: a FAT32 extension decoded from a 54-byte window re-encodes
/// to exactly that window.
pub proof fn lemma_fat32_ext_round_trip(bytes: Seq<u8>, ext: Fat32Ext)
    requires
        bytes.len() == FAT32_EXT_LEN,
        fat32_ext_decodes(bytes, ext),
    ensures
        spec_encode_fat32_ext(ext) == bytes,
{
    lemma_le32_round_trip(bytes[0], bytes[1], bytes[2], bytes[3]);
    lemma_le16_round_trip(bytes[4], bytes[5]);
    lemma_le16_round_trip(bytes[6], bytes[7]);
    lemma_le32_round_trip(bytes[8], bytes[9], bytes[10], bytes[11]);
    lemma_le16_round_trip(bytes[12], bytes[13]);
    lemma_le16_round_trip(bytes[14], bytes[15]);
    lemma_le32_round_trip(bytes[31], bytes[32], bytes[33], bytes[34]);
    assert(spec_encode_fat32_ext(ext) =~= bytes);
}

} // verus!
