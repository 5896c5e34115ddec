//! Directory-entry decoding: classification of raw 32-byte slots into
//! short (8.3) entries and long-file-name fragments, and the field
//! extractors that derive the reconstructed name, starting cluster and
//! file size from a logical entry.

use vstd::prelude::*;

use crate::bytes::{le32, read_le32};

verus! {

/// The number of bytes in one directory slot.
pub const DIR_SLOT_LEN: usize = 32;

/// The attribute value (slot byte 11) that marks a long-file-name fragment.
pub const LFN_ATTRIBUTE: u8 = 0x0F;

/// A short (8.3-format) directory entry. Multi-byte fields keep their raw
/// little-endian bytes; the extractors below compose them on demand.
#[derive(Debug, Clone, PartialEq, Eq)]
pub struct ShortDirEntry {
    pub filename: [u8; 11],
    pub attributes: u8,
    pub reserved1: u8,
    pub created_tenths_seconds: u8,
    pub created_time: [u8; 2],
    pub created_date: [u8; 2],
    pub last_access_date: [u8; 2],
    pub highbits_cluster_number: [u8; 2],
    pub last_update_time: [u8; 2],
    pub last_update_date: [u8; 2],
    pub lowbits_cluster_number: [u8; 2],
    pub filesize: [u8; 4],
}

/// The mathematical image of a [`ShortDirEntry`]: every byte-array field
/// as a sequence.
pub struct ShortDirEntryV {
    pub filename: Seq<u8>,
    pub attributes: u8,
    pub reserved1: u8,
    pub created_tenths_seconds: u8,
    pub created_time: Seq<u8>,
    pub created_date: Seq<u8>,
    pub last_access_date: Seq<u8>,
    pub highbits_cluster_number: Seq<u8>,
    pub last_update_time: Seq<u8>,
    pub last_update_date: Seq<u8>,
    pub lowbits_cluster_number: Seq<u8>,
    pub filesize: Seq<u8>,
}

impl View for ShortDirEntry {
    type V = ShortDirEntryV;

    open spec fn view(&self) -> ShortDirEntryV {
        ShortDirEntryV {
            filename: self.filename@,
            attributes: self.attributes,
            reserved1: self.reserved1,
            created_tenths_seconds: self.created_tenths_seconds,
            created_time: self.created_time@,
            created_date: self.created_date@,
            last_access_date: self.last_access_date@,
            highbits_cluster_number: self.highbits_cluster_number@,
            last_update_time: self.last_update_time@,
            last_update_date: self.last_update_date@,
            lowbits_cluster_number: self.lowbits_cluster_number@,
            filesize: self.filesize@,
        }
    }
}

/// One long-file-name fragment: an auxiliary slot holding up to 13 UCS-2
/// code units of the name. `order` keeps only the low five bits of the
/// raw sequence byte; the 0x40 last-fragment flag is masked off.
#[derive(Debug, Clone, PartialEq, Eq)]
pub struct LongNameFragment {
    pub order: u8,
    pub first5chars: [u8; 10],
    pub attribute: u8,
    pub entry_type: u8,
    pub checksum: u8,
    pub next6chars: [u8; 12],
    pub zeros: [u8; 2],
    pub final2chars: [u8; 4],
}

/// The mathematical image of a [`LongNameFragment`].
pub struct LongNameFragmentV {
    pub order: u8,
    pub first5chars: Seq<u8>,
    pub attribute: u8,
    pub entry_type: u8,
    pub checksum: u8,
    pub next6chars: Seq<u8>,
    pub zeros: Seq<u8>,
    pub final2chars: Seq<u8>,
}

impl View for LongNameFragment {
    type V = LongNameFragmentV;

    open spec fn view(&self) -> LongNameFragmentV {
        LongNameFragmentV {
            order: self.order,
            first5chars: self.first5chars@,
            attribute: self.attribute,
            entry_type: self.entry_type,
            checksum: self.checksum,
            next6chars: self.next6chars@,
            zeros: self.zeros@,
            final2chars: self.final2chars@,
        }
    }
}

/// The short entry that the first 32 bytes of `slot` encode.
pub open spec fn spec_decode_short_entry(slot: Seq<u8>) -> ShortDirEntryV {
    ShortDirEntryV {
        filename: slot.subrange(0, 11),
        attributes: slot[11],
        reserved1: slot[12],
        created_tenths_seconds: slot[13],
        created_time: slot.subrange(14, 16),
        created_date: slot.subrange(16, 18),
        last_access_date: slot.subrange(18, 20),
        highbits_cluster_number: slot.subrange(20, 22),
        last_update_time: slot.subrange(22, 24),
        last_update_date: slot.subrange(24, 26),
        lowbits_cluster_number: slot.subrange(26, 28),
        filesize: slot.subrange(28, 32),
    }
}

/// The long-name fragment that the first 32 bytes of `slot` encode.
pub open spec fn spec_decode_fragment(slot: Seq<u8>) -> LongNameFragmentV {
    LongNameFragmentV {
        order: slot[0] & 0x1F,
        first5chars: slot.subrange(1, 11),
        attribute: slot[11],
        entry_type: slot[12],
        checksum: slot[13],
        next6chars: slot.subrange(14, 26),
        zeros: slot.subrange(26, 28),
        final2chars: slot.subrange(28, 32),
    }
}

/// Decode a raw 32-byte slot as a short (8.3) directory entry.
pub fn decode_short_entry(slot: &[u8]) -> (r: ShortDirEntry)
    requires
        slot@.len() >= DIR_SLOT_LEN,
    ensures
        r@ == spec_decode_short_entry(slot@),
{
    let r = ShortDirEntry {
        filename: [
            slot[0],
            slot[1],
            slot[2],
            slot[3],
            slot[4],
            slot[5],
            slot[6],
            slot[7],
            slot[8],
            slot[9],
            slot[10],
        ],
        attributes: slot[11],
        reserved1: slot[12],
        created_tenths_seconds: slot[13],
        created_time: [slot[14], slot[15]],
        created_date: [slot[16], slot[17]],
        last_access_date: [slot[18], slot[19]],
        highbits_cluster_number: [slot[20], slot[21]],
        last_update_time: [slot[22], slot[23]],
        last_update_date: [slot[24], slot[25]],
        lowbits_cluster_number: [slot[26], slot[27]],
        filesize: [slot[28], slot[29], slot[30], slot[31]],
    };
    proof {
        assert(r.filename@ =~= slot@.subrange(0, 11));
        assert(r.created_time@ =~= slot@.subrange(14, 16));
        assert(r.created_date@ =~= slot@.subrange(16, 18));
        assert(r.last_access_date@ =~= slot@.subrange(18, 20));
        assert(r.highbits_cluster_number@ =~= slot@.subrange(20, 22));
        assert(r.last_update_time@ =~= slot@.subrange(22, 24));
        assert(r.last_update_date@ =~= slot@.subrange(24, 26));
        assert(r.lowbits_cluster_number@ =~= slot@.subrange(26, 28));
        assert(r.filesize@ =~= slot@.subrange(28, 32));
    }
    r
}

/// Decode a raw 32-byte slot as a long-file-name fragment.
pub fn decode_fragment(slot: &[u8]) -> (r: LongNameFragment)
    requires
        slot@.len() >= DIR_SLOT_LEN,
    ensures
        r@ == spec_decode_fragment(slot@),
{
    let r = LongNameFragment {
        order: slot[0] & 0x1F,
        first5chars: [
            slot[1],
            slot[2],
            slot[3],
            slot[4],
            slot[5],
            slot[6],
            slot[7],
            slot[8],
            slot[9],
            slot[10],
        ],
        attribute: slot[11],
        entry_type: slot[12],
        checksum: slot[13],
        next6chars: [
            slot[14],
            slot[15],
            slot[16],
            slot[17],
            slot[18],
            slot[19],
            slot[20],
            slot[21],
            slot[22],
            slot[23],
            slot[24],
            slot[25],
        ],
        zeros: [slot[26], slot[27]],
        final2chars: [slot[28], slot[29], slot[30], slot[31]],
    };
    proof {
        assert(r.first5chars@ =~= slot@.subrange(1, 11));
        assert(r.next6chars@ =~= slot@.subrange(14, 26));
        assert(r.zeros@ =~= slot@.subrange(26, 28));
        assert(r.final2chars@ =~= slot@.subrange(28, 32));
    }
    r
}

/// One logical directory entry: the long-file-name fragments that precede
/// a short entry (in ascending order of their name characters) together
/// with that short entry.
#[derive(Debug)]
pub struct DirEntry {
    pub long_name: Vec<LongNameFragment>,
    pub meta: ShortDirEntry,
}

/// The mathematical image of a [`DirEntry`].
pub struct DirEntryV {
    pub long_name: Seq<LongNameFragmentV>,
    pub meta: ShortDirEntryV,
}

/// The images of a sequence of fragments.
pub open spec fn fragment_views(frags: Seq<LongNameFragment>) -> Seq<LongNameFragmentV> {
    Seq::new(frags.len(), |i: int| frags[i]@)
}

impl View for DirEntry {
    type V = DirEntryV;

    open spec fn view(&self) -> DirEntryV {
        DirEntryV { long_name: fragment_views(self.long_name@), meta: self.meta@ }
    }
}

/// The all-zero short entry: what a zero-filled slot decodes to.
pub open spec fn blank_short_entry() -> ShortDirEntryV {
    spec_decode_short_entry(Seq::new(DIR_SLOT_LEN as nat, |i: int| 0u8))
}

impl Default for DirEntry {
    /// A logical entry with no long-name fragments and a zeroed short entry.
    fn default() -> (r: Self)
        ensures
            r@.long_name == Seq::<LongNameFragmentV>::empty(),
            r@.meta == blank_short_entry(),
    {
        let zero_slot: [u8; 32] = [0u8; 32];
        let meta = decode_short_entry(zero_slot.as_slice());
        proof {
            assert(zero_slot@ =~= Seq::new(DIR_SLOT_LEN as nat, |i: int| 0u8));
            assert(fragment_views(Seq::<LongNameFragment>::empty())
                =~= Seq::<LongNameFragmentV>::empty());
        }
        DirEntry { long_name: Vec::new(), meta }
    }
}

/// The 13 name bytes a fragment contributes: the low byte of each of its
/// UCS-2 code units, in storage order; the high bytes are discarded, so
/// names are read as extended ASCII rather than full UCS-2.
pub open spec fn fragment_low_bytes(f: LongNameFragmentV) -> Seq<u8> {
    seq![
        f.first5chars[0],
        f.first5chars[2],
        f.first5chars[4],
        f.first5chars[6],
        f.first5chars[8],
        f.next6chars[0],
        f.next6chars[2],
        f.next6chars[4],
        f.next6chars[6],
        f.next6chars[8],
        f.next6chars[10],
        f.final2chars[0],
        f.final2chars[2],
    ]
}

/// The name bytes of a fragment list: each fragment's 13 low bytes,
/// concatenated in list order.
pub open spec fn name_bytes(frags: Seq<LongNameFragmentV>) -> Seq<u8>
    decreases frags.len(),
{
    if frags.len() == 0 {
        Seq::empty()
    } else {
        fragment_low_bytes(frags[0]) + name_bytes(frags.drop_first())
    }
}

/// Appending a fragment appends its 13 low bytes.
pub proof fn lemma_name_bytes_push(frags: Seq<LongNameFragmentV>, f: LongNameFragmentV)
    ensures
        name_bytes(frags.push(f)) == name_bytes(frags) + fragment_low_bytes(f),
    decreases frags.len(),
{
    if frags.len() == 0 {
        assert(frags.push(f)[0] == f);
        assert(frags.push(f).drop_first() =~= Seq::<LongNameFragmentV>::empty());
        assert(name_bytes(frags.push(f)) == fragment_low_bytes(f) + name_bytes(
            Seq::<LongNameFragmentV>::empty(),
        ));
        assert(name_bytes(Seq::<LongNameFragmentV>::empty()) == Seq::<u8>::empty());
        assert(name_bytes(frags.push(f)) =~= name_bytes(frags) + fragment_low_bytes(f));
    } else {
        lemma_name_bytes_push(frags.drop_first(), f);
        assert(frags.push(f).drop_first() =~= frags.drop_first().push(f));
        assert(fragment_low_bytes(frags[0]) + (name_bytes(frags.drop_first())
            + fragment_low_bytes(f)) =~= (fragment_low_bytes(frags[0]) + name_bytes(
            frags.drop_first(),
        )) + fragment_low_bytes(f));
        assert(name_bytes(frags.push(f)) =~= name_bytes(frags) + fragment_low_bytes(f));
    }
}

/// `s` with every trailing padding byte removed: the low byte of the
/// 0x0000 terminator or of 0xFFFF fill.
pub open spec fn strip_trailing_padding(s: Seq<u8>) -> Seq<u8>
    decreases s.len(),
{
    if s.len() > 0 && (s.last() == 0x00 || s.last() == 0xFF) {
        strip_trailing_padding(s.drop_last())
    } else {
        s
    }
}

/// What `String::from_utf8_lossy` returns for the given bytes: UTF-8
/// decoding with each invalid sequence replaced by U+FFFD. A function of
/// the bytes alone.
pub uninterp spec fn utf8_lossy_chars(bytes: Seq<u8>) -> Seq<char>;

/// Relies on `String::from_utf8_lossy`: the decoded text depends on the
/// bytes alone, and decoding no bytes gives the empty string.
#[verifier::external_body]
fn utf8_lossy(bytes: &Vec<u8>) -> (r: String)
    ensures
        r@ == utf8_lossy_chars(bytes@),
        bytes@.len() == 0 ==> r@.len() == 0,
{
    String::from_utf8_lossy(bytes).into_owned()
}

impl DirEntry {
    /// The reconstructed long name: each fragment's low bytes in list
    /// order, trailing padding stripped, decoded as UTF-8 with lossy
    /// replacement. An entry with no fragments has the empty name.
    pub fn name(&self) -> (r: String)
        ensures
            r@ == utf8_lossy_chars(strip_trailing_padding(name_bytes(self@.long_name))),
    {
        let mut bytes: Vec<u8> = Vec::new();
        let mut i: usize = 0;
        proof {
            assert(fragment_views(self.long_name@).subrange(0, 0)
                =~= Seq::<LongNameFragmentV>::empty());
        }
        while i < self.long_name.len()
            invariant
                i <= self.long_name@.len(),
                bytes@ == name_bytes(fragment_views(self.long_name@).subrange(0, i as int)),
            decreases self.long_name@.len() - i,
        {
            let f = &self.long_name[i];
            bytes.push(f.first5chars[0]);
            bytes.push(f.first5chars[2]);
            bytes.push(f.first5chars[4]);
            bytes.push(f.first5chars[6]);
            bytes.push(f.first5chars[8]);
            bytes.push(f.next6chars[0]);
            bytes.push(f.next6chars[2]);
            bytes.push(f.next6chars[4]);
            bytes.push(f.next6chars[6]);
            bytes.push(f.next6chars[8]);
            bytes.push(f.next6chars[10]);
            bytes.push(f.final2chars[0]);
            bytes.push(f.final2chars[2]);
            proof {
                let views = fragment_views(self.long_name@);
                lemma_name_bytes_push(views.subrange(0, i as int), views[i as int]);
                assert(bytes@ =~= name_bytes(views.subrange(0, i as int))
                    + fragment_low_bytes(views[i as int]));
                assert(views.subrange(0, i as int).push(views[i as int])
                    =~= views.subrange(0, i + 1));
            }
            i = i + 1;
        }
        proof {
            assert(fragment_views(self.long_name@).subrange(0, self.long_name@.len() as int)
                =~= fragment_views(self.long_name@));
        }
        let ghost full = bytes@;
        while bytes.len() > 0 && (bytes[bytes.len() - 1] == 0x00 || bytes[bytes.len() - 1] == 0xFF)
            invariant
                strip_trailing_padding(full) == strip_trailing_padding(bytes@),
            decreases bytes@.len(),
        {
            let ghost before = bytes@;
            bytes.pop();
            proof {
                assert(bytes@ =~= before.drop_last());
            }
        }
        proof {
            assert(strip_trailing_padding(bytes@) == bytes@);
        }
        utf8_lossy(&bytes)
    }

    /// The starting cluster number: the high 16-bit word in bits 16-31,
    /// the low word in bits 0-15, each word little-endian.
    pub fn cluster(&self) -> (r: u32)
        ensures
            r == cluster_number(self@.meta),
    {
        let hi = self.meta.highbits_cluster_number;
        let lo = self.meta.lowbits_cluster_number;
        read_le32(lo[0], lo[1], hi[0], hi[1])
    }

    /// The file size in bytes, composed from its four little-endian bytes.
    pub fn size(&self) -> (r: u32)
        ensures
            r == file_size(self@.meta),
    {
        let fs = self.meta.filesize;
        read_le32(fs[0], fs[1], fs[2], fs[3])
    }
}

/// The starting cluster a short entry stores: high word in bits 16-31,
/// low word in bits 0-15.
pub open spec fn cluster_number(meta: ShortDirEntryV) -> u32 {
    le32(
        meta.lowbits_cluster_number[0],
        meta.lowbits_cluster_number[1],
        meta.highbits_cluster_number[0],
        meta.highbits_cluster_number[1],
    )
}

/// The file size a short entry stores, from its four little-endian bytes.
pub open spec fn file_size(meta: ShortDirEntryV) -> u32 {
    le32(meta.filesize[0], meta.filesize[1], meta.filesize[2], meta.filesize[3])
}

} // verus!
