//! The directory scan: walk consecutive 32-byte slots, accumulate
//! long-file-name fragments, and flush them with their terminating short
//! entry as one logical directory entry.
//!
//! A slot whose first byte is zero ends the directory: the scan stops
//! there without emitting an entry for that slot, and fragments
//! accumulated for a never-terminated group are discarded. Deleted
//! entries (first byte 0xE5) are not treated specially: they are decoded
//! and surfaced like any other slot.

use vstd::prelude::*;

use crate::FatError;
use crate::dir::{
    DirEntry, DirEntryV, LFN_ATTRIBUTE, LongNameFragment, LongNameFragmentV, decode_fragment,
    decode_short_entry, fragment_views, spec_decode_fragment, spec_decode_short_entry,
};

verus! {

/// The 32-byte slot at entry index `i` of the region.
pub open spec fn slot_at(region: Seq<u8>, i: int) -> Seq<u8> {
    region.subrange(32 * i, 32 * i + 32)
}

/// The logical entries a scan starting at slot `i` produces, `acc` being
/// the fragments already accumulated for the current group, most recently
/// read first.
pub open spec fn spec_scan_from(
    region: Seq<u8>,
    i: nat,
    max: nat,
    acc: Seq<LongNameFragmentV>,
) -> Seq<DirEntryV>
    decreases max - i,
{
    if i >= max {
        Seq::empty()
    } else {
        let slot = slot_at(region, i as int);
        if slot[0] == 0x00 {
            Seq::empty()
        } else if slot[11] == LFN_ATTRIBUTE {
            spec_scan_from(region, i + 1, max, seq![spec_decode_fragment(slot)] + acc)
        } else {
            seq![DirEntryV { long_name: acc, meta: spec_decode_short_entry(slot) }]
                + spec_scan_from(region, i + 1, max, Seq::empty())
        }
    }
}

/// The logical entries a scan over the first `max` slots of `region`
/// produces.
pub open spec fn spec_scan(region: Seq<u8>, max: nat) -> Seq<DirEntryV> {
    spec_scan_from(region, 0, max, Seq::empty())
}

/// The images of a vector of logical entries.
pub open spec fn entry_views(entries: Seq<DirEntry>) -> Seq<DirEntryV> {
    Seq::new(entries.len(), |i: int| entries[i]@)
}

/// Scan a directory region of `max_entries` 32-byte slots into logical
/// entries. Each long-name fragment is prepended to the accumulator, so
/// a flushed entry lists its fragments in ascending name order (on disk
/// they lie highest order first); a slot whose first byte is zero ends
/// the scan early. A region holding fewer than `max_entries * 32` bytes
/// is rejected whole, never silently truncated.
pub fn scan_directory(region: &[u8], max_entries: usize) -> (r: Result<Vec<DirEntry>, FatError>)
    ensures
        region@.len() >= 32 * (max_entries as int) ==> r is Ok && entry_views(r->Ok_0@)
            == spec_scan(region@, max_entries as nat),
        region@.len() < 32 * (max_entries as int) ==> r == Err::<Vec<DirEntry>, FatError>(
            FatError::TruncatedInput {
                expected: if 32 * (max_entries as int) <= usize::MAX as int {
                    (32 * (max_entries as int)) as usize
                } else {
                    usize::MAX
                },
                available: region@.len() as usize,
            },
        ),
{
    let needed_opt = max_entries.checked_mul(32);
    let needed = match needed_opt {
        Some(n) => n,
        None => usize::MAX,
    };
    if needed_opt.is_none() || region.len() < needed {
        return Err(FatError::TruncatedInput { expected: needed, available: region.len() });
    }
    let mut entries: Vec<DirEntry> = Vec::new();
    let mut acc: Vec<LongNameFragment> = Vec::new();
    let mut i: usize = 0;
    proof {
        assert(entry_views(Seq::<DirEntry>::empty()) =~= Seq::<DirEntryV>::empty());
        assert(fragment_views(Seq::<LongNameFragment>::empty())
            =~= Seq::<LongNameFragmentV>::empty());
        assert(entry_views(Seq::<DirEntry>::empty()) + spec_scan(region@, max_entries as nat)
            =~= spec_scan(region@, max_entries as nat));
    }
    while i < max_entries
        invariant
            i <= max_entries,
            32 * (max_entries as int) <= usize::MAX as int,
            region@.len() >= 32 * (max_entries as int),
            spec_scan(region@, max_entries as nat) == entry_views(entries@) + spec_scan_from(
                region@,
                i as nat,
                max_entries as nat,
                fragment_views(acc@),
            ),
        decreases max_entries - i,
    {
        let slot = &region[i * 32..i * 32 + 32];
        proof {
            assert(slot@ == slot_at(region@, i as int));
        }
        if slot[0] == 0x00 {
            proof {
                assert(spec_scan_from(
                    region@,
                    i as nat,
                    max_entries as nat,
                    fragment_views(acc@),
                ) =~= Seq::<DirEntryV>::empty());
                assert(entry_views(entries@) + Seq::<DirEntryV>::empty()
                    =~= entry_views(entries@));
            }
            return Ok(entries);
        }
        if slot[11] == LFN_ATTRIBUTE {
            let ghost acc0 = fragment_views(acc@);
            let frag = decode_fragment(slot);
            acc.insert(0, frag);
            proof {
                assert(fragment_views(acc@) =~= seq![spec_decode_fragment(
                    slot_at(region@, i as int),
                )] + acc0);
            }
        } else {
            let ghost acc0 = fragment_views(acc@);
            let ghost entries0 = entries@;
            let meta = decode_short_entry(slot);
            let entry = DirEntry { long_name: acc, meta };
            acc = Vec::new();
            entries.push(entry);
            proof {
                let e = DirEntryV {
                    long_name: acc0,
                    meta: spec_decode_short_entry(slot_at(region@, i as int)),
                };
                assert(entry_views(entries@) =~= entry_views(entries0) + seq![e]);
                assert(entry_views(entries0) + (seq![e] + spec_scan_from(
                    region@,
                    (i + 1) as nat,
                    max_entries as nat,
                    Seq::empty(),
                )) =~= (entry_views(entries0) + seq![e]) + spec_scan_from(
                    region@,
                    (i + 1) as nat,
                    max_entries as nat,
                    Seq::empty(),
                ));
                assert(fragment_views(acc@) =~= Seq::<LongNameFragmentV>::empty());
            }
        }
        i = i + 1;
    }
    proof {
        assert(entry_views(entries@) + spec_scan_from(
            region@,
            i as nat,
            max_entries as nat,
            fragment_views(acc@),
        ) =~= entry_views(entries@));
    }
    Ok(entries)
}

} // verus!
