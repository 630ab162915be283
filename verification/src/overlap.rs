//! Which files of a non-overlapping level fall within a key range, and
//! how many bytes they hold: the overlapping footprint every
//! level-to-level compaction must take along.

use vstd::prelude::*;
use crate::key_range::{KeyRange, ranges_overlap, key_ranges_overlap};
use crate::level_handler::LevelHandler;
use crate::sstable::{SstableInfo, sum_file_sizes, ssts_like, sst_like};

verus! {

/// The files of `s`, in order, whose key range overlaps `r`.
pub open spec fn overlapping_of(s: Seq<SstableInfo>, r: KeyRange) -> Seq<SstableInfo>
    decreases s.len(),
{
    if s.len() == 0 {
        Seq::empty()
    } else if ranges_overlap(r, s.last().key_range) {
        overlapping_of(s.drop_last(), r) + seq![s.last()]
    } else {
        overlapping_of(s.drop_last(), r)
    }
}

/// Bytes of the overlapping footprint of `r` in `s`.
pub open spec fn overlap_size(s: Seq<SstableInfo>, r: KeyRange) -> int {
    sum_file_sizes(overlapping_of(s, r))
}

/// The footprint never exceeds the level itself, and is never negative.
pub proof fn lemma_overlap_size_le(s: Seq<SstableInfo>, r: KeyRange)
    ensures
        0 <= overlap_size(s, r) <= sum_file_sizes(s),
    decreases s.len(),
{
    if s.len() != 0 {
        lemma_overlap_size_le(s.drop_last(), r);
        if ranges_overlap(r, s.last().key_range) {
            let rest = overlapping_of(s.drop_last(), r);
            assert((rest + seq![s.last()]).drop_last() =~= rest);
        }
    }
}

/// Scanning one more file extends the footprint by that file when it
/// overlaps, and leaves it unchanged otherwise.
pub proof fn lemma_overlapping_of_take_succ(s: Seq<SstableInfo>, r: KeyRange, k: int)
    requires
        0 <= k < s.len(),
    ensures
        overlapping_of(s.take(k + 1), r) == if ranges_overlap(r, s[k].key_range) {
            overlapping_of(s.take(k), r) + seq![s[k]]
        } else {
            overlapping_of(s.take(k), r)
        },
{
    assert(s.take(k + 1).drop_last() =~= s.take(k));
    assert(s.take(k + 1).last() == s[k]);
}

/// When no overlapping file of the level is claimed, no file of the
/// footprint is claimed either.
pub proof fn lemma_footprint_no_pending(s: Seq<SstableInfo>, r: KeyRange, h: LevelHandler)
    requires
        forall|j: int|
            0 <= j < s.len() && ranges_overlap(r, (#[trigger] s[j]).key_range) ==> !h.is_pending(
                s[j].sst_id,
            ),
    ensures
        forall|k: int|
            #![trigger overlapping_of(s, r)[k]]
            0 <= k < overlapping_of(s, r).len() ==> !h.is_pending(
                overlapping_of(s, r)[k].sst_id,
            ),
    decreases s.len(),
{
    if s.len() != 0 {
        let prev = s.drop_last();
        lemma_footprint_no_pending(prev, r, h);
        assert forall|k: int|
            #![trigger overlapping_of(s, r)[k]]
            0 <= k < overlapping_of(s, r).len() implies !h.is_pending(
            overlapping_of(s, r)[k].sst_id,
        ) by {
            if k < overlapping_of(prev, r).len() {
                assert(overlapping_of(s, r)[k] == overlapping_of(prev, r)[k]);
            } else {
                assert(overlapping_of(s, r)[k] == s[s.len() - 1]);
            }
        }
    }
}

/// Every overlapping file of the level stands in the footprint: a
/// level-to-level compaction takes the entire overlapping set along,
/// never part of it.
pub proof fn lemma_footprint_complete(s: Seq<SstableInfo>, r: KeyRange)
    ensures
        forall|j: int|
            0 <= j < s.len() && ranges_overlap(r, (#[trigger] s[j]).key_range) ==> exists|k: int|
                0 <= k < overlapping_of(s, r).len() && overlapping_of(s, r)[k] == s[j],
    decreases s.len(),
{
    if s.len() != 0 {
        let prev = s.drop_last();
        lemma_footprint_complete(prev, r);
        assert forall|j: int|
            0 <= j < s.len() && ranges_overlap(r, (#[trigger] s[j]).key_range) implies exists|
            k: int,
        |
            0 <= k < overlapping_of(s, r).len() && overlapping_of(s, r)[k] == s[j] by {
            if j < s.len() - 1 {
                assert(prev[j] == s[j]);
                let k = choose|k: int|
                    0 <= k < overlapping_of(prev, r).len() && overlapping_of(prev, r)[k]
                        == prev[j];
                assert(overlapping_of(s, r)[k] == s[j]);
            } else {
                assert(overlapping_of(s, r)[overlapping_of(s, r).len() - 1] == s[j]);
            }
        }
    }
}

/// The footprint depends only on the keys a range covers: two ranges
/// with the same bounds have the same footprint.
pub proof fn lemma_overlapping_of_congruence(s: Seq<SstableInfo>, r1: KeyRange, r2: KeyRange)
    requires
        r1.left@ == r2.left@,
        r1.right@ == r2.right@,
    ensures
        overlapping_of(s, r1) == overlapping_of(s, r2),
    decreases s.len(),
{
    if s.len() != 0 {
        lemma_overlapping_of_congruence(s.drop_last(), r1, r2);
        assert(ranges_overlap(r1, s.last().key_range) == ranges_overlap(r2, s.last().key_range));
    }
}

/// One pass over a level: the byte size of the footprint of `r`, and
/// whether any file of that footprint is already claimed.
pub fn overlap_info(tgt: &Vec<SstableInfo>, r: &KeyRange, handler: &LevelHandler) -> (out: (
    u64,
    bool,
))
    requires
        sum_file_sizes(tgt@) <= u64::MAX,
    ensures
        out.0 == overlap_size(tgt@, *r),
        out.1 == exists|j: int|
            0 <= j < tgt@.len() && ranges_overlap(*r, (#[trigger] tgt@[j]).key_range)
                && handler.is_pending(tgt@[j].sst_id),
{
    let mut size: u64 = 0;
    let mut pending = false;
    let mut k: usize = 0;
    assert(tgt@.take(0) =~= Seq::<SstableInfo>::empty());
    while k < tgt.len()
        invariant
            k <= tgt@.len(),
            sum_file_sizes(tgt@) <= u64::MAX,
            size == overlap_size(tgt@.take(k as int), *r),
            pending == exists|j: int|
                0 <= j < k && ranges_overlap(*r, (#[trigger] tgt@[j]).key_range)
                    && handler.is_pending(tgt@[j].sst_id),
        decreases tgt@.len() - k,
    {
        proof {
            lemma_overlapping_of_take_succ(tgt@, *r, k as int);
            crate::sstable::lemma_sum_file_sizes_take_le(tgt@, k as int + 1);
            lemma_overlap_size_le(tgt@.take(k as int + 1), *r);
        }
        if key_ranges_overlap(r, &tgt[k].key_range) {
            proof {
                let po = overlapping_of(tgt@.take(k as int), *r);
                assert((po + seq![tgt@[k as int]]).drop_last() =~= po);
            }
            size = size + tgt[k].file_size;
            if handler.is_pending_compact(tgt[k].sst_id) {
                pending = true;
            }
        }
        k = k + 1;
    }
    assert(tgt@.take(tgt@.len() as int) =~= tgt@);
    (size, pending)
}

/// Collects the footprint of `r` in the level, file for file.
pub fn collect_overlapping(tgt: &Vec<SstableInfo>, r: &KeyRange) -> (out: Vec<SstableInfo>)
    ensures
        ssts_like(out@, overlapping_of(tgt@, *r)),
{
    let mut out: Vec<SstableInfo> = Vec::new();
    let mut k: usize = 0;
    assert(tgt@.take(0) =~= Seq::<SstableInfo>::empty());
    while k < tgt.len()
        invariant
            k <= tgt@.len(),
            ssts_like(out@, overlapping_of(tgt@.take(k as int), *r)),
        decreases tgt@.len() - k,
    {
        proof {
            lemma_overlapping_of_take_succ(tgt@, *r, k as int);
        }
        if key_ranges_overlap(r, &tgt[k].key_range) {
            out.push(tgt[k].clone());
            proof {
                let po = overlapping_of(tgt@.take(k as int), *r);
                assert forall|i: int| 0 <= i < out@.len() implies sst_like(
                    #[trigger] out@[i],
                    (po + seq![tgt@[k as int]])[i],
                ) by {
                }
            }
        }
        k = k + 1;
    }
    assert(tgt@.take(tgt@.len() as int) =~= tgt@);
    out
}

} // verus!
