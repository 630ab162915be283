//! Level-to-level compaction with the least write amplification: among
//! the unclaimed files of the source level, pick the one whose
//! overlapping footprint in the target level is smallest, ties going to
//! the candidate with the smaller start key.

use vstd::prelude::*;
use crate::key_range::ranges_overlap;
use crate::level::{Levels, LevelType};
use crate::level_handler::LevelHandler;
use crate::overlap::{collect_overlapping, lemma_footprint_no_pending, overlap_info, overlap_size,
    overlapping_of};
use crate::picker::{CompactionInput, CompactionPicker, InputLevel, LocalPickerStatistic,
    input_no_pending, saturating_inc};
use crate::sstable::{SstableInfo, ssts_like};

verus! {

/// Picks the source-level file with the smallest overlapping footprint
/// in the target level.
pub struct MinOverlappingPicker {
    pub level: usize,
    pub target_level: usize,
}

/// A candidate is valid when neither it nor any target file it
/// overlaps is already claimed by an in-flight task.
pub open spec fn min_overlap_valid(
    src: Seq<SstableInfo>,
    tgt: Seq<SstableInfo>,
    h_src: LevelHandler,
    h_tgt: LevelHandler,
    i: int,
) -> bool {
    &&& 0 <= i < src.len()
    &&& !h_src.is_pending(src[i].sst_id)
    &&& forall|j: int|
        0 <= j < tgt.len() && ranges_overlap(src[i].key_range, (#[trigger] tgt[j]).key_range)
            ==> !h_tgt.is_pending(tgt[j].sst_id)
}

/// The selected input: the candidate file from the source level and
/// its entire overlapping footprint in the target level.
pub open spec fn min_overlap_input_matches(
    src: Seq<SstableInfo>,
    tgt: Seq<SstableInfo>,
    level: int,
    target_level: int,
    c: CompactionInput,
    i: int,
) -> bool {
    &&& c.input_levels@.len() == 2
    &&& c.input_levels@[0].level_idx == level
    &&& c.input_levels@[0].level_type == LevelType::Nonoverlapping
    &&& ssts_like(c.input_levels@[0].table_infos@, seq![src[i]])
    &&& c.input_levels@[1].level_idx == target_level
    &&& c.input_levels@[1].level_type == LevelType::Nonoverlapping
    &&& ssts_like(c.input_levels@[1].table_infos@, overlapping_of(tgt, src[i].key_range))
    &&& c.target_level == target_level
    &&& c.target_sub_level_id == 0
}

/// Exactly what a minimal-overlap pick returns: the first valid
/// candidate whose footprint is no larger than that of any other valid
/// candidate, or nothing when no candidate is valid.
pub open spec fn is_min_overlap_pick(
    src: Seq<SstableInfo>,
    tgt: Seq<SstableInfo>,
    h_src: LevelHandler,
    h_tgt: LevelHandler,
    level: int,
    target_level: int,
    r: Option<CompactionInput>,
) -> bool {
    match r {
        Option::None => forall|i: int| !min_overlap_valid(src, tgt, h_src, h_tgt, i),
        Option::Some(c) => exists|i: int|
            #![trigger min_overlap_valid(src, tgt, h_src, h_tgt, i)]
            {
                &&& min_overlap_valid(src, tgt, h_src, h_tgt, i)
                &&& forall|j: int|
                    min_overlap_valid(src, tgt, h_src, h_tgt, j) ==> overlap_size(
                        tgt,
                        src[i].key_range,
                    ) <= overlap_size(tgt, src[j].key_range)
                &&& forall|j: int|
                    min_overlap_valid(src, tgt, h_src, h_tgt, j) && j < i ==> overlap_size(
                        tgt,
                        src[j].key_range,
                    ) > overlap_size(tgt, src[i].key_range)
                &&& min_overlap_input_matches(src, tgt, level, target_level, c, i)
            },
    }
}

impl MinOverlappingPicker {
    pub fn new(level: usize, target_level: usize) -> (r: MinOverlappingPicker)
        ensures
            r.level == level,
            r.target_level == target_level,
    {
        MinOverlappingPicker { level, target_level }
    }

    /// Scans the source level in key order, computing for each
    /// unclaimed candidate the byte size of its overlapping footprint
    /// in the target level, and keeps the first candidate achieving
    /// the minimum.
    pub fn pick_min_overlap_compaction(
        &self,
        levels: &Levels,
        level_handlers: &Vec<LevelHandler>,
        stats: &mut LocalPickerStatistic,
    ) -> (r: Option<CompactionInput>)
        requires
            levels.wf(),
            1 <= self.level < self.target_level <= levels.levels@.len(),
            level_handlers@.len() == levels.levels@.len() + 1,
        ensures
            is_min_overlap_pick(
                levels.levels@[self.level - 1].table_infos@,
                levels.levels@[self.target_level - 1].table_infos@,
                level_handlers@[self.level as int],
                level_handlers@[self.target_level as int],
                self.level as int,
                self.target_level as int,
                r,
            ),
            match r {
                Option::Some(c) => input_no_pending(c, level_handlers@) && c.levels_in_range(
                    level_handlers@,
                ),
                Option::None => true,
            },
    {
        let src_tables = &levels.levels[self.level - 1].table_infos;
        let tgt_tables = &levels.levels[self.target_level - 1].table_infos;
        let h_src = &level_handlers[self.level];
        let h_tgt = &level_handlers[self.target_level];
        let ghost src = src_tables@;
        let ghost tgt = tgt_tables@;
        let n = src_tables.len();
        proof {
            assert(levels.levels@[self.target_level - 1].wf());
            assert(levels.levels@[self.level - 1].wf());
        }
        assert(crate::sstable::sum_file_sizes(tgt) <= u64::MAX) by {
            assert(levels.levels@[self.target_level - 1].total_file_size
                == crate::sstable::sum_file_sizes(tgt));
        }

        let mut best_idx: usize = n;
        let mut best_size: u64 = 0;
        let mut i: usize = 0;
        while i < n
            invariant
                i <= n,
                n == src.len(),
                src_tables@ == src,
                tgt_tables@ == tgt,
                *h_src == level_handlers@[self.level as int],
                *h_tgt == level_handlers@[self.target_level as int],
                crate::sstable::sum_file_sizes(tgt) <= u64::MAX,
                best_idx == n || best_idx < i,
                best_idx == n ==> forall|w: int|
                    0 <= w < i ==> !min_overlap_valid(src, tgt, *h_src, *h_tgt, w),
                best_idx < n ==> {
                    &&& min_overlap_valid(src, tgt, *h_src, *h_tgt, best_idx as int)
                    &&& best_size == overlap_size(tgt, src[best_idx as int].key_range)
                    &&& forall|w: int|
                        0 <= w < i && min_overlap_valid(src, tgt, *h_src, *h_tgt, w)
                            ==> overlap_size(tgt, src[w].key_range) >= best_size
                    &&& forall|w: int|
                        0 <= w < best_idx && min_overlap_valid(src, tgt, *h_src, *h_tgt, w)
                            ==> overlap_size(tgt, src[w].key_range) > best_size
                },
            decreases n - i,
        {
            let cand = &src_tables[i];
            if h_src.is_pending_compact(cand.sst_id) {
                stats.skip_by_pending_files = saturating_inc(stats.skip_by_pending_files);
                i = i + 1;
                continue;
            }
            let info = overlap_info(tgt_tables, &cand.key_range, h_tgt);
            if info.1 {
                stats.skip_by_pending_files = saturating_inc(stats.skip_by_pending_files);
                assert(!min_overlap_valid(src, tgt, *h_src, *h_tgt, i as int));
                i = i + 1;
                continue;
            }
            assert(min_overlap_valid(src, tgt, *h_src, *h_tgt, i as int));
            if best_idx == n || info.0 < best_size {
                best_idx = i;
                best_size = info.0;
            }
            i = i + 1;
        }

        if best_idx == n {
            return None;
        }

        let ghost b = best_idx as int;
        let mut select_files: Vec<SstableInfo> = Vec::new();
        select_files.push(src_tables[best_idx].clone());
        let target_files = collect_overlapping(tgt_tables, &src_tables[best_idx].key_range);
        proof {
            lemma_footprint_no_pending(tgt, src[b].key_range, *h_tgt);
        }
        let mut input_levels: Vec<InputLevel> = Vec::new();
        assert(levels.levels@[self.level - 1].level_idx == self.level);
        assert(levels.levels@[self.target_level - 1].level_idx == self.target_level);
        input_levels.push(
            InputLevel {
                level_idx: self.level as u32,
                level_type: LevelType::Nonoverlapping,
                table_infos: select_files,
            },
        );
        input_levels.push(
            InputLevel {
                level_idx: self.target_level as u32,
                level_type: LevelType::Nonoverlapping,
                table_infos: target_files,
            },
        );
        let c = CompactionInput {
            input_levels,
            target_level: self.target_level,
            target_sub_level_id: 0,
        };
        proof {
            assert(ssts_like(c.input_levels@[0].table_infos@, seq![src[b]]));
            assert(min_overlap_input_matches(
                src,
                tgt,
                self.level as int,
                self.target_level as int,
                c,
                b,
            ));
            assert(min_overlap_valid(src, tgt, *h_src, *h_tgt, b));
            assert forall|li: int, k: int|
                0 <= li < c.input_levels@.len() && 0 <= k
                    < (#[trigger] c.input_levels@[li]).table_infos@.len()
                    && 0 <= c.input_levels@[li].level_idx < level_handlers@.len()
                implies !level_handlers@[c.input_levels@[li].level_idx as int].is_pending(
                (#[trigger] c.input_levels@[li].table_infos@[k]).sst_id,
            ) by {
                if li == 0 {
                    assert(c.input_levels@[0].table_infos@[k].sst_id == src[b].sst_id);
                } else {
                    assert(c.input_levels@[1].table_infos@[k].sst_id == overlapping_of(
                        tgt,
                        src[b].key_range,
                    )[k].sst_id);
                }
            }
        }
        Some(c)
    }
}

impl CompactionPicker for MinOverlappingPicker {
    fn pick_compaction(
        &mut self,
        levels: &Levels,
        level_handlers: &Vec<LevelHandler>,
        stats: &mut LocalPickerStatistic,
    ) -> (r: Option<CompactionInput>) {
        if self.level < 1 || self.level >= self.target_level || self.target_level
            > levels.levels.len() {
            return None;
        }
        MinOverlappingPicker::pick_min_overlap_compaction(self, levels, level_handlers, stats)
    }
}

/// Choosing by least footprint is deterministic: two picks over the
/// same unmodified snapshot and bookkeeping return identical results.
pub proof fn lemma_min_overlap_pick_deterministic(
    src: Seq<SstableInfo>,
    tgt: Seq<SstableInfo>,
    h_src: LevelHandler,
    h_tgt: LevelHandler,
    level: int,
    target_level: int,
    r1: Option<CompactionInput>,
    r2: Option<CompactionInput>,
)
    requires
        is_min_overlap_pick(src, tgt, h_src, h_tgt, level, target_level, r1),
        is_min_overlap_pick(src, tgt, h_src, h_tgt, level, target_level, r2),
    ensures
        r1 is Some <==> r2 is Some,
        (r1 is Some && r2 is Some) ==> crate::tier_compaction_picker::inputs_agree(
            r1->Some_0,
            r2->Some_0,
        ),
{
    if r1 is Some && r2 is Some {
        let c1 = r1->Some_0;
        let c2 = r2->Some_0;
        let i1 = choose|i: int|
            #![trigger min_overlap_valid(src, tgt, h_src, h_tgt, i)]
            {
                &&& min_overlap_valid(src, tgt, h_src, h_tgt, i)
                &&& forall|j: int|
                    min_overlap_valid(src, tgt, h_src, h_tgt, j) ==> overlap_size(
                        tgt,
                        src[i].key_range,
                    ) <= overlap_size(tgt, src[j].key_range)
                &&& forall|j: int|
                    min_overlap_valid(src, tgt, h_src, h_tgt, j) && j < i ==> overlap_size(
                        tgt,
                        src[j].key_range,
                    ) > overlap_size(tgt, src[i].key_range)
                &&& min_overlap_input_matches(src, tgt, level, target_level, c1, i)
            };
        let i2 = choose|i: int|
            #![trigger min_overlap_valid(src, tgt, h_src, h_tgt, i)]
            {
                &&& min_overlap_valid(src, tgt, h_src, h_tgt, i)
                &&& forall|j: int|
                    min_overlap_valid(src, tgt, h_src, h_tgt, j) ==> overlap_size(
                        tgt,
                        src[i].key_range,
                    ) <= overlap_size(tgt, src[j].key_range)
                &&& forall|j: int|
                    min_overlap_valid(src, tgt, h_src, h_tgt, j) && j < i ==> overlap_size(
                        tgt,
                        src[j].key_range,
                    ) > overlap_size(tgt, src[i].key_range)
                &&& min_overlap_input_matches(src, tgt, level, target_level, c2, i)
            };
        assert(overlap_size(tgt, src[i1].key_range) == overlap_size(tgt, src[i2].key_range));
        assert(i1 == i2);
    }
}

} // verus!
