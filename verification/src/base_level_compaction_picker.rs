//! L0 to base level: when the staging area outgrows its budget, merge
//! the oldest contiguous run of sub-levels into the base level,
//! carrying along the entire overlapping footprint there, shrinking
//! the run when the task would grow past the compaction byte budget.

use vstd::prelude::*;
use crate::key_range::{KeyRange, lex_le, lex_le_antisymmetric, lex_le_total, lex_le_transitive,
    bytes_le, ranges_overlap};
use crate::level::{Level, Levels, LevelType, OverlappingLevel, disjoint_ascending,
    lemma_level_span, lemma_run_subrange_le, lemma_sum_level_sizes_subrange_succ,
    lemma_sum_level_sizes_nonneg, lemma_sum_prefix_mono, sum_level_sizes};
use crate::level_handler::LevelHandler;
use crate::overlap::{collect_overlapping, lemma_footprint_no_pending,
    lemma_overlapping_of_congruence, lemma_overlap_size_le, overlap_info, overlap_size,
    overlapping_of};
use crate::picker::{CompactionConfig, CompactionInput, CompactionPicker, InputLevel,
    LocalPickerStatistic, input_no_pending, is_sub_level_pending, saturating_inc,
    sub_level_pending};
use crate::sstable::{SstableInfo, ssts_like, clone_ssts, sum_file_sizes};

verus! {

/// Merges the oldest run of L0 sub-levels into the base level.
pub struct LevelCompactionPicker {
    pub target_level: usize,
    pub config: CompactionConfig,
}

/// `u` spans exactly the keys of the files in the first `m` sub-levels:
/// its bounds are bounds of those files, and no file starts before or
/// ends after it.
pub open spec fn is_union_of_l0(u: KeyRange, subs: Seq<Level>, m: int) -> bool {
    &&& exists|j: int|
        0 <= j < m && u.left@ == (#[trigger] subs[j]).table_infos@[0].key_range.left@
    &&& exists|j: int|
        0 <= j < m && u.right@ == (#[trigger] subs[j]).table_infos@[subs[j].table_infos@.len()
            - 1].key_range.right@
    &&& forall|j: int, kk: int|
        0 <= j < m && 0 <= kk < subs[j].table_infos@.len() ==> lex_le(
            u.left@,
            (#[trigger] subs[j].table_infos@[kk]).key_range.left@,
        ) && lex_le(subs[j].table_infos@[kk].key_range.right@, u.right@)
}

/// Any two spans of the same sub-levels cover the same keys.
pub proof fn lemma_union_views_unique(subs: Seq<Level>, m: int, u1: KeyRange, u2: KeyRange)
    requires
        is_union_of_l0(u1, subs, m),
        is_union_of_l0(u2, subs, m),
        forall|j: int| 0 <= j < m ==> (#[trigger] subs[j]).table_infos@.len() >= 1,
    ensures
        u1.left@ == u2.left@,
        u1.right@ == u2.right@,
{
    let j1 = choose|j: int|
        0 <= j < m && u1.left@ == (#[trigger] subs[j]).table_infos@[0].key_range.left@;
    let j2 = choose|j: int|
        0 <= j < m && u2.left@ == (#[trigger] subs[j]).table_infos@[0].key_range.left@;
    assert(lex_le(u2.left@, subs[j1].table_infos@[0].key_range.left@));
    assert(lex_le(u1.left@, subs[j2].table_infos@[0].key_range.left@));
    lex_le_antisymmetric(u1.left@, u2.left@);
    let w1 = choose|j: int|
        0 <= j < m && u1.right@ == (#[trigger] subs[j]).table_infos@[subs[j].table_infos@.len()
            - 1].key_range.right@;
    let w2 = choose|j: int|
        0 <= j < m && u2.right@ == (#[trigger] subs[j]).table_infos@[subs[j].table_infos@.len()
            - 1].key_range.right@;
    assert(lex_le(subs[w1].table_infos@[subs[w1].table_infos@.len() - 1].key_range.right@,
        u2.right@));
    assert(lex_le(subs[w2].table_infos@[subs[w2].table_infos@.len() - 1].key_range.right@,
        u1.right@));
    lex_le_antisymmetric(u1.right@, u2.right@);
}

/// Whether any base-level file overlapping `u` is already claimed.
pub open spec fn footprint_pending(tgt: Seq<SstableInfo>, u: KeyRange, h_tgt: LevelHandler) -> bool {
    exists|j: int|
        0 <= j < tgt.len() && ranges_overlap(u, (#[trigger] tgt[j]).key_range) && h_tgt.is_pending(
            tgt[j].sst_id,
        )
}

/// A run of the first `m` sub-levels can be compacted: none of its
/// files nor any base-level file under its span is claimed, and the
/// combined input stays within the compaction byte budget.
pub open spec fn base_acceptable(
    cfg: CompactionConfig,
    l0: OverlappingLevel,
    tgt: Seq<SstableInfo>,
    h0: LevelHandler,
    h_tgt: LevelHandler,
    m: int,
) -> bool {
    let subs = l0.sub_levels@;
    &&& 1 <= m <= subs.len()
    &&& forall|j: int| 0 <= j < m ==> !sub_level_pending(h0, #[trigger] subs[j])
    &&& exists|u: KeyRange|
        #![trigger is_union_of_l0(u, subs, m)]
        {
            &&& is_union_of_l0(u, subs, m)
            &&& !footprint_pending(tgt, u, h_tgt)
            &&& sum_level_sizes(subs.subrange(0, m)) + overlap_size(tgt, u) <= cfg.max_compaction_bytes
        }
}

/// The selected input mirrors the first `m` sub-levels of L0 plus the
/// entire overlapping footprint of their span in the base level.
pub open spec fn base_input_matches(
    l0: OverlappingLevel,
    tgt: Seq<SstableInfo>,
    target_level: int,
    c: CompactionInput,
    m: int,
    u: KeyRange,
) -> bool {
    let subs = l0.sub_levels@;
    &&& c.input_levels@.len() == m + 1
    &&& forall|j: int|
        0 <= j < m ==> (#[trigger] c.input_levels@[j]).level_idx == 0
            && c.input_levels@[j].level_type == subs[j].level_type && ssts_like(
            c.input_levels@[j].table_infos@,
            subs[j].table_infos@,
        )
    &&& c.input_levels@[m].level_idx == target_level
    &&& c.input_levels@[m].level_type == LevelType::Nonoverlapping
    &&& ssts_like(c.input_levels@[m].table_infos@, overlapping_of(tgt, u))
    &&& c.target_level == target_level
    &&& c.target_sub_level_id == 0
}

/// Exactly what a base-level pick returns: a compactable run of
/// sub-levels with its footprint, or nothing when L0 is within budget
/// or no run is compactable.
pub open spec fn is_base_pick(
    cfg: CompactionConfig,
    l0: OverlappingLevel,
    tgt: Seq<SstableInfo>,
    h0: LevelHandler,
    h_tgt: LevelHandler,
    target_level: int,
    r: Option<CompactionInput>,
) -> bool {
    let subs = l0.sub_levels@;
    match r {
        Option::None => {
            ||| l0.total_file_size <= cfg.max_bytes_for_level_base
            ||| forall|m: int| !base_acceptable(cfg, l0, tgt, h0, h_tgt, m)
        },
        Option::Some(c) => {
            &&& l0.total_file_size > cfg.max_bytes_for_level_base
            &&& exists|m: int, u: KeyRange|
                #![trigger is_union_of_l0(u, subs, m)]
                {
                    &&& 1 <= m <= subs.len()
                    &&& forall|j: int| 0 <= j < m ==> !sub_level_pending(h0, #[trigger] subs[j])
                    &&& is_union_of_l0(u, subs, m)
                    &&& !footprint_pending(tgt, u, h_tgt)
                    &&& sum_level_sizes(subs.subrange(0, m)) + overlap_size(tgt, u)
                        <= cfg.max_compaction_bytes
                    &&& forall|m2: int| m2 > m ==> !base_acceptable(cfg, l0, tgt, h0, h_tgt, m2)
                    &&& base_input_matches(l0, tgt, target_level, c, m, u)
                }
        },
    }
}

/// No run longer than the greedily selected prefix is compactable:
/// past the prefix either a claimed sub-level stands, or the bytes
/// alone already exceed the budget.
proof fn lemma_beyond_prefix_unacceptable(
    cfg: CompactionConfig,
    l0: OverlappingLevel,
    tgt: Seq<SstableInfo>,
    h0: LevelHandler,
    h_tgt: LevelHandler,
    k: int,
    m2: int,
)
    requires
        0 <= k <= l0.sub_levels@.len(),
        k == l0.sub_levels@.len() || sub_level_pending(h0, l0.sub_levels@[k])
            || sum_level_sizes(l0.sub_levels@.subrange(0, k + 1)) > cfg.max_compaction_bytes,
        m2 > k,
    ensures
        !base_acceptable(cfg, l0, tgt, h0, h_tgt, m2),
{
    let subs = l0.sub_levels@;
    if base_acceptable(cfg, l0, tgt, h0, h_tgt, m2) {
        assert(k < subs.len());
        if sub_level_pending(h0, subs[k]) {
            assert(!sub_level_pending(h0, subs[k]));
        } else {
            lemma_sum_prefix_mono(subs, k + 1, m2);
            let u2 = choose|u2: KeyRange|
                #![trigger is_union_of_l0(u2, l0.sub_levels@, m2)]
                {
                    &&& is_union_of_l0(u2, l0.sub_levels@, m2)
                    &&& !footprint_pending(tgt, u2, h_tgt)
                    &&& sum_level_sizes(l0.sub_levels@.subrange(0, m2)) + overlap_size(tgt, u2)
                        <= cfg.max_compaction_bytes
                };
            lemma_overlap_size_le(tgt, u2);
        }
    }
}

/// Computes the span of the files of the first `m` sub-levels: the
/// smallest start key through the largest end key.
fn compute_union_range(subs: &Vec<Level>, m: usize) -> (u: KeyRange)
    requires
        1 <= m <= subs@.len(),
        forall|j: int| 0 <= j < m ==> (#[trigger] subs@[j]).table_infos@.len() >= 1,
        forall|j: int, kk: int|
            0 <= j < m && 0 <= kk < subs@[j].table_infos@.len()
                ==> (#[trigger] subs@[j].table_infos@[kk]).wf(),
        forall|j: int| 0 <= j < m ==> disjoint_ascending((#[trigger] subs@[j]).table_infos@),
    ensures
        is_union_of_l0(u, subs@, m as int),
{
    proof {
        lemma_level_span(subs@[0].table_infos@);
    }
    let mut left = subs[0].table_infos[0].key_range.left.clone();
    let last0 = subs[0].table_infos.len() - 1;
    let mut right = subs[0].table_infos[last0].key_range.right.clone();
    proof {
        assert(left@ =~= subs@[0].table_infos@[0].key_range.left@);
        assert(right@ =~= subs@[0].table_infos@[last0 as int].key_range.right@);
    }
    let mut j: usize = 1;
    while j < m
        invariant
            1 <= j <= m <= subs@.len(),
            forall|jj: int| 0 <= jj < m ==> (#[trigger] subs@[jj]).table_infos@.len() >= 1,
            forall|jj: int, kk: int|
                0 <= jj < m && 0 <= kk < subs@[jj].table_infos@.len()
                    ==> (#[trigger] subs@[jj].table_infos@[kk]).wf(),
            forall|jj: int| 0 <= jj < m ==> disjoint_ascending((#[trigger] subs@[jj]).table_infos@),
            exists|jj: int|
                0 <= jj < j && left@ == (#[trigger] subs@[jj]).table_infos@[0].key_range.left@,
            exists|jj: int|
                0 <= jj < j && right@ == (#[trigger] subs@[jj]).table_infos@[
                    subs@[jj].table_infos@.len() - 1].key_range.right@,
            forall|jj: int, kk: int|
                0 <= jj < j && 0 <= kk < subs@[jj].table_infos@.len() ==> lex_le(
                    left@,
                    (#[trigger] subs@[jj].table_infos@[kk]).key_range.left@,
                ) && lex_le(subs@[jj].table_infos@[kk].key_range.right@, right@),
        decreases m - j,
    {
        proof {
            lemma_level_span(subs@[j as int].table_infos@);
        }
        let cl = &subs[j].table_infos[0].key_range.left;
        if bytes_le(cl, &left) {
            let ghost old_left = left@;
            let new_left = cl.clone();
            proof {
                assert(new_left@ =~= subs@[j as int].table_infos@[0].key_range.left@);
                assert forall|jj: int, kk: int|
                    0 <= jj < j + 1 && 0 <= kk < subs@[jj].table_infos@.len() implies lex_le(
                    new_left@,
                    (#[trigger] subs@[jj].table_infos@[kk]).key_range.left@,
                ) by {
                    if jj < j {
                        lex_le_transitive(
                            new_left@,
                            old_left,
                            subs@[jj].table_infos@[kk].key_range.left@,
                        );
                    }
                }
            }
            left = new_left;
        } else {
            proof {
                lex_le_total(cl@, left@);
                assert forall|jj: int, kk: int|
                    0 <= jj < j + 1 && 0 <= kk < subs@[jj].table_infos@.len() implies lex_le(
                    left@,
                    (#[trigger] subs@[jj].table_infos@[kk]).key_range.left@,
                ) by {
                    if jj == j {
                        lex_le_transitive(
                            left@,
                            cl@,
                            subs@[jj].table_infos@[kk].key_range.left@,
                        );
                    }
                }
            }
        }
        let lastj = subs[j].table_infos.len() - 1;
        let cr = &subs[j].table_infos[lastj].key_range.right;
        if bytes_le(&right, cr) {
            let ghost old_right = right@;
            let new_right = cr.clone();
            proof {
                assert(new_right@ =~= subs@[j as int].table_infos@[
                    subs@[j as int].table_infos@.len() - 1].key_range.right@);
                assert forall|jj: int, kk: int|
                    0 <= jj < j + 1 && 0 <= kk < subs@[jj].table_infos@.len() implies lex_le(
                    (#[trigger] subs@[jj].table_infos@[kk]).key_range.right@,
                    new_right@,
                ) by {
                    if jj < j {
                        lex_le_transitive(
                            subs@[jj].table_infos@[kk].key_range.right@,
                            old_right,
                            new_right@,
                        );
                    }
                }
            }
            right = new_right;
        } else {
            proof {
                lex_le_total(right@, cr@);
                assert forall|jj: int, kk: int|
                    0 <= jj < j + 1 && 0 <= kk < subs@[jj].table_infos@.len() implies lex_le(
                    (#[trigger] subs@[jj].table_infos@[kk]).key_range.right@,
                    right@,
                ) by {
                    if jj == j {
                        lex_le_transitive(
                            subs@[jj].table_infos@[kk].key_range.right@,
                            cr@,
                            right@,
                        );
                    }
                }
            }
        }
        j = j + 1;
    }
    KeyRange { left, right }
}

impl LevelCompactionPicker {
    pub fn new(target_level: usize, config: CompactionConfig) -> (r: LevelCompactionPicker)
        ensures
            r.target_level == target_level,
            r.config == config,
    {
        LevelCompactionPicker { target_level, config }
    }

    /// When L0 holds more bytes than its budget, greedily selects the
    /// oldest unclaimed sub-levels within the compaction byte budget,
    /// takes the base level's entire footprint under their span, and
    /// shrinks the run when the combined input would still be too
    /// large.
    pub fn pick_base_level_compaction(
        &self,
        levels: &Levels,
        level_handlers: &Vec<LevelHandler>,
        stats: &mut LocalPickerStatistic,
    ) -> (r: Option<CompactionInput>)
        requires
            levels.wf(),
            1 <= self.target_level <= levels.levels@.len(),
            level_handlers@.len() == levels.levels@.len() + 1,
        ensures
            is_base_pick(
                self.config,
                levels.l0,
                levels.levels@[self.target_level - 1].table_infos@,
                level_handlers@[0],
                level_handlers@[self.target_level as int],
                self.target_level as int,
                r,
            ),
            match r {
                Option::Some(c) => input_no_pending(c, level_handlers@) && c.levels_in_range(
                    level_handlers@,
                ) && c.input_levels@.len() >= 2,
                Option::None => true,
            },
    {
        let ghost cfg = self.config;
        let ghost l0_ghost = levels.l0;
        let ghost tgt = levels.levels@[self.target_level - 1].table_infos@;
        let ghost h0_ghost = level_handlers@[0];
        let ghost h_tgt_ghost = level_handlers@[self.target_level as int];

        if levels.l0.total_file_size <= self.config.max_bytes_for_level_base {
            return None;
        }
        let subs = &levels.l0.sub_levels;
        let n = subs.len();
        let h0 = &level_handlers[0];
        if n == 0 {
            assert(forall|m: int| !base_acceptable(cfg, l0_ghost, tgt, h0_ghost, h_tgt_ghost, m));
            return None;
        }
        if is_sub_level_pending(h0, &subs[0]) {
            stats.skip_by_pending_files = saturating_inc(stats.skip_by_pending_files);
            assert forall|m: int| !base_acceptable(cfg, l0_ghost, tgt, h0_ghost, h_tgt_ghost, m) by {
                if base_acceptable(cfg, l0_ghost, tgt, h0_ghost, h_tgt_ghost, m) {
                    assert(!sub_level_pending(h0_ghost, l0_ghost.sub_levels@[0]));
                }
            }
            return None;
        }

        let mut k: usize = 1;
        let mut sel_bytes: u64 = subs[0].total_file_size;
        proof {
            lemma_sum_level_sizes_subrange_succ(subs@, 0, 0);
            assert(subs@.subrange(0, 0) =~= Seq::<Level>::empty());
        }
        while k < n
            invariant
                1 <= k <= n,
                n == subs@.len(),
                subs@ == levels.l0.sub_levels@,
                *h0 == h0_ghost,
                levels.wf(),
                l0_ghost == levels.l0,
                cfg == self.config,
                forall|j: int| 0 <= j < k ==> !sub_level_pending(h0_ghost, #[trigger] subs@[j]),
                sel_bytes == sum_level_sizes(subs@.subrange(0, k as int)),
            ensures
                1 <= k <= n,
                forall|j: int| 0 <= j < k ==> !sub_level_pending(h0_ghost, #[trigger] subs@[j]),
                sel_bytes == sum_level_sizes(subs@.subrange(0, k as int)),
                k == n || sub_level_pending(h0_ghost, subs@[k as int]) || sum_level_sizes(
                    subs@.subrange(0, k as int + 1),
                ) > cfg.max_compaction_bytes,
            decreases n - k,
        {
            if is_sub_level_pending(h0, &subs[k]) {
                break;
            }
            proof {
                lemma_sum_level_sizes_subrange_succ(subs@, 0, k as int);
                lemma_run_subrange_le(subs@, 0, k as int + 1);
            }
            let total_k = subs[k].total_file_size;
            if sel_bytes + total_k > self.config.max_compaction_bytes {
                break;
            }
            sel_bytes = sel_bytes + total_k;
            k = k + 1;
        }

        let tgt_tables = &levels.levels[self.target_level - 1].table_infos;
        let h_tgt = &level_handlers[self.target_level];
        proof {
            assert(levels.levels@[self.target_level - 1].wf());
            assert(levels.levels@[self.target_level - 1].total_file_size == sum_file_sizes(tgt));
        }

        let mut m = k;
        while m >= 1
            invariant
                0 <= m <= k <= n,
                n == subs@.len(),
                subs@ == levels.l0.sub_levels@,
                tgt_tables@ == tgt,
                *h0 == h0_ghost,
                *h_tgt == h_tgt_ghost,
                levels.wf(),
                l0_ghost == levels.l0,
                cfg == self.config,
                sum_file_sizes(tgt) <= u64::MAX,
                1 <= self.target_level <= levels.levels@.len(),
                level_handlers@.len() == levels.levels@.len() + 1,
                levels.l0.total_file_size > cfg.max_bytes_for_level_base,
                tgt == levels.levels@[self.target_level - 1].table_infos@,
                h0_ghost == level_handlers@[0],
                h_tgt_ghost == level_handlers@[self.target_level as int],
                forall|j: int| 0 <= j < k ==> !sub_level_pending(h0_ghost, #[trigger] subs@[j]),
                k == n || sub_level_pending(h0_ghost, subs@[k as int]) || sum_level_sizes(
                    subs@.subrange(0, k as int + 1),
                ) > cfg.max_compaction_bytes,
                m == 0 || sel_bytes == sum_level_sizes(subs@.subrange(0, m as int)),
                forall|m2: int|
                    m < m2 <= k ==> !base_acceptable(cfg, l0_ghost, tgt, h0_ghost, h_tgt_ghost, m2),
            ensures
                m == 0,
                forall|j: int| 0 <= j < k ==> !sub_level_pending(h0_ghost, #[trigger] subs@[j]),
                forall|m2: int|
                    0 < m2 <= k ==> !base_acceptable(cfg, l0_ghost, tgt, h0_ghost, h_tgt_ghost, m2),
            decreases m,
        {
            let u = compute_union_range(subs, m);
            let info = overlap_info(tgt_tables, &u, h_tgt);
            if info.1 {
                stats.skip_by_pending_files = saturating_inc(stats.skip_by_pending_files);
            } else if sel_bytes <= self.config.max_compaction_bytes && info.0
                <= self.config.max_compaction_bytes - sel_bytes {
                let mut input_levels: Vec<InputLevel> = Vec::new();
                let mut j: usize = 0;
                while j < m
                    invariant
                        j <= m <= n,
                        n == subs@.len(),
                        subs@ == levels.l0.sub_levels@,
                        input_levels@.len() == j,
                        forall|w: int|
                            0 <= w < j ==> (#[trigger] input_levels@[w]).level_idx == 0
                                && input_levels@[w].level_type == subs@[w].level_type && ssts_like(
                                input_levels@[w].table_infos@,
                                subs@[w].table_infos@,
                            ),
                    decreases m - j,
                {
                    let table_infos = clone_ssts(&subs[j].table_infos);
                    input_levels.push(
                        InputLevel {
                            level_idx: 0,
                            level_type: subs[j].level_type,
                            table_infos,
                        },
                    );
                    j = j + 1;
                }
                let target_files = collect_overlapping(tgt_tables, &u);
                proof {
                    assert(levels.levels@[self.target_level - 1].level_idx == self.target_level);
                    lemma_footprint_no_pending(tgt, u, h_tgt_ghost);
                }
                input_levels.push(
                    InputLevel {
                        level_idx: self.target_level as u32,
                        level_type: LevelType::Nonoverlapping,
                        table_infos: target_files,
                    },
                );
                let c = CompactionInput {
                    input_levels,
                    target_level: self.target_level,
                    target_sub_level_id: 0,
                };
                proof {
                    assert forall|m2: int| m2 > m implies !base_acceptable(
                        cfg,
                        l0_ghost,
                        tgt,
                        h0_ghost,
                        h_tgt_ghost,
                        m2,
                    ) by {
                        if m2 > k {
                            lemma_beyond_prefix_unacceptable(
                                cfg,
                                l0_ghost,
                                tgt,
                                h0_ghost,
                                h_tgt_ghost,
                                k as int,
                                m2,
                            );
                        }
                    }
                    assert(base_input_matches(
                        l0_ghost,
                        tgt,
                        self.target_level as int,
                        c,
                        m as int,
                        u,
                    ));
                    assert(is_union_of_l0(u, l0_ghost.sub_levels@, m as int));
                    assert forall|li: int, kk: int|
                        0 <= li < c.input_levels@.len() && 0 <= kk
                            < (#[trigger] c.input_levels@[li]).table_infos@.len()
                            && 0 <= c.input_levels@[li].level_idx < level_handlers@.len()
                        implies !level_handlers@[c.input_levels@[li].level_idx as int].is_pending(
                        (#[trigger] c.input_levels@[li].table_infos@[kk]).sst_id,
                    ) by {
                        if li < m {
                            assert(c.input_levels@[li].level_idx == 0);
                            assert(level_handlers@[0] == h0_ghost);
                            assert(!sub_level_pending(h0_ghost, subs@[li]));
                            assert(kk < subs@[li].table_infos@.len());
                            assert(c.input_levels@[li].table_infos@[kk].sst_id
                                == subs@[li].table_infos@[kk].sst_id);
                            assert(!h0_ghost.is_pending(subs@[li].table_infos@[kk].sst_id));
                        } else {
                            assert(li == m);
                            assert(c.input_levels@[li].level_idx == self.target_level as u32);
                            assert(self.target_level as u32 == levels.levels@[self.target_level
                                - 1].level_idx);
                            assert(c.input_levels@[li].level_idx as int == self.target_level as int);
                            assert(level_handlers@[self.target_level as int] == h_tgt_ghost);
                            assert(c.input_levels@[li].table_infos@[kk].sst_id == overlapping_of(
                                tgt,
                                u,
                            )[kk].sst_id);
                            assert(!h_tgt_ghost.is_pending(overlapping_of(tgt, u)[kk].sst_id));
                        }
                    }
                }
                return Some(c);
            }
            proof {
                assert forall|m2: int|
                    m - 1 < m2 <= k implies !base_acceptable(
                    cfg,
                    l0_ghost,
                    tgt,
                    h0_ghost,
                    h_tgt_ghost,
                    m2,
                ) by {
                    if m2 == m && base_acceptable(cfg, l0_ghost, tgt, h0_ghost, h_tgt_ghost, m2) {
                        let u2 = choose|u2: KeyRange|
                            #![trigger is_union_of_l0(u2, l0_ghost.sub_levels@, m2)]
                            {
                                &&& is_union_of_l0(u2, l0_ghost.sub_levels@, m2)
                                &&& !footprint_pending(tgt, u2, h_tgt_ghost)
                                &&& sum_level_sizes(l0_ghost.sub_levels@.subrange(0, m2))
                                    + overlap_size(tgt, u2) <= cfg.max_compaction_bytes
                            };
                        lemma_union_views_unique(subs@, m as int, u2, u);
                        lemma_overlapping_of_congruence(tgt, u2, u);
                        if info.1 {
                            let jw = choose|jj: int|
                                0 <= jj < tgt.len() && ranges_overlap(
                                    u,
                                    (#[trigger] tgt[jj]).key_range,
                                ) && h_tgt_ghost.is_pending(tgt[jj].sst_id);
                            assert(ranges_overlap(u2, tgt[jw].key_range));
                            assert(footprint_pending(tgt, u2, h_tgt_ghost));
                        } else {
                            assert(overlap_size(tgt, u2) == overlap_size(tgt, u));
                            lemma_overlap_size_le(tgt, u);
                        }
                    }
                }
            }
            m = m - 1;
            if m >= 1 {
                proof {
                    lemma_sum_level_sizes_subrange_succ(subs@, 0, m as int);
                    lemma_sum_level_sizes_nonneg(subs@.subrange(0, m as int));
                }
                sel_bytes = sel_bytes - subs[m].total_file_size;
            }
        }

        stats.skip_by_write_amp_limit = saturating_inc(stats.skip_by_write_amp_limit);
        proof {
            assert forall|m2: int| !base_acceptable(cfg, l0_ghost, tgt, h0_ghost, h_tgt_ghost, m2) by {
                if m2 > k {
                    lemma_beyond_prefix_unacceptable(
                        cfg,
                        l0_ghost,
                        tgt,
                        h0_ghost,
                        h_tgt_ghost,
                        k as int,
                        m2,
                    );
                }
            }
        }
        None
    }
}

impl CompactionPicker for LevelCompactionPicker {
    fn pick_compaction(
        &mut self,
        levels: &Levels,
        level_handlers: &Vec<LevelHandler>,
        stats: &mut LocalPickerStatistic,
    ) -> (r: Option<CompactionInput>) {
        if self.target_level < 1 || self.target_level > levels.levels.len() {
            return None;
        }
        LevelCompactionPicker::pick_base_level_compaction(self, levels, level_handlers, stats)
    }
}

/// Base-level picking is deterministic: two picks over the same
/// unmodified snapshot and bookkeeping return identical results.
pub proof fn lemma_base_pick_deterministic(
    cfg: CompactionConfig,
    l0: OverlappingLevel,
    tgt: Seq<SstableInfo>,
    h0: LevelHandler,
    h_tgt: LevelHandler,
    target_level: int,
    r1: Option<CompactionInput>,
    r2: Option<CompactionInput>,
)
    requires
        l0.wf(),
        is_base_pick(cfg, l0, tgt, h0, h_tgt, target_level, r1),
        is_base_pick(cfg, l0, tgt, h0, h_tgt, target_level, r2),
    ensures
        r1 is Some <==> r2 is Some,
        (r1 is Some && r2 is Some) ==> crate::tier_compaction_picker::inputs_agree(
            r1->Some_0,
            r2->Some_0,
        ),
{
    let subs = l0.sub_levels@;
    if r1 is Some && r2 is Some {
        let c1 = r1->Some_0;
        let c2 = r2->Some_0;
        let (m1, u1) = choose|m: int, u: KeyRange|
            #![trigger is_union_of_l0(u, subs, m)]
            {
                &&& 1 <= m <= subs.len()
                &&& forall|j: int| 0 <= j < m ==> !sub_level_pending(h0, #[trigger] subs[j])
                &&& is_union_of_l0(u, subs, m)
                &&& !footprint_pending(tgt, u, h_tgt)
                &&& sum_level_sizes(subs.subrange(0, m)) + overlap_size(tgt, u)
                    <= cfg.max_compaction_bytes
                &&& forall|m2: int| m2 > m ==> !base_acceptable(cfg, l0, tgt, h0, h_tgt, m2)
                &&& base_input_matches(l0, tgt, target_level, c1, m, u)
            };
        let (m2, u2) = choose|m: int, u: KeyRange|
            #![trigger is_union_of_l0(u, subs, m)]
            {
                &&& 1 <= m <= subs.len()
                &&& forall|j: int| 0 <= j < m ==> !sub_level_pending(h0, #[trigger] subs[j])
                &&& is_union_of_l0(u, subs, m)
                &&& !footprint_pending(tgt, u, h_tgt)
                &&& sum_level_sizes(subs.subrange(0, m)) + overlap_size(tgt, u)
                    <= cfg.max_compaction_bytes
                &&& forall|m2: int| m2 > m ==> !base_acceptable(cfg, l0, tgt, h0, h_tgt, m2)
                &&& base_input_matches(l0, tgt, target_level, c2, m, u)
            };
        assert(base_acceptable(cfg, l0, tgt, h0, h_tgt, m1));
        assert(base_acceptable(cfg, l0, tgt, h0, h_tgt, m2));
        assert(m1 == m2);
        lemma_union_views_unique(subs, m1, u1, u2);
        lemma_overlapping_of_congruence(tgt, u1, u2);
        assert forall|w: int| 0 <= w < c1.input_levels@.len()
            implies (#[trigger] c1.input_levels@[w]).level_idx == c2.input_levels@[w].level_idx
                && c1.input_levels@[w].level_type == c2.input_levels@[w].level_type
                && crate::sstable::ssts_like(
                c1.input_levels@[w].table_infos@,
                c2.input_levels@[w].table_infos@,
            ) by {
            if w < m1 {
                assert(crate::sstable::ssts_like(
                    c1.input_levels@[w].table_infos@,
                    subs[w].table_infos@,
                ));
                assert(crate::sstable::ssts_like(
                    c2.input_levels@[w].table_infos@,
                    subs[w].table_infos@,
                ));
            } else {
                assert(w == m1);
                assert(crate::sstable::ssts_like(
                    c1.input_levels@[w].table_infos@,
                    overlapping_of(tgt, u1),
                ));
                assert(crate::sstable::ssts_like(
                    c2.input_levels@[w].table_infos@,
                    overlapping_of(tgt, u2),
                ));
            }
        }
    }
    if r1 is Some && r2 is None {
        lemma_base_some_excludes_none(cfg, l0, tgt, h0, h_tgt, target_level, r1->Some_0);
    }
    if r2 is Some && r1 is None {
        lemma_base_some_excludes_none(cfg, l0, tgt, h0, h_tgt, target_level, r2->Some_0);
    }
}

/// A successful base-level pick rules out the conditions under which
/// the picker returns nothing.
proof fn lemma_base_some_excludes_none(
    cfg: CompactionConfig,
    l0: OverlappingLevel,
    tgt: Seq<SstableInfo>,
    h0: LevelHandler,
    h_tgt: LevelHandler,
    target_level: int,
    c: CompactionInput,
)
    requires
        is_base_pick(cfg, l0, tgt, h0, h_tgt, target_level, Option::Some(c)),
    ensures
        !is_base_pick(cfg, l0, tgt, h0, h_tgt, target_level, Option::None),
{
    let subs = l0.sub_levels@;
    let (m1, u1) = choose|m: int, u: KeyRange|
        #![trigger is_union_of_l0(u, subs, m)]
        {
            &&& 1 <= m <= subs.len()
            &&& forall|j: int| 0 <= j < m ==> !sub_level_pending(h0, #[trigger] subs[j])
            &&& is_union_of_l0(u, subs, m)
            &&& !footprint_pending(tgt, u, h_tgt)
            &&& sum_level_sizes(subs.subrange(0, m)) + overlap_size(tgt, u)
                <= cfg.max_compaction_bytes
            &&& forall|m2: int| m2 > m ==> !base_acceptable(cfg, l0, tgt, h0, h_tgt, m2)
            &&& base_input_matches(l0, tgt, target_level, c, m, u)
        };
    assert(base_acceptable(cfg, l0, tgt, h0, h_tgt, m1));
}

/// A base-level pick takes the target level's footprint whole: every
/// base-level file overlapping the span of the selected sub-levels
/// stands in the last input level, even one that overlaps it only in
/// part.
pub proof fn lemma_base_pick_takes_whole_footprint(
    l0: OverlappingLevel,
    tgt: Seq<SstableInfo>,
    target_level: int,
    c: CompactionInput,
    m: int,
    u: KeyRange,
    j: int,
)
    requires
        base_input_matches(l0, tgt, target_level, c, m, u),
        0 <= j < tgt.len(),
        ranges_overlap(u, tgt[j].key_range),
    ensures
        exists|kk: int|
            0 <= kk < c.input_levels@[m].table_infos@.len()
                && (#[trigger] c.input_levels@[m].table_infos@[kk]).sst_id == tgt[j].sst_id,
{
    crate::overlap::lemma_footprint_complete(tgt, u);
    let kk = choose|kk: int|
        0 <= kk < overlapping_of(tgt, u).len() && overlapping_of(tgt, u)[kk] == tgt[j];
    assert(c.input_levels@[m].table_infos@[kk].sst_id == tgt[j].sst_id);
}

} // verus!
