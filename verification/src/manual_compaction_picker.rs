//! Operator-triggered compaction: take every file of the requested
//! level that holds the requested table (or every file when no table
//! is given), plus the unclaimed part of the next level's overlapping
//! footprint. Size thresholds are ignored; exclusivity is still
//! honoured by skipping claimed files.

use vstd::prelude::*;
use crate::key_range::{KeyRange, ranges_overlap, key_ranges_overlap};
use crate::level::{Levels, LevelType};
use crate::level_handler::LevelHandler;
use crate::picker::{CompactionInput, CompactionPicker, InputLevel, LocalPickerStatistic,
    input_no_pending, saturating_inc};
use crate::sstable::{SstableInfo, spec_contains_table, sst_like, ssts_like};

verus! {

/// What the operator asked for.
#[derive(Clone, Copy, Debug)]
pub struct ManualCompactionOption {
    /// The group the request addresses; picking itself works on that
    /// group's snapshot.
    pub compaction_group_id: u64,
    /// Restrict the selection to files holding this table.
    pub table_id: Option<u32>,
    /// The level to compact.
    pub level: usize,
}

/// Forced, operator-triggered selection.
pub struct ManualCompactionPicker {
    pub option: ManualCompactionOption,
}

/// Whether a manual request selects this file: it is unclaimed and,
/// when a table is given, holds that table.
pub open spec fn manual_selects(h: LevelHandler, tid: Option<u32>, s: SstableInfo) -> bool {
    &&& !h.is_pending(s.sst_id)
    &&& match tid {
        Option::Some(t) => spec_contains_table(s, t),
        Option::None => true,
    }
}

/// The files of `src`, in order, that the request selects.
pub open spec fn manual_selected(
    src: Seq<SstableInfo>,
    h: LevelHandler,
    tid: Option<u32>,
) -> Seq<SstableInfo>
    decreases src.len(),
{
    if src.len() == 0 {
        Seq::empty()
    } else if manual_selects(h, tid, src.last()) {
        manual_selected(src.drop_last(), h, tid) + seq![src.last()]
    } else {
        manual_selected(src.drop_last(), h, tid)
    }
}

/// Every selected file satisfies the request: it is unclaimed, and it
/// holds the requested table when one was given.
pub proof fn lemma_manual_selected_members(src: Seq<SstableInfo>, h: LevelHandler, tid: Option<u32>)
    ensures
        forall|k: int|
            #![trigger manual_selected(src, h, tid)[k]]
            0 <= k < manual_selected(src, h, tid).len() ==> manual_selects(
                h,
                tid,
                manual_selected(src, h, tid)[k],
            ),
    decreases src.len(),
{
    if src.len() != 0 {
        let prev = src.drop_last();
        lemma_manual_selected_members(prev, h, tid);
        assert forall|k: int|
            #![trigger manual_selected(src, h, tid)[k]]
            0 <= k < manual_selected(src, h, tid).len() implies manual_selects(
            h,
            tid,
            manual_selected(src, h, tid)[k],
        ) by {
            if k < manual_selected(prev, h, tid).len() {
                assert(manual_selected(src, h, tid)[k] == manual_selected(prev, h, tid)[k]);
            } else {
                assert(manual_selected(src, h, tid)[k] == src[src.len() - 1]);
            }
        }
    }
}

proof fn lemma_manual_selected_take_succ(
    src: Seq<SstableInfo>,
    h: LevelHandler,
    tid: Option<u32>,
    k: int,
)
    requires
        0 <= k < src.len(),
    ensures
        manual_selected(src.take(k + 1), h, tid) == if manual_selects(h, tid, src[k]) {
            manual_selected(src.take(k), h, tid) + seq![src[k]]
        } else {
            manual_selected(src.take(k), h, tid)
        },
{
    assert(src.take(k + 1).drop_last() =~= src.take(k));
    assert(src.take(k + 1).last() == src[k]);
}

/// The unclaimed files of `tgt`, in order, whose range overlaps `u`.
pub open spec fn overlapping_unpended(
    tgt: Seq<SstableInfo>,
    u: KeyRange,
    h: LevelHandler,
) -> Seq<SstableInfo>
    decreases tgt.len(),
{
    if tgt.len() == 0 {
        Seq::empty()
    } else if ranges_overlap(u, tgt.last().key_range) && !h.is_pending(tgt.last().sst_id) {
        overlapping_unpended(tgt.drop_last(), u, h) + seq![tgt.last()]
    } else {
        overlapping_unpended(tgt.drop_last(), u, h)
    }
}

/// No file of the unclaimed footprint is claimed.
pub proof fn lemma_overlapping_unpended_members(tgt: Seq<SstableInfo>, u: KeyRange, h: LevelHandler)
    ensures
        forall|k: int|
            #![trigger overlapping_unpended(tgt, u, h)[k]]
            0 <= k < overlapping_unpended(tgt, u, h).len() ==> !h.is_pending(
                overlapping_unpended(tgt, u, h)[k].sst_id,
            ),
    decreases tgt.len(),
{
    if tgt.len() != 0 {
        let prev = tgt.drop_last();
        lemma_overlapping_unpended_members(prev, u, h);
        assert forall|k: int|
            #![trigger overlapping_unpended(tgt, u, h)[k]]
            0 <= k < overlapping_unpended(tgt, u, h).len() implies !h.is_pending(
            overlapping_unpended(tgt, u, h)[k].sst_id,
        ) by {
            if k < overlapping_unpended(prev, u, h).len() {
                assert(overlapping_unpended(tgt, u, h)[k] == overlapping_unpended(prev, u, h)[k]);
            } else {
                assert(overlapping_unpended(tgt, u, h)[k] == tgt[tgt.len() - 1]);
            }
        }
    }
}

proof fn lemma_overlapping_unpended_take_succ(
    tgt: Seq<SstableInfo>,
    u: KeyRange,
    h: LevelHandler,
    k: int,
)
    requires
        0 <= k < tgt.len(),
    ensures
        overlapping_unpended(tgt.take(k + 1), u, h) == if ranges_overlap(u, tgt[k].key_range)
            && !h.is_pending(tgt[k].sst_id) {
            overlapping_unpended(tgt.take(k), u, h) + seq![tgt[k]]
        } else {
            overlapping_unpended(tgt.take(k), u, h)
        },
{
    assert(tgt.take(k + 1).drop_last() =~= tgt.take(k));
    assert(tgt.take(k + 1).last() == tgt[k]);
}

/// Collects the selected files of the requested level.
fn collect_manual_selected(
    src: &Vec<SstableInfo>,
    h: &LevelHandler,
    tid: &Option<u32>,
    stats: &mut LocalPickerStatistic,
) -> (out: Vec<SstableInfo>)
    ensures
        ssts_like(out@, manual_selected(src@, *h, *tid)),
{
    let mut out: Vec<SstableInfo> = Vec::new();
    let mut k: usize = 0;
    assert(src@.take(0) =~= Seq::<SstableInfo>::empty());
    while k < src.len()
        invariant
            k <= src@.len(),
            ssts_like(out@, manual_selected(src@.take(k as int), *h, *tid)),
        decreases src@.len() - k,
    {
        proof {
            lemma_manual_selected_take_succ(src@, *h, *tid, k as int);
        }
        let pending = h.is_pending_compact(src[k].sst_id);
        let wanted = match tid {
            Option::Some(t) => src[k].contains_table(*t),
            Option::None => true,
        };
        if pending && wanted {
            stats.skip_by_pending_files = saturating_inc(stats.skip_by_pending_files);
        }
        if !pending && wanted {
            out.push(src[k].clone());
            proof {
                let po = manual_selected(src@.take(k as int), *h, *tid);
                assert forall|i: int| 0 <= i < out@.len() implies sst_like(
                    #[trigger] out@[i],
                    (po + seq![src@[k as int]])[i],
                ) by {
                }
            }
        }
        k = k + 1;
    }
    assert(src@.take(src@.len() as int) =~= src@);
    out
}

/// Collects the unclaimed overlapping footprint of `u` in the next
/// level.
fn collect_overlapping_unpended(
    tgt: &Vec<SstableInfo>,
    u: &KeyRange,
    h: &LevelHandler,
    stats: &mut LocalPickerStatistic,
) -> (out: Vec<SstableInfo>)
    ensures
        ssts_like(out@, overlapping_unpended(tgt@, *u, *h)),
{
    let mut out: Vec<SstableInfo> = Vec::new();
    let mut k: usize = 0;
    assert(tgt@.take(0) =~= Seq::<SstableInfo>::empty());
    while k < tgt.len()
        invariant
            k <= tgt@.len(),
            ssts_like(out@, overlapping_unpended(tgt@.take(k as int), *u, *h)),
        decreases tgt@.len() - k,
    {
        proof {
            lemma_overlapping_unpended_take_succ(tgt@, *u, *h, k as int);
        }
        let overlaps = key_ranges_overlap(u, &tgt[k].key_range);
        if overlaps && h.is_pending_compact(tgt[k].sst_id) {
            stats.skip_by_pending_files = saturating_inc(stats.skip_by_pending_files);
        } else if overlaps {
            out.push(tgt[k].clone());
            proof {
                let po = overlapping_unpended(tgt@.take(k as int), *u, *h);
                assert forall|i: int| 0 <= i < out@.len() implies sst_like(
                    #[trigger] out@[i],
                    (po + seq![tgt@[k as int]])[i],
                ) by {
                }
            }
        }
        k = k + 1;
    }
    assert(tgt@.take(tgt@.len() as int) =~= tgt@);
    out
}

/// The unclaimed footprint depends only on the keys the span covers.
pub proof fn lemma_overlapping_unpended_congruence(
    tgt: Seq<SstableInfo>,
    h: LevelHandler,
    u1: KeyRange,
    u2: KeyRange,
)
    requires
        u1.left@ == u2.left@,
        u1.right@ == u2.right@,
    ensures
        overlapping_unpended(tgt, u1, h) == overlapping_unpended(tgt, u2, h),
    decreases tgt.len(),
{
    if tgt.len() != 0 {
        lemma_overlapping_unpended_congruence(tgt.drop_last(), h, u1, u2);
        assert(ranges_overlap(u1, tgt.last().key_range) == ranges_overlap(
            u2,
            tgt.last().key_range,
        ));
    }
}

/// Exactly what a manual pick returns over the given snapshot and
/// bookkeeping.
pub open spec fn is_manual_pick(
    option: ManualCompactionOption,
    levels: Levels,
    handlers: Seq<LevelHandler>,
    r: Option<CompactionInput>,
) -> bool {
    let src = levels.levels@[option.level - 1].table_infos@;
    let h_src = handlers[option.level as int];
    let sel = manual_selected(src, h_src, option.table_id);
    match r {
        Option::None => sel.len() == 0,
        Option::Some(c) => {
            &&& sel.len() > 0
            &&& c.input_levels@.len() == 2
            &&& c.input_levels@[0].level_idx == option.level
            &&& c.input_levels@[0].level_type == LevelType::Nonoverlapping
            &&& c.input_levels@[1].level_type == LevelType::Nonoverlapping
            &&& ssts_like(c.input_levels@[0].table_infos@, sel)
            &&& (option.level < levels.levels@.len() ==> {
                &&& c.input_levels@[1].level_idx == option.level + 1
                &&& c.target_level == option.level + 1
                &&& exists|u: KeyRange|
                    #![trigger overlapping_unpended(levels.levels@[option.level as int].table_infos@, u, handlers[option.level + 1])]
                    u.left@ == sel[0].key_range.left@ && u.right@ == sel[sel.len()
                        - 1].key_range.right@ && ssts_like(
                        c.input_levels@[1].table_infos@,
                        overlapping_unpended(
                            levels.levels@[option.level as int].table_infos@,
                            u,
                            handlers[option.level + 1],
                        ),
                    )
            })
            &&& (option.level == levels.levels@.len() ==> {
                &&& c.input_levels@[1].level_idx == option.level
                &&& c.target_level == option.level
                &&& c.input_levels@[1].table_infos@.len() == 0
            })
            &&& c.target_sub_level_id == 0
        },
    }
}

/// Manual picking is deterministic: two picks over the same unmodified
/// snapshot and bookkeeping return identical results.
pub proof fn lemma_manual_pick_deterministic(
    option: ManualCompactionOption,
    levels: Levels,
    handlers: Seq<LevelHandler>,
    r1: Option<CompactionInput>,
    r2: Option<CompactionInput>,
)
    requires
        1 <= option.level <= levels.levels@.len(),
        is_manual_pick(option, levels, handlers, r1),
        is_manual_pick(option, levels, handlers, r2),
    ensures
        r1 is Some <==> r2 is Some,
        (r1 is Some && r2 is Some) ==> crate::tier_compaction_picker::inputs_agree(
            r1->Some_0,
            r2->Some_0,
        ),
{
    if r1 is Some && r2 is Some {
        let c1 = r1->Some_0;
        let c2 = r2->Some_0;
        if option.level < levels.levels@.len() {
            let u1 = choose|u: KeyRange|
                #![trigger overlapping_unpended(levels.levels@[option.level as int].table_infos@, u, handlers[option.level + 1])]
                {
                    let sel = manual_selected(
                        levels.levels@[option.level - 1].table_infos@,
                        handlers[option.level as int],
                        option.table_id,
                    );
                    u.left@ == sel[0].key_range.left@ && u.right@ == sel[sel.len()
                        - 1].key_range.right@ && ssts_like(
                        c1.input_levels@[1].table_infos@,
                        overlapping_unpended(
                            levels.levels@[option.level as int].table_infos@,
                            u,
                            handlers[option.level + 1],
                        ),
                    )
                };
            let u2 = choose|u: KeyRange|
                #![trigger overlapping_unpended(levels.levels@[option.level as int].table_infos@, u, handlers[option.level + 1])]
                {
                    let sel = manual_selected(
                        levels.levels@[option.level - 1].table_infos@,
                        handlers[option.level as int],
                        option.table_id,
                    );
                    u.left@ == sel[0].key_range.left@ && u.right@ == sel[sel.len()
                        - 1].key_range.right@ && ssts_like(
                        c2.input_levels@[1].table_infos@,
                        overlapping_unpended(
                            levels.levels@[option.level as int].table_infos@,
                            u,
                            handlers[option.level + 1],
                        ),
                    )
                };
            lemma_overlapping_unpended_congruence(
                levels.levels@[option.level as int].table_infos@,
                handlers[option.level + 1],
                u1,
                u2,
            );
            assert(ssts_like(
                c1.input_levels@[1].table_infos@,
                overlapping_unpended(
                    levels.levels@[option.level as int].table_infos@,
                    u1,
                    handlers[option.level + 1],
                ),
            ));
            assert(ssts_like(
                c2.input_levels@[1].table_infos@,
                overlapping_unpended(
                    levels.levels@[option.level as int].table_infos@,
                    u1,
                    handlers[option.level + 1],
                ),
            ));
        } else {
            assert(c1.input_levels@[1].table_infos@.len() == 0);
            assert(c2.input_levels@[1].table_infos@.len() == 0);
        }
        assert forall|w: int| 0 <= w < c1.input_levels@.len()
            implies (#[trigger] c1.input_levels@[w]).level_idx == c2.input_levels@[w].level_idx
                && c1.input_levels@[w].level_type == c2.input_levels@[w].level_type && ssts_like(
                c1.input_levels@[w].table_infos@,
                c2.input_levels@[w].table_infos@,
            ) by {
            if w == 0 {
                assert(ssts_like(
                    c1.input_levels@[0].table_infos@,
                    manual_selected(
                        levels.levels@[option.level - 1].table_infos@,
                        handlers[option.level as int],
                        option.table_id,
                    ),
                ));
                assert(ssts_like(
                    c2.input_levels@[0].table_infos@,
                    manual_selected(
                        levels.levels@[option.level - 1].table_infos@,
                        handlers[option.level as int],
                        option.table_id,
                    ),
                ));
            }
        }
    }
}

impl ManualCompactionPicker {
    pub fn new(option: ManualCompactionOption) -> (r: ManualCompactionPicker)
        ensures
            r.option == option,
    {
        ManualCompactionPicker { option }
    }

    /// Selects every unclaimed file of the requested level that the
    /// request covers, plus the unclaimed overlapping footprint in the
    /// next level. An empty selection yields nothing, which the caller
    /// reports as nothing eligible.
    pub fn pick_manual_compaction(
        &self,
        levels: &Levels,
        level_handlers: &Vec<LevelHandler>,
        stats: &mut LocalPickerStatistic,
    ) -> (r: Option<CompactionInput>)
        requires
            levels.wf(),
            1 <= self.option.level <= levels.levels@.len(),
            level_handlers@.len() == levels.levels@.len() + 1,
        ensures
            is_manual_pick(self.option, *levels, level_handlers@, r),
            match r {
                Option::Some(c) => input_no_pending(c, level_handlers@) && c.levels_in_range(
                    level_handlers@,
                ),
                Option::None => true,
            },
    {
        let lvl = self.option.level;
        let src_tables = &levels.levels[lvl - 1].table_infos;
        let h_src = &level_handlers[lvl];
        let sel_files = collect_manual_selected(src_tables, h_src, &self.option.table_id, stats);
        if sel_files.len() == 0 {
            return None;
        }
        proof {
            lemma_manual_selected_members(src_tables@, *h_src, self.option.table_id);
            assert(levels.levels@[lvl - 1].level_idx == lvl);
        }
        let ghost sel = manual_selected(src_tables@, *h_src, self.option.table_id);

        let mut input_levels: Vec<InputLevel> = Vec::new();
        let last_sel = sel_files.len() - 1;
        let u = KeyRange {
            left: sel_files[0].key_range.left.clone(),
            right: sel_files[last_sel].key_range.right.clone(),
        };
        proof {
            assert(u.left@ =~= sel_files@[0].key_range.left@);
            assert(u.right@ =~= sel_files@[last_sel as int].key_range.right@);
            assert(sst_like(sel_files@[0], sel[0]));
            assert(sst_like(sel_files@[last_sel as int], sel[sel.len() - 1]));
        }
        input_levels.push(
            InputLevel {
                level_idx: lvl as u32,
                level_type: LevelType::Nonoverlapping,
                table_infos: sel_files,
            },
        );
        if lvl < levels.levels.len() {
            let tgt_tables = &levels.levels[lvl + 1 - 1].table_infos;
            let h_tgt = &level_handlers[lvl + 1];
            let tgt_files = collect_overlapping_unpended(tgt_tables, &u, h_tgt, stats);
            proof {
                lemma_overlapping_unpended_members(tgt_tables@, u, *h_tgt);
                assert(levels.levels@[lvl as int].level_idx == lvl + 1);
            }
            input_levels.push(
                InputLevel {
                    level_idx: (lvl + 1) as u32,
                    level_type: LevelType::Nonoverlapping,
                    table_infos: tgt_files,
                },
            );
            let c = CompactionInput {
                input_levels,
                target_level: lvl + 1,
                target_sub_level_id: 0,
            };
            proof {
                assert forall|li: int, kk: int|
                    0 <= li < c.input_levels@.len() && 0 <= kk
                        < (#[trigger] c.input_levels@[li]).table_infos@.len()
                        && 0 <= c.input_levels@[li].level_idx < level_handlers@.len()
                    implies !level_handlers@[c.input_levels@[li].level_idx as int].is_pending(
                    (#[trigger] c.input_levels@[li].table_infos@[kk]).sst_id,
                ) by {
                    if li == 0 {
                        assert(c.input_levels@[0].table_infos@[kk].sst_id == sel[kk].sst_id);
                        assert(manual_selects(*h_src, self.option.table_id, sel[kk]));
                    } else {
                        assert(c.input_levels@[1].table_infos@[kk].sst_id == overlapping_unpended(
                            levels.levels@[lvl as int].table_infos@,
                            u,
                            level_handlers@[lvl + 1],
                        )[kk].sst_id);
                    }
                }
            }
            Some(c)
        } else {
            let empty_tgt: Vec<SstableInfo> = Vec::new();
            input_levels.push(
                InputLevel {
                    level_idx: lvl as u32,
                    level_type: LevelType::Nonoverlapping,
                    table_infos: empty_tgt,
                },
            );
            let c = CompactionInput { input_levels, target_level: lvl, target_sub_level_id: 0 };
            proof {
                assert forall|li: int, kk: int|
                    0 <= li < c.input_levels@.len() && 0 <= kk
                        < (#[trigger] c.input_levels@[li]).table_infos@.len()
                        && 0 <= c.input_levels@[li].level_idx < level_handlers@.len()
                    implies !level_handlers@[c.input_levels@[li].level_idx as int].is_pending(
                    (#[trigger] c.input_levels@[li].table_infos@[kk]).sst_id,
                ) by {
                    assert(li == 0);
                    assert(c.input_levels@[0].table_infos@[kk].sst_id == sel[kk].sst_id);
                    assert(manual_selects(*h_src, self.option.table_id, sel[kk]));
                }
            }
            Some(c)
        }
    }
}

impl CompactionPicker for ManualCompactionPicker {
    fn pick_compaction(
        &mut self,
        levels: &Levels,
        level_handlers: &Vec<LevelHandler>,
        stats: &mut LocalPickerStatistic,
    ) -> (r: Option<CompactionInput>) {
        if self.option.level < 1 || self.option.level > levels.levels.len() {
            return None;
        }
        ManualCompactionPicker::pick_manual_compaction(self, levels, level_handlers, stats)
    }
}

/// A manual pick restricted to a table returns only files holding that
/// table.
pub proof fn lemma_manual_pick_respects_table(
    src: Seq<SstableInfo>,
    h: LevelHandler,
    t: u32,
    k: int,
)
    requires
        0 <= k < manual_selected(src, h, Option::Some(t)).len(),
    ensures
        spec_contains_table(manual_selected(src, h, Option::Some(t))[k], t),
        !h.is_pending(manual_selected(src, h, Option::Some(t))[k].sst_id),
{
    lemma_manual_selected_members(src, h, Option::Some(t));
}

} // verus!
