//! Intra-L0 tiering: merge a contiguous run of the oldest unclaimed
//! sub-levels into one fresh sub-level, keeping the sub-level count low
//! and bounding the size of each task.

use vstd::prelude::*;
use crate::level::{Levels, OverlappingLevel, count_files, sum_level_sizes,
    lemma_count_files_subrange_succ, lemma_sum_level_sizes_subrange_succ, lemma_run_subrange_le};
use crate::level_handler::LevelHandler;
use crate::picker::{CompactionConfig, CompactionInput, CompactionPicker, InputLevel,
    LocalPickerStatistic, input_no_pending, is_sub_level_pending, saturating_inc,
    sub_level_pending};
use crate::sstable::{clone_ssts, ssts_like};

verus! {

/// Picks a contiguous run of L0 sub-levels, oldest first, to merge
/// into one fresh sub-level within L0.
pub struct TierCompactionPicker {
    pub config: CompactionConfig,
}

/// The run `[s, m)` has accumulated enough files or bytes to stop.
pub open spec fn tier_thresholds_met(
    cfg: CompactionConfig,
    subs: Seq<crate::level::Level>,
    s: int,
    m: int,
) -> bool {
    ||| count_files(subs.subrange(s, m)) >= cfg.level0_tier_compact_file_number
    ||| sum_level_sizes(subs.subrange(s, m)) >= cfg.sub_level_max_compaction_bytes
}

/// The run of sub-levels a tiering scan arrives at: it begins at the
/// oldest sub-level free of claimed files, every member is free of
/// claimed files, no proper prefix of it had already met the
/// thresholds, and it ends only at the newest sub-level, at a claimed
/// sub-level, or because the thresholds are met.
pub open spec fn tier_run(
    cfg: CompactionConfig,
    l0: OverlappingLevel,
    handler: LevelHandler,
    s: int,
    e: int,
) -> bool {
    let subs = l0.sub_levels@;
    &&& 0 <= s < e <= subs.len()
    &&& forall|i: int| 0 <= i < s ==> sub_level_pending(handler, #[trigger] subs[i])
    &&& forall|i: int| s <= i < e ==> !sub_level_pending(handler, #[trigger] subs[i])
    &&& forall|m: int| s < m < e ==> !tier_thresholds_met(cfg, subs, s, m)
    &&& (e == subs.len() || sub_level_pending(handler, subs[e]) || tier_thresholds_met(
        cfg,
        subs,
        s,
        e,
    ))
}

/// The selected input mirrors the sub-levels `[s, e)` of L0, targets a
/// fresh sub-level directly above the newest input, and stays within
/// L0.
pub open spec fn tier_input_matches(
    l0: OverlappingLevel,
    c: CompactionInput,
    s: int,
    e: int,
) -> bool {
    let subs = l0.sub_levels@;
    &&& c.input_levels@.len() == e - s
    &&& forall|j: int|
        0 <= j < e - s ==> (#[trigger] c.input_levels@[j]).level_idx == 0
            && c.input_levels@[j].level_type == subs[s + j].level_type && ssts_like(
            c.input_levels@[j].table_infos@,
            subs[s + j].table_infos@,
        )
    &&& c.target_level == 0
    &&& c.target_sub_level_id == subs[e - 1].sub_level_id + 1
}

/// Exactly what a tiering pick returns: the run of two or more
/// sub-levels described by `tier_run`, or nothing when every sub-level
/// is claimed or the run stops short of two members.
pub open spec fn is_tier_pick(
    cfg: CompactionConfig,
    l0: OverlappingLevel,
    handler: LevelHandler,
    r: Option<CompactionInput>,
) -> bool {
    let subs = l0.sub_levels@;
    match r {
        Option::None => {
            ||| forall|i: int| 0 <= i < subs.len() ==> sub_level_pending(handler, #[trigger] subs[i])
            ||| exists|s: int, e: int|
                #![trigger tier_run(cfg, l0, handler, s, e)]
                e == s + 1 && tier_run(cfg, l0, handler, s, e)
        },
        Option::Some(c) => exists|s: int, e: int|
            #![trigger tier_run(cfg, l0, handler, s, e)]
            tier_run(cfg, l0, handler, s, e) && e - s >= 2 && tier_input_matches(l0, c, s, e),
    }
}

impl TierCompactionPicker {
    pub fn new(config: CompactionConfig) -> (r: TierCompactionPicker)
        ensures
            r.config == config,
    {
        TierCompactionPicker { config }
    }

    /// Scans L0 oldest-first: skips claimed sub-levels, then
    /// accumulates a contiguous run of unclaimed ones until the
    /// configured file-count or byte thresholds are met. A run of two
    /// or more sub-levels becomes the input; anything shorter yields
    /// nothing.
    pub fn pick_tier_compaction(
        &self,
        levels: &Levels,
        level_handlers: &Vec<LevelHandler>,
        stats: &mut LocalPickerStatistic,
    ) -> (r: Option<CompactionInput>)
        requires
            levels.wf(),
            level_handlers@.len() >= 1,
        ensures
            is_tier_pick(self.config, levels.l0, level_handlers@[0], r),
            match r {
                Option::Some(c) => input_no_pending(c, level_handlers@) && c.levels_in_range(
                    level_handlers@,
                ) && c.input_levels@.len() >= 2,
                Option::None => true,
            },
    {
        let subs = &levels.l0.sub_levels;
        let n = subs.len();
        let handler = &level_handlers[0];
        let ghost subs_view = levels.l0.sub_levels@;

        let mut s: usize = 0;
        while s < n
            invariant
                s <= n,
                n == subs_view.len(),
                *handler == level_handlers@[0],
                subs@ == subs_view,
                forall|i: int| 0 <= i < s ==> sub_level_pending(*handler, #[trigger] subs_view[i]),
            ensures
                s <= n,
                n == subs_view.len(),
                *handler == level_handlers@[0],
                subs@ == subs_view,
                forall|i: int| 0 <= i < s ==> sub_level_pending(*handler, #[trigger] subs_view[i]),
                s < n ==> !sub_level_pending(*handler, subs_view[s as int]),
            decreases n - s,
        {
            if !is_sub_level_pending(handler, &subs[s]) {
                break;
            }
            stats.skip_by_pending_files = saturating_inc(stats.skip_by_pending_files);
            s = s + 1;
        }
        if s >= n {
            return None;
        }

        let ghost cfg = self.config;
        let mut e: usize = s;
        let mut count: u64 = 0;
        let mut bytes: u64 = 0;
        assert(subs_view.subrange(s as int, s as int) =~= Seq::<crate::level::Level>::empty());
        while e < n
            invariant
                s <= e <= n,
                s < n,
                n == subs_view.len(),
                *handler == level_handlers@[0],
                subs@ == subs_view,
                levels.wf(),
                subs_view == levels.l0.sub_levels@,
                cfg == self.config,
                count == count_files(subs_view.subrange(s as int, e as int)),
                bytes == sum_level_sizes(subs_view.subrange(s as int, e as int)),
                forall|i: int| s <= i < e ==> !sub_level_pending(*handler, #[trigger] subs_view[i]),
                !sub_level_pending(*handler, subs_view[s as int]),
                forall|m: int| s < m < e ==> !tier_thresholds_met(cfg, subs_view, s as int, m),
            ensures
                s <= e <= n,
                e > s,
                count == count_files(subs_view.subrange(s as int, e as int)),
                bytes == sum_level_sizes(subs_view.subrange(s as int, e as int)),
                forall|i: int| s <= i < e ==> !sub_level_pending(*handler, #[trigger] subs_view[i]),
                forall|m: int| s < m < e ==> !tier_thresholds_met(cfg, subs_view, s as int, m),
                e == n || sub_level_pending(*handler, subs_view[e as int]) || tier_thresholds_met(
                    cfg,
                    subs_view,
                    s as int,
                    e as int,
                ),
            decreases n - e,
        {
            if e > s && (count >= self.config.level0_tier_compact_file_number || bytes
                >= self.config.sub_level_max_compaction_bytes) {
                break;
            }
            if is_sub_level_pending(handler, &subs[e]) {
                break;
            }
            proof {
                lemma_count_files_subrange_succ(subs_view, s as int, e as int);
                lemma_sum_level_sizes_subrange_succ(subs_view, s as int, e as int);
                lemma_run_subrange_le(subs_view, s as int, e as int + 1);
            }
            count = count + subs[e].table_infos.len() as u64;
            bytes = bytes + subs[e].total_file_size;
            e = e + 1;
        }
        assert(e > s);
        assert(tier_run(cfg, levels.l0, *handler, s as int, e as int));

        if e - s < 2 {
            stats.skip_by_count_limit = saturating_inc(stats.skip_by_count_limit);
            assert(tier_run(cfg, levels.l0, *handler, s as int, s as int + 1));
            return None;
        }

        let mut input_levels: Vec<InputLevel> = Vec::new();
        let mut j: usize = s;
        while j < e
            invariant
                s <= j <= e <= n,
                n == subs_view.len(),
                subs@ == subs_view,
                input_levels@.len() == j - s,
                forall|w: int|
                    0 <= w < j - s ==> (#[trigger] input_levels@[w]).level_idx == 0
                        && input_levels@[w].level_type == subs_view[s + w].level_type && ssts_like(
                        input_levels@[w].table_infos@,
                        subs_view[s + w].table_infos@,
                    ),
            decreases e - j,
        {
            let table_infos = clone_ssts(&subs[j].table_infos);
            input_levels.push(
                InputLevel { level_idx: 0, level_type: subs[j].level_type, table_infos },
            );
            j = j + 1;
        }

        let target_sub_level_id = subs[e - 1].sub_level_id + 1;
        let c = CompactionInput { input_levels, target_level: 0, target_sub_level_id };
        proof {
            assert(tier_input_matches(levels.l0, c, s as int, e as int));
            assert forall|li: int, k: int|
                0 <= li < c.input_levels@.len() && 0 <= k
                    < (#[trigger] c.input_levels@[li]).table_infos@.len()
                    && 0 <= c.input_levels@[li].level_idx < level_handlers@.len()
                implies !level_handlers@[c.input_levels@[li].level_idx as int].is_pending(
                (#[trigger] c.input_levels@[li].table_infos@[k]).sst_id,
            ) by {
                assert(!sub_level_pending(*handler, subs_view[s + li]));
                assert(c.input_levels@[li].table_infos@[k].sst_id
                    == subs_view[s + li].table_infos@[k].sst_id);
            }
        }
        Some(c)
    }
}

impl CompactionPicker for TierCompactionPicker {
    fn pick_compaction(
        &mut self,
        levels: &Levels,
        level_handlers: &Vec<LevelHandler>,
        stats: &mut LocalPickerStatistic,
    ) -> (r: Option<CompactionInput>) {
        TierCompactionPicker::pick_tier_compaction(self, levels, level_handlers, stats)
    }
}

/// The scan's arrival point is unique: any two runs that both satisfy
/// `tier_run` over the same snapshot are the same run.
pub proof fn lemma_tier_run_unique(
    cfg: CompactionConfig,
    l0: OverlappingLevel,
    handler: LevelHandler,
    s1: int,
    e1: int,
    s2: int,
    e2: int,
)
    requires
        tier_run(cfg, l0, handler, s1, e1),
        tier_run(cfg, l0, handler, s2, e2),
    ensures
        s1 == s2,
        e1 == e2,
{
    let subs = l0.sub_levels@;
    if s1 < s2 {
        assert(sub_level_pending(handler, subs[s1]));
        assert(!sub_level_pending(handler, subs[s1]));
    }
    if s2 < s1 {
        assert(sub_level_pending(handler, subs[s2]));
        assert(!sub_level_pending(handler, subs[s2]));
    }
    if e1 < e2 {
        assert(!tier_thresholds_met(cfg, subs, s1, e1));
        assert(!sub_level_pending(handler, subs[e1]));
    }
    if e2 < e1 {
        assert(!tier_thresholds_met(cfg, subs, s2, e2));
        assert(!sub_level_pending(handler, subs[e2]));
    }
}

/// Two results agree observably: same shape, same files, same target.
pub open spec fn inputs_agree(c1: CompactionInput, c2: CompactionInput) -> bool {
    &&& c1.input_levels@.len() == c2.input_levels@.len()
    &&& forall|w: int|
        0 <= w < c1.input_levels@.len() ==> (#[trigger] c1.input_levels@[w]).level_idx
            == c2.input_levels@[w].level_idx && c1.input_levels@[w].level_type
            == c2.input_levels@[w].level_type && ssts_like(
            c1.input_levels@[w].table_infos@,
            c2.input_levels@[w].table_infos@,
        )
    &&& c1.target_level == c2.target_level
    &&& c1.target_sub_level_id == c2.target_sub_level_id
}

/// Tiering is deterministic: two picks over the same unmodified
/// snapshot and bookkeeping return identical results.
pub proof fn lemma_tier_pick_deterministic(
    cfg: CompactionConfig,
    l0: OverlappingLevel,
    handler: LevelHandler,
    r1: Option<CompactionInput>,
    r2: Option<CompactionInput>,
)
    requires
        is_tier_pick(cfg, l0, handler, r1),
        is_tier_pick(cfg, l0, handler, r2),
    ensures
        r1 is Some <==> r2 is Some,
        (r1 is Some && r2 is Some) ==> inputs_agree(r1->Some_0, r2->Some_0),
{
    let subs = l0.sub_levels@;
    if r1 is Some && r2 is None {
        lemma_tier_no_pick_excludes_run(cfg, l0, handler, r1->Some_0);
    }
    if r2 is Some && r1 is None {
        lemma_tier_no_pick_excludes_run(cfg, l0, handler, r2->Some_0);
    }
    if r1 is Some && r2 is Some {
        let c1 = r1->Some_0;
        let c2 = r2->Some_0;
        let (s1, e1) = choose|s: int, e: int|
            #![trigger tier_run(cfg, l0, handler, s, e)]
            tier_run(cfg, l0, handler, s, e) && e - s >= 2 && tier_input_matches(l0, c1, s, e);
        let (s2, e2) = choose|s: int, e: int|
            #![trigger tier_run(cfg, l0, handler, s, e)]
            tier_run(cfg, l0, handler, s, e) && e - s >= 2 && tier_input_matches(l0, c2, s, e);
        lemma_tier_run_unique(cfg, l0, handler, s1, e1, s2, e2);
        assert forall|w: int| 0 <= w < c1.input_levels@.len()
            implies (#[trigger] c1.input_levels@[w]).level_idx == c2.input_levels@[w].level_idx
                && c1.input_levels@[w].level_type == c2.input_levels@[w].level_type && ssts_like(
                c1.input_levels@[w].table_infos@,
                c2.input_levels@[w].table_infos@,
            ) by {
            assert(ssts_like(c1.input_levels@[w].table_infos@, subs[s1 + w].table_infos@));
            assert(ssts_like(c2.input_levels@[w].table_infos@, subs[s1 + w].table_infos@));
        }
    }
}

/// A successful pick rules out the conditions under which the scan
/// returns nothing.
proof fn lemma_tier_no_pick_excludes_run(
    cfg: CompactionConfig,
    l0: OverlappingLevel,
    handler: LevelHandler,
    c: CompactionInput,
)
    requires
        is_tier_pick(cfg, l0, handler, Option::Some(c)),
    ensures
        !is_tier_pick(cfg, l0, handler, Option::None),
{
    let subs = l0.sub_levels@;
    let (s, e) = choose|s: int, e: int|
        #![trigger tier_run(cfg, l0, handler, s, e)]
        tier_run(cfg, l0, handler, s, e) && e - s >= 2 && tier_input_matches(l0, c, s, e);
    assert(!sub_level_pending(handler, subs[s]));
    if exists|s1: int, e1: int|
        #![trigger tier_run(cfg, l0, handler, s1, e1)]
        e1 == s1 + 1 && tier_run(cfg, l0, handler, s1, e1) {
        let (s1, e1) = choose|s1: int, e1: int|
            #![trigger tier_run(cfg, l0, handler, s1, e1)]
            e1 == s1 + 1 && tier_run(cfg, l0, handler, s1, e1);
        lemma_tier_run_unique(cfg, l0, handler, s, e, s1, e1);
    }
}

} // verus!
