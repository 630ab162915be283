//! Retention enforcement: a round-robin scan over the levels for
//! files whose newest entry is older than the retention watermark. A
//! hit becomes a same-level rewrite of that single file that drops the
//! expired rows; the cursor advances past the scanned region either
//! way, so every file is reached eventually.

use vstd::prelude::*;
use crate::level::{Levels, LevelType};
use crate::level_handler::LevelHandler;
use crate::picker::{CompactionInput, InputLevel, LocalPickerStatistic, input_no_pending,
    saturating_inc};
use crate::space_reclaim_compaction_picker::scanned_from;
use crate::sstable::{SstableInfo, ssts_like};

verus! {

/// The resume point of the round-robin scan: the level number and file
/// index to continue from. Held by the caller across calls.
#[derive(Clone, Copy, Debug, PartialEq, Eq, Structural)]
pub struct TtlPickerState {
    pub last_level: usize,
    pub last_index: usize,
}

impl TtlPickerState {
    pub fn new() -> (r: TtlPickerState)
        ensures
            r.last_level == 0,
            r.last_index == 0,
    {
        TtlPickerState { last_level: 0, last_index: 0 }
    }
}

/// Picks files whose newest entry predates the retention watermark.
/// The caller derives the watermark epoch from the owning table's
/// configured retention and the clock; picking itself never reads the
/// clock.
pub struct TtlReclaimCompactionPicker {
    pub expire_before_epoch: u64,
}

/// An unclaimed file every entry of which predates the watermark.
pub open spec fn ttl_reclaim_candidate(watermark: u64, h: LevelHandler, s: SstableInfo) -> bool {
    s.max_epoch < watermark && !h.is_pending(s.sst_id)
}

/// Exactly what a scan resumed from `prev` returns, leaving the
/// cursor at `next`.
pub open spec fn is_ttl_reclaim_pick(
    thr: u64,
    levels: Levels,
    handlers: Seq<LevelHandler>,
    prev: TtlPickerState,
    next: TtlPickerState,
    r: Option<CompactionInput>,
) -> bool {
    ({
        let s_lvl: int = if prev.last_level < 1 {
            1
        } else {
            prev.last_level as int
        };
        let s_idx: int = if prev.last_level < 1 {
            0
        } else {
            prev.last_index as int
        };
        match r {
            Option::None => {
                &&& next.last_level == 0
                &&& next.last_index == 0
                &&& forall|li: int, i2: int|
                    0 <= li < levels.levels@.len() && 0 <= i2
                        < levels.levels@[li].table_infos@.len() && scanned_from(
                        s_lvl,
                        s_idx,
                        li + 1,
                        i2,
                    ) ==> !ttl_reclaim_candidate(
                        thr,
                        handlers[li + 1],
                        #[trigger] levels.levels@[li].table_infos@[i2],
                    )
            },
            Option::Some(c) => exists|li: int, i2: int|
                {
                    &&& 0 <= li < levels.levels@.len()
                    &&& 0 <= i2 < levels.levels@[li].table_infos@.len()
                    &&& scanned_from(s_lvl, s_idx, li + 1, i2)
                    &&& ttl_reclaim_candidate(
                        thr,
                        handlers[li + 1],
                        #[trigger] levels.levels@[li].table_infos@[i2],
                    )
                    &&& c.input_levels@.len() == 1
                    &&& c.input_levels@[0].level_idx == li + 1
                    &&& c.input_levels@[0].level_type == LevelType::Nonoverlapping
                    &&& ssts_like(
                        c.input_levels@[0].table_infos@,
                        seq![levels.levels@[li].table_infos@[i2]],
                    )
                    &&& c.target_level == li + 1
                    &&& c.target_sub_level_id == 0
                    &&& input_no_pending(c, handlers)
                    &&& c.levels_in_range(handlers)
                    &&& next.last_level == li + 1
                    &&& next.last_index == i2 + 1
                    &&& forall|li2: int, i22: int|
                        0 <= li2 < levels.levels@.len() && 0 <= i22
                            < levels.levels@[li2].table_infos@.len() && scanned_from(
                            s_lvl,
                            s_idx,
                            li2 + 1,
                            i22,
                        ) && (li2 < li || (li2 == li && i22 < i2))
                            ==> !ttl_reclaim_candidate(
                            thr,
                            handlers[li2 + 1],
                            #[trigger] levels.levels@[li2].table_infos@[i22],
                        )
                },
        }
    })
}

impl TtlReclaimCompactionPicker {
    pub fn new(expire_before_epoch: u64) -> (r: TtlReclaimCompactionPicker)
        ensures
            r.expire_before_epoch == expire_before_epoch,
    {
        TtlReclaimCompactionPicker { expire_before_epoch }
    }

    /// Resumes the scan from the cursor. A found candidate becomes a
    /// single-file compaction back into its own level and the cursor
    /// stops just past it; an exhausted scan resets the cursor to the
    /// beginning and yields nothing.
    pub fn pick_ttl_reclaim_compaction(
        &self,
        levels: &Levels,
        level_handlers: &Vec<LevelHandler>,
        state: &mut TtlPickerState,
        stats: &mut LocalPickerStatistic,
    ) -> (r: Option<CompactionInput>)
        requires
            levels.wf(),
            level_handlers@.len() == levels.levels@.len() + 1,
        ensures
            is_ttl_reclaim_pick(
                self.expire_before_epoch,
                *levels,
                level_handlers@,
                *old(state),
                *final(state),
                r,
            ),
    {
        let n = levels.levels.len();
        // One handler per level plus one for the staging area: the
        // handler list's length bounds the level count.
        let handler_count = level_handlers.len();
        assert(handler_count == n + 1);
        assert(n < usize::MAX);
        let mut lvl: usize;
        let mut idx: usize;
        if state.last_level < 1 {
            lvl = 1;
            idx = 0;
        } else {
            lvl = state.last_level;
            idx = state.last_index;
        }
        let ghost s_lvl = lvl as int;
        let ghost s_idx = idx as int;

        while lvl <= n
            invariant
                1 <= s_lvl,
                s_lvl <= lvl,
                n < usize::MAX,
                s_lvl == (if old(state).last_level < 1 { 1int } else { old(state).last_level as int }),
                s_idx == (if old(state).last_level < 1 { 0int } else { old(state).last_index as int }),
                n == levels.levels@.len(),
                levels.wf(),
                level_handlers@.len() == n + 1,
                lvl == s_lvl ==> idx >= s_idx,
                forall|li: int, i2: int|
                    0 <= li < n && 0 <= i2 < levels.levels@[li].table_infos@.len() && scanned_from(
                        s_lvl,
                        s_idx,
                        li + 1,
                        i2,
                    ) && (li + 1 < lvl || (li + 1 == lvl && i2 < idx))
                        ==> !ttl_reclaim_candidate(
                        self.expire_before_epoch,
                        level_handlers@[li + 1],
                        #[trigger] levels.levels@[li].table_infos@[i2],
                    ),
            decreases n + 1 - lvl,
        {
            let tis = &levels.levels[lvl - 1].table_infos;
            let h = &level_handlers[lvl];
            let m = tis.len();
            while idx < m
                invariant
                    1 <= s_lvl <= lvl <= n,
                    n < usize::MAX,
                    s_lvl == (if old(state).last_level < 1 { 1int } else { old(state).last_level as int }),
                    s_idx == (if old(state).last_level < 1 { 0int } else { old(state).last_index as int }),
                    n == levels.levels@.len(),
                    levels.wf(),
                    level_handlers@.len() == n + 1,
                    m == tis@.len(),
                    tis@ == levels.levels@[lvl - 1].table_infos@,
                    *h == level_handlers@[lvl as int],
                    lvl == s_lvl ==> idx >= s_idx || idx >= m,
                    forall|li: int, i2: int|
                        0 <= li < n && 0 <= i2 < levels.levels@[li].table_infos@.len()
                            && scanned_from(s_lvl, s_idx, li + 1, i2) && (li + 1 < lvl || (li + 1
                            == lvl && i2 < idx)) ==> !ttl_reclaim_candidate(
                            self.expire_before_epoch,
                            level_handlers@[li + 1],
                            #[trigger] levels.levels@[li].table_infos@[i2],
                        ),
                decreases m - idx,
            {
                let f = &tis[idx];
                let reclaimable = f.max_epoch < self.expire_before_epoch;
                if h.is_pending_compact(f.sst_id) {
                    if reclaimable {
                        stats.skip_by_pending_files = saturating_inc(stats.skip_by_pending_files);
                    }
                } else if reclaimable {
                    let mut files: Vec<SstableInfo> = Vec::new();
                    files.push(f.clone());
                    let mut input_levels: Vec<InputLevel> = Vec::new();
                    proof {
                        assert(levels.levels@[lvl - 1].level_idx == lvl);
                    }
                    input_levels.push(
                        InputLevel {
                            level_idx: lvl as u32,
                            level_type: LevelType::Nonoverlapping,
                            table_infos: files,
                        },
                    );
                    let c = CompactionInput {
                        input_levels,
                        target_level: lvl,
                        target_sub_level_id: 0,
                    };
                    state.last_level = lvl;
                    state.last_index = idx + 1;
                    proof {
                        assert(ttl_reclaim_candidate(
                            self.expire_before_epoch,
                            level_handlers@[lvl as int],
                            levels.levels@[lvl - 1].table_infos@[idx as int],
                        ));
                        assert forall|li: int, kk: int|
                            0 <= li < c.input_levels@.len() && 0 <= kk
                                < (#[trigger] c.input_levels@[li]).table_infos@.len()
                                && 0 <= c.input_levels@[li].level_idx < level_handlers@.len()
                            implies !level_handlers@[c.input_levels@[li].level_idx as int].is_pending(
                            (#[trigger] c.input_levels@[li].table_infos@[kk]).sst_id,
                        ) by {
                            assert(c.input_levels@[0].table_infos@[0].sst_id
                                == levels.levels@[lvl - 1].table_infos@[idx as int].sst_id);
                        }
                    }
                    return Some(c);
                }
                idx = idx + 1;
            }
            lvl = lvl + 1;
            idx = 0;
        }
        state.last_level = 0;
        state.last_index = 0;
        None
    }
}

/// Scanning is deterministic: two scans resumed from the same cursor
/// over the same unmodified snapshot and bookkeeping return identical
/// results and identical cursors.
pub proof fn lemma_ttl_reclaim_pick_deterministic(
    thr: u64,
    levels: Levels,
    handlers: Seq<LevelHandler>,
    prev: TtlPickerState,
    n1: TtlPickerState,
    n2: TtlPickerState,
    r1: Option<CompactionInput>,
    r2: Option<CompactionInput>,
)
    requires
        is_ttl_reclaim_pick(thr, levels, handlers, prev, n1, r1),
        is_ttl_reclaim_pick(thr, levels, handlers, prev, n2, r2),
    ensures
        r1 is Some <==> r2 is Some,
        n1 == n2,
        (r1 is Some && r2 is Some) ==> crate::tier_compaction_picker::inputs_agree(
            r1->Some_0,
            r2->Some_0,
        ),
{
    let s_lvl: int = if prev.last_level < 1 {
        1
    } else {
        prev.last_level as int
    };
    let s_idx: int = if prev.last_level < 1 {
        0
    } else {
        prev.last_index as int
    };
    if r1 is Some && r2 is Some {
        let c1 = r1->Some_0;
        let c2 = r2->Some_0;
        let (li1, i21) = choose|li: int, i2: int|
            {
                &&& 0 <= li < levels.levels@.len()
                &&& 0 <= i2 < levels.levels@[li].table_infos@.len()
                &&& scanned_from(s_lvl, s_idx, li + 1, i2)
                &&& ttl_reclaim_candidate(
                    thr,
                    handlers[li + 1],
                    #[trigger] levels.levels@[li].table_infos@[i2],
                )
                &&& n1.last_level == li + 1
                &&& n1.last_index == i2 + 1
                &&& c1.input_levels@.len() == 1
                &&& c1.input_levels@[0].level_idx == li + 1
                &&& crate::sstable::ssts_like(
                    c1.input_levels@[0].table_infos@,
                    seq![levels.levels@[li].table_infos@[i2]],
                )
                &&& c1.target_level == li + 1
                &&& forall|li2: int, i22: int|
                    0 <= li2 < levels.levels@.len() && 0 <= i22
                        < levels.levels@[li2].table_infos@.len() && scanned_from(
                        s_lvl,
                        s_idx,
                        li2 + 1,
                        i22,
                    ) && (li2 < li || (li2 == li && i22 < i2)) ==> !ttl_reclaim_candidate(
                        thr,
                        handlers[li2 + 1],
                        #[trigger] levels.levels@[li2].table_infos@[i22],
                    )
            };
        let (li2b, i22b) = choose|li: int, i2: int|
            {
                &&& 0 <= li < levels.levels@.len()
                &&& 0 <= i2 < levels.levels@[li].table_infos@.len()
                &&& scanned_from(s_lvl, s_idx, li + 1, i2)
                &&& ttl_reclaim_candidate(
                    thr,
                    handlers[li + 1],
                    #[trigger] levels.levels@[li].table_infos@[i2],
                )
                &&& n2.last_level == li + 1
                &&& n2.last_index == i2 + 1
                &&& c2.input_levels@.len() == 1
                &&& c2.input_levels@[0].level_idx == li + 1
                &&& crate::sstable::ssts_like(
                    c2.input_levels@[0].table_infos@,
                    seq![levels.levels@[li].table_infos@[i2]],
                )
                &&& c2.target_level == li + 1
                &&& forall|li2: int, i22: int|
                    0 <= li2 < levels.levels@.len() && 0 <= i22
                        < levels.levels@[li2].table_infos@.len() && scanned_from(
                        s_lvl,
                        s_idx,
                        li2 + 1,
                        i22,
                    ) && (li2 < li || (li2 == li && i22 < i2)) ==> !ttl_reclaim_candidate(
                        thr,
                        handlers[li2 + 1],
                        #[trigger] levels.levels@[li2].table_infos@[i22],
                    )
            };
        if li1 < li2b || (li1 == li2b && i21 < i22b) {
            assert(!ttl_reclaim_candidate(thr, handlers[li1 + 1], levels.levels@[li1].table_infos@[i21]));
        }
        if li2b < li1 || (li1 == li2b && i22b < i21) {
            assert(!ttl_reclaim_candidate(thr, handlers[li2b + 1], levels.levels@[li2b].table_infos@[i22b]));
        }
        assert(li1 == li2b && i21 == i22b);
    }
}

} // verus!
