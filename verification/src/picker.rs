//! The picker interface: what a compaction strategy consumes and what
//! it produces, and the commit step that claims the chosen files.

use vstd::prelude::*;
use crate::level::{Levels, LevelType};
use crate::level_handler::LevelHandler;
use crate::sstable::SstableInfo;

verus! {

/// Counters explaining why candidates were rejected during one pick.
/// Diagnostic only; they never gate correctness.
#[derive(Clone, Copy, Debug)]
pub struct LocalPickerStatistic {
    pub skip_by_write_amp_limit: u64,
    pub skip_by_count_limit: u64,
    pub skip_by_pending_files: u64,
    pub skip_by_overlapping: u64,
}

impl Default for LocalPickerStatistic {
    /// All counters start at zero; the caller resets once per tick.
    fn default() -> (r: LocalPickerStatistic)
        ensures
            r.skip_by_write_amp_limit == 0,
            r.skip_by_count_limit == 0,
            r.skip_by_pending_files == 0,
            r.skip_by_overlapping == 0,
    {
        LocalPickerStatistic {
            skip_by_write_amp_limit: 0,
            skip_by_count_limit: 0,
            skip_by_pending_files: 0,
            skip_by_overlapping: 0,
        }
    }
}

/// Tunable thresholds of one compaction group. Mutated only by
/// explicit admin operations; read-only during picking.
#[derive(Clone, Copy, Debug)]
pub struct CompactionConfig {
    pub max_bytes_for_level_base: u64,
    pub max_bytes_for_level_multiplier: u64,
    pub max_compaction_bytes: u64,
    pub sub_level_max_compaction_bytes: u64,
    pub level0_tier_compact_file_number: u64,
    pub target_file_size_base: u64,
    pub compaction_filter_mask: u32,
    pub max_sub_compaction: u32,
    pub level0_stop_write_threshold_sub_level_number: u64,
    pub level0_sub_level_compact_level_count: u32,
}

/// One selected input level (or sub-level) of a compaction task.
#[derive(Clone, Debug)]
pub struct InputLevel {
    pub level_idx: u32,
    pub level_type: LevelType,
    pub table_infos: Vec<SstableInfo>,
}

/// A picker's output: the selected input levels plus the level (and,
/// within L0, the sub-level) the merged output goes to. Transient:
/// created, optionally committed, then handed off.
#[derive(Clone, Debug)]
pub struct CompactionInput {
    pub input_levels: Vec<InputLevel>,
    pub target_level: usize,
    pub target_sub_level_id: u64,
}

/// Whether the input claims the file `sst_id` on the level `level_idx`.
pub open spec fn input_claims_sst(input: CompactionInput, level_idx: int, sst_id: u64) -> bool {
    exists|li: int, k: int|
        0 <= li < input.input_levels@.len() && 0 <= k
            < (#[trigger] input.input_levels@[li]).table_infos@.len()
            && input.input_levels@[li].level_idx == level_idx
            && (#[trigger] input.input_levels@[li].table_infos@[k]).sst_id == sst_id
}

/// No file of the input is already claimed by an in-flight task: the
/// exclusivity condition every picker honours.
pub open spec fn input_no_pending(input: CompactionInput, handlers: Seq<LevelHandler>) -> bool {
    forall|li: int, k: int|
        0 <= li < input.input_levels@.len() && 0 <= k
            < (#[trigger] input.input_levels@[li]).table_infos@.len()
            && 0 <= input.input_levels@[li].level_idx < handlers.len()
            ==> !handlers[input.input_levels@[li].level_idx as int].is_pending(
            (#[trigger] input.input_levels@[li].table_infos@[k]).sst_id,
        )
}

impl CompactionInput {
    /// Every input level's index stays within the handler list.
    pub open spec fn levels_in_range(self, handlers: Seq<LevelHandler>) -> bool {
        forall|li: int|
            0 <= li < self.input_levels@.len()
                ==> (#[trigger] self.input_levels@[li]).level_idx < handlers.len()
    }

    /// Registers all selected files as claimed by the task `task_id`,
    /// atomically from the point of view of later picks: afterwards a
    /// file is pending exactly when it was pending before or belongs to
    /// this input on that level.
    pub fn add_pending_task(&self, task_id: u64, level_handlers: &mut Vec<LevelHandler>)
        requires
            self.levels_in_range(old(level_handlers)@),
        ensures
            final(level_handlers)@.len() == old(level_handlers)@.len(),
            forall|h: int|
                0 <= h < final(level_handlers)@.len()
                    ==> (#[trigger] final(level_handlers)@[h]).spec_level()
                    == old(level_handlers)@[h].spec_level(),
            forall|h: int, id: u64|
                0 <= h < final(level_handlers)@.len()
                    ==> (#[trigger] final(level_handlers)@[h].is_pending(id)
                        <==> (old(level_handlers)@[h].is_pending(id)
                            || input_claims_sst(*self, h, id))),
            forall|h: int, id: u64|
                0 <= h < final(level_handlers)@.len() && input_claims_sst(*self, h, id)
                    ==> #[trigger] final(level_handlers)@[h].is_pending_by(id, task_id),
    {
        let ghost orig = level_handlers@;
        let mut li: usize = 0;
        while li < self.input_levels.len()
            invariant
                self.levels_in_range(orig),
                level_handlers@.len() == orig.len(),
                li <= self.input_levels@.len(),
                forall|h: int|
                    0 <= h < level_handlers@.len()
                        ==> (#[trigger] level_handlers@[h]).spec_level()
                        == orig[h].spec_level(),
                forall|h: int, id: u64|
                    0 <= h < level_handlers@.len()
                        ==> (#[trigger] level_handlers@[h].is_pending(id)
                            <==> (orig[h].is_pending(id) || exists|w: int, k: int|
                                0 <= w < li && 0 <= k
                                    < (#[trigger] self.input_levels@[w]).table_infos@.len()
                                    && self.input_levels@[w].level_idx == h
                                    && (#[trigger] self.input_levels@[w].table_infos@[k]).sst_id
                                    == id)),
                forall|h: int, id: u64|
                    0 <= h < level_handlers@.len() && (exists|w: int, k: int|
                        0 <= w < li && 0 <= k
                            < (#[trigger] self.input_levels@[w]).table_infos@.len()
                            && self.input_levels@[w].level_idx == h
                            && (#[trigger] self.input_levels@[w].table_infos@[k]).sst_id == id)
                        ==> #[trigger] level_handlers@[h].is_pending_by(id, task_id),
            decreases self.input_levels@.len() - li,
        {
            let idx = self.input_levels[li].level_idx as usize;
            assert(idx < level_handlers@.len());
            let ghost pre = level_handlers@;
            let mut h = level_handlers.remove(idx);
            h.add_pending_task(task_id, self.target_level, &self.input_levels[li].table_infos);
            level_handlers.insert(idx, h);
            proof {
                assert(level_handlers@ =~= pre.update(idx as int, h));
                let ghost tis = self.input_levels@[li as int].table_infos@;
                assert forall|hh: int, id: u64|
                    0 <= hh < level_handlers@.len() implies
                    (#[trigger] level_handlers@[hh].is_pending(id)
                        <==> (orig[hh].is_pending(id) || exists|w: int, k: int|
                            0 <= w < li + 1 && 0 <= k
                                < (#[trigger] self.input_levels@[w]).table_infos@.len()
                                && self.input_levels@[w].level_idx == hh
                                && (#[trigger] self.input_levels@[w].table_infos@[k]).sst_id
                                == id)) by {
                    if hh == idx as int {
                        if level_handlers@[hh].is_pending(id) {
                            if pre[hh].is_pending(id) {
                            } else {
                                let k = choose|k: int|
                                    0 <= k < tis.len() && (#[trigger] tis[k]).sst_id == id;
                                assert(self.input_levels@[li as int].table_infos@[k].sst_id == id);
                            }
                        }
                        if orig[hh].is_pending(id) {
                            assert(pre[hh].is_pending(id));
                        }
                        if exists|w: int, k: int|
                            0 <= w < li + 1 && 0 <= k
                                < (#[trigger] self.input_levels@[w]).table_infos@.len()
                                && self.input_levels@[w].level_idx == hh
                                && (#[trigger] self.input_levels@[w].table_infos@[k]).sst_id
                                == id {
                            let (w, k) = choose|w: int, k: int|
                                0 <= w < li + 1 && 0 <= k
                                    < (#[trigger] self.input_levels@[w]).table_infos@.len()
                                    && self.input_levels@[w].level_idx == hh
                                    && (#[trigger] self.input_levels@[w].table_infos@[k]).sst_id
                                    == id;
                            if w < li {
                                assert(pre[hh].is_pending(id));
                            } else {
                                assert(tis[k].sst_id == id);
                            }
                        }
                    } else {
                        assert(level_handlers@[hh] == pre[hh]);
                    }
                }
                assert forall|hh: int, id: u64|
                    0 <= hh < level_handlers@.len() && (exists|w: int, k: int|
                        0 <= w < li + 1 && 0 <= k
                            < (#[trigger] self.input_levels@[w]).table_infos@.len()
                            && self.input_levels@[w].level_idx == hh
                            && (#[trigger] self.input_levels@[w].table_infos@[k]).sst_id == id)
                    implies #[trigger] level_handlers@[hh].is_pending_by(id, task_id) by {
                    let (w, k) = choose|w: int, k: int|
                        0 <= w < li + 1 && 0 <= k
                            < (#[trigger] self.input_levels@[w]).table_infos@.len()
                            && self.input_levels@[w].level_idx == hh
                            && (#[trigger] self.input_levels@[w].table_infos@[k]).sst_id == id;
                    if w < li {
                        if hh == idx as int {
                            assert(pre[hh].is_pending_by(id, task_id));
                        } else {
                            assert(level_handlers@[hh] == pre[hh]);
                        }
                    } else {
                        assert(hh == idx as int);
                        assert(tis[k].sst_id == id);
                    }
                }
            }
            li = li + 1;
        }
        proof {
            assert forall|h: int, id: u64|
                0 <= h < level_handlers@.len() implies
                (#[trigger] level_handlers@[h].is_pending(id)
                    <==> (orig[h].is_pending(id) || input_claims_sst(*self, h, id))) by {
            }
        }
    }
}

/// Once an input's files are claimed, a later pick on the same
/// snapshot never selects any of them: a pick whose result honours
/// `input_no_pending` over the updated bookkeeping shares no file, on
/// any level, with the committed input.
pub proof fn lemma_committed_files_excluded(
    committed: CompactionInput,
    before: Seq<LevelHandler>,
    after: Seq<LevelHandler>,
    next: CompactionInput,
    h: int,
    id: u64,
)
    requires
        after.len() == before.len(),
        forall|hh: int, idd: u64|
            0 <= hh < after.len() ==> (#[trigger] after[hh].is_pending(idd) <==> (
            before[hh].is_pending(idd) || input_claims_sst(committed, hh, idd))),
        input_no_pending(next, after),
        next.levels_in_range(after),
        input_claims_sst(committed, h, id),
        0 <= h < after.len(),
    ensures
        !input_claims_sst(next, h, id),
{
    if input_claims_sst(next, h, id) {
        let (li, k) = choose|li: int, k: int|
            0 <= li < next.input_levels@.len() && 0 <= k
                < (#[trigger] next.input_levels@[li]).table_infos@.len()
                && next.input_levels@[li].level_idx == h
                && (#[trigger] next.input_levels@[li].table_infos@[k]).sst_id == id;
        assert(!after[h].is_pending(id));
        assert(after[h].is_pending(id));
    }
}

/// Whether any file of the sub-level is claimed by an in-flight task.
/// Exclusivity then rules out the whole sub-level.
pub open spec fn sub_level_pending(handler: LevelHandler, sub: crate::level::Level) -> bool {
    exists|k: int|
        0 <= k < sub.table_infos@.len() && handler.is_pending(
            (#[trigger] sub.table_infos@[k]).sst_id,
        )
}

/// Reports whether any file of `sub` is already claimed.
pub fn is_sub_level_pending(handler: &LevelHandler, sub: &crate::level::Level) -> (r: bool)
    ensures
        r == sub_level_pending(*handler, *sub),
{
    let mut k: usize = 0;
    while k < sub.table_infos.len()
        invariant
            k <= sub.table_infos@.len(),
            forall|j: int|
                0 <= j < k ==> !handler.is_pending((#[trigger] sub.table_infos@[j]).sst_id),
        decreases sub.table_infos@.len() - k,
    {
        if handler.is_pending_compact(sub.table_infos[k].sst_id) {
            return true;
        }
        k = k + 1;
    }
    false
}

/// Bumps a diagnostic counter, holding at the maximum instead of
/// wrapping.
pub fn saturating_inc(x: u64) -> (r: u64)
    ensures
        r == if x == u64::MAX { x } else { (x + 1) as u64 },
{
    if x == u64::MAX {
        x
    } else {
        x + 1
    }
}

/// The common shape of a compaction strategy: read the version snapshot
/// and the in-flight bookkeeping, return the chosen work, incrementing
/// rejection counters along the way. Absence of work is `None`, never
/// an error.
pub trait CompactionPicker {
    fn pick_compaction(
        &mut self,
        levels: &Levels,
        level_handlers: &Vec<LevelHandler>,
        stats: &mut LocalPickerStatistic,
    ) -> (r: Option<CompactionInput>)
        requires
            levels.wf(),
            level_handlers@.len() == levels.levels@.len() + 1,
        ensures
            match r {
                Option::Some(c) => input_no_pending(c, level_handlers@) && c.levels_in_range(
                    level_handlers@,
                ),
                Option::None => true,
            },
    ;
}

} // verus!
