//! Per-level bookkeeping of the SSTables already claimed by an
//! in-flight compaction task. Derived from the authoritative task
//! registry; a picker consults it to honour exclusivity.

use vstd::prelude::*;
use crate::sstable::SstableInfo;

verus! {

/// One claimed file: which task holds it, where the task writes to,
/// and how large the file is.
#[derive(Clone, Copy, Debug)]
pub struct PendingFile {
    pub sst_id: u64,
    pub task_id: u64,
    pub target_level: usize,
    pub file_size: u64,
}

/// Tracks, for one level, the files claimed by in-flight tasks.
#[derive(Clone, Debug)]
pub struct LevelHandler {
    level: u32,
    pending: Vec<PendingFile>,
}

impl LevelHandler {
    /// Whether `sst_id` is currently claimed by some task.
    pub closed spec fn is_pending(self, sst_id: u64) -> bool {
        exists|i: int| 0 <= i < self.pending@.len() && (#[trigger] self.pending@[i]).sst_id == sst_id
    }

    /// Whether `sst_id` is claimed by the task `task_id`.
    pub closed spec fn is_pending_by(self, sst_id: u64, task_id: u64) -> bool {
        exists|i: int|
            0 <= i < self.pending@.len() && (#[trigger] self.pending@[i]).sst_id == sst_id
                && self.pending@[i].task_id == task_id
    }

    pub closed spec fn spec_level(self) -> u32 {
        self.level
    }

    pub fn new(level: u32) -> (r: LevelHandler)
        ensures
            r.spec_level() == level,
            forall|id: u64| !r.is_pending(id),
    {
        LevelHandler { level, pending: Vec::new() }
    }

    pub fn get_level(&self) -> (r: u32)
        ensures
            r == self.spec_level(),
    {
        self.level
    }

    /// Reports whether the file is already claimed by an in-flight task.
    pub fn is_pending_compact(&self, sst_id: u64) -> (r: bool)
        ensures
            r == self.is_pending(sst_id),
    {
        let mut i: usize = 0;
        while i < self.pending.len()
            invariant
                i <= self.pending.len(),
                forall|j: int| 0 <= j < i ==> (#[trigger] self.pending@[j]).sst_id != sst_id,
            decreases self.pending.len() - i,
        {
            if self.pending[i].sst_id == sst_id {
                return true;
            }
            i = i + 1;
        }
        false
    }

    /// Claims every file of `ssts` for the task `task_id`. Afterwards a
    /// file is pending exactly when it was pending before or stands in
    /// `ssts`.
    pub fn add_pending_task(&mut self, task_id: u64, target_level: usize, ssts: &Vec<SstableInfo>)
        ensures
            final(self).spec_level() == old(self).spec_level(),
            forall|id: u64|
                final(self).is_pending(id) <==> (old(self).is_pending(id) || exists|k: int|
                    0 <= k < ssts@.len() && (#[trigger] ssts@[k]).sst_id == id),
            forall|k: int|
                0 <= k < ssts@.len() ==> final(self).is_pending_by(
                    (#[trigger] ssts@[k]).sst_id,
                    task_id,
                ),
            forall|id: u64, t: u64|
                old(self).is_pending_by(id, t) ==> final(self).is_pending_by(id, t),
    {
        let mut i: usize = 0;
        while i < ssts.len()
            invariant
                self.level == old(self).spec_level(),
                i <= ssts.len(),
                forall|id: u64|
                    self.is_pending(id) <==> (old(self).is_pending(id) || exists|k: int|
                        0 <= k < i && (#[trigger] ssts@[k]).sst_id == id),
                forall|k: int|
                    0 <= k < i ==> self.is_pending_by((#[trigger] ssts@[k]).sst_id, task_id),
                forall|id: u64, t: u64|
                    old(self).is_pending_by(id, t) ==> self.is_pending_by(id, t),
            decreases ssts.len() - i,
    {
            let entry = PendingFile {
                sst_id: ssts[i].sst_id,
                task_id,
                target_level,
                file_size: ssts[i].file_size,
            };
            let ghost pre = *self;
            self.pending.push(entry);
            proof {
                assert(self.pending@ == pre.pending@.push(entry));
                assert forall|id: u64| #[trigger] self.is_pending(id) implies (old(
                    self,
                ).is_pending(id) || exists|k: int|
                    0 <= k < i + 1 && (#[trigger] ssts@[k]).sst_id == id) by {
                    let w = choose|w: int|
                        0 <= w < self.pending@.len() && (#[trigger] self.pending@[w]).sst_id == id;
                    if w < pre.pending@.len() {
                        assert(pre.pending@[w].sst_id == id);
                        assert(pre.is_pending(id));
                    } else {
                        assert(ssts@[i as int].sst_id == id);
                    }
                }
                assert forall|id: u64, t: u64| #[trigger] pre.is_pending_by(id, t) implies self.is_pending_by(id, t) by {
                    let w = choose|w: int|
                        0 <= w < pre.pending@.len() && (#[trigger] pre.pending@[w]).sst_id == id
                            && pre.pending@[w].task_id == t;
                    assert(self.pending@[w].sst_id == id && self.pending@[w].task_id == t);
                }
                assert forall|id: u64| (old(self).is_pending(id) || exists|k: int|
                    0 <= k < i + 1 && (#[trigger] ssts@[k]).sst_id == id) implies #[trigger] self.is_pending(id) by {
                    if old(self).is_pending(id) {
                        assert(pre.is_pending(id));
                        let w = choose|w: int|
                            0 <= w < pre.pending@.len() && (#[trigger] pre.pending@[w]).sst_id == id;
                        assert(self.pending@[w].sst_id == id);
                    } else {
                        let k = choose|k: int| 0 <= k < i + 1 && (#[trigger] ssts@[k]).sst_id == id;
                        if k < i {
                            assert(pre.is_pending(id));
                            let w = choose|w: int|
                                0 <= w < pre.pending@.len() && (#[trigger] pre.pending@[w]).sst_id == id;
                            assert(self.pending@[w].sst_id == id);
                        } else {
                            assert(self.pending@.last().sst_id == id);
                        }
                    }
                }
                assert forall|k: int| 0 <= k < i + 1 implies self.is_pending_by(
                    (#[trigger] ssts@[k]).sst_id,
                    task_id,
                ) by {
                    if k < i {
                        assert(pre.is_pending_by(ssts@[k].sst_id, task_id));
                    } else {
                        let last = self.pending@.len() - 1;
                        assert(self.pending@[last].sst_id == ssts@[k].sst_id
                            && self.pending@[last].task_id == task_id);
                    }
                }
            }
            i = i + 1;
        }
    }

    /// Releases every file claimed by the task `task_id`, so that a
    /// later pick can reconsider them.
    pub fn remove_task(&mut self, task_id: u64)
        ensures
            final(self).spec_level() == old(self).spec_level(),
            forall|id: u64|
                final(self).is_pending(id) <==> exists|t: u64|
                    t != task_id && #[trigger] old(self).is_pending_by(id, t),
    {
        let mut kept: Vec<PendingFile> = Vec::new();
        let mut i: usize = 0;
        while i < self.pending.len()
            invariant
                i <= self.pending.len(),
                forall|w: int|
                    0 <= w < kept@.len() ==> (#[trigger] kept@[w]).task_id != task_id,
                forall|w: int|
                    0 <= w < kept@.len() ==> exists|v: int|
                        0 <= v < i && self.pending@[v] == #[trigger] kept@[w],
                forall|v: int|
                    0 <= v < i && (#[trigger] self.pending@[v]).task_id != task_id
                        ==> exists|w: int| 0 <= w < kept@.len() && kept@[w] == self.pending@[v],
            decreases self.pending.len() - i,
        {
            if self.pending[i].task_id != task_id {
                let entry = self.pending[i];
                let ghost prevkept = kept@;
                kept.push(entry);
                proof {
                    assert(kept@ == prevkept.push(entry));
                    assert forall|w: int| 0 <= w < kept@.len() implies exists|v: int|
                        0 <= v < i + 1 && self.pending@[v] == #[trigger] kept@[w] by {
                        if w < prevkept.len() {
                            let v = choose|v: int|
                                0 <= v < i && self.pending@[v] == #[trigger] prevkept[w];
                            assert(self.pending@[v] == kept@[w]);
                        } else {
                            assert(kept@[w] == self.pending@[i as int]);
                        }
                    }
                    assert forall|v: int|
                        0 <= v < i + 1 && (#[trigger] self.pending@[v]).task_id != task_id
                        implies exists|w: int|
                        0 <= w < kept@.len() && kept@[w] == self.pending@[v] by {
                        if v < i {
                            let w = choose|w: int|
                                0 <= w < prevkept.len() && #[trigger] prevkept[w] == self.pending@[v];
                            assert(kept@[w] == self.pending@[v]);
                        } else {
                            assert(kept@[kept@.len() - 1] == self.pending@[v]);
                        }
                    }
                }
            }
            i = i + 1;
        }
        let ghost prev = *self;
        self.pending = kept;
        proof {
            assert forall|id: u64| #[trigger] self.is_pending(id) implies exists|t: u64|
                t != task_id && #[trigger] prev.is_pending_by(id, t) by {
                let w = choose|w: int|
                    0 <= w < self.pending@.len() && (#[trigger] self.pending@[w]).sst_id == id;
                let v = choose|v: int|
                    0 <= v < prev.pending@.len() && prev.pending@[v] == self.pending@[w];
                assert(prev.is_pending_by(id, self.pending@[w].task_id));
            }
            assert forall|id: u64, t: u64|
                t != task_id && #[trigger] prev.is_pending_by(id, t) implies self.is_pending(
                id,
            ) by {
                let v = choose|v: int|
                    0 <= v < prev.pending@.len() && (#[trigger] prev.pending@[v]).sst_id == id
                        && prev.pending@[v].task_id == t;
                let w = choose|w: int|
                    0 <= w < self.pending@.len() && self.pending@[w] == prev.pending@[v];
                assert(self.pending@[w].sst_id == id);
            }
        }
    }

    /// How many files are claimed on this level.
    pub closed spec fn spec_pending_count(self) -> nat {
        self.pending@.len()
    }

    pub fn pending_file_count(&self) -> (r: usize)
        ensures
            r == self.spec_pending_count(),
    {
        self.pending.len()
    }
}

} // verus!
