//! Immutable descriptors of the sorted files that make up an LSM
//! version. A compaction never mutates an SSTable; it only produces new
//! ones and retires old ones.

use vstd::prelude::*;
use crate::key_range::KeyRange;

verus! {

/// Descriptor of one sorted file on disk.
#[derive(Debug)]
pub struct SstableInfo {
    /// Unique within its compaction group.
    pub sst_id: u64,
    /// Inclusive range of user keys the file covers.
    pub key_range: KeyRange,
    /// Bytes on disk.
    pub file_size: u64,
    /// Bytes before compression.
    pub uncompressed_file_size: u64,
    /// Number of keys stored, never zero.
    pub total_key_count: u64,
    /// Keys superseded by newer writes or belonging to dropped tables.
    pub stale_key_count: u64,
    /// Smallest epoch of any entry in the file.
    pub min_epoch: u64,
    /// Largest epoch of any entry in the file.
    pub max_epoch: u64,
    /// Ids of the tables whose rows the file holds.
    pub table_ids: Vec<u32>,
}

/// Two descriptors naming the same file: every observable field agrees.
pub open spec fn sst_like(a: SstableInfo, b: SstableInfo) -> bool {
    &&& a.sst_id == b.sst_id
    &&& a.key_range.left@ == b.key_range.left@
    &&& a.key_range.right@ == b.key_range.right@
    &&& a.file_size == b.file_size
    &&& a.uncompressed_file_size == b.uncompressed_file_size
    &&& a.total_key_count == b.total_key_count
    &&& a.stale_key_count == b.stale_key_count
    &&& a.min_epoch == b.min_epoch
    &&& a.max_epoch == b.max_epoch
    &&& a.table_ids@ == b.table_ids@
}

/// Element-wise `sst_like` between two runs of descriptors.
pub open spec fn ssts_like(a: Seq<SstableInfo>, b: Seq<SstableInfo>) -> bool {
    a.len() == b.len() && forall|i: int| 0 <= i < a.len() ==> sst_like(#[trigger] a[i], b[i])
}

impl Clone for SstableInfo {
    /// A cloned descriptor describes the same file.
    fn clone(&self) -> (r: SstableInfo)
        ensures
            sst_like(r, *self),
    {
        let table_ids = self.table_ids.clone();
        proof {
            assert(table_ids@ =~= self.table_ids@);
        }
        SstableInfo {
            sst_id: self.sst_id,
            key_range: self.key_range.clone(),
            file_size: self.file_size,
            uncompressed_file_size: self.uncompressed_file_size,
            total_key_count: self.total_key_count,
            stale_key_count: self.stale_key_count,
            min_epoch: self.min_epoch,
            max_epoch: self.max_epoch,
            table_ids,
        }
    }
}

/// Clones a run of descriptors file for file.
pub fn clone_ssts(v: &Vec<SstableInfo>) -> (r: Vec<SstableInfo>)
    ensures
        ssts_like(r@, v@),
{
    let mut r: Vec<SstableInfo> = Vec::new();
    let mut i: usize = 0;
    while i < v.len()
        invariant
            i <= v@.len(),
            r@.len() == i,
            forall|j: int| 0 <= j < i ==> sst_like(#[trigger] r@[j], v@[j]),
        decreases v@.len() - i,
    {
        r.push(v[i].clone());
        i = i + 1;
    }
    r
}

impl SstableInfo {
    pub open spec fn wf(self) -> bool {
        &&& self.key_range.wf()
        &&& self.total_key_count >= 1
        &&& self.stale_key_count <= self.total_key_count
        &&& self.min_epoch <= self.max_epoch
    }
}

/// Total `file_size` of a run of SSTables.
pub open spec fn sum_file_sizes(s: Seq<SstableInfo>) -> int
    decreases s.len(),
{
    if s.len() == 0 {
        0
    } else {
        sum_file_sizes(s.drop_last()) + s.last().file_size
    }
}

pub proof fn lemma_sum_file_sizes_nonneg(s: Seq<SstableInfo>)
    ensures
        sum_file_sizes(s) >= 0,
    decreases s.len(),
{
    if s.len() != 0 {
        lemma_sum_file_sizes_nonneg(s.drop_last());
    }
}

/// Extending a prefix by one file grows its total by that file's size.
pub proof fn lemma_sum_file_sizes_take_succ(s: Seq<SstableInfo>, i: int)
    requires
        0 <= i < s.len(),
    ensures
        sum_file_sizes(s.take(i + 1)) == sum_file_sizes(s.take(i)) + s[i].file_size,
{
    assert(s.take(i + 1).drop_last() =~= s.take(i));
    assert(s.take(i + 1).last() == s[i]);
}

/// The total of a prefix never exceeds the total of the whole run.
pub proof fn lemma_sum_file_sizes_take_le(s: Seq<SstableInfo>, i: int)
    requires
        0 <= i <= s.len(),
    ensures
        sum_file_sizes(s.take(i)) <= sum_file_sizes(s),
    decreases s.len() - i,
{
    if i == s.len() {
        assert(s.take(i) =~= s);
    } else {
        lemma_sum_file_sizes_take_succ(s, i);
        lemma_sum_file_sizes_take_le(s, i + 1);
    }
}

/// Whether a file carries rows of the given table.
pub open spec fn spec_contains_table(s: SstableInfo, table_id: u32) -> bool {
    exists|i: int| 0 <= i < s.table_ids@.len() && s.table_ids@[i] == table_id
}

impl SstableInfo {
    /// Reports whether the file holds rows of `table_id`.
    pub fn contains_table(&self, table_id: u32) -> (r: bool)
        ensures
            r == spec_contains_table(*self, table_id),
    {
        let mut i: usize = 0;
        while i < self.table_ids.len()
            invariant
                i <= self.table_ids.len(),
                forall|j: int| 0 <= j < i ==> self.table_ids@[j] != table_id,
            decreases self.table_ids.len() - i,
        {
            if self.table_ids[i] == table_id {
                return true;
            }
            i = i + 1;
        }
        false
    }
}

} // verus!
