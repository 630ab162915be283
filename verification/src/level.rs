//! The shape of one compaction group's LSM version: an overlapping
//! staging area (L0) of sub-levels, over a hierarchy of non-overlapping
//! levels.

use vstd::prelude::*;
use crate::key_range::lex_le;
use crate::sstable::{SstableInfo, sum_file_sizes, lemma_sum_file_sizes_nonneg,
    lemma_sum_file_sizes_take_succ, lemma_sum_file_sizes_take_le};

verus! {

#[derive(Clone, Copy, Debug, PartialEq, Eq, Structural)]
pub enum LevelType {
    /// Key ranges of the files are pairwise disjoint and ascending.
    Nonoverlapping,
    /// Files may overlap one another in key range.
    Overlapping,
}

/// One level of the hierarchy, or one sub-level of L0.
#[derive(Clone, Debug)]
pub struct Level {
    /// Position in the hierarchy; 0 for an L0 sub-level.
    pub level_idx: u32,
    pub level_type: LevelType,
    /// The files, ordered by key when the level is non-overlapping.
    pub table_infos: Vec<SstableInfo>,
    /// Total `file_size` of the files.
    pub total_file_size: u64,
    /// For an L0 sub-level: its creation id, monotonically increasing
    /// with age (the oldest sub-level carries the smallest id).
    pub sub_level_id: u64,
}

/// Files sorted by key with pairwise disjoint ranges: each file ends
/// strictly before the next one begins.
pub open spec fn disjoint_ascending(s: Seq<SstableInfo>) -> bool {
    forall|i: int, j: int|
        0 <= i < j < s.len() ==> !lex_le(#[trigger] s[j].key_range.left@, #[trigger] s[i].key_range.right@)
}

impl Level {
    pub open spec fn wf(self) -> bool {
        &&& forall|i: int| 0 <= i < self.table_infos@.len() ==> (#[trigger] self.table_infos@[i]).wf()
        &&& self.total_file_size == sum_file_sizes(self.table_infos@)
        &&& self.level_type == LevelType::Nonoverlapping ==> disjoint_ascending(self.table_infos@)
    }
}

/// Total `total_file_size` of a run of levels.
pub open spec fn sum_level_sizes(s: Seq<Level>) -> int
    decreases s.len(),
{
    if s.len() == 0 {
        0
    } else {
        sum_level_sizes(s.drop_last()) + s.last().total_file_size
    }
}

pub proof fn lemma_sum_level_sizes_nonneg(s: Seq<Level>)
    ensures
        sum_level_sizes(s) >= 0,
    decreases s.len(),
{
    if s.len() != 0 {
        lemma_sum_level_sizes_nonneg(s.drop_last());
    }
}

pub proof fn lemma_sum_level_sizes_take_succ(s: Seq<Level>, i: int)
    requires
        0 <= i < s.len(),
    ensures
        sum_level_sizes(s.take(i + 1)) == sum_level_sizes(s.take(i)) + s[i].total_file_size,
{
    assert(s.take(i + 1).drop_last() =~= s.take(i));
    assert(s.take(i + 1).last() == s[i]);
}

pub proof fn lemma_sum_level_sizes_take_le(s: Seq<Level>, i: int)
    requires
        0 <= i <= s.len(),
    ensures
        sum_level_sizes(s.take(i)) <= sum_level_sizes(s),
    decreases s.len() - i,
{
    if i == s.len() {
        assert(s.take(i) =~= s);
    } else {
        lemma_sum_level_sizes_take_succ(s, i);
        lemma_sum_level_sizes_take_le(s, i + 1);
    }
}

/// Total number of files of a run of levels.
pub open spec fn count_files(s: Seq<Level>) -> int
    decreases s.len(),
{
    if s.len() == 0 {
        0
    } else {
        count_files(s.drop_last()) + s.last().table_infos@.len()
    }
}

pub proof fn lemma_count_files_nonneg(s: Seq<Level>)
    ensures
        count_files(s) >= 0,
    decreases s.len(),
{
    if s.len() != 0 {
        lemma_count_files_nonneg(s.drop_last());
    }
}

/// Appending one more level to a slice grows its file count by that
/// level's files.
pub proof fn lemma_count_files_subrange_succ(s: Seq<Level>, a: int, b: int)
    requires
        0 <= a <= b < s.len(),
    ensures
        count_files(s.subrange(a, b + 1)) == count_files(s.subrange(a, b))
            + s[b].table_infos@.len(),
{
    assert(s.subrange(a, b + 1).drop_last() =~= s.subrange(a, b));
    assert(s.subrange(a, b + 1).last() == s[b]);
}

pub proof fn lemma_sum_level_sizes_subrange_succ(s: Seq<Level>, a: int, b: int)
    requires
        0 <= a <= b < s.len(),
    ensures
        sum_level_sizes(s.subrange(a, b + 1)) == sum_level_sizes(s.subrange(a, b))
            + s[b].total_file_size,
{
    assert(s.subrange(a, b + 1).drop_last() =~= s.subrange(a, b));
    assert(s.subrange(a, b + 1).last() == s[b]);
}

/// A slice of a run holds at most the files of the whole run, and at
/// most its bytes.
pub proof fn lemma_run_subrange_le(s: Seq<Level>, a: int, b: int)
    requires
        0 <= a <= b <= s.len(),
    ensures
        count_files(s.subrange(a, b)) <= count_files(s),
        sum_level_sizes(s.subrange(a, b)) <= sum_level_sizes(s),
        count_files(s.subrange(a, b)) >= 0,
        sum_level_sizes(s.subrange(a, b)) >= 0,
    decreases s.len() - b,
{
    lemma_count_files_nonneg(s.subrange(a, b));
    lemma_sum_level_sizes_nonneg(s.subrange(a, b));
    if b < s.len() {
        lemma_count_files_subrange_succ(s, a, b);
        lemma_sum_level_sizes_subrange_succ(s, a, b);
        lemma_run_subrange_le(s, a, b + 1);
    } else {
        lemma_run_drop_first_le(s, a);
    }
}

/// Dropping levels from the front of a run never increases its totals.
proof fn lemma_run_drop_first_le(s: Seq<Level>, a: int)
    requires
        0 <= a <= s.len(),
    ensures
        count_files(s.subrange(a, s.len() as int)) <= count_files(s),
        sum_level_sizes(s.subrange(a, s.len() as int)) <= sum_level_sizes(s),
    decreases s.len(),
{
    if a == 0 {
        assert(s.subrange(0, s.len() as int) =~= s);
    } else if s.len() > 0 {
        if a == s.len() {
            lemma_count_files_nonneg(s);
            lemma_sum_level_sizes_nonneg(s);
        } else {
            assert(s.subrange(a, s.len() as int).drop_last() =~= s.drop_last().subrange(
                a,
                s.len() - 1,
            ));
            assert(s.subrange(a, s.len() as int).last() == s.last());
            lemma_run_drop_first_le(s.drop_last(), a);
        }
    }
}

/// In a sorted non-overlapping run of files, the first file starts no
/// later than any file, and the last file ends no earlier than any.
pub proof fn lemma_level_span(s: Seq<SstableInfo>)
    requires
        s.len() >= 1,
        forall|i: int| 0 <= i < s.len() ==> (#[trigger] s[i]).wf(),
        disjoint_ascending(s),
    ensures
        forall|k: int|
            0 <= k < s.len() ==> lex_le(s[0].key_range.left@, (#[trigger] s[k]).key_range.left@),
        forall|k: int|
            0 <= k < s.len() ==> lex_le(
                (#[trigger] s[k]).key_range.right@,
                s[s.len() - 1].key_range.right@,
            ),
{
    assert forall|k: int| 0 <= k < s.len() implies lex_le(
        s[0].key_range.left@,
        (#[trigger] s[k]).key_range.left@,
    ) by {
        if k == 0 {
            crate::key_range::lex_le_reflexive(s[0].key_range.left@);
        } else {
            assert(!lex_le(s[k].key_range.left@, s[0].key_range.right@));
            crate::key_range::lex_le_total(s[k].key_range.left@, s[0].key_range.right@);
            crate::key_range::lex_le_transitive(
                s[0].key_range.left@,
                s[0].key_range.right@,
                s[k].key_range.left@,
            );
        }
    }
    assert forall|k: int| 0 <= k < s.len() implies lex_le(
        (#[trigger] s[k]).key_range.right@,
        s[s.len() - 1].key_range.right@,
    ) by {
        let last = s.len() - 1;
        if k == last {
            crate::key_range::lex_le_reflexive(s[k].key_range.right@);
        } else {
            assert(!lex_le(s[last].key_range.left@, s[k].key_range.right@));
            crate::key_range::lex_le_total(s[last].key_range.left@, s[k].key_range.right@);
            crate::key_range::lex_le_transitive(
                s[k].key_range.right@,
                s[last].key_range.left@,
                s[last].key_range.right@,
            );
        }
    }
}

/// A longer prefix of a run never holds fewer bytes.
pub proof fn lemma_sum_prefix_mono(s: Seq<Level>, a: int, b: int)
    requires
        0 <= a <= b <= s.len(),
    ensures
        sum_level_sizes(s.subrange(0, a)) <= sum_level_sizes(s.subrange(0, b)),
    decreases b - a,
{
    if a < b {
        lemma_sum_level_sizes_subrange_succ(s, 0, a);
        lemma_sum_prefix_mono(s, a + 1, b);
    }
}

/// The L0 staging area: a run of sub-levels, oldest first. Sub-levels
/// may overlap each other in key range, while each one is internally
/// non-overlapping.
#[derive(Clone, Debug)]
pub struct OverlappingLevel {
    pub sub_levels: Vec<Level>,
    pub total_file_size: u64,
}

impl OverlappingLevel {
    pub open spec fn wf(self) -> bool {
        &&& forall|i: int| 0 <= i < self.sub_levels@.len() ==> (#[trigger] self.sub_levels@[i]).wf()
        &&& forall|i: int| 0 <= i < self.sub_levels@.len()
            ==> (#[trigger] self.sub_levels@[i]).level_idx == 0
        &&& forall|i: int| 0 <= i < self.sub_levels@.len()
            ==> (#[trigger] self.sub_levels@[i]).level_type == LevelType::Nonoverlapping
        &&& forall|i: int| 0 <= i < self.sub_levels@.len()
            ==> (#[trigger] self.sub_levels@[i]).table_infos@.len() >= 1
        &&& forall|i: int, j: int|
            0 <= i < j < self.sub_levels@.len()
                ==> (#[trigger] self.sub_levels@[i]).sub_level_id < (#[trigger] self.sub_levels@[j]).sub_level_id
        &&& forall|i: int| 0 <= i < self.sub_levels@.len()
            ==> (#[trigger] self.sub_levels@[i]).sub_level_id < u64::MAX
        &&& self.total_file_size == sum_level_sizes(self.sub_levels@)
        &&& count_files(self.sub_levels@) <= u64::MAX
    }
}

/// The full version snapshot of one compaction group.
#[derive(Clone, Debug)]
pub struct Levels {
    pub l0: OverlappingLevel,
    /// `levels[i]` is the level with index `i + 1`.
    pub levels: Vec<Level>,
}

/// Bytes held by the whole version.
pub open spec fn version_size(v: Levels) -> int {
    sum_level_sizes(v.l0.sub_levels@) + sum_level_sizes(v.levels@)
}

impl Levels {
    pub open spec fn wf(self) -> bool {
        &&& self.l0.wf()
        &&& forall|i: int| 0 <= i < self.levels@.len() ==> (#[trigger] self.levels@[i]).wf()
        &&& forall|i: int| 0 <= i < self.levels@.len()
            ==> (#[trigger] self.levels@[i]).level_idx == i + 1
        &&& forall|i: int| 0 <= i < self.levels@.len()
            ==> (#[trigger] self.levels@[i]).level_type == LevelType::Nonoverlapping
        &&& version_size(self) <= u64::MAX
    }
}

/// Builds a level over the given files, totalling their sizes.
pub fn build_level(
    level_idx: u32,
    level_type: LevelType,
    table_infos: Vec<SstableInfo>,
    sub_level_id: u64,
) -> (r: Level)
    requires
        sum_file_sizes(table_infos@) <= u64::MAX,
    ensures
        r.level_idx == level_idx,
        r.level_type == level_type,
        r.table_infos@ == table_infos@,
        r.sub_level_id == sub_level_id,
        r.total_file_size == sum_file_sizes(table_infos@),
{
    let mut total: u64 = 0;
    let mut i: usize = 0;
    assert(table_infos@.take(0) =~= Seq::<SstableInfo>::empty());
    while i < table_infos.len()
        invariant
            i <= table_infos.len(),
            total == sum_file_sizes(table_infos@.take(i as int)),
            sum_file_sizes(table_infos@) <= u64::MAX,
        decreases table_infos.len() - i,
    {
        proof {
            lemma_sum_file_sizes_take_succ(table_infos@, i as int);
            lemma_sum_file_sizes_take_le(table_infos@, i + 1);
            lemma_sum_file_sizes_nonneg(table_infos@.take(i as int));
        }
        total = total + table_infos[i].file_size;
        i = i + 1;
    }
    assert(table_infos@.take(table_infos@.len() as int) =~= table_infos@);
    Level { level_idx, level_type, table_infos, total_file_size: total, sub_level_id }
}

/// Builds the L0 staging area over the given sub-levels.
pub fn build_l0(sub_levels: Vec<Level>) -> (r: OverlappingLevel)
    requires
        sum_level_sizes(sub_levels@) <= u64::MAX,
    ensures
        r.sub_levels@ == sub_levels@,
        r.total_file_size == sum_level_sizes(sub_levels@),
{
    let mut total: u64 = 0;
    let mut i: usize = 0;
    assert(sub_levels@.take(0) =~= Seq::<Level>::empty());
    while i < sub_levels.len()
        invariant
            i <= sub_levels.len(),
            total == sum_level_sizes(sub_levels@.take(i as int)),
            sum_level_sizes(sub_levels@) <= u64::MAX,
        decreases sub_levels.len() - i,
    {
        proof {
            lemma_sum_level_sizes_take_succ(sub_levels@, i as int);
            lemma_sum_level_sizes_take_le(sub_levels@, i + 1);
            lemma_sum_level_sizes_nonneg(sub_levels@.take(i as int));
        }
        total = total + sub_levels[i].total_file_size;
        i = i + 1;
    }
    assert(sub_levels@.take(sub_levels@.len() as int) =~= sub_levels@);
    OverlappingLevel { sub_levels, total_file_size: total }
}

} // verus!
