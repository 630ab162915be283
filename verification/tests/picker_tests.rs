use streamdb::key_range::KeyRange;
use streamdb::level::{build_l0, build_level, Level, Levels, LevelType};
use streamdb::level_handler::LevelHandler;
use streamdb::manual_compaction_picker::{ManualCompactionOption, ManualCompactionPicker};
use streamdb::min_overlap_compaction_picker::MinOverlappingPicker;
use streamdb::picker::{CompactionConfig, CompactionInput, CompactionPicker, LocalPickerStatistic};
use streamdb::base_level_compaction_picker::LevelCompactionPicker;
use streamdb::space_reclaim_compaction_picker::{
    SpaceReclaimCompactionPicker, SpaceReclaimPickerState,
};
use streamdb::sstable::SstableInfo;
use streamdb::tier_compaction_picker::TierCompactionPicker;
use streamdb::ttl_reclaim_compaction_picker::{TtlPickerState, TtlReclaimCompactionPicker};

fn sst(id: u64, left: &str, right: &str, size: u64) -> SstableInfo {
    SstableInfo {
        sst_id: id,
        key_range: KeyRange {
            left: left.as_bytes().to_vec(),
            right: right.as_bytes().to_vec(),
        },
        file_size: size,
        uncompressed_file_size: size,
        total_key_count: 100,
        stale_key_count: 0,
        min_epoch: 1,
        max_epoch: 100,
        table_ids: vec![1],
    }
}

fn config() -> CompactionConfig {
    CompactionConfig {
        max_bytes_for_level_base: 100,
        max_bytes_for_level_multiplier: 5,
        max_compaction_bytes: 1_000_000_000,
        sub_level_max_compaction_bytes: 1_000_000_000,
        level0_tier_compact_file_number: 2,
        target_file_size_base: 32,
        compaction_filter_mask: 0,
        max_sub_compaction: 4,
        level0_stop_write_threshold_sub_level_number: 300,
        level0_sub_level_compact_level_count: 3,
    }
}

fn handlers(n: u32) -> Vec<LevelHandler> {
    (0..n).map(LevelHandler::new).collect()
}

fn input_sst_ids(c: &CompactionInput) -> Vec<u64> {
    let mut ids = vec![];
    for level in &c.input_levels {
        for t in &level.table_infos {
            ids.push(t.sst_id);
        }
    }
    ids
}

/// Four sub-levels of ten megabytes each with a two-file trigger: the
/// two oldest sub-levels are picked and the two newest stay untouched.
#[test]
fn tier_scenario_two_oldest_sub_levels() {
    const MB: u64 = 1 << 20;
    let subs = vec![
        build_level(0, LevelType::Nonoverlapping, vec![sst(1, "a", "m", 10 * MB)], 11),
        build_level(0, LevelType::Nonoverlapping, vec![sst(2, "b", "n", 10 * MB)], 12),
        build_level(0, LevelType::Nonoverlapping, vec![sst(3, "c", "o", 10 * MB)], 13),
        build_level(0, LevelType::Nonoverlapping, vec![sst(4, "d", "p", 10 * MB)], 14),
    ];
    let levels = Levels { l0: build_l0(subs), levels: vec![] };
    let picker = TierCompactionPicker::new(config());
    let mut stats = LocalPickerStatistic::default();
    let r = picker
        .pick_tier_compaction(&levels, &handlers(1), &mut stats)
        .expect("a pick");
    assert_eq!(r.input_levels.len(), 2);
    assert_eq!(input_sst_ids(&r), vec![1, 2]);
    assert_eq!(r.target_level, 0);
    assert_eq!(r.target_sub_level_id, 13);
}

/// A tiering pick never returns fewer than two sub-levels: one lone
/// unclaimed sub-level yields nothing.
#[test]
fn tier_requires_two_sub_levels() {
    let subs = vec![build_level(0, LevelType::Nonoverlapping, vec![sst(1, "a", "m", 100)], 11)];
    let levels = Levels { l0: build_l0(subs), levels: vec![] };
    let picker = TierCompactionPicker::new(config());
    let mut stats = LocalPickerStatistic::default();
    assert!(picker.pick_tier_compaction(&levels, &handlers(1), &mut stats).is_none());
}

/// Two picks over the same unmodified snapshot return identical
/// results.
#[test]
fn tier_pick_is_deterministic() {
    let subs = vec![
        build_level(0, LevelType::Nonoverlapping, vec![sst(1, "a", "m", 100)], 11),
        build_level(0, LevelType::Nonoverlapping, vec![sst(2, "b", "n", 100)], 12),
        build_level(0, LevelType::Nonoverlapping, vec![sst(3, "c", "o", 100)], 13),
    ];
    let levels = Levels { l0: build_l0(subs), levels: vec![] };
    let picker = TierCompactionPicker::new(config());
    let hs = handlers(1);
    let mut stats = LocalPickerStatistic::default();
    let a = picker.pick_tier_compaction(&levels, &hs, &mut stats).expect("a pick");
    let b = picker.pick_tier_compaction(&levels, &hs, &mut stats).expect("a pick");
    assert_eq!(input_sst_ids(&a), input_sst_ids(&b));
    assert_eq!(a.target_level, b.target_level);
    assert_eq!(a.target_sub_level_id, b.target_sub_level_id);
}

/// A file already claimed in the handler is excluded from the
/// candidate set and the matching counter grows.
#[test]
fn pending_sub_level_is_skipped() {
    let subs = vec![
        build_level(0, LevelType::Nonoverlapping, vec![sst(1, "a", "m", 100)], 11),
        build_level(0, LevelType::Nonoverlapping, vec![sst(2, "b", "n", 100)], 12),
        build_level(0, LevelType::Nonoverlapping, vec![sst(3, "c", "o", 100)], 13),
    ];
    let levels = Levels { l0: build_l0(subs), levels: vec![] };
    let mut hs = handlers(1);
    hs[0].add_pending_task(7, 0, &vec![sst(1, "a", "m", 100)]);
    let picker = TierCompactionPicker::new(config());
    let mut stats = LocalPickerStatistic::default();
    let r = picker.pick_tier_compaction(&levels, &hs, &mut stats).expect("a pick");
    assert_eq!(stats.skip_by_pending_files, 1);
    assert!(!input_sst_ids(&r).contains(&1));
    assert_eq!(input_sst_ids(&r), vec![2, 3]);
}

/// After the chosen files are claimed, a second pick on the same
/// snapshot selects none of them.
#[test]
fn committed_files_are_excluded_from_the_next_pick() {
    let subs = vec![
        build_level(0, LevelType::Nonoverlapping, vec![sst(1, "a", "m", 100)], 11),
        build_level(0, LevelType::Nonoverlapping, vec![sst(2, "b", "n", 100)], 12),
        build_level(0, LevelType::Nonoverlapping, vec![sst(3, "c", "o", 100)], 13),
        build_level(0, LevelType::Nonoverlapping, vec![sst(4, "d", "p", 100)], 14),
    ];
    let levels = Levels { l0: build_l0(subs), levels: vec![] };
    let mut hs = handlers(1);
    let picker = TierCompactionPicker::new(config());
    let mut stats = LocalPickerStatistic::default();
    let first = picker.pick_tier_compaction(&levels, &hs, &mut stats).expect("a pick");
    first.add_pending_task(42, &mut hs);
    for id in input_sst_ids(&first) {
        assert!(hs[0].is_pending_compact(id));
    }
    if let Some(second) = picker.pick_tier_compaction(&levels, &hs, &mut stats) {
        for id in input_sst_ids(&second) {
            assert!(!input_sst_ids(&first).contains(&id));
        }
    }
}

/// The base-level pick takes the whole overlapping footprint: both
/// base files are included even though the second only partially
/// overlaps the selected span.
#[test]
fn base_level_pick_takes_entire_overlap() {
    let subs = vec![build_level(0, LevelType::Nonoverlapping, vec![sst(10, "c", "k", 500)], 11)];
    let l1 = build_level(
        1,
        LevelType::Nonoverlapping,
        vec![sst(21, "a", "f", 100), sst(22, "g", "m", 100)],
        0,
    );
    let levels = Levels { l0: build_l0(subs), levels: vec![l1] };
    let picker = LevelCompactionPicker::new(1, config());
    let mut stats = LocalPickerStatistic::default();
    let r = picker
        .pick_base_level_compaction(&levels, &handlers(2), &mut stats)
        .expect("a pick");
    assert_eq!(r.target_level, 1);
    let last = r.input_levels.last().expect("target level entry");
    let target_ids: Vec<u64> = last.table_infos.iter().map(|t| t.sst_id).collect();
    assert_eq!(target_ids, vec![21, 22]);
}

/// Below the base-level byte budget no base compaction triggers.
#[test]
fn base_level_pick_requires_oversized_l0() {
    let subs = vec![build_level(0, LevelType::Nonoverlapping, vec![sst(10, "c", "k", 50)], 11)];
    let l1 = build_level(1, LevelType::Nonoverlapping, vec![sst(21, "a", "f", 100)], 0);
    let levels = Levels { l0: build_l0(subs), levels: vec![l1] };
    let picker = LevelCompactionPicker::new(1, config());
    let mut stats = LocalPickerStatistic::default();
    assert!(picker.pick_base_level_compaction(&levels, &handlers(2), &mut stats).is_none());
}

/// The minimal-overlap pick chooses the source file whose footprint in
/// the target level is smallest.
#[test]
fn min_overlap_pick_is_optimal() {
    let l1 = build_level(
        1,
        LevelType::Nonoverlapping,
        vec![sst(31, "a", "c", 100), sst(32, "d", "f", 100)],
        0,
    );
    let l2 = build_level(
        2,
        LevelType::Nonoverlapping,
        vec![sst(41, "a", "b", 500), sst(42, "c", "c", 500), sst(43, "d", "e", 40)],
        0,
    );
    let levels = Levels {
        l0: build_l0(vec![]),
        levels: vec![l1, l2],
    };
    let picker = MinOverlappingPicker::new(1, 2);
    let mut stats = LocalPickerStatistic::default();
    let r = picker
        .pick_min_overlap_compaction(&levels, &handlers(3), &mut stats)
        .expect("a pick");
    // Candidate 31 overlaps 1000 bytes; candidate 32 overlaps only 40.
    assert_eq!(input_sst_ids(&r), vec![32, 43]);
    assert_eq!(r.target_level, 2);
}

/// A manual pick restricted to one table returns only files holding
/// that table.
#[test]
fn manual_pick_respects_table_filter() {
    let mut a = sst(51, "a", "c", 100);
    a.table_ids = vec![7];
    let mut b = sst(52, "d", "f", 100);
    b.table_ids = vec![8];
    let mut c = sst(53, "g", "i", 100);
    c.table_ids = vec![7, 9];
    let l1 = build_level(1, LevelType::Nonoverlapping, vec![a, b, c], 0);
    let l2 = build_level(2, LevelType::Nonoverlapping, vec![], 0);
    let levels = Levels { l0: build_l0(vec![]), levels: vec![l1, l2] };
    let picker = ManualCompactionPicker::new(ManualCompactionOption {
        compaction_group_id: 2,
        table_id: Some(7),
        level: 1,
    });
    let mut stats = LocalPickerStatistic::default();
    let r = picker
        .pick_manual_compaction(&levels, &handlers(3), &mut stats)
        .expect("a pick");
    let selected: Vec<u64> = r.input_levels[0].table_infos.iter().map(|t| t.sst_id).collect();
    assert_eq!(selected, vec![51, 53]);
    assert_eq!(r.target_level, 2);
}

/// An unknown table id yields an empty candidate set: nothing to do.
#[test]
fn manual_pick_unknown_table_yields_nothing() {
    let l1 = build_level(1, LevelType::Nonoverlapping, vec![sst(51, "a", "c", 100)], 0);
    let levels = Levels { l0: build_l0(vec![]), levels: vec![l1] };
    let picker = ManualCompactionPicker::new(ManualCompactionOption {
        compaction_group_id: 2,
        table_id: Some(999),
        level: 1,
    });
    let mut stats = LocalPickerStatistic::default();
    assert!(picker.pick_manual_compaction(&levels, &handlers(2), &mut stats).is_none());
}

/// The space-reclaim scan finds the file whose stale share passed the
/// threshold and leaves the cursor just past it.
#[test]
fn space_reclaim_finds_stale_file() {
    let mut stale = sst(61, "d", "f", 100);
    stale.total_key_count = 100;
    stale.stale_key_count = 60;
    let fresh = sst(62, "a", "c", 100);
    let l1 = build_level(1, LevelType::Nonoverlapping, vec![fresh, stale], 0);
    let levels = Levels { l0: build_l0(vec![]), levels: vec![l1] };
    let picker = SpaceReclaimCompactionPicker::new(50);
    let mut state = SpaceReclaimPickerState::new();
    let mut stats = LocalPickerStatistic::default();
    let r = picker
        .pick_space_reclaim_compaction(&levels, &handlers(2), &mut state, &mut stats)
        .expect("a pick");
    assert_eq!(input_sst_ids(&r), vec![61]);
    assert_eq!(r.target_level, 1);
    assert_eq!(state.last_level, 1);
    assert_eq!(state.last_index, 2);
    // The exhausted continuation resets the cursor.
    let none = picker.pick_space_reclaim_compaction(&levels, &handlers(2), &mut state, &mut stats);
    assert!(none.is_none());
    assert_eq!(state.last_level, 0);
    assert_eq!(state.last_index, 0);
}

/// The retention scan finds the file whose newest entry predates the
/// watermark.
#[test]
fn ttl_reclaim_finds_expired_file() {
    let mut old = sst(71, "a", "c", 100);
    old.max_epoch = 10;
    let mut recent = sst(72, "d", "f", 100);
    recent.max_epoch = 1000;
    let l1 = build_level(1, LevelType::Nonoverlapping, vec![old, recent], 0);
    let levels = Levels { l0: build_l0(vec![]), levels: vec![l1] };
    let picker = TtlReclaimCompactionPicker::new(500);
    let mut state = TtlPickerState::new();
    let mut stats = LocalPickerStatistic::default();
    let r = picker
        .pick_ttl_reclaim_compaction(&levels, &handlers(2), &mut state, &mut stats)
        .expect("a pick");
    assert_eq!(input_sst_ids(&r), vec![71]);
    assert_eq!(r.target_level, 1);
}

/// Releasing a task frees its files for later picks.
#[test]
fn remove_task_releases_claims() {
    let mut h = LevelHandler::new(0);
    h.add_pending_task(5, 0, &vec![sst(1, "a", "c", 10), sst(2, "d", "f", 10)]);
    h.add_pending_task(6, 0, &vec![sst(3, "g", "i", 10)]);
    assert!(h.is_pending_compact(1));
    assert!(h.is_pending_compact(3));
    h.remove_task(5);
    assert!(!h.is_pending_compact(1));
    assert!(!h.is_pending_compact(2));
    assert!(h.is_pending_compact(3));
}

/// The minimal-overlap choice repeats identically on an unchanged
/// snapshot.
#[test]
fn min_overlap_pick_is_deterministic() {
    let l1 = build_level(
        1,
        LevelType::Nonoverlapping,
        vec![sst(31, "a", "c", 100), sst(32, "d", "f", 100)],
        0,
    );
    let l2 = build_level(2, LevelType::Nonoverlapping, vec![sst(41, "a", "e", 500)], 0);
    let levels = Levels { l0: build_l0(vec![]), levels: vec![l1, l2] };
    let picker = MinOverlappingPicker::new(1, 2);
    let hs = handlers(3);
    let mut stats = LocalPickerStatistic::default();
    let a = picker.pick_min_overlap_compaction(&levels, &hs, &mut stats).expect("a pick");
    let b = picker.pick_min_overlap_compaction(&levels, &hs, &mut stats).expect("a pick");
    assert_eq!(input_sst_ids(&a), input_sst_ids(&b));
    assert_eq!(a.target_level, b.target_level);
}

/// The base-level choice repeats identically on an unchanged snapshot.
#[test]
fn base_level_pick_is_deterministic() {
    let subs = vec![build_level(0, LevelType::Nonoverlapping, vec![sst(10, "c", "k", 500)], 11)];
    let l1 = build_level(1, LevelType::Nonoverlapping, vec![sst(21, "a", "f", 100)], 0);
    let levels = Levels { l0: build_l0(subs), levels: vec![l1] };
    let picker = LevelCompactionPicker::new(1, config());
    let hs = handlers(2);
    let mut stats = LocalPickerStatistic::default();
    let a = picker.pick_base_level_compaction(&levels, &hs, &mut stats).expect("a pick");
    let b = picker.pick_base_level_compaction(&levels, &hs, &mut stats).expect("a pick");
    assert_eq!(input_sst_ids(&a), input_sst_ids(&b));
    assert_eq!(a.target_level, b.target_level);
}

/// The pickers are also reachable through the common interface.
#[test]
fn picking_through_the_interface() {
    let subs = vec![
        build_level(0, LevelType::Nonoverlapping, vec![sst(1, "a", "m", 100)], 11),
        build_level(0, LevelType::Nonoverlapping, vec![sst(2, "b", "n", 100)], 12),
    ];
    let levels = Levels { l0: build_l0(subs), levels: vec![] };
    let mut picker = TierCompactionPicker::new(config());
    let mut stats = LocalPickerStatistic::default();
    let r = picker.pick_compaction(&levels, &handlers(1), &mut stats).expect("a pick");
    assert_eq!(input_sst_ids(&r), vec![1, 2]);
}
