use bevy_voronoi::binned::{
    BatchType, BinnedPhase, FloodInitPhase, FloodInitPhaseBinKey, FloodMaskPhase,
    FloodMaskPhaseBinKey,
};
use bevy_voronoi::phase::{BatchRange, PhaseItemExtraIndex};

fn key(pipeline: usize, asset_id: u64) -> FloodInitPhaseBinKey {
    FloodInitPhaseBinKey { pipeline, draw_function: 1, asset_id }
}

#[test]
fn new_item_has_what_it_was_given() {
    let range = BatchRange { start: 2, end: 5 };
    let mut item =
        FloodInitPhase::new(key(3, 4), (10, 20), range, PhaseItemExtraIndex::DynamicOffset(8));
    assert_eq!(item.key, key(3, 4));
    assert_eq!(item.entity(), 10);
    assert_eq!(item.main_entity(), 20);
    assert_eq!(item.draw_function(), 1);
    assert_eq!(item.cached_pipeline(), 3);
    assert_eq!(*item.batch_range(), range);
    assert_eq!(item.extra_index(), PhaseItemExtraIndex::DynamicOffset(8));
    item.batch_range_mut().end = 9;
    assert_eq!(item.batch_range, BatchRange { start: 2, end: 9 });
    let (range, extra) = item.batch_range_and_extra_index_mut();
    range.start = 1;
    *extra = PhaseItemExtraIndex::Absent;
    assert_eq!(item.batch_range, BatchRange { start: 1, end: 9 });
    assert_eq!(item.extra_index, PhaseItemExtraIndex::Absent);
}

#[test]
fn mask_phase_items_are_of_the_same_kind() {
    let mask_key: FloodMaskPhaseBinKey = key(1, 2);
    let mask: FloodMaskPhase = FloodMaskPhase::new(
        mask_key,
        (1, 2),
        BatchRange { start: 0, end: 1 },
        PhaseItemExtraIndex::Absent,
    );
    assert_eq!(mask.cached_pipeline(), 1);
    assert_eq!(mask.key.asset_id, 2);
}

#[test]
fn keys_order_by_pipeline_then_draw_function_then_asset() {
    assert!(key(1, 9) < key(2, 0));
    assert!(key(1, 1) < key(1, 2));
    assert!(
        FloodInitPhaseBinKey { pipeline: 1, draw_function: 1, asset_id: 9 }
            < FloodInitPhaseBinKey { pipeline: 1, draw_function: 2, asset_id: 0 }
    );
    assert_eq!(key(1, 1), key(1, 1));
}

#[test]
fn items_with_one_key_share_a_bin_in_insertion_order() {
    let mut phase = BinnedPhase::new();
    assert!(phase.is_empty());
    phase.add(key(1, 1), (1, 101), BatchType::Batchable);
    phase.add(key(2, 1), (2, 102), BatchType::Batchable);
    phase.add(key(1, 1), (3, 103), BatchType::Batchable);
    phase.add(key(1, 2), (4, 104), BatchType::Batchable);
    phase.add(key(2, 1), (5, 105), BatchType::Batchable);
    assert!(!phase.is_empty());
    assert_eq!(phase.bin_count(), 3);
    let first = phase.bin(0).unwrap();
    assert_eq!(first.key, key(1, 1));
    assert_eq!(first.entities, vec![(1, 101), (3, 103)]);
    let second = phase.bin(1).unwrap();
    assert_eq!(second.key, key(2, 1));
    assert_eq!(second.entities, vec![(2, 102), (5, 105)]);
    let third = phase.bin(2).unwrap();
    assert_eq!(third.key, key(1, 2));
    assert_eq!(third.entities, vec![(4, 104)]);
    assert!(phase.bin(3).is_none());
    assert!(phase.unbatchable().is_empty());
}

#[test]
fn unbatchable_items_are_kept_apart() {
    let mut phase = BinnedPhase::new();
    phase.add(key(1, 1), (1, 101), BatchType::Unbatchable);
    phase.add(key(1, 1), (2, 102), BatchType::Batchable);
    phase.add(key(1, 1), (3, 103), BatchType::Unbatchable);
    assert!(!phase.is_empty());
    assert_eq!(phase.bin_count(), 1);
    assert_eq!(phase.bin(0).unwrap().entities, vec![(2, 102)]);
    assert_eq!(*phase.unbatchable(), vec![(key(1, 1), (1, 101)), (key(1, 1), (3, 103))]);
}

#[test]
fn clear_empties_the_queue() {
    let mut phase = BinnedPhase::new();
    phase.add(key(1, 1), (1, 101), BatchType::Batchable);
    phase.add(key(1, 1), (2, 102), BatchType::Unbatchable);
    phase.clear();
    assert!(phase.is_empty());
    assert_eq!(phase.bin_count(), 0);
    assert!(phase.unbatchable().is_empty());
    phase.add(key(1, 1), (3, 103), BatchType::Batchable);
    assert_eq!(phase.bin(0).unwrap().entities, vec![(3, 103)]);
}
