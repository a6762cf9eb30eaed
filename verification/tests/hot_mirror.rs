use gsplat_render_wgpu::packed_atlas::PackedHotRecord;
use gsplat_render_wgpu::packed_gpu::{HotRecordMirror, WordRange};

fn record(seed: u32) -> PackedHotRecord {
    PackedHotRecord {
        position_opacity: [1, 2, 3, 4],
        scale_flags: seed,
        rotation: seed + 1,
        color: seed + 2,
    }
}

#[test]
fn empty_atlas_keeps_one_zero_record() {
    let mirror = HotRecordMirror::from_records(&vec![]);
    assert_eq!(mirror.capacity(), 1);
    assert_eq!(mirror.words(), &vec![0, 0, 0, 0, 0]);
}

#[test]
fn color_writes_touch_only_color_words_of_fitting_ranges() {
    let mut mirror = HotRecordMirror::from_records(&vec![record(10), record(20), record(30)]);
    assert_eq!(
        mirror.write_hot_colors_at(1, &vec![0xaa, 0xbb]),
        Some(WordRange { start: 5, end: 15 })
    );
    assert_eq!(mirror.words()[4], 12);
    assert_eq!(mirror.words()[9], 0xaa);
    assert_eq!(mirror.words()[14], 0xbb);
    assert_eq!(mirror.words()[13], 31);
    // A write past the capacity, or an empty one, is skipped.
    let before = mirror.words().clone();
    assert_eq!(mirror.write_hot_colors_at(2, &vec![1, 2]), None);
    assert_eq!(mirror.write_hot_colors_at(0, &vec![]), None);
    assert_eq!(mirror.words(), &before);
}

#[test]
fn record_writes_and_clears_replace_whole_records() {
    let mut mirror = HotRecordMirror::from_records(&vec![record(10), record(20), record(30)]);
    let replacement = record(40).to_storage_words().to_vec();
    assert_eq!(
        mirror.write_hot_records_at(2, &replacement),
        Some(WordRange { start: 10, end: 15 })
    );
    assert_eq!(&mirror.words()[10..15], replacement.as_slice());
    assert_eq!(
        mirror.clear_hot_records_range(0, 2),
        Some(WordRange { start: 0, end: 10 })
    );
    assert!(mirror.words()[..10].iter().all(|word| *word == 0));
    assert_eq!(&mirror.words()[10..15], replacement.as_slice());
    assert_eq!(mirror.clear_hot_records_range(2, 2), None);
    assert_eq!(mirror.write_hot_records_at(3, &replacement), None);
}
