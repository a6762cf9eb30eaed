use gsplat_render_wgpu::paged_active_set::{retire_stale_tokens, tokens_to_upload};
use gsplat_render_wgpu::page_atlas::{
    attribute_bytes_for_lod, PackedSceneShape, PageAtlasCpu, PageAtlasError,
};
use gsplat_render_wgpu::page_source::{
    first_source_index_out_of_bounds, validate_payload, PagePayloadError, PayloadShape,
};
use gsplat_render_wgpu::page_scheduler::{
    evict_over_target, oldest_unprotected_resident, ResidentPageRecency, ScheduleError,
};
use gsplat_render_wgpu::paged_gpu::{PagedAtlasSlots, PagedGpuError};
use gsplat_render_wgpu::residency::{AsyncPageToken, AttributeLod};
use gsplat_render_wgpu::spatial_pages::PageId;

fn token(page: u32, slot: u32, slot_generation: u64) -> AsyncPageToken {
    AsyncPageToken {
        scene_revision: 1,
        page_id: PageId(page),
        slot,
        slot_generation,
    }
}

#[test]
fn install_and_clear_respect_slot_generation() {
    let mut atlas = PageAtlasCpu::new(4, 2);
    // A residency manager hands out the first slot at generation 1 for a page
    // of two splats.
    let token = token(0, 0, 1);
    let packed = PackedSceneShape {
        splat_count: 2,
        sh_degree: 0,
    };
    atlas
        .install_page(token, packed, AttributeLod::Degree0)
        .unwrap();
    assert_eq!(atlas.occupied_count(), 1);
    assert_eq!(atlas.total_attribute_bytes(), 2 * 20);
    assert_eq!(atlas.total_resident_splats(), 2);

    // Eviction clears the slot with the same token.
    atlas.clear_slot(token).unwrap();
    assert_eq!(atlas.occupied_count(), 0);

    // Stale install after generation bump must fail.
    assert_eq!(
        atlas.install_page(token, packed, AttributeLod::Degree0),
        Err(PageAtlasError::StaleToken)
    );
}

#[test]
fn paged_gpu_rejects_stale_upload_after_clear() {
    let mut paged = PagedAtlasSlots::new(2, 2).unwrap();
    let token = token(0, 0, 1);
    assert_eq!(paged.upload_page(token, vec![0, 1]), Ok(0));
    assert!(paged.contains_token(token));

    assert_eq!(paged.clear_slot(token), Ok(0));
    assert!(matches!(
        paged.upload_page(token, vec![0, 1]),
        Err(PagedGpuError::StaleToken)
    ));
    assert!(paged.active_entries().is_empty());
}

#[test]
fn paged_slots_list_active_entries_in_slot_order() {
    let mut paged = PagedAtlasSlots::new(3, 4).unwrap();
    assert_eq!(paged.upload_page(token(7, 2, 1), vec![10, 11]), Ok(8));
    assert_eq!(paged.upload_page(token(5, 0, 1), vec![3, 4, 5]), Ok(0));
    assert_eq!(
        paged.active_entries(),
        vec![(0, 3), (1, 4), (2, 5), (8, 10), (9, 11)]
    );
    assert_eq!(paged.active_global_indices(), vec![0, 1, 2, 8, 9]);
    assert_eq!(paged.resident_splat_count(), 5);
    assert_eq!(paged.occupied_slot_count(), 2);
}

#[test]
fn paged_slots_refuse_bad_uploads() {
    let mut paged = PagedAtlasSlots::new(1, 2).unwrap();
    assert_eq!(
        paged.upload_page(token(1, 3, 1), vec![1]),
        Err(PagedGpuError::SlotOutOfRange)
    );
    assert_eq!(
        paged.upload_page(token(1, 0, 1), vec![]),
        Err(PagedGpuError::EmptyPage)
    );
    assert_eq!(
        paged.upload_page(token(1, 0, 1), vec![1, 2, 3]),
        Err(PagedGpuError::PageTooLarge {
            splat_count: 3,
            page_capacity: 2
        })
    );
    // An empty slot does not take a token older than itself.
    assert_eq!(
        paged.upload_page(token(1, 0, 0), vec![1]),
        Err(PagedGpuError::StaleToken)
    );
    // An occupied slot takes only its own page.
    assert_eq!(paged.upload_page(token(1, 0, 1), vec![1]), Ok(0));
    assert_eq!(
        paged.upload_page(token(2, 0, 1), vec![1]),
        Err(PagedGpuError::StaleToken)
    );
    assert_eq!(
        PagedAtlasSlots::new(usize::MAX, 2).err(),
        Some(PagedGpuError::CapacityExceeded)
    );
}

#[test]
fn force_install_uses_the_current_slot_generation() {
    let mut paged = PagedAtlasSlots::new(1, 4).unwrap();
    assert_eq!(paged.force_install_page(0, PageId(3), vec![9, 8]), Ok(0));
    assert!(paged.contains_token(token(3, 0, 1)));
    assert_eq!(
        paged.force_install_page(1, PageId(3), vec![9]),
        Err(PagedGpuError::SlotOutOfRange)
    );
}

#[test]
fn page_atlas_reduces_attribute_lod_on_install() {
    let mut atlas = PageAtlasCpu::new(2, 8);
    let packed = PackedSceneShape {
        splat_count: 4,
        sh_degree: 3,
    };
    atlas
        .install_page(token(1, 1, 1), packed, AttributeLod::Degree0)
        .unwrap();
    let slot = atlas.slot(1).unwrap();
    assert_eq!(slot.packed.map(|shape| shape.sh_degree), Some(0));
    assert_eq!(slot.attribute_bytes(), 4 * 20);
    assert!(atlas.slot(2).is_none());
    assert_eq!(
        atlas.install_page(token(2, 0, 1), PackedSceneShape { splat_count: 9, sh_degree: 0 }, AttributeLod::Degree0),
        Err(PageAtlasError::PageTooLarge {
            splat_count: 9,
            page_capacity: 8
        })
    );
    assert_eq!(attribute_bytes_for_lod(AttributeLod::Degree0), 20);
    assert_eq!(attribute_bytes_for_lod(AttributeLod::Degree2), 68);
    assert_eq!(
        PackedSceneShape::direct_degree3_attribute_bytes(1024),
        1024 * 244
    );
    assert_eq!(packed.total_attribute_bytes(), 4 * 68);
}

#[test]
fn eviction_picks_the_oldest_unretained_resident() {
    let residents = vec![
        ResidentPageRecency {
            page_id: PageId(4),
            last_visible_frame: 9,
        },
        ResidentPageRecency {
            page_id: PageId(2),
            last_visible_frame: 3,
        },
        ResidentPageRecency {
            page_id: PageId(1),
            last_visible_frame: 3,
        },
        ResidentPageRecency {
            page_id: PageId(0),
            last_visible_frame: 1,
        },
    ];
    assert_eq!(
        oldest_unprotected_resident(&residents, &vec![PageId(0)]),
        Some(PageId(1))
    );
    assert_eq!(
        oldest_unprotected_resident(&residents, &vec![]),
        Some(PageId(0))
    );
    assert_eq!(
        oldest_unprotected_resident(
            &residents,
            &vec![PageId(0), PageId(1), PageId(2), PageId(4)]
        ),
        None
    );
}

#[test]
fn payload_validation_checks_count_bounds_encoding_and_capacity() {
    let scene_len = 6;
    let capacity = 3;
    let indices = vec![0_u32, 2, 4];
    let shape = PayloadShape {
        packed_splats: 3,
        hot_records: 3,
        sh_degree: 1,
        sidecars: 3,
    };
    assert_eq!(validate_payload(&indices, shape, scene_len, capacity, true), Ok(()));

    let short = vec![0_u32, 2];
    assert!(matches!(
        validate_payload(&short, shape, scene_len, capacity, true),
        Err(PagePayloadError::CountMismatch { .. })
    ));

    let outside = vec![6_u32, 2, 4];
    assert_eq!(
        validate_payload(&outside, shape, scene_len, capacity, true),
        Err(PagePayloadError::SourceIndexOutOfBounds {
            source_index: 6,
            scene_splat_count: 6,
        })
    );
    assert_eq!(
        validate_payload(&indices, shape, scene_len, capacity, false),
        Err(PagePayloadError::EncodingMismatch)
    );
    assert_eq!(
        validate_payload(&indices, shape, scene_len, 2, true),
        Err(PagePayloadError::PageTooLarge {
            splat_count: 3,
            page_capacity: 2,
        })
    );
    assert!(matches!(
        validate_payload(&indices, PayloadShape { sidecars: 2, ..shape }, scene_len, capacity, true),
        Err(PagePayloadError::SidecarCountMismatch { expected: 3, actual: 2 })
    ));
    assert_eq!(
        validate_payload(&indices, PayloadShape { sh_degree: 0, sidecars: 0, ..shape }, scene_len, capacity, true),
        Ok(())
    );
    assert_eq!(
        validate_payload(&vec![], shape, scene_len, capacity, true),
        Err(PagePayloadError::EmptyPage)
    );
    assert_eq!(first_source_index_out_of_bounds(&vec![1, 9, 7], 6), Some(9));
    assert_eq!(first_source_index_out_of_bounds(&vec![1, 5], 6), None);
}

#[test]
fn schedule_sync_clears_retired_slots_then_uploads_new_tokens() {
    let mut paged = PagedAtlasSlots::new(2, 4).unwrap();
    let kept = token(1, 0, 1);
    let retired = token(2, 1, 1);
    assert_eq!(paged.upload_page(kept, vec![0, 1]), Ok(0));
    assert_eq!(paged.upload_page(retired, vec![2]), Ok(4));

    // The next schedule keeps page 1 and replaces page 2 by page 3 in slot 1
    // at the slot's next generation.
    let arriving = token(3, 1, 2);
    let previous = vec![kept, retired];
    let current = vec![kept, arriving];
    assert_eq!(retire_stale_tokens(&mut paged, &previous, &current), Ok(vec![4]));
    assert!(!paged.contains_token(retired));
    assert_eq!(tokens_to_upload(&paged, &current), vec![arriving]);
    assert_eq!(paged.upload_page(arriving, vec![5, 6]), Ok(4));
    assert!(tokens_to_upload(&paged, &current).is_empty());

    // Retiring a token the atlas does not hold is refused.
    let stale = vec![token(9, 0, 7)];
    assert_eq!(
        retire_stale_tokens(&mut paged, &stale, &current),
        Err(PagedGpuError::StaleToken)
    );
}

fn recency(page: u32, frame: u64) -> ResidentPageRecency {
    ResidentPageRecency {
        page_id: PageId(page),
        last_visible_frame: frame,
    }
}

#[test]
fn eviction_down_to_target_takes_oldest_unretained_pages_first() {
    let mut residents = vec![recency(4, 9), recency(2, 3), recency(7, 3), recency(1, 1)];
    let retain = vec![PageId(1)];
    let evicted = evict_over_target(&mut residents, &retain, 2).unwrap();
    assert_eq!(evicted, vec![PageId(2), PageId(7)]);
    assert_eq!(residents, vec![recency(4, 9), recency(1, 1)]);

    let mut at_target = vec![recency(4, 9)];
    assert_eq!(evict_over_target(&mut at_target, &retain, 1), Ok(vec![]));
    assert_eq!(at_target, vec![recency(4, 9)]);
}

#[test]
fn eviction_fails_when_only_retained_pages_are_left_over_target() {
    let mut residents = vec![recency(4, 9), recency(1, 1), recency(2, 5)];
    let retain = vec![PageId(1), PageId(2)];
    assert_eq!(
        evict_over_target(&mut residents, &retain, 1),
        Err(ScheduleError::NoFreeSlot)
    );
    assert_eq!(residents, vec![recency(1, 1), recency(2, 5)]);
}
