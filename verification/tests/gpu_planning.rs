use gsplat_render_wgpu::gpu::color::{
    dispatch_2d, resident_color_dispatch, COLOR_BIND_GROUP_LAYOUT_LABEL, COLOR_ENTRY_POINT,
    COLOR_PARAMS_LABEL, COLOR_PASS_LABEL, COLOR_PIPELINE_LABEL, COLOR_PIPELINE_LAYOUT_LABEL,
    COLOR_SHADER_LABEL, COLOR_STORAGE_BINDINGS, COLOR_WORKGROUP_SIZE,
};
use gsplat_render_wgpu::gpu::limits::DeviceLimits;
use gsplat_render_wgpu::gpu::params::{external_radix_pass_params, full32_pass_params, scan_params};
use gsplat_render_wgpu::gpu::project::ProjectedRankPlan;
use gsplat_render_wgpu::gpu::radix::ExternalPrefixRadixPlan;
use gsplat_render_wgpu::renderer::{
    check_output_dimensions, offscreen_device_limits, replace_surface_sorted_indices,
    RendererError,
};
use gsplat_render_wgpu::gpu::radix::{
    ExternalPrefixRadixBytePlan, ExternalPrefixRadixProfile, StableFull32RadixKind,
    EXTERNAL_RADIX_PASSES,
    EXTERNAL_RADIX_TILE_SIZE,
};
use gsplat_render_wgpu::gpu::scan::{scan_level_counts, scan_sum_plan, Dispatch2d};
use gsplat_render_wgpu::ResidentGpuError;

fn device_limits(limits: &wgpu::Limits) -> DeviceLimits {
    DeviceLimits {
        max_texture_dimension_2d: limits.max_texture_dimension_2d,
        max_storage_buffers_per_shader_stage: limits.max_storage_buffers_per_shader_stage,
        max_storage_buffer_binding_size: limits.max_storage_buffer_binding_size,
        max_buffer_size: limits.max_buffer_size,
        min_uniform_buffer_offset_alignment: limits.min_uniform_buffer_offset_alignment,
        max_compute_workgroup_storage_size: limits.max_compute_workgroup_storage_size,
        max_compute_invocations_per_workgroup: limits.max_compute_invocations_per_workgroup,
        max_compute_workgroup_size_x: limits.max_compute_workgroup_size_x,
        max_compute_workgroups_per_dimension: limits.max_compute_workgroups_per_dimension,
    }
}

#[test]
fn color_labels_remain_compatible() {
    assert_eq!(
        [
            COLOR_PARAMS_LABEL,
            COLOR_BIND_GROUP_LAYOUT_LABEL,
            COLOR_SHADER_LABEL,
            COLOR_PIPELINE_LAYOUT_LABEL,
            COLOR_PIPELINE_LABEL,
            COLOR_PASS_LABEL,
        ],
        [
            "gsplat-resident-color-params",
            "gsplat-resident-color-bgl",
            "gsplat-resident-color-shader",
            "gsplat-resident-color-pipeline-layout",
            "gsplat-resident-color-pipeline",
            "gsplat-resident-color-resolve-pass",
        ]
    );
}

#[test]
fn color_entry_point_and_workgroup_size() {
    assert_eq!(COLOR_ENTRY_POINT, "main");
    assert_eq!(COLOR_WORKGROUP_SIZE, 128);
    assert_eq!(COLOR_STORAGE_BINDINGS, 8);
}

#[test]
fn dispatch_flattens_across_two_dimensions() {
    assert_eq!(dispatch_2d(0, 7).unwrap(), (1, 1));
    assert_eq!(dispatch_2d(7, 7).unwrap(), (7, 1));
    assert_eq!(dispatch_2d(8, 7).unwrap(), (7, 2));
    assert_eq!(dispatch_2d(49, 7).unwrap(), (7, 7));
    assert!(matches!(
        dispatch_2d(50, 7),
        Err(ResidentGpuError::DispatchLimitExceeded)
    ));
}

#[test]
fn color_dispatch_covers_every_splat_and_skips_empty_scenes() {
    let plan = resident_color_dispatch(1000, 3, 65_535).unwrap();
    assert_eq!((plan.len, plan.sh_degree), (1000, 3));
    assert_eq!((plan.groups_x, plan.groups_y), (8, 1));
    assert!(plan.encodes_pass);
    let empty = resident_color_dispatch(0, 0, 65_535).unwrap();
    assert_eq!((empty.groups_x, empty.groups_y), (1, 1));
    assert!(!empty.encodes_pass);
    assert_eq!(
        resident_color_dispatch(128 * 10, 0, 3),
        Err(ResidentGpuError::DispatchLimitExceeded)
    );
}

#[test]
fn dispatch_for_items_and_workgroups_cover_their_input() {
    let by_groups = Dispatch2d::for_workgroups(70_000, 65_535).unwrap();
    assert_eq!((by_groups.x, by_groups.y), (65_535, 2));
    let by_items = Dispatch2d::for_items(1_000, 65_535).unwrap();
    assert_eq!((by_items.x, by_items.y), (8, 1));
    assert!(Dispatch2d::for_workgroups(50, 7).is_err());
}

#[test]
fn scan_plan_counts_every_level() {
    assert_eq!(scan_sum_plan(1).unwrap(), (4, 4, 1));
    assert_eq!(scan_level_counts(1), vec![(1, 1)]);
    let levels = scan_level_counts(513);
    assert_eq!(levels, vec![(513, 2), (2, 1)]);
}

#[test]
fn radix_profiles_reject_empty_unaligned_or_overflowing_bit_ranges() {
    assert!(ExternalPrefixRadixProfile::new(0, 0).validate().is_err());
    assert!(ExternalPrefixRadixProfile::new(3, 5).validate().is_err());
    assert!(ExternalPrefixRadixProfile::new(16, 5).validate().is_err());
    assert_eq!(
        ExternalPrefixRadixProfile::new(12, 5).validate(),
        Ok(ExternalPrefixRadixProfile::candidate_stable20()),
    );
}

#[test]
fn radix_profile_error_names_the_violated_range() {
    assert_eq!(
        ExternalPrefixRadixProfile::new(0, 9).validate(),
        Err(ResidentGpuError::GpuOrderInitialization(
            "external-prefix radix profile must cover a non-empty nibble-aligned u32 range"
                .to_owned()
        ))
    );
    let exact = ExternalPrefixRadixProfile::exact_full32();
    assert_eq!(exact.validate(), Ok(exact));
    assert_eq!(exact.shift_for_pass(7), 28);
    assert!(exact.final_is_a());
    assert!(!ExternalPrefixRadixProfile::candidate_stable20().final_is_a());
}

#[test]
fn radix_byte_plan_matches_the_exact_capacity_formula() {
    let wgpu_limits = wgpu::Limits::downlevel_defaults();
    let limits = device_limits(&wgpu_limits);
    let capacity = 4_099_u32;
    let groups = capacity.div_ceil(EXTERNAL_RADIX_TILE_SIZE);
    let plan = ExternalPrefixRadixBytePlan::for_capacity(capacity, &limits).expect("plan");
    assert_eq!(plan.key_ping_pong, 8 * u64::from(capacity));
    assert_eq!(plan.source_id_ping_pong, 8 * u64::from(capacity));
    assert_eq!(plan.radix_prefix, 64 * u64::from(groups));
    assert_eq!(plan.control, 32);
    assert_eq!(
        plan.pass_params,
        u64::from(EXTERNAL_RADIX_PASSES)
            * u64::from(wgpu_limits.min_uniform_buffer_offset_alignment.max(16)),
    );
    assert_eq!(
        plan.total_static,
        plan.key_ping_pong
            + plan.source_id_ping_pong
            + plan.radix_prefix
            + plan.scan_sums
            + plan.scan_params
            + plan.pass_params
            + plan.control,
    );

    let candidate_plan = ExternalPrefixRadixBytePlan::for_capacity_with_profile(
        capacity,
        &limits,
        ExternalPrefixRadixProfile::candidate_stable20(),
    )
    .expect("candidate plan");
    assert_eq!(
        candidate_plan.pass_params,
        5 * u64::from(wgpu_limits.min_uniform_buffer_offset_alignment.max(16)),
    );
    assert_eq!(
        plan.total_static - candidate_plan.total_static,
        3 * u64::from(wgpu_limits.min_uniform_buffer_offset_alignment.max(16)),
    );
}

#[test]
fn external_prefix_radix_byte_plan_matches_the_exact_capacity_formula() {
    let wgpu_limits = wgpu::Limits::downlevel_defaults();
    let limits = device_limits(&wgpu_limits);
    let capacity = 4_099_u32;
    let groups = capacity.div_ceil(EXTERNAL_RADIX_TILE_SIZE);
    let plan = ExternalPrefixRadixBytePlan::for_capacity(capacity, &limits).expect("plan");
    assert_eq!(plan.key_ping_pong, 8 * u64::from(capacity));
    assert_eq!(plan.source_id_ping_pong, 8 * u64::from(capacity));
    assert_eq!(plan.radix_prefix, 64 * u64::from(groups));
    assert_eq!(plan.control, 32);
    assert_eq!(
        plan.pass_params,
        u64::from(EXTERNAL_RADIX_PASSES)
            * u64::from(wgpu_limits.min_uniform_buffer_offset_alignment.max(16)),
    );
    assert_eq!(
        plan.total_static,
        plan.key_ping_pong
            + plan.source_id_ping_pong
            + plan.radix_prefix
            + plan.scan_sums
            + plan.scan_params
            + plan.pass_params
            + plan.control,
    );
}

#[test]
fn byte_plan_of_an_empty_capacity_keeps_one_word_per_plane() {
    let limits = device_limits(&wgpu::Limits::downlevel_defaults());
    let plan = ExternalPrefixRadixBytePlan::for_capacity(0, &limits).expect("plan");
    assert_eq!(plan.key_ping_pong, 8);
    assert_eq!(plan.source_id_ping_pong, 8);
    assert_eq!(plan.radix_prefix, 64);
}

#[test]
fn full32_kinds_pick_digit_width_by_path() {
    let direct = StableFull32RadixKind::Direct;
    assert_eq!((direct.radix(), direct.passes(), direct.shift()), (16, 8, 4));
    assert!(!direct.uses_resident_radix8());
    let visible = StableFull32RadixKind::ResidentVisible;
    assert_eq!((visible.radix(), visible.passes(), visible.shift()), (256, 4, 8));
    assert!(visible.uses_visible_control());
    assert!(!StableFull32RadixKind::Resident.uses_visible_control());
}

fn small_limits() -> DeviceLimits {
    let mut limits = device_limits(&wgpu::Limits::downlevel_defaults());
    limits.max_storage_buffer_binding_size = 1 << 20;
    limits.max_buffer_size = 1 << 24;
    limits.max_compute_workgroups_per_dimension = 4;
    limits
}

#[test]
fn projected_rank_plan_admits_planes_dispatch_and_group_offsets() {
    let limits = small_limits();
    let empty = ProjectedRankPlan::accept(0, &limits).unwrap();
    assert_eq!(empty.plane_bytes, 16);
    assert_eq!(empty.dispatch, Dispatch2d { x: 1, y: 1 });
    assert_eq!(empty.contributor_group_offset_count, 1);
    assert_eq!(empty.contributor_group_offset_bytes, 4);

    let plan = ProjectedRankPlan::accept(1000, &limits).unwrap();
    assert_eq!(plan.capacity, 1000);
    assert_eq!(plan.plane_bytes, 16_000);
    assert_eq!(plan.dispatch, Dispatch2d { x: 4, y: 2 });
    assert_eq!(plan.contributor_group_offset_count, 9);
    assert_eq!(plan.contributor_group_offset_bytes, 36);
}

#[test]
fn projected_rank_plan_refuses_oversized_planes_then_dispatches() {
    let limits = small_limits();
    assert_eq!(
        ProjectedRankPlan::accept(65_537, &limits),
        Err(ResidentGpuError::BindingLimitExceeded {
            resource: "projected center/source plane",
            required_bytes: 1_048_592,
            limit_bytes: 1 << 20,
        })
    );
    assert!(ProjectedRankPlan::accept(65_536, &limits).is_err());
    assert_eq!(
        ProjectedRankPlan::accept(2049, &limits),
        Err(ResidentGpuError::DispatchLimitExceeded)
    );
    assert!(ProjectedRankPlan::accept(2048, &limits).is_ok());
}

#[test]
fn output_dimensions_need_both_sides_within_the_texture_limit() {
    let mut limits = small_limits();
    limits.max_texture_dimension_2d = 2048;
    assert_eq!(check_output_dimensions(0, 10, &limits), Err(RendererError::InvalidConfig));
    assert_eq!(check_output_dimensions(10, 0, &limits), Err(RendererError::InvalidConfig));
    assert_eq!(check_output_dimensions(2048, 2048, &limits), Ok(()));
    assert_eq!(
        check_output_dimensions(100, 2049, &limits),
        Err(RendererError::GpuDimensionsUnsupported {
            width: 100,
            height: 2049,
            max_dimension: 2048,
        })
    );
}

#[test]
fn sorted_indices_are_replaced_only_when_every_index_is_in_the_scene() {
    let mut order = vec![2, 1, 0];
    assert_eq!(
        replace_surface_sorted_indices(&mut order, None, vec![0]),
        Err(RendererError::SceneNotLoaded)
    );
    assert_eq!(order, vec![2, 1, 0]);
    assert_eq!(
        replace_surface_sorted_indices(&mut order, Some(3), vec![0, 3]),
        Err(RendererError::InvalidScene)
    );
    assert_eq!(order, vec![2, 1, 0]);
    assert_eq!(
        replace_surface_sorted_indices(&mut order, Some(3), vec![1, 2, 0]),
        Ok(())
    );
    assert_eq!(order, vec![1, 2, 0]);
}

#[test]
fn offscreen_limits_reject_unsupported_dimensions_before_device_creation() {
    let adapter_limits = device_limits(&wgpu::Limits::downlevel_defaults());

    let err = offscreen_device_limits(4096, 2160, &adapter_limits).unwrap_err();

    assert!(matches!(
        err,
        RendererError::GpuDimensionsUnsupported {
            width: 4096,
            height: 2160,
            max_dimension: 2048,
        }
    ));
}

#[test]
fn offscreen_limits_preserve_adapter_texture_dimension_for_later_resident_scenes() {
    let mut adapter_limits = wgpu::Limits::downlevel_defaults();
    adapter_limits.max_texture_dimension_2d = 8192;

    let requested = offscreen_device_limits(4096, 2160, &device_limits(&adapter_limits)).unwrap();

    assert_eq!(requested.max_texture_dimension_2d, 8192);
    let downlevel = device_limits(&wgpu::Limits::downlevel_defaults());
    assert_eq!(
        requested,
        DeviceLimits {
            max_texture_dimension_2d: 8192,
            ..downlevel
        }
    );
    assert_eq!(
        offscreen_device_limits(0, 2160, &device_limits(&adapter_limits)),
        Err(RendererError::InvalidConfig)
    );
}

#[test]
fn radix_pass_parameters_are_written_at_uniform_stride_offsets() {
    let limits = device_limits(&wgpu::Limits::default());
    let plan = ExternalPrefixRadixPlan::accept(
        3000,
        65_535,
        &limits,
        ExternalPrefixRadixProfile::candidate_stable20(),
    )
    .unwrap();
    let image = external_radix_pass_params(&plan, &limits);
    assert_eq!(image.len(), 5 * 256);
    assert_eq!(&image[0..16], &[12, 0, 0, 0, 0xB8, 0x0B, 0, 0, 3, 0, 0, 0, 0, 0, 0, 0]);
    assert_eq!(&image[256..260], &[16, 0, 0, 0]);
    assert_eq!(&image[1024..1028], &[28, 0, 0, 0]);
    assert!(image[16..256].iter().all(|&b| b == 0));

    let control = plan.initial_control().to_bytes();
    assert_eq!(control.len(), 32);
    assert_eq!(&control[8..20], &[0, 0, 0, 0, 1, 0, 0, 0, 1, 0, 0, 0]);
    assert_eq!(&control[20..24], &[0xFF, 0xFF, 0, 0]);
    assert_eq!(&control[24..28], &[0xB8, 0x0B, 0, 0]);
}

#[test]
fn full32_and_scan_parameters_follow_passes_and_levels() {
    let mut limits = device_limits(&wgpu::Limits::default());
    limits.min_uniform_buffer_offset_alignment = 4;
    let image = full32_pass_params(StableFull32RadixKind::Resident, 5000, &limits);
    assert_eq!(image.len(), 4 * 16);
    assert_eq!(&image[48..64], &[24, 0, 0, 0, 0x88, 0x13, 0, 0, 5, 0, 0, 0, 0, 0, 0, 0]);
    let direct = full32_pass_params(StableFull32RadixKind::Direct, 0, &limits);
    assert_eq!(direct.len(), 8 * 16);
    assert_eq!(&direct[112..124], &[28, 0, 0, 0, 0, 0, 0, 0, 1, 0, 0, 0]);

    let levels = scan_level_counts(1000);
    let scan = scan_params(1000, &limits);
    assert_eq!(scan.len(), levels.len() * 16);
    assert_eq!(&scan[0..8], &[0xE8, 0x03, 0, 0, 0, 0, 0, 0]);
}
