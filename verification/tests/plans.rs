use gsplat_render_wgpu::evidence::plan::{
    PlanComparisonKey, PlanCountSemantics, PlanSampleCounts, PlanSampleTicket,
};
use gsplat_render_wgpu::plans::{FrameIdentity, OrderLane, PlanId};

fn cpu_sample(frame: FrameIdentity, visible: Option<u32>, draw: Option<u32>) -> PlanSampleCounts {
    let key = PlanComparisonKey::new(FrameIdentity::new(2, 7, 3, 4, 5), 100, 3);
    PlanSampleCounts {
        ticket: PlanSampleTicket::new(12, 1, key, PlanId::CpuPostSort),
        frame,
        order_lane: OrderLane::Cpu,
        order_generation: 6,
        visible_count: visible,
        contributor_count: None,
        draw_count: draw,
        count_semantics: PlanCountSemantics::DirectDrawEqualsVisible,
    }
}

#[test]
fn comparison_key_ignores_camera_but_not_generations() {
    let key = PlanComparisonKey::new(FrameIdentity::new(2, 7, 3, 4, 5), 100, 3);
    assert!(key.accepts_frame(FrameIdentity::new(2, 99, 3, 4, 5)));
    assert!(!key.accepts_frame(FrameIdentity::new(2, 7, 3, 4, 6)));
    assert!(!key.accepts_frame(FrameIdentity::new(1, 7, 3, 4, 5)));
    assert_eq!((key.source_count(), key.sh_degree()), (100, 3));
}

#[test]
fn cpu_plan_sample_is_comparable_only_with_matching_direct_counts() {
    let moved = FrameIdentity::new(2, 8, 3, 4, 5);
    assert!(cpu_sample(moved, Some(40), Some(40)).is_structurally_comparable());
    assert!(!cpu_sample(moved, Some(40), Some(39)).is_structurally_comparable());
    assert!(!cpu_sample(moved, Some(101), Some(101)).is_structurally_comparable());
    assert!(!cpu_sample(moved, None, None).is_structurally_comparable());
    assert!(!cpu_sample(FrameIdentity::new(9, 8, 3, 4, 5), Some(1), Some(1))
        .is_structurally_comparable());
}

#[test]
fn gpu_plan_sample_leaves_counts_to_the_gpu() {
    let frame = FrameIdentity::new(2, 7, 3, 4, 5);
    let key = PlanComparisonKey::new(frame, 100, 0);
    let mut sample = PlanSampleCounts {
        ticket: PlanSampleTicket::new(3, 1, key, PlanId::GpuPreproject),
        frame,
        order_lane: OrderLane::Gpu,
        order_generation: 6,
        visible_count: None,
        contributor_count: None,
        draw_count: None,
        count_semantics: PlanCountSemantics::IndirectDrawEqualsContributor,
    };
    assert!(sample.is_structurally_comparable());
    sample.draw_count = Some(4);
    assert!(!sample.is_structurally_comparable());
    sample.draw_count = None;
    sample.count_semantics = PlanCountSemantics::IndirectDrawEqualsVisible;
    assert!(!sample.is_structurally_comparable());
    sample.ticket = PlanSampleTicket::new(0, 1, key, PlanId::GpuPostSort);
    assert!(!sample.is_structurally_comparable());
    assert_eq!(sample.ticket.plan(), PlanId::GpuPostSort);
}
