use gsplat_render_wgpu::evidence::submission::{
    SurfaceGpuProducerMeasurementSubmission, SurfaceGpuProducerMeasurementUnsampledReason,
    SurfaceOrderMeasurementSubmission, SurfaceOrderMeasurementUnsampledReason,
    SurfaceProjectedDrawMeasurementSubmission, SurfaceProjectedDrawMeasurementUnsampledReason,
};
use gsplat_render_wgpu::{
    SurfaceGpuOrderProducer, SurfaceOrderBackendUsed, SurfaceProjectedDrawExecution,
};

#[test]
fn submission_identities_remain_available_at_compatibility_paths() {
    let _: gsplat_render_wgpu::SurfaceOrderMeasurementSubmission =
        SurfaceOrderMeasurementSubmission::NotRequested;
    let _: gsplat_render_wgpu::evidence::submission::SurfaceOrderMeasurementSubmission =
        SurfaceOrderMeasurementSubmission::NotRequested;
    let _: gsplat_render_wgpu::SurfaceProjectedDrawMeasurementSubmission =
        SurfaceProjectedDrawMeasurementSubmission::NotRequested;
    let _: gsplat_render_wgpu::evidence::submission::SurfaceProjectedDrawMeasurementSubmission =
        SurfaceProjectedDrawMeasurementSubmission::NotRequested;
    let _: gsplat_render_wgpu::SurfaceGpuProducerMeasurementSubmission =
        SurfaceGpuProducerMeasurementSubmission::NotRequested;
    let _: gsplat_render_wgpu::evidence::submission::SurfaceGpuProducerMeasurementSubmission =
        SurfaceGpuProducerMeasurementSubmission::NotRequested;
}

#[test]
fn only_issued_submissions_carry_a_ticket() {
    let issued = SurfaceOrderMeasurementSubmission::Issued {
        backend: SurfaceOrderBackendUsed::Gpu,
        ticket: 41,
    };
    assert_eq!(issued.ticket(), Some(41));
    assert_eq!(issued.backend(), Some(SurfaceOrderBackendUsed::Gpu));
    let unsampled = SurfaceOrderMeasurementSubmission::Unsampled {
        backend: SurfaceOrderBackendUsed::Cpu,
        reason: SurfaceOrderMeasurementUnsampledReason::RingBusy,
    };
    assert_eq!(unsampled.ticket(), None);
    assert_eq!(unsampled.backend(), Some(SurfaceOrderBackendUsed::Cpu));
    assert_eq!(SurfaceOrderMeasurementSubmission::default().ticket(), None);
    assert_eq!(SurfaceOrderMeasurementSubmission::default().backend(), None);

    let projected = SurfaceProjectedDrawMeasurementSubmission::Issued {
        execution: SurfaceProjectedDrawExecution::Compact,
        ticket: 9,
    };
    assert_eq!(projected.ticket(), Some(9));
    let projected_unsampled = SurfaceProjectedDrawMeasurementSubmission::Unsampled {
        execution: SurfaceProjectedDrawExecution::Candidate,
        reason: SurfaceProjectedDrawMeasurementUnsampledReason::SurfaceUnavailable,
    };
    assert_eq!(projected_unsampled.ticket(), None);

    let producer = SurfaceGpuProducerMeasurementSubmission::Issued {
        producer: SurfaceGpuOrderProducer::Preproject,
        ticket: 11,
    };
    assert_eq!(producer.ticket(), Some(11));
    let producer_unsampled = SurfaceGpuProducerMeasurementSubmission::Unsampled {
        producer: SurfaceGpuOrderProducer::PostSort,
        reason: SurfaceGpuProducerMeasurementUnsampledReason::RingBusy,
    };
    assert_eq!(producer_unsampled.ticket(), None);
}
