use gsplat_render_wgpu::gpu_telemetry::{FIRST_CPU_TICKET, FIRST_GPU_TICKET, RING_SLOTS};
use gsplat_render_wgpu::order_ring::{
    sort_by_ticket, CompletedSlot, OrderTelemetryRing, RingSlotState,
};
use gsplat_render_wgpu::SurfaceOrderMeasurementFailureReason;

/// Slot states as the device callbacks leave them.
struct Device {
    states: Vec<RingSlotState>,
    ready: Vec<bool>,
}

impl Device {
    fn new() -> Self {
        Self {
            states: vec![RingSlotState::Idle; RING_SLOTS],
            ready: vec![false; RING_SLOTS],
        }
    }

    fn apply_recycled(&mut self, slots: &[usize]) {
        for &slot in slots {
            self.states[slot] = RingSlotState::Idle;
        }
    }
}

fn begin(ring: &mut OrderTelemetryRing, device: &mut Device, camera: u64) -> (usize, u64) {
    let reservation = ring
        .begin_sample(&device.states, camera)
        .expect("fresh telemetry ring slot");
    device.states[reservation.slot] = RingSlotState::Encoding;
    device.ready[reservation.slot] = false;
    (reservation.slot, reservation.ticket)
}

#[test]
fn cpu_generation_invalidation_terminally_fails_an_issued_ticket_once() {
    let mut ring = OrderTelemetryRing::new(FIRST_CPU_TICKET);
    let mut device = Device::new();
    let (slot, ticket) = begin(&mut ring, &mut device, 19);

    let recycled = ring.invalidate_generation(&device.states);
    device.apply_recycled(&recycled);
    let first = ring.poll(&device.states, &device.ready);
    assert!(first.completed.is_empty());
    assert_eq!(first.failures.len(), 1);
    assert_eq!(first.failures[0].ticket, ticket);
    assert_eq!(first.failures[0].camera_revision, 19);
    assert_eq!(
        first.failures[0].reason,
        SurfaceOrderMeasurementFailureReason::GenerationInvalidated
    );

    let second = ring.poll(&device.states, &device.ready);
    assert!(second.completed.is_empty());
    assert!(second.failures.is_empty());

    // The invalidated ticket was still being encoded, so no callback could
    // recycle its slot: the invalidation did.
    assert_eq!(device.states[slot], RingSlotState::Idle);
    assert!(ring.begin_sample(&device.states, 20).is_some());
}

#[test]
fn issued_gpu_ticket_gets_exactly_one_readback_failure_terminal_receipt() {
    let mut ring = OrderTelemetryRing::new(FIRST_GPU_TICKET);
    let mut device = Device::new();
    let (slot, ticket) = begin(&mut ring, &mut device, 31);
    device.ready[slot] = true;
    device.states[slot] = RingSlotState::Error;

    let first = ring.poll(&device.states, &device.ready);
    device.apply_recycled(&first.recycled);
    assert!(first.completed.is_empty());
    assert_eq!(first.failures.len(), 1);
    assert_eq!(first.failures[0].ticket, ticket);
    assert_eq!(first.failures[0].camera_revision, 31);
    assert_eq!(
        first.failures[0].reason,
        SurfaceOrderMeasurementFailureReason::ReadbackMap
    );

    let second = ring.poll(&device.states, &device.ready);
    assert!(second.completed.is_empty());
    assert!(second.failures.is_empty());
}

#[test]
fn generation_invalidation_terminally_fails_every_outstanding_ticket_once() {
    let mut ring = OrderTelemetryRing::new(FIRST_GPU_TICKET);
    let mut device = Device::new();
    let (slot, ticket) = begin(&mut ring, &mut device, 37);

    let recycled = ring.invalidate_generation(&device.states);
    device.apply_recycled(&recycled);
    let first = ring.poll(&device.states, &device.ready);
    assert!(first.completed.is_empty());
    assert_eq!(first.failures.len(), 1);
    assert_eq!(first.failures[0].ticket, ticket);
    assert_eq!(
        first.failures[0].reason,
        SurfaceOrderMeasurementFailureReason::GenerationInvalidated
    );
    let second = ring.poll(&device.states, &device.ready);
    assert!(second.failures.is_empty());
    assert_eq!(device.states[slot], RingSlotState::Idle);
}

#[test]
fn mapped_sample_completes_once_and_only_in_its_generation() {
    let mut ring = OrderTelemetryRing::new(FIRST_GPU_TICKET);
    let mut device = Device::new();
    let (first_slot, first_ticket) = begin(&mut ring, &mut device, 1);
    let (second_slot, second_ticket) = begin(&mut ring, &mut device, 2);
    assert_eq!((first_slot, second_slot), (0, 1));
    assert_eq!((first_ticket, second_ticket), (1, 3));

    // The first sample maps but its completion time has not arrived yet.
    device.states[first_slot] = RingSlotState::Mapped;
    let waiting = ring.poll(&device.states, &device.ready);
    assert!(waiting.completed.is_empty());
    assert!(waiting.recycled.is_empty());

    device.ready[first_slot] = true;
    let done = ring.poll(&device.states, &device.ready);
    device.apply_recycled(&done.recycled);
    assert_eq!(
        done.completed,
        vec![CompletedSlot {
            ticket: first_ticket,
            slot: first_slot
        }]
    );
    assert_eq!(done.recycled, vec![first_slot]);

    // After an invalidation the second sample can only fail.
    ring.invalidate_generation(&device.states);
    device.states[second_slot] = RingSlotState::Mapped;
    device.ready[second_slot] = true;
    let late = ring.poll(&device.states, &device.ready);
    assert!(late.completed.is_empty());
    assert_eq!(late.failures.len(), 1);
    assert_eq!(late.failures[0].ticket, second_ticket);
    assert_eq!(late.recycled, vec![second_slot]);
}

#[test]
fn reservation_rotates_and_reports_a_busy_ring() {
    let mut ring = OrderTelemetryRing::new(FIRST_CPU_TICKET);
    let mut device = Device::new();
    let mut tickets = Vec::new();
    for camera in 0..RING_SLOTS as u64 {
        let (slot, ticket) = begin(&mut ring, &mut device, camera);
        assert_eq!(slot, camera as usize);
        tickets.push(ticket);
    }
    assert_eq!(tickets, vec![2, 4, 6, 8, 10, 12, 14, 16]);
    assert!(ring.begin_sample(&device.states, 99).is_none());
    device.states[3] = RingSlotState::Idle;
    let reservation = ring.begin_sample(&device.states, 100).unwrap();
    assert_eq!((reservation.slot, reservation.ticket), (3, 18));
    assert_eq!(ring.slot(3).camera_revision, 100);
}

#[test]
fn terminal_receipts_come_back_in_ticket_order() {
    let sorted = sort_by_ticket(vec![
        CompletedSlot { ticket: 9, slot: 0 },
        CompletedSlot { ticket: 3, slot: 1 },
        CompletedSlot { ticket: 5, slot: 2 },
    ]);
    assert_eq!(
        sorted.iter().map(|c| c.ticket).collect::<Vec<_>>(),
        vec![3, 5, 9]
    );
    assert!(sort_by_ticket(Vec::<CompletedSlot>::new()).is_empty());
}
