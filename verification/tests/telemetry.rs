use gsplat_render_wgpu::gpu_telemetry::{
    next_namespaced_ticket, read_u32, read_u64, FIRST_CPU_TICKET, FIRST_GPU_TICKET,
    LAST_ORDER_TICKET, MAX_JAVASCRIPT_SAFE_INTEGER,
};

#[test]
fn backend_ticket_namespaces_stay_exact_in_javascript_numbers() {
    assert_eq!(next_namespaced_ticket(1, 1), 3);
    assert_eq!(next_namespaced_ticket(2, 2), 4);
    assert_eq!(next_namespaced_ticket(LAST_ORDER_TICKET, 1), 1);
    assert_eq!(next_namespaced_ticket(LAST_ORDER_TICKET - 1, 2), 2);
}

#[test]
fn ticket_namespaces_keep_their_parity_and_bound() {
    assert!(LAST_ORDER_TICKET <= MAX_JAVASCRIPT_SAFE_INTEGER);
    assert_eq!(LAST_ORDER_TICKET, (1_u64 << 51) - 1);
    let mut gpu = FIRST_GPU_TICKET;
    let mut cpu = FIRST_CPU_TICKET;
    for _ in 0..1000 {
        gpu = next_namespaced_ticket(gpu, FIRST_GPU_TICKET);
        cpu = next_namespaced_ticket(cpu, FIRST_CPU_TICKET);
        assert_eq!(gpu % 2, 1);
        assert_eq!(cpu % 2, 0);
    }
    assert_eq!(next_namespaced_ticket(u64::MAX, FIRST_GPU_TICKET), FIRST_GPU_TICKET);
}

#[test]
fn readback_words_are_little_endian() {
    assert_eq!(read_u32(&[0x78, 0x56, 0x34, 0x12]), 0x1234_5678);
    assert_eq!(
        read_u64(&[1, 0, 0, 0, 0, 0, 0, 0x80]),
        0x8000_0000_0000_0001
    );
    assert_eq!(read_u64(&[0xff; 8]), u64::MAX);
}
