//! Ticket namespaces and readback decoding of the non-blocking order
//! measurement rings.

use vstd::prelude::*;

verus! {

/// Slots of one measurement ring.
pub const RING_SLOTS: usize = 8;

/// Timestamp queries of one GPU order sample.
pub const QUERY_COUNT: u32 = 4;

/// Bytes of the resolved timestamp queries.
pub const QUERY_BYTES: u64 = 32;

/// Readback offset of the candidate-visible count.
pub const CANDIDATE_VISIBLE_OFFSET: u64 = 32;

/// Readback offset of the contributor count.
pub const CONTRIBUTOR_OFFSET: u64 = 36;

/// Readback offset of the drawn count.
pub const DRAWN_OFFSET: u64 = 40;

/// Bytes of one readback buffer.
pub const READBACK_BYTES: u64 = 48;

/// Largest integer a JavaScript number holds exactly: `2^53 - 1`.
pub const MAX_JAVASCRIPT_SAFE_INTEGER: u64 = 0x1f_ffff_ffff_ffff;

/// First ticket of the GPU order namespace (odd tickets).
pub const FIRST_GPU_TICKET: u64 = 1;

/// First ticket of the CPU order namespace (even tickets).
pub const FIRST_CPU_TICKET: u64 = 2;

/// Last order ticket: order receipts own `[0, 2^51)`; producer receipts own
/// `[2^51, 2^52)` and projected-draw receipts `[2^52, 2^53)`.
pub const LAST_ORDER_TICKET: u64 = 0x7_ffff_ffff_ffff;

/// Counts of the instances of one frame.
#[derive(Debug, Clone, Copy, Default, PartialEq, Eq, Structural)]
pub struct FrameInstanceCounts {
    pub candidate_visible: u32,
    pub contributor: u32,
    pub drawn: u32,
    pub exact_contributor_compaction: bool,
}

/// Result of an optional telemetry reservation.
#[derive(Debug, Clone, Copy, PartialEq, Eq, Structural)]
pub enum TelemetrySubmission {
    NotRequested,
    Issued(u64),
    RingBusy,
    SurfaceUnavailable,
    /// GPU ordering is being prepared without publishing a drawable; no
    /// measurement identity is exposed.
    GpuOrderPreparationPending,
}

/// The ticket after `current` in the namespace that starts at `first`: two
/// further, wrapping to `first` past [`LAST_ORDER_TICKET`].
pub open spec fn next_namespaced_ticket_spec(current: u64, first: u64) -> u64 {
    if current + 2 <= LAST_ORDER_TICKET {
        (current + 2) as u64
    } else {
        first
    }
}

pub fn next_namespaced_ticket(current: u64, first: u64) -> (r: u64)
    ensures
        r == next_namespaced_ticket_spec(current, first),
{
    match current.checked_add(2) {
        Some(next) => if next <= LAST_ORDER_TICKET {
            next
        } else {
            first
        },
        None => first,
    }
}

/// Tickets of a namespace keep its parity and stay exact as JavaScript
/// numbers: from a ticket of the namespace started at `first`, the next one
/// has the same parity and is at most [`LAST_ORDER_TICKET`].
pub proof fn lemma_ticket_namespace(current: u64, first: u64)
    requires
        current % 2 == first % 2,
        1 <= first <= LAST_ORDER_TICKET,
    ensures
        next_namespaced_ticket_spec(current, first) % 2 == first % 2,
        1 <= next_namespaced_ticket_spec(current, first) <= LAST_ORDER_TICKET,
        next_namespaced_ticket_spec(current, first) <= MAX_JAVASCRIPT_SAFE_INTEGER,
        current + 2 <= LAST_ORDER_TICKET ==> next_namespaced_ticket_spec(current, first) == current
            + 2,
{
}

/// Little-endian value of `bytes`.
pub open spec fn le_value(bytes: Seq<u8>) -> nat
    decreases bytes.len(),
{
    if bytes.len() == 0 {
        0
    } else {
        (bytes[0] + 256 * le_value(bytes.drop_first())) as nat
    }
}

/// `256^n`.
pub open spec fn pow256(n: nat) -> nat
    decreases n,
{
    if n == 0 {
        1
    } else {
        256 * pow256((n - 1) as nat)
    }
}

/// Little-endian `u64` of exactly eight bytes.
pub fn read_u64(bytes: &[u8]) -> (r: u64)
    requires
        bytes@.len() == 8,
    ensures
        r == le_value(bytes@),
{
    let mut value: u64 = 0;
    let mut index: usize = 8;
    while index > 0
        invariant
            index <= 8,
            bytes@.len() == 8,
            value == le_value(bytes@.subrange(index as int, 8)),
            value < pow256((8 - index) as nat),
        decreases index,
    {
        index -= 1;
        let ghost tail = bytes@.subrange(index as int, 8);
        proof {
            assert(tail.drop_first() =~= bytes@.subrange(index + 1, 8));
            assert(pow256((8 - index) as nat) == 256 * pow256((8 - index - 1) as nat));
            assert(value * 256 + bytes[index as int] < pow256((8 - index) as nat)) by (nonlinear_arith)
                requires
                    value < pow256((8 - index - 1) as nat),
                    pow256((8 - index) as nat) == 256 * pow256((8 - index - 1) as nat),
                    bytes[index as int] <= 255,
            ;
            assert(pow256((8 - index) as nat) <= 256 * 72057594037927936) by {
                assert(pow256(8) == 256 * 72057594037927936) by {
                    reveal_with_fuel(pow256, 9);
                }
                if index == 0 {
                } else {
                    lemma_pow256_monotone((8 - index) as nat, 8);
                }
            }
        }
        value = value * 256 + bytes[index] as u64;
    }
    proof {
        assert(bytes@.subrange(0, 8) =~= bytes@);
    }
    value
}

proof fn lemma_pow256_monotone(a: nat, b: nat)
    requires
        a <= b,
    ensures
        pow256(a) <= pow256(b),
    decreases b,
{
    if a < b {
        lemma_pow256_monotone(a, (b - 1) as nat);
    }
}

/// Little-endian `u32` of exactly four bytes.
pub fn read_u32(bytes: &[u8]) -> (r: u32)
    requires
        bytes@.len() == 4,
    ensures
        r == le_value(bytes@),
{
    let mut value: u32 = 0;
    let mut index: usize = 4;
    while index > 0
        invariant
            index <= 4,
            bytes@.len() == 4,
            value == le_value(bytes@.subrange(index as int, 4)),
            value < pow256((4 - index) as nat),
        decreases index,
    {
        index -= 1;
        let ghost tail = bytes@.subrange(index as int, 4);
        proof {
            assert(tail.drop_first() =~= bytes@.subrange(index + 1, 4));
            assert(pow256((4 - index) as nat) == 256 * pow256((4 - index - 1) as nat));
            assert(value * 256 + bytes[index as int] < pow256((4 - index) as nat)) by (nonlinear_arith)
                requires
                    value < pow256((4 - index - 1) as nat),
                    pow256((4 - index) as nat) == 256 * pow256((4 - index - 1) as nat),
                    bytes[index as int] <= 255,
            ;
            assert(pow256((4 - index) as nat) <= 4294967296) by {
                assert(pow256(4) == 4294967296) by {
                    reveal_with_fuel(pow256, 5);
                }
                lemma_pow256_monotone((4 - index) as nat, 4);
            }
        }
        value = value * 256 + bytes[index] as u32;
    }
    proof {
        assert(bytes@.subrange(0, 4) =~= bytes@);
    }
    value
}

} // verus!
