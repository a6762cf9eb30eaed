//! Admission of the rank-indexed projection resources: the two projected
//! planes, the projection dispatch and the contributor group offsets.

use vstd::prelude::*;

use crate::gpu::limits::DeviceLimits;
use crate::gpu::scan::{
    Dispatch2d, PROJECT_WORKGROUP_SIZE, WORD_BYTES, div_ceil, div_ceil_u32,
    dispatch_for_items_spec, lemma_div_ceil,
};
use crate::gpu_error::ResidentGpuError;

verus! {

/// Bytes each projected item takes in one plane.
pub const PROJECTED_PLANE_BYTES_PER_ITEM: u64 = 16;

/// The admitted resources of a projector of `capacity` items.
#[derive(Clone, Copy, Debug, PartialEq, Eq, Structural)]
pub struct ProjectedRankPlan {
    pub capacity: u32,
    /// Bytes of each of the two planes (center/source and axes).
    pub plane_bytes: u64,
    pub dispatch: Dispatch2d,
    /// Group offsets: one per projection workgroup, plus the total.
    pub contributor_group_offset_count: u32,
    pub contributor_group_offset_bytes: u64,
}

/// Bytes of one plane: one item's worth at least, so an empty projector
/// still binds a buffer.
pub open spec fn projected_plane_bytes(capacity: nat) -> nat {
    if capacity * 16 >= 16 {
        capacity * 16
    } else {
        16
    }
}

/// What admitting a projector of `capacity` items on a device with `limits`
/// gives: a plane over the binding limit is refused (the center/source plane
/// is checked first, and the axes plane is the same size), then a dispatch
/// the device cannot address, then a group-offset count past u32.
pub open spec fn projected_rank_plan_spec(capacity: u32, limits: DeviceLimits) -> Result<
    ProjectedRankPlan,
    ResidentGpuError,
> {
    let plane = projected_plane_bytes(capacity as nat);
    if plane > limits.spec_binding_limit() {
        Err(
            ResidentGpuError::BindingLimitExceeded {
                resource: "projected center/source plane",
                required_bytes: plane as u64,
                limit_bytes: limits.spec_binding_limit(),
            },
        )
    } else {
        match dispatch_for_items_spec(capacity as nat, limits.max_compute_workgroups_per_dimension as nat) {
            Err(e) => Err(e),
            Ok(dispatch) => {
                let groups = div_ceil(capacity as nat, PROJECT_WORKGROUP_SIZE as nat);
                if groups + 1 > u32::MAX {
                    Err(ResidentGpuError::AddressSpaceExceeded)
                } else {
                    Ok(
                        ProjectedRankPlan {
                            capacity,
                            plane_bytes: plane as u64,
                            dispatch,
                            contributor_group_offset_count: (groups + 1) as u32,
                            contributor_group_offset_bytes: ((groups + 1) * WORD_BYTES) as u64,
                        },
                    )
                }
            },
        }
    }
}

impl ProjectedRankPlan {
    /// Admits the resources of a projector of `capacity` items.
    pub fn accept(capacity: u32, limits: &DeviceLimits) -> (r: Result<
        ProjectedRankPlan,
        ResidentGpuError,
    >)
        ensures
            r == projected_rank_plan_spec(capacity, *limits),
    {
        let plane_bytes: u64 = capacity as u64 * PROJECTED_PLANE_BYTES_PER_ITEM;
        let required: u64 = if plane_bytes >= PROJECTED_PLANE_BYTES_PER_ITEM {
            plane_bytes
        } else {
            PROJECTED_PLANE_BYTES_PER_ITEM
        };
        let binding_limit = limits.binding_limit();
        if required > binding_limit {
            return Err(
                ResidentGpuError::BindingLimitExceeded {
                    resource: "projected center/source plane",
                    required_bytes: required,
                    limit_bytes: binding_limit,
                },
            );
        }
        let dispatch = match Dispatch2d::for_items(
            capacity,
            limits.max_compute_workgroups_per_dimension,
        ) {
            Ok(d) => d,
            Err(e) => {
                return Err(e);
            },
        };
        let groups = div_ceil_u32(capacity, PROJECT_WORKGROUP_SIZE);
        proof {
            lemma_div_ceil(capacity as nat, PROJECT_WORKGROUP_SIZE as nat);
        }
        let count = match groups.checked_add(1) {
            Some(count) => count,
            None => {
                return Err(ResidentGpuError::AddressSpaceExceeded);
            },
        };
        Ok(
            ProjectedRankPlan {
                capacity,
                plane_bytes: required,
                dispatch,
                contributor_group_offset_count: count,
                contributor_group_offset_bytes: count as u64 * WORD_BYTES,
            },
        )
    }
}

} // verus!
