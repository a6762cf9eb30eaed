//! Dispatch planning and fixed identities of the Resident color kernel.

use vstd::prelude::*;

use crate::gpu::scan::{div_ceil, div_ceil_usize, lemma_div_ceil};
use crate::gpu_error::ResidentGpuError;

verus! {

pub const COLOR_WORKGROUP_SIZE: u32 = 128;

pub const COLOR_PARAMS_LABEL: &'static str = "gsplat-resident-color-params";

pub const COLOR_BIND_GROUP_LAYOUT_LABEL: &'static str = "gsplat-resident-color-bgl";

pub const COLOR_SHADER_LABEL: &'static str = "gsplat-resident-color-shader";

pub const COLOR_PIPELINE_LAYOUT_LABEL: &'static str = "gsplat-resident-color-pipeline-layout";

pub const COLOR_PIPELINE_LABEL: &'static str = "gsplat-resident-color-pipeline";

pub const COLOR_PASS_LABEL: &'static str = "gsplat-resident-color-resolve-pass";

pub const COLOR_ENTRY_POINT: &'static str = "main";

/// Storage bindings of the color kernel; the last one is written.
pub const COLOR_STORAGE_BINDINGS: u32 = 8;

/// Splits `groups` workgroups over two dimensions of at most `max(limit, 1)`
/// each; no groups still dispatches one.
pub open spec fn dispatch_2d_spec(groups: nat, limit: nat) -> Result<(u32, u32), ResidentGpuError> {
    if groups == 0 {
        Ok((1, 1))
    } else {
        let l = if limit >= 1 {
            limit
        } else {
            1
        };
        let x = if groups <= l {
            groups
        } else {
            l
        };
        let y = div_ceil(groups, x);
        if y > l {
            Err(ResidentGpuError::DispatchLimitExceeded)
        } else {
            Ok((x as u32, y as u32))
        }
    }
}

pub fn dispatch_2d(groups: usize, limit: u32) -> (r: Result<(u32, u32), ResidentGpuError>)
    ensures
        r == dispatch_2d_spec(groups as nat, limit as nat),
        r matches Ok(d) ==> d.0 as int * d.1 as int >= groups,
{
    if groups == 0 {
        return Ok((1, 1));
    }
    let limit: usize = if limit >= 1 {
        limit as usize
    } else {
        1
    };
    let x = if groups <= limit {
        groups
    } else {
        limit
    };
    let y = div_ceil_usize(groups, x);
    proof {
        lemma_div_ceil(groups as nat, x as nat);
        assert(x as int * y as int == y as int * x as int) by (nonlinear_arith);
    }
    if y > limit {
        return Err(ResidentGpuError::DispatchLimitExceeded);
    }
    Ok((x as u32, y as u32))
}

/// Parameters and dispatch of one color resolve over `len` splats.
#[derive(Clone, Copy, Debug, PartialEq, Eq, Structural)]
pub struct ResidentColorDispatch {
    pub len: u32,
    pub sh_degree: u32,
    pub groups_x: u32,
    pub groups_y: u32,
    /// Whether a compute pass is encoded at all.
    pub encodes_pass: bool,
}

/// Plans the color resolve of `splat_count` splats: the count must fit u32,
/// and the workgroups of 128 splats must fit the dispatch limit.
pub fn resident_color_dispatch(
    splat_count: usize,
    sh_degree: u32,
    max_workgroups_per_dimension: u32,
) -> (r: Result<ResidentColorDispatch, ResidentGpuError>)
    ensures
        splat_count > u32::MAX ==> r == Err::<ResidentColorDispatch, ResidentGpuError>(
            ResidentGpuError::AddressSpaceExceeded,
        ),
        splat_count <= u32::MAX ==> r == match dispatch_2d_spec(
            div_ceil(splat_count as nat, COLOR_WORKGROUP_SIZE as nat),
            max_workgroups_per_dimension as nat,
        ) {
            Err(error) => Err(error),
            Ok(groups) => Ok(
                ResidentColorDispatch {
                    len: splat_count as u32,
                    sh_degree,
                    groups_x: groups.0,
                    groups_y: groups.1,
                    encodes_pass: splat_count > 0,
                },
            ),
        },
{
    if splat_count > u32::MAX as usize {
        return Err(ResidentGpuError::AddressSpaceExceeded);
    }
    let len = splat_count as u32;
    let groups = div_ceil_usize(splat_count, COLOR_WORKGROUP_SIZE as usize);
    let (groups_x, groups_y) = match dispatch_2d(groups, max_workgroups_per_dimension) {
        Ok(d) => d,
        Err(error) => return Err(error),
    };
    Ok(ResidentColorDispatch { len, sh_degree, groups_x, groups_y, encodes_pass: splat_count > 0 })
}

} // verus!
