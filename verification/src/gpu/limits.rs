//! The device limits that resource planning reads.

use vstd::prelude::*;

verus! {

/// The device limits that GPU resource planning reads, as plain values.
#[derive(Clone, Copy, Debug, PartialEq, Eq, Structural)]
pub struct DeviceLimits {
    pub max_texture_dimension_2d: u32,
    pub max_storage_buffers_per_shader_stage: u32,
    pub max_storage_buffer_binding_size: u64,
    pub max_buffer_size: u64,
    pub min_uniform_buffer_offset_alignment: u32,
    pub max_compute_workgroup_storage_size: u32,
    pub max_compute_invocations_per_workgroup: u32,
    pub max_compute_workgroup_size_x: u32,
    pub max_compute_workgroups_per_dimension: u32,
}

impl DeviceLimits {
    /// Stride of one dynamic uniform slot: the offset alignment, at least 16.
    pub open spec fn spec_uniform_stride(self) -> u32 {
        if self.min_uniform_buffer_offset_alignment >= 16 {
            self.min_uniform_buffer_offset_alignment
        } else {
            16
        }
    }

    pub fn uniform_stride(&self) -> (r: u32)
        ensures
            r == self.spec_uniform_stride(),
    {
        if self.min_uniform_buffer_offset_alignment >= 16 {
            self.min_uniform_buffer_offset_alignment
        } else {
            16
        }
    }

    /// Bytes one storage binding can address: the smaller of the binding and
    /// buffer size limits.
    pub open spec fn spec_binding_limit(self) -> u64 {
        if self.max_storage_buffer_binding_size <= self.max_buffer_size {
            self.max_storage_buffer_binding_size
        } else {
            self.max_buffer_size
        }
    }

    pub fn binding_limit(&self) -> (r: u64)
        ensures
            r == self.spec_binding_limit(),
    {
        if self.max_storage_buffer_binding_size <= self.max_buffer_size {
            self.max_storage_buffer_binding_size
        } else {
            self.max_buffer_size
        }
    }
}

} // verus!
