//! Checks the renderer makes on its configuration and on the orders it is
//! handed.

use crate::gpu::limits::DeviceLimits;
use vstd::prelude::*;

verus! {

/// Errors of renderer configuration and scene operations.
#[derive(Debug, Clone, Copy, PartialEq, Eq, Structural)]
pub enum RendererError {
    /// A zero-sized render target was requested.
    InvalidConfig,
    /// The render target exceeds what the device can address in 2D.
    GpuDimensionsUnsupported { width: u32, height: u32, max_dimension: u32 },
    /// No scene is loaded.
    SceneNotLoaded,
    /// The request names splats the scene does not have.
    InvalidScene,
    /// The device refused the requested limits.
    GpuDeviceCreation,
}

/// The limits `wgpu::Limits::downlevel_defaults()` gives, in the fields the
/// library models.
pub open spec fn downlevel_limits_spec() -> DeviceLimits {
    DeviceLimits {
        max_texture_dimension_2d: 2048,
        max_storage_buffers_per_shader_stage: 4,
        max_storage_buffer_binding_size: 0x800_0000,
        max_buffer_size: 0x1000_0000,
        min_uniform_buffer_offset_alignment: 256,
        max_compute_workgroup_storage_size: 16352,
        max_compute_invocations_per_workgroup: 256,
        max_compute_workgroup_size_x: 256,
        max_compute_workgroups_per_dimension: 65535,
    }
}

/// Calls `wgpu::Limits::downlevel_defaults()` and reads the fields the library
/// models. The contract claims the constants that wgpu-types writes there:
/// its own downlevel overrides (2D textures of 2048, four storage buffers per
/// stage, 16352 bytes of workgroup storage) over `Limits::defaults()` (128 MiB
/// storage bindings, 256 MiB buffers, 256-byte uniform alignment, 256
/// invocations and workgroup width, 65535 workgroups per dimension).
#[verifier::external_body]
fn downlevel_default_limits() -> (r: DeviceLimits)
    ensures
        r == downlevel_limits_spec(),
{
    let l = wgpu::Limits::downlevel_defaults();
    DeviceLimits {
        max_texture_dimension_2d: l.max_texture_dimension_2d,
        max_storage_buffers_per_shader_stage: l.max_storage_buffers_per_shader_stage,
        max_storage_buffer_binding_size: l.max_storage_buffer_binding_size,
        max_buffer_size: l.max_buffer_size,
        min_uniform_buffer_offset_alignment: l.min_uniform_buffer_offset_alignment,
        max_compute_workgroup_storage_size: l.max_compute_workgroup_storage_size,
        max_compute_invocations_per_workgroup: l.max_compute_invocations_per_workgroup,
        max_compute_workgroup_size_x: l.max_compute_workgroup_size_x,
        max_compute_workgroups_per_dimension: l.max_compute_workgroups_per_dimension,
    }
}

/// The limits to request for an offscreen renderer of `width` × `height` on
/// an adapter with `adapter` limits: the target is admitted first, then the
/// downlevel defaults are requested with the adapter's full 2D texture
/// dimension, so later resizes keep their headroom.
pub open spec fn offscreen_device_limits_spec(width: u32, height: u32, adapter: DeviceLimits) -> Result<
    DeviceLimits,
    RendererError,
> {
    match output_dimensions_spec(width, height, adapter) {
        Err(e) => Err(e),
        Ok(_) => Ok(
            DeviceLimits {
                max_texture_dimension_2d: adapter.max_texture_dimension_2d,
                ..downlevel_limits_spec()
            },
        ),
    }
}

/// Chooses the device limits of an offscreen renderer.
pub fn offscreen_device_limits(width: u32, height: u32, adapter: &DeviceLimits) -> (r: Result<
    DeviceLimits,
    RendererError,
>)
    ensures
        r == offscreen_device_limits_spec(width, height, *adapter),
        r matches Ok(l) ==> l.max_texture_dimension_2d == adapter.max_texture_dimension_2d,
        r is Ok <==> 0 < width <= adapter.max_texture_dimension_2d && 0 < height
            <= adapter.max_texture_dimension_2d,
        width > 0 && height > 0 && (width > adapter.max_texture_dimension_2d || height
            > adapter.max_texture_dimension_2d) ==> r == Err::<DeviceLimits, RendererError>(
            RendererError::GpuDimensionsUnsupported {
                width,
                height,
                max_dimension: adapter.max_texture_dimension_2d,
            },
        ),
{
    match check_output_dimensions(width, height, adapter) {
        Err(e) => Err(e),
        Ok(()) => {
            let defaults = downlevel_default_limits();
            Ok(
                DeviceLimits {
                    max_texture_dimension_2d: adapter.max_texture_dimension_2d,
                    ..defaults
                },
            )
        },
    }
}

/// What checking a `width` × `height` render target against a device with
/// `limits` gives.
pub open spec fn output_dimensions_spec(width: u32, height: u32, limits: DeviceLimits) -> Result<
    (),
    RendererError,
> {
    let max_dimension = limits.max_texture_dimension_2d;
    if width == 0 || height == 0 {
        Err(RendererError::InvalidConfig)
    } else if width > max_dimension || height > max_dimension {
        Err(RendererError::GpuDimensionsUnsupported { width, height, max_dimension })
    } else {
        Ok(())
    }
}

/// A render target is admitted exactly when both sides are non-zero and
/// neither exceeds the device's 2D texture dimension; a non-zero target with
/// either side over it is refused as unsupported, naming both sides and the
/// limit. Admission depends on the larger side alone, so swapping the sides
/// never changes whether a target fits.
pub proof fn lemma_target_fits_on_both_sides(width: u32, height: u32, limits: DeviceLimits)
    ensures
        output_dimensions_spec(width, height, limits) is Ok <==> 0 < width
            <= limits.max_texture_dimension_2d && 0 < height <= limits.max_texture_dimension_2d,
        width > 0 && height > 0 && (width > limits.max_texture_dimension_2d || height
            > limits.max_texture_dimension_2d) ==> output_dimensions_spec(width, height, limits)
            == Err::<(), RendererError>(
            RendererError::GpuDimensionsUnsupported {
                width,
                height,
                max_dimension: limits.max_texture_dimension_2d,
            },
        ),
        (output_dimensions_spec(width, height, limits) is Ok) == (output_dimensions_spec(
            height,
            width,
            limits,
        ) is Ok),
{
}

/// Admits a render target: both sides non-zero, and the larger side within
/// the device's 2D texture dimension.
pub fn check_output_dimensions(width: u32, height: u32, limits: &DeviceLimits) -> (r: Result<
    (),
    RendererError,
>)
    ensures
        r == output_dimensions_spec(width, height, *limits),
        r is Ok <==> 0 < width <= limits.max_texture_dimension_2d && 0 < height
            <= limits.max_texture_dimension_2d,
        width > 0 && height > 0 && (width > limits.max_texture_dimension_2d || height
            > limits.max_texture_dimension_2d) ==> r == Err::<(), RendererError>(
            RendererError::GpuDimensionsUnsupported {
                width,
                height,
                max_dimension: limits.max_texture_dimension_2d,
            },
        ),
        width == 0 || height == 0 ==> r == Err::<(), RendererError>(RendererError::InvalidConfig),
{
    let max_dimension = limits.max_texture_dimension_2d;
    if width == 0 || height == 0 {
        return Err(RendererError::InvalidConfig);
    }
    let requested = if width >= height {
        width
    } else {
        height
    };
    if requested > max_dimension {
        return Err(RendererError::GpuDimensionsUnsupported { width, height, max_dimension });
    }
    Ok(())
}

/// Every index names a splat of a scene of `scene_len` splats.
pub open spec fn indices_in_scene(indices: Seq<u32>, scene_len: nat) -> bool {
    forall|i: int| 0 <= i < indices.len() ==> (#[trigger] indices[i]) < scene_len
}

/// Replaces the sorted order of a surface with `indices`. Without a loaded
/// scene (`scene_len` is `None`) the scene is not loaded; an index past the
/// scene is an invalid scene. On either error the held order is unchanged.
pub fn replace_surface_sorted_indices(
    order: &mut Vec<u32>,
    scene_len: Option<usize>,
    indices: Vec<u32>,
) -> (r: Result<(), RendererError>)
    ensures
        r == match scene_len {
            None => Err(RendererError::SceneNotLoaded),
            Some(n) => if indices_in_scene(indices@, n as nat) {
                Ok(())
            } else {
                Err(RendererError::InvalidScene)
            },
        },
        r is Ok ==> final(order)@ == indices@,
        r is Err ==> final(order)@ == old(order)@,
{
    let n = match scene_len {
        Some(n) => n,
        None => {
            return Err(RendererError::SceneNotLoaded);
        },
    };
    let mut i: usize = 0;
    while i < indices.len()
        invariant
            i <= indices@.len(),
            scene_len == Some(n),
            forall|j: int| 0 <= j < i ==> (#[trigger] indices@[j]) < n,
        decreases indices@.len() - i,
    {
        if indices[i] as usize >= n {
            proof {
                assert(!indices_in_scene(indices@, n as nat)) by {
                    if indices_in_scene(indices@, n as nat) {
                        assert(indices@[i as int] < n);
                    }
                }
            }
            return Err(RendererError::InvalidScene);
        }
        i += 1;
    }
    *order = indices;
    Ok(())
}

} // verus!
