//! Planning of the stable radix sort: external-prefix radix profiles, the
//! bytes of their resources, the limits those resources must fit, and the
//! control block of one sorted prefix.

use vstd::prelude::*;

use crate::gpu::limits::DeviceLimits;
use crate::gpu::scan::{
    Dispatch2d, SCAN_ITEMS_PER_GROUP, SCAN_WORKGROUP_SIZE, WORD_BYTES, div_ceil, div_ceil_u32,
    dispatch_for_workgroups_spec, lemma_div_ceil, lemma_scan_sum_plan_bounds, scan_level_counts,
    scan_levels_spec, scan_sum_plan, scan_sum_plan_spec,
};
use crate::gpu_error::ResidentGpuError;

verus! {

pub const EXTERNAL_RADIX_WORKGROUP_SIZE: u32 = 128;

pub const EXTERNAL_RADIX_ITEMS_PER_THREAD: u32 = 8;

/// Items one radix workgroup sorts.
pub const EXTERNAL_RADIX_TILE_SIZE: u32 = 1024;

/// Digits of one 4-bit pass.
pub const EXTERNAL_RADIX: u32 = 16;

pub const EXTERNAL_RADIX_PASSES: u32 = 8;

/// Storage bindings of the external-prefix radix entry point.
pub const EXTERNAL_RADIX_STORAGE_BINDINGS: u32 = 6;

pub const FULL32_WORKGROUP_SIZE: u32 = 128;

pub const FULL32_ITEMS_PER_THREAD: u32 = 8;

pub const FULL32_TILE_SIZE: u32 = 1024;

pub const FULL32_DIRECT_RADIX: u32 = 16;

pub const FULL32_DIRECT_PASSES: u32 = 8;

pub const FULL32_RESIDENT_RADIX: u32 = 256;

pub const FULL32_RESIDENT_PASSES: u32 = 4;

pub const FULL32_RESIDENT_STORAGE_BINDINGS: u32 = 5;

/// Workgroup storage of the Resident passes: 256 histogram counts, 1024 digit
/// masks and 256 digit priors, four bytes each.
pub const FULL32_RESIDENT_WORKGROUP_STORAGE_BYTES: u32 = 6144;

pub const FULL32_SCAN_WORKGROUP_SIZE: u32 = 256;

/// Workgroup storage of one scan workgroup: 512 words.
pub const FULL32_SCAN_WORKGROUP_STORAGE_BYTES: u32 = 2048;

/// Key layout of a stable full32 radix sort: 4-bit digits for the direct
/// path, 8-bit digits for the resident paths (with or without a visible-count
/// control).
#[derive(Clone, Copy, Debug, PartialEq, Eq, Structural)]
pub enum StableFull32RadixKind {
    Direct,
    Resident,
    ResidentVisible,
}

impl StableFull32RadixKind {
    pub open spec fn spec_uses_resident_radix8(self) -> bool {
        self != StableFull32RadixKind::Direct
    }

    pub fn uses_resident_radix8(self) -> (r: bool)
        ensures
            r == self.spec_uses_resident_radix8(),
    {
        match self {
            StableFull32RadixKind::Direct => false,
            _ => true,
        }
    }

    pub fn uses_visible_control(self) -> (r: bool)
        ensures
            r == (self == StableFull32RadixKind::ResidentVisible),
    {
        match self {
            StableFull32RadixKind::ResidentVisible => true,
            _ => false,
        }
    }

    /// Digits per pass.
    pub fn radix(self) -> (r: u32)
        ensures
            r == if self.spec_uses_resident_radix8() {
                FULL32_RESIDENT_RADIX
            } else {
                FULL32_DIRECT_RADIX
            },
    {
        if self.uses_resident_radix8() {
            FULL32_RESIDENT_RADIX
        } else {
            FULL32_DIRECT_RADIX
        }
    }

    /// Passes over the 32 key bits.
    pub fn passes(self) -> (r: u32)
        ensures
            r == if self.spec_uses_resident_radix8() {
                FULL32_RESIDENT_PASSES
            } else {
                FULL32_DIRECT_PASSES
            },
    {
        if self.uses_resident_radix8() {
            FULL32_RESIDENT_PASSES
        } else {
            FULL32_DIRECT_PASSES
        }
    }

    /// Key bits consumed per pass.
    pub fn shift(self) -> (r: u32)
        ensures
            r == if self.spec_uses_resident_radix8() {
                8u32
            } else {
                4u32
            },
    {
        if self.uses_resident_radix8() {
            8
        } else {
            4
        }
    }
}

/// Every full32 kind sorts all 32 key bits, with one digit per value of a
/// pass's bits.
pub proof fn lemma_full32_kinds_cover_the_key(kind: StableFull32RadixKind)
    ensures
        ({
            let shift: u32 = if kind.spec_uses_resident_radix8() {
                8
            } else {
                4
            };
            let passes = if kind.spec_uses_resident_radix8() {
                FULL32_RESIDENT_PASSES
            } else {
                FULL32_DIRECT_PASSES
            };
            let radix = if kind.spec_uses_resident_radix8() {
                FULL32_RESIDENT_RADIX
            } else {
                FULL32_DIRECT_RADIX
            };
            &&& passes * shift == 32
            &&& radix == (1u32 << shift)
        }),
{
    assert(1u32 << 8u32 == 256) by (bit_vector);
    assert(1u32 << 4u32 == 16) by (bit_vector);
}

/// Bytes of one [`ExternalPrefixControl`] block.
pub const EXTERNAL_PREFIX_CONTROL_BYTES: u64 = 32;

/// A nibble-aligned range of the 32 key bits sorted by consecutive 4-bit
/// passes, starting at `first_shift`.
#[derive(Clone, Copy, Debug, PartialEq, Eq, Structural)]
pub struct ExternalPrefixRadixProfile {
    pub first_shift: u32,
    pub pass_count: u32,
}

impl ExternalPrefixRadixProfile {
    /// All 32 bits in eight passes.
    pub open spec fn spec_exact_full32() -> Self {
        Self { first_shift: 0, pass_count: EXTERNAL_RADIX_PASSES }
    }

    /// The upper 20 bits in five passes.
    pub open spec fn spec_candidate_stable20() -> Self {
        Self { first_shift: 12, pass_count: 5 }
    }

    pub fn exact_full32() -> (r: Self)
        ensures
            r == Self::spec_exact_full32(),
    {
        Self { first_shift: 0, pass_count: EXTERNAL_RADIX_PASSES }
    }

    pub fn candidate_stable20() -> (r: Self)
        ensures
            r == Self::spec_candidate_stable20(),
    {
        Self { first_shift: 12, pass_count: 5 }
    }

    pub open spec fn spec_first_shift(self) -> u32 {
        self.first_shift
    }

    pub open spec fn spec_pass_count(self) -> u32 {
        self.pass_count
    }

    /// The profile covers a non-empty, nibble-aligned range inside 32 bits.
    pub open spec fn is_valid(self) -> bool {
        &&& self.pass_count >= 1
        &&& self.first_shift % 4 == 0
        &&& self.first_shift + 4 * self.pass_count <= 32
    }

    pub fn new(first_shift: u32, pass_count: u32) -> (r: Self)
        ensures
            r.spec_first_shift() == first_shift,
            r.spec_pass_count() == pass_count,
    {
        Self { first_shift, pass_count }
    }

    pub fn pass_count(&self) -> (r: u32)
        ensures
            r == self.spec_pass_count(),
    {
        self.pass_count
    }

    /// Accepts exactly the valid profiles.
    pub fn validate(self) -> (r: Result<Self, ResidentGpuError>)
        ensures
            self.is_valid() ==> r == Ok::<Self, ResidentGpuError>(self),
            !self.is_valid() ==> (r matches Err(ResidentGpuError::GpuOrderInitialization(message))
                && message@ == "external-prefix radix profile must cover a non-empty nibble-aligned u32 range"@),
    {
        let covered_bits = match self.pass_count.checked_mul(4) {
            Some(bits) => self.first_shift.checked_add(bits),
            None => None,
        };
        let too_wide = match covered_bits {
            Some(bits) => bits > 32,
            None => true,
        };
        if self.pass_count == 0 || self.first_shift % 4 != 0 || too_wide {
            let message = "external-prefix radix profile must cover a non-empty nibble-aligned u32 range";
            proof {
                reveal_strlit("external-prefix radix profile must cover a non-empty nibble-aligned u32 range");
            }
            return Err(ResidentGpuError::GpuOrderInitialization(message.to_owned()));
        }
        Ok(self)
    }

    /// Bit shift of pass `pass`.
    pub fn shift_for_pass(self, pass: u32) -> (r: u32)
        requires
            self.first_shift + 4 * pass <= u32::MAX,
        ensures
            r == self.first_shift + 4 * pass,
    {
        self.first_shift + pass * 4
    }

    /// Whether the final pass leaves keys and IDs in the A buffers, which
    /// holds exactly for an even pass count.
    pub fn final_is_a(self) -> (r: bool)
        ensures
            r == (self.pass_count % 2 == 0),
    {
        self.pass_count % 2 == 0
    }
}

/// Workgroups of a full32 pass over `count` items (at least one).
pub fn full32_workgroup_count(count: u32) -> (r: u32)
    ensures
        r == (if count == 0 {
            1
        } else {
            div_ceil(count as nat, FULL32_TILE_SIZE as nat)
        }),
        r >= 1,
        r as int * FULL32_TILE_SIZE >= count,
{
    proof {
        lemma_div_ceil(count as nat, FULL32_TILE_SIZE as nat);
    }
    let groups = div_ceil_u32(count, FULL32_TILE_SIZE);
    if groups > 1 {
        groups
    } else {
        1
    }
}

/// The scan levels of a full32 prefix of `count` items.
pub fn full32_scan_level_counts(count: u32) -> (r: Vec<(u32, u32)>)
    requires
        count > 0,
    ensures
        r@.len() == scan_levels_spec(count as nat).len(),
        forall|i: int|
            0 <= i < r@.len() ==> r@[i].0 == scan_levels_spec(count as nat)[i].0 && r@[i].1
                == scan_levels_spec(count as nat)[i].1,
{
    scan_level_counts(count)
}

/// Control block written with one sorted prefix: `count` keys in
/// `active_group_count` tiles dispatched as `dispatch_x * dispatch_y`.
#[derive(Clone, Copy, Debug, PartialEq, Eq, Structural)]
pub struct ExternalPrefixControl {
    pub count: u32,
    pub active_group_count: u32,
    pub dispatch_x: u32,
    pub dispatch_y: u32,
    pub dispatch_z: u32,
    pub dispatch_limit: u32,
    pub capacity_count: u32,
    pub pad0: u32,
}

/// Bytes of every static resource of an external-prefix radix of a capacity.
#[derive(Clone, Copy, Debug, PartialEq, Eq, Structural)]
pub struct ExternalPrefixRadixBytePlan {
    pub key_ping_pong: u64,
    pub source_id_ping_pong: u64,
    pub radix_prefix: u64,
    pub scan_sums: u64,
    pub largest_scan_sum: u64,
    pub scan_params: u64,
    pub pass_params: u64,
    pub control: u64,
    pub total_static: u64,
}

/// Radix tiles a capacity needs (at least one).
pub open spec fn capacity_groups_spec(capacity: nat) -> nat {
    if capacity == 0 {
        1
    } else {
        div_ceil(capacity, EXTERNAL_RADIX_TILE_SIZE as nat)
    }
}

/// The byte plan of a capacity: two key and two source-ID planes of at least
/// one word, a 16-digit prefix per tile, the scan sums of that prefix, one
/// uniform slot per scan level and per pass, and the control block.
pub open spec fn byte_plan_spec(
    capacity: nat,
    limits: DeviceLimits,
    profile: ExternalPrefixRadixProfile,
) -> ExternalPrefixRadixBytePlan {
    let one_plane = if capacity == 0 {
        WORD_BYTES as nat
    } else {
        (capacity * WORD_BYTES) as nat
    };
    let prefix_count = (capacity_groups_spec(capacity) * EXTERNAL_RADIX) as nat;
    let scan = scan_sum_plan_spec(prefix_count);
    let stride = limits.spec_uniform_stride() as nat;
    let key = 2 * one_plane;
    let radix_prefix = prefix_count * WORD_BYTES;
    let scan_params = scan.2 * stride;
    let pass_params = profile.spec_pass_count() * stride;
    ExternalPrefixRadixBytePlan {
        key_ping_pong: key as u64,
        source_id_ping_pong: key as u64,
        radix_prefix: radix_prefix as u64,
        scan_sums: scan.0 as u64,
        largest_scan_sum: scan.1 as u64,
        scan_params: scan_params as u64,
        pass_params: pass_params as u64,
        control: EXTERNAL_PREFIX_CONTROL_BYTES,
        total_static: (key + key + radix_prefix + scan.0 + scan_params + pass_params
            + EXTERNAL_PREFIX_CONTROL_BYTES) as u64,
    }
}

proof fn lemma_prefix_count_bounds(capacity: nat)
    requires
        capacity <= u32::MAX,
    ensures
        1 <= capacity_groups_spec(capacity) <= 4194304,
        capacity_groups_spec(capacity) * EXTERNAL_RADIX <= 67108864,
{
    lemma_div_ceil(capacity, EXTERNAL_RADIX_TILE_SIZE as nat);
}

impl ExternalPrefixRadixBytePlan {
    /// The byte plan of the exact full32 profile.
    pub fn for_capacity(capacity: u32, limits: &DeviceLimits) -> (r: Result<
        Self,
        ResidentGpuError,
    >)
        ensures
            r == Ok::<Self, ResidentGpuError>(
                byte_plan_spec(capacity as nat, *limits, ExternalPrefixRadixProfile::spec_exact_full32()),
            ),
    {
        Self::for_capacity_with_profile(capacity, limits, ExternalPrefixRadixProfile::exact_full32())
    }

    /// The byte plan of `profile`; fails exactly when the profile is invalid.
    pub fn for_capacity_with_profile(
        capacity: u32,
        limits: &DeviceLimits,
        profile: ExternalPrefixRadixProfile,
    ) -> (r: Result<Self, ResidentGpuError>)
        ensures
            profile.is_valid() ==> r == Ok::<Self, ResidentGpuError>(
                byte_plan_spec(capacity as nat, *limits, profile),
            ),
            !profile.is_valid() ==> (r matches Err(ResidentGpuError::GpuOrderInitialization(message))
                && message@ == "external-prefix radix profile must cover a non-empty nibble-aligned u32 range"@),
    {
        let profile = match profile.validate() {
            Ok(profile) => profile,
            Err(error) => return Err(error),
        };
        proof {
            lemma_prefix_count_bounds(capacity as nat);
        }
        let one_plane: u64 = if capacity == 0 {
            WORD_BYTES
        } else {
            capacity as u64 * WORD_BYTES
        };
        let key_ping_pong = one_plane * 2;
        let source_id_ping_pong = key_ping_pong;
        let ceil = div_ceil_u32(capacity, EXTERNAL_RADIX_TILE_SIZE);
        let capacity_groups = if ceil > 1 {
            ceil
        } else {
            1
        };
        let prefix_count = capacity_groups * EXTERNAL_RADIX;
        let radix_prefix = prefix_count as u64 * WORD_BYTES;
        proof {
            lemma_scan_sum_plan_bounds(prefix_count as nat);
        }
        let (scan_sums, largest_scan_sum, scan_levels) = match scan_sum_plan(prefix_count) {
            Ok(plan) => plan,
            Err(error) => return Err(error),
        };
        let uniform_stride = limits.uniform_stride();
        proof {
            assert(scan_levels <= prefix_count);
            assert(scan_levels as u64 * uniform_stride as u64 <= 67108864 * 4294967295u64) by (nonlinear_arith)
                requires
                    scan_levels <= 67108864,
                    uniform_stride <= 4294967295u32,
            {
            }
            assert(profile.pass_count as u64 * uniform_stride as u64 <= 8 * 4294967295u64) by (nonlinear_arith)
                requires
                    profile.pass_count <= 8,
                    uniform_stride <= 4294967295u32,
            {
            }
        }
        let scan_params = scan_levels as u64 * uniform_stride as u64;
        let pass_params = profile.pass_count() as u64 * uniform_stride as u64;
        let control = EXTERNAL_PREFIX_CONTROL_BYTES;
        let total_static = key_ping_pong + source_id_ping_pong + radix_prefix + scan_sums
            + scan_params + pass_params + control;
        Ok(
            Self {
                key_ping_pong,
                source_id_ping_pong,
                radix_prefix,
                scan_sums,
                largest_scan_sum,
                scan_params,
                pass_params,
                control,
                total_static,
            },
        )
    }
}

/// First resource of the plan, in checking order, whose bytes exceed its
/// limit: binding-sized resources against the binding limit, parameter
/// buffers against the buffer size limit.
pub open spec fn first_oversized_resource(
    plan: ExternalPrefixRadixBytePlan,
    limits: DeviceLimits,
) -> Option<(&'static str, u64, u64)> {
    let binding = limits.spec_binding_limit();
    if plan.key_ping_pong / 2 > binding {
        Some(("external radix key plane", (plan.key_ping_pong / 2) as u64, binding))
    } else if plan.source_id_ping_pong / 2 > binding {
        Some(("external radix source-ID plane", (plan.source_id_ping_pong / 2) as u64, binding))
    } else if plan.radix_prefix > binding {
        Some(("external radix prefix", plan.radix_prefix, binding))
    } else if plan.largest_scan_sum > binding {
        Some(("external radix scan sums", plan.largest_scan_sum, binding))
    } else if plan.control > binding {
        Some(("external radix control", plan.control, binding))
    } else if plan.scan_params > limits.max_buffer_size {
        Some(("external radix scan params", plan.scan_params, limits.max_buffer_size))
    } else if plan.pass_params > limits.max_buffer_size {
        Some(("external radix pass params", plan.pass_params, limits.max_buffer_size))
    } else {
        None
    }
}

/// The device runs the portable scan: 256 lanes and 512 words of workgroup
/// storage.
pub open spec fn meets_scan_floor(limits: DeviceLimits) -> bool {
    &&& limits.max_compute_invocations_per_workgroup >= SCAN_WORKGROUP_SIZE
    &&& limits.max_compute_workgroup_size_x >= SCAN_WORKGROUP_SIZE
    &&& limits.max_compute_workgroup_storage_size >= SCAN_ITEMS_PER_GROUP * 4
}

impl ExternalPrefixRadixBytePlan {
    /// Admits the plan on a device: enough storage bindings, the portable
    /// scan floor, and every resource within its limit.
    pub fn validate_limits(self, limits: &DeviceLimits) -> (r: Result<Self, ResidentGpuError>)
        ensures
            limits.max_storage_buffers_per_shader_stage < EXTERNAL_RADIX_STORAGE_BINDINGS ==> r
                == Err::<Self, ResidentGpuError>(
                ResidentGpuError::StorageBindingCountUnsupported(
                    limits.max_storage_buffers_per_shader_stage,
                ),
            ),
            limits.max_storage_buffers_per_shader_stage >= EXTERNAL_RADIX_STORAGE_BINDINGS
                && !meets_scan_floor(*limits) ==> (r matches Err(
                ResidentGpuError::GpuOrderInitialization(message),
            ) && message@
                == "external-prefix radix requires the portable 256-lane/512-word scan floor"@),
            limits.max_storage_buffers_per_shader_stage >= EXTERNAL_RADIX_STORAGE_BINDINGS
                && meets_scan_floor(*limits) ==> r == match first_oversized_resource(self, *limits) {
                Some(found) => Err::<Self, ResidentGpuError>(
                    ResidentGpuError::BindingLimitExceeded {
                        resource: found.0,
                        required_bytes: found.1,
                        limit_bytes: found.2,
                    },
                ),
                None => Ok(self),
            },
    {
        if limits.max_storage_buffers_per_shader_stage < EXTERNAL_RADIX_STORAGE_BINDINGS {
            return Err(
                ResidentGpuError::StorageBindingCountUnsupported(
                    limits.max_storage_buffers_per_shader_stage,
                ),
            );
        }
        if limits.max_compute_invocations_per_workgroup < SCAN_WORKGROUP_SIZE
            || limits.max_compute_workgroup_size_x < SCAN_WORKGROUP_SIZE
            || limits.max_compute_workgroup_storage_size < SCAN_ITEMS_PER_GROUP * 4 {
            let message = "external-prefix radix requires the portable 256-lane/512-word scan floor";
            proof {
                reveal_strlit("external-prefix radix requires the portable 256-lane/512-word scan floor");
            }
            return Err(ResidentGpuError::GpuOrderInitialization(message.to_owned()));
        }
        let binding_limit = limits.binding_limit();
        let bound: [(&'static str, u64); 5] = [
            ("external radix key plane", self.key_ping_pong / 2),
            ("external radix source-ID plane", self.source_id_ping_pong / 2),
            ("external radix prefix", self.radix_prefix),
            ("external radix scan sums", self.largest_scan_sum),
            ("external radix control", self.control),
        ];
        let mut index: usize = 0;
        while index < 5
            invariant
                index <= 5,
                limits.max_storage_buffers_per_shader_stage >= EXTERNAL_RADIX_STORAGE_BINDINGS,
                meets_scan_floor(*limits),
                binding_limit == limits.spec_binding_limit(),
                bound@ == seq![
                    ("external radix key plane", self.key_ping_pong / 2),
                    ("external radix source-ID plane", self.source_id_ping_pong / 2),
                    ("external radix prefix", self.radix_prefix),
                    ("external radix scan sums", self.largest_scan_sum),
                    ("external radix control", self.control),
                ],
                forall|j: int| 0 <= j < index ==> bound@[j].1 <= binding_limit,
            decreases 5 - index,
        {
            let (resource, bytes) = bound[index];
            if bytes > binding_limit {
                return Err(
                    ResidentGpuError::BindingLimitExceeded {
                        resource,
                        required_bytes: bytes,
                        limit_bytes: binding_limit,
                    },
                );
            }
            index += 1;
        }
        proof {
            assert(bound@[0].1 <= binding_limit);
            assert(bound@[1].1 <= binding_limit);
            assert(bound@[2].1 <= binding_limit);
            assert(bound@[3].1 <= binding_limit);
            assert(bound@[4].1 <= binding_limit);
        }
        if self.scan_params > limits.max_buffer_size {
            return Err(
                ResidentGpuError::BindingLimitExceeded {
                    resource: "external radix scan params",
                    required_bytes: self.scan_params,
                    limit_bytes: limits.max_buffer_size,
                },
            );
        }
        if self.pass_params > limits.max_buffer_size {
            return Err(
                ResidentGpuError::BindingLimitExceeded {
                    resource: "external radix pass params",
                    required_bytes: self.pass_params,
                    limit_bytes: limits.max_buffer_size,
                },
            );
        }
        Ok(self)
    }
}

/// An external-prefix radix accepted on a device: its profile, capacity, tile
/// count, dispatch limit and resource bytes.
#[derive(Clone, Copy, Debug, PartialEq, Eq, Structural)]
pub struct ExternalPrefixRadixPlan {
    pub profile: ExternalPrefixRadixProfile,
    pub capacity: u32,
    pub capacity_groups: u32,
    pub dispatch_limit: u32,
    pub byte_plan: ExternalPrefixRadixBytePlan,
}

/// The acceptance decision once profile, dispatch limit, storage bindings and
/// scan floor have passed: resource sizes, then the capacity's dispatch.
pub open spec fn accepted_resources_spec(
    capacity: u32,
    dispatch_limit: u32,
    limits: DeviceLimits,
    profile: ExternalPrefixRadixProfile,
) -> Result<ExternalPrefixRadixPlan, ResidentGpuError> {
    let plan = byte_plan_spec(capacity as nat, limits, profile);
    match first_oversized_resource(plan, limits) {
        Some(found) => Err(
            ResidentGpuError::BindingLimitExceeded {
                resource: found.0,
                required_bytes: found.1,
                limit_bytes: found.2,
            },
        ),
        None => match dispatch_for_workgroups_spec(
            capacity_groups_spec(capacity as nat),
            dispatch_limit as nat,
        ) {
            Err(error) => Err(error),
            Ok(_) => Ok(
                ExternalPrefixRadixPlan {
                    profile,
                    capacity,
                    capacity_groups: capacity_groups_spec(capacity as nat) as u32,
                    dispatch_limit,
                    byte_plan: plan,
                },
            ),
        },
    }
}

/// Control block of a prefix of `count` keys sorted by `plan`.
pub open spec fn prefix_control_spec(plan: ExternalPrefixRadixPlan, count: nat) -> Result<
    ExternalPrefixControl,
    ResidentGpuError,
> {
    let active = div_ceil(count, EXTERNAL_RADIX_TILE_SIZE as nat);
    match dispatch_for_workgroups_spec(active, plan.dispatch_limit as nat) {
        Err(error) => Err(error),
        Ok(dispatch) => Ok(
            ExternalPrefixControl {
                count: count as u32,
                active_group_count: active as u32,
                dispatch_x: dispatch.x,
                dispatch_y: dispatch.y,
                dispatch_z: 1,
                dispatch_limit: plan.dispatch_limit,
                capacity_count: plan.capacity,
                pad0: 0,
            },
        ),
    }
}

impl ExternalPrefixRadixPlan {
    /// Admits a radix of `capacity` keys dispatched within `dispatch_limit`
    /// workgroups per dimension. Checks, in order: the profile, the dispatch
    /// limit against the device, the storage bindings and scan floor, every
    /// resource size, and the dispatch of a full capacity.
    pub fn accept(
        capacity: u32,
        dispatch_limit: u32,
        limits: &DeviceLimits,
        profile: ExternalPrefixRadixProfile,
    ) -> (r: Result<Self, ResidentGpuError>)
        ensures
            !profile.is_valid() ==> (r matches Err(ResidentGpuError::GpuOrderInitialization(message))
                && message@ == "external-prefix radix profile must cover a non-empty nibble-aligned u32 range"@),
            profile.is_valid() && (dispatch_limit == 0 || dispatch_limit
                > limits.max_compute_workgroups_per_dimension) ==> r == Err::<
                Self,
                ResidentGpuError,
            >(ResidentGpuError::DispatchLimitExceeded),
            profile.is_valid() && 1 <= dispatch_limit <= limits.max_compute_workgroups_per_dimension
                ==> {
                &&& limits.max_storage_buffers_per_shader_stage < EXTERNAL_RADIX_STORAGE_BINDINGS
                    ==> r == Err::<Self, ResidentGpuError>(
                    ResidentGpuError::StorageBindingCountUnsupported(
                        limits.max_storage_buffers_per_shader_stage,
                    ),
                )
                &&& limits.max_storage_buffers_per_shader_stage >= EXTERNAL_RADIX_STORAGE_BINDINGS
                    && !meets_scan_floor(*limits) ==> (r matches Err(
                    ResidentGpuError::GpuOrderInitialization(message),
                ) && message@
                    == "external-prefix radix requires the portable 256-lane/512-word scan floor"@)
                &&& limits.max_storage_buffers_per_shader_stage >= EXTERNAL_RADIX_STORAGE_BINDINGS
                    && meets_scan_floor(*limits) ==> r == accepted_resources_spec(
                    capacity,
                    dispatch_limit,
                    *limits,
                    profile,
                )
            },
    {
        let profile = match profile.validate() {
            Ok(profile) => profile,
            Err(error) => return Err(error),
        };
        if dispatch_limit == 0 || dispatch_limit > limits.max_compute_workgroups_per_dimension {
            return Err(ResidentGpuError::DispatchLimitExceeded);
        }
        let byte_plan = match ExternalPrefixRadixBytePlan::for_capacity_with_profile(
            capacity,
            limits,
            profile,
        ) {
            Ok(plan) => plan,
            Err(error) => return Err(error),
        };
        let byte_plan = match byte_plan.validate_limits(limits) {
            Ok(plan) => plan,
            Err(error) => return Err(error),
        };
        proof {
            lemma_prefix_count_bounds(capacity as nat);
        }
        let ceil = div_ceil_u32(capacity, EXTERNAL_RADIX_TILE_SIZE);
        let capacity_groups = if ceil > 1 {
            ceil
        } else {
            1
        };
        match Dispatch2d::for_workgroups(capacity_groups, dispatch_limit) {
            Ok(_) => {},
            Err(error) => return Err(error),
        }
        Ok(Self { profile, capacity, capacity_groups, dispatch_limit, byte_plan })
    }

    /// The control block for a prefix of `key_count` keys with
    /// `source_id_count` source IDs: both counts must agree and fit the
    /// capacity.
    pub fn prefix_control(&self, key_count: usize, source_id_count: usize) -> (r: Result<
        ExternalPrefixControl,
        ResidentGpuError,
    >)
        ensures
            (key_count != source_id_count || key_count > self.capacity) ==> r == Err::<
                ExternalPrefixControl,
                ResidentGpuError,
            >(ResidentGpuError::OrderCapacityExceeded),
            (key_count == source_id_count && key_count <= self.capacity) ==> r
                == prefix_control_spec(*self, key_count as nat),
    {
        if key_count != source_id_count || key_count > self.capacity as usize {
            return Err(ResidentGpuError::OrderCapacityExceeded);
        }
        let count = key_count as u32;
        let active_group_count = div_ceil_u32(count, EXTERNAL_RADIX_TILE_SIZE);
        let dispatch = match Dispatch2d::for_workgroups(active_group_count, self.dispatch_limit) {
            Ok(dispatch) => dispatch,
            Err(error) => return Err(error),
        };
        Ok(
            ExternalPrefixControl {
                count,
                active_group_count,
                dispatch_x: dispatch.x,
                dispatch_y: dispatch.y,
                dispatch_z: 1,
                dispatch_limit: self.dispatch_limit,
                capacity_count: self.capacity,
                pad0: 0,
            },
        )
    }
}

/// The byte plan of a capacity follows the capacity formula: eight bytes per
/// key in each ping-pong pair, 64 prefix bytes per tile, a 32-byte control
/// block, one uniform slot per pass, and a total that is the exact sum of its
/// parts.
pub proof fn lemma_byte_plan_formula(
    capacity: u32,
    limits: DeviceLimits,
    profile: ExternalPrefixRadixProfile,
)
    requires
        profile.is_valid(),
    ensures
        ({
            let plan = byte_plan_spec(capacity as nat, limits, profile);
            &&& capacity > 0 ==> plan.key_ping_pong == 8 * capacity
            &&& plan.source_id_ping_pong == plan.key_ping_pong
            &&& plan.radix_prefix == 64 * capacity_groups_spec(capacity as nat)
            &&& plan.control == 32
            &&& plan.pass_params == profile.pass_count * limits.spec_uniform_stride()
            &&& plan.total_static == plan.key_ping_pong + plan.source_id_ping_pong
                + plan.radix_prefix + plan.scan_sums + plan.scan_params + plan.pass_params
                + plan.control
        }),
{
    lemma_prefix_count_bounds(capacity as nat);
    let prefix_count = (capacity_groups_spec(capacity as nat) * EXTERNAL_RADIX) as nat;
    lemma_scan_sum_plan_bounds(prefix_count);
    let stride = limits.spec_uniform_stride();
    let levels = scan_sum_plan_spec(prefix_count).2;
    assert(levels * stride <= 67108864 * 4294967295u64) by (nonlinear_arith)
        requires
            levels <= 67108864,
            stride <= 4294967295u32,
    {
    }
    assert(profile.pass_count * stride <= 8 * 4294967295u64) by (nonlinear_arith)
        requires
            profile.pass_count <= 8,
            stride <= 4294967295u32,
    {
    }
}

/// Two valid profiles of one capacity differ only in their pass parameters,
/// so their totals differ by one uniform slot per pass.
pub proof fn lemma_profile_changes_only_pass_params(
    capacity: u32,
    limits: DeviceLimits,
    a: ExternalPrefixRadixProfile,
    b: ExternalPrefixRadixProfile,
)
    requires
        a.is_valid(),
        b.is_valid(),
    ensures
        ({
            let pa = byte_plan_spec(capacity as nat, limits, a);
            let pb = byte_plan_spec(capacity as nat, limits, b);
            &&& pa.key_ping_pong == pb.key_ping_pong
            &&& pa.radix_prefix == pb.radix_prefix
            &&& pa.scan_sums == pb.scan_sums
            &&& pa.scan_params == pb.scan_params
            &&& pa.total_static - pb.total_static == (a.pass_count - b.pass_count)
                * limits.spec_uniform_stride()
        }),
{
    lemma_byte_plan_formula(capacity, limits, a);
    lemma_byte_plan_formula(capacity, limits, b);
    let stride = limits.spec_uniform_stride();
    assert(a.pass_count * stride - b.pass_count * stride == (a.pass_count - b.pass_count)
        * stride) by (nonlinear_arith);
}

} // verus!
