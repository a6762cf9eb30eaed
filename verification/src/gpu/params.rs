//! Byte images of the uniform parameter buffers and control blocks the
//! radix and scan kernels read: one four-word block per pass or level, each at
//! a uniform-stride offset, words in little-endian order.

use vstd::prelude::*;

use crate::gpu::limits::DeviceLimits;
use crate::gpu::radix::{
    ExternalPrefixControl, ExternalPrefixRadixPlan, StableFull32RadixKind, full32_workgroup_count,
};
use crate::gpu::scan::{div_ceil, scan_level_counts, scan_levels_spec};

verus! {

/// One uniform parameter block: four 32-bit words.
pub type ParamBlock = (u32, u32, u32, u32);

/// The four little-endian bytes of `w`.
pub open spec fn le_bytes(w: u32) -> Seq<u8> {
    seq![
        (w % 256) as u8,
        ((w / 256) % 256) as u8,
        ((w / 65536) % 256) as u8,
        ((w / 16777216) % 256) as u8,
    ]
}

/// The sixteen bytes of a block.
pub open spec fn block_bytes(b: ParamBlock) -> Seq<u8> {
    le_bytes(b.0) + le_bytes(b.1) + le_bytes(b.2) + le_bytes(b.3)
}

/// One block per slot, each padded with zeros to `stride` bytes.
pub open spec fn param_image_spec(blocks: Seq<ParamBlock>, stride: nat) -> Seq<u8>
    decreases blocks.len(),
{
    if blocks.len() == 0 {
        Seq::empty()
    } else {
        param_image_spec(blocks.drop_last(), stride) + block_bytes(blocks.last()) + Seq::new(
            (stride - 16) as nat,
            |i: int| 0u8,
        )
    }
}

proof fn lemma_param_image_len(blocks: Seq<ParamBlock>, stride: nat)
    requires
        stride >= 16,
    ensures
        param_image_spec(blocks, stride).len() == blocks.len() * stride,
    decreases blocks.len(),
{
    if blocks.len() > 0 {
        lemma_param_image_len(blocks.drop_last(), stride);
        assert((blocks.len() - 1) * stride + stride == blocks.len() * stride) by (nonlinear_arith);
    }
}

fn push_le_word(out: &mut Vec<u8>, w: u32)
    ensures
        final(out)@ == old(out)@ + le_bytes(w),
{
    out.push((w % 256) as u8);
    out.push(((w / 256) % 256) as u8);
    out.push(((w / 65536) % 256) as u8);
    out.push(((w / 16777216) % 256) as u8);
    proof {
        assert(final(out)@ =~= old(out)@ + le_bytes(w));
    }
}

fn push_block(out: &mut Vec<u8>, b: ParamBlock)
    ensures
        final(out)@ == old(out)@ + block_bytes(b),
{
    let ghost start = out@;
    push_le_word(out, b.0);
    push_le_word(out, b.1);
    push_le_word(out, b.2);
    push_le_word(out, b.3);
    proof {
        assert(out@ =~= start + block_bytes(b));
    }
}

/// The uniform buffer image of `blocks` at `stride` bytes per block.
pub fn param_image(blocks: &Vec<ParamBlock>, stride: u32) -> (r: Vec<u8>)
    requires
        stride >= 16,
        blocks@.len() * stride <= usize::MAX,
    ensures
        r@ == param_image_spec(blocks@, stride as nat),
        r@.len() == blocks@.len() * stride,
{
    let mut out: Vec<u8> = Vec::new();
    let mut i: usize = 0;
    while i < blocks.len()
        invariant
            stride >= 16,
            i <= blocks@.len(),
            blocks@.len() * stride <= usize::MAX,
            out@ == param_image_spec(blocks@.take(i as int), stride as nat),
        decreases blocks@.len() - i,
    {
        proof {
            lemma_param_image_len(blocks@.take(i as int), stride as nat);
            assert(i * stride + stride <= blocks@.len() * stride) by (nonlinear_arith)
                requires
                    i < blocks@.len(),
            ;
        }
        let b = blocks[i];
        let ghost start = out@;
        push_le_word(&mut out, b.0);
        push_le_word(&mut out, b.1);
        push_le_word(&mut out, b.2);
        push_le_word(&mut out, b.3);
        let ghost filled = out@;
        let mut pad: u32 = 16;
        while pad < stride
            invariant
                16 <= pad <= stride,
                out@ == filled + Seq::new((pad - 16) as nat, |k: int| 0u8),
            decreases stride - pad,
        {
            out.push(0u8);
            pad += 1;
            proof {
                assert(out@ =~= filled + Seq::new((pad - 16) as nat, |k: int| 0u8));
            }
        }
        proof {
            assert(blocks@.take(i + 1).drop_last() =~= blocks@.take(i as int));
            assert(blocks@.take(i + 1).last() == b);
            assert(filled =~= start + block_bytes(b));
        }
        i += 1;
    }
    proof {
        assert(blocks@.take(i as int) =~= blocks@);
        lemma_param_image_len(blocks@, stride as nat);
    }
    out
}

/// The pass blocks of an external-prefix radix: the pass's bit shift, the
/// capacity, and the capacity's tile count.
pub open spec fn external_radix_pass_blocks(plan: ExternalPrefixRadixPlan) -> Seq<ParamBlock> {
    Seq::new(
        plan.profile.pass_count as nat,
        |p: int|
            (
                (plan.profile.first_shift + 4 * p) as u32,
                plan.capacity,
                plan.capacity_groups,
                0u32,
            ),
    )
}

/// The pass blocks of a stable full32 radix over `count` keys: the pass's bit
/// shift, the count, and the count's workgroups.
pub open spec fn full32_pass_blocks(
    passes: nat,
    shift: nat,
    count: u32,
    group_count: u32,
) -> Seq<ParamBlock> {
    Seq::new(passes, |p: int| ((p * shift) as u32, count, group_count, 0u32))
}

/// The level blocks of a prefix scan over `count` items: each level's item
/// count.
pub open spec fn scan_level_blocks(count: nat) -> Seq<ParamBlock> {
    Seq::new(
        scan_levels_spec(count).len(),
        |l: int| (scan_levels_spec(count)[l].0 as u32, 0u32, 0u32, 0u32),
    )
}

/// The pass-parameter image of an external-prefix radix.
pub fn external_radix_pass_params(plan: &ExternalPrefixRadixPlan, limits: &DeviceLimits) -> (r:
    Vec<u8>)
    requires
        plan.profile.is_valid(),
        plan.profile.pass_count * limits.spec_uniform_stride() <= usize::MAX,
    ensures
        r@ == param_image_spec(external_radix_pass_blocks(*plan), limits.spec_uniform_stride() as nat),
{
    let mut blocks: Vec<ParamBlock> = Vec::new();
    let mut pass: u32 = 0;
    while pass < plan.profile.pass_count
        invariant
            plan.profile.is_valid(),
            pass <= plan.profile.pass_count,
            blocks@ == external_radix_pass_blocks(*plan).take(pass as int),
        decreases plan.profile.pass_count - pass,
    {
        blocks.push((plan.profile.shift_for_pass(pass), plan.capacity, plan.capacity_groups, 0));
        proof {
            assert(blocks@ =~= external_radix_pass_blocks(*plan).take(pass + 1));
        }
        pass += 1;
    }
    proof {
        assert(blocks@ =~= external_radix_pass_blocks(*plan));
    }
    param_image(&blocks, limits.uniform_stride())
}

/// The pass-parameter image of a stable full32 radix of `kind` over `count`
/// keys.
pub fn full32_pass_params(kind: StableFull32RadixKind, count: u32, limits: &DeviceLimits) -> (r:
    Vec<u8>)
    requires
        8 * limits.spec_uniform_stride() <= usize::MAX,
    ensures
        r@ == param_image_spec(
            full32_pass_blocks(
                if kind.spec_uses_resident_radix8() {
                    4
                } else {
                    8
                },
                if kind.spec_uses_resident_radix8() {
                    8
                } else {
                    4
                },
                count,
                if count == 0 {
                    1
                } else {
                    div_ceil(count as nat, 1024) as u32
                },
            ),
            limits.spec_uniform_stride() as nat,
        ),
{
    let passes = kind.passes();
    let shift = kind.shift();
    let group_count = full32_workgroup_count(count);
    let ghost target = full32_pass_blocks(passes as nat, shift as nat, count, group_count);
    let mut blocks: Vec<ParamBlock> = Vec::new();
    let mut pass: u32 = 0;
    while pass < passes
        invariant
            passes <= 8,
            shift <= 8,
            pass <= passes,
            target == full32_pass_blocks(passes as nat, shift as nat, count, group_count),
            blocks@ == target.take(pass as int),
        decreases passes - pass,
    {
        proof {
            assert(pass * shift <= 64) by (nonlinear_arith)
                requires
                    pass <= 8,
                    shift <= 8,
            ;
        }
        blocks.push((pass * shift, count, group_count, 0));
        proof {
            assert(blocks@ =~= target.take(pass + 1));
        }
        pass += 1;
    }
    proof {
        assert(blocks@ =~= target);
    }
    param_image(&blocks, limits.uniform_stride())
}

/// The level-parameter image of a prefix scan over `count` items.
pub fn scan_params(count: u32, limits: &DeviceLimits) -> (r: Vec<u8>)
    requires
        count > 0,
        scan_levels_spec(count as nat).len() * limits.spec_uniform_stride() <= usize::MAX,
    ensures
        r@ == param_image_spec(scan_level_blocks(count as nat), limits.spec_uniform_stride() as nat),
{
    let levels = scan_level_counts(count);
    let ghost target = scan_level_blocks(count as nat);
    let mut blocks: Vec<ParamBlock> = Vec::new();
    let mut level: usize = 0;
    while level < levels.len()
        invariant
            levels@.len() == scan_levels_spec(count as nat).len(),
            forall|i: int|
                0 <= i < levels@.len() ==> levels@[i].0 == scan_levels_spec(count as nat)[i].0,
            level <= levels@.len(),
            target == scan_level_blocks(count as nat),
            blocks@ == target.take(level as int),
        decreases levels@.len() - level,
    {
        blocks.push((levels[level].0, 0, 0, 0));
        proof {
            assert(blocks@ =~= target.take(level + 1));
        }
        level += 1;
    }
    proof {
        assert(blocks@ =~= target);
    }
    param_image(&blocks, limits.uniform_stride())
}

/// The 32 bytes of a control block, its eight words in order.
pub open spec fn control_bytes_spec(c: ExternalPrefixControl) -> Seq<u8> {
    block_bytes((c.count, c.active_group_count, c.dispatch_x, c.dispatch_y)) + block_bytes(
        (c.dispatch_z, c.dispatch_limit, c.capacity_count, c.pad0),
    )
}

impl ExternalPrefixControl {
    /// The bytes the control buffer holds.
    pub fn to_bytes(&self) -> (r: Vec<u8>)
        ensures
            r@ == control_bytes_spec(*self),
            r@.len() == 32,
    {
        let mut out: Vec<u8> = Vec::new();
        push_block(&mut out, (self.count, self.active_group_count, self.dispatch_x, self.dispatch_y));
        let ghost first = out@;
        push_block(&mut out, (self.dispatch_z, self.dispatch_limit, self.capacity_count, self.pad0));
        proof {
            assert(first =~= block_bytes(
                (self.count, self.active_group_count, self.dispatch_x, self.dispatch_y),
            ));
        }
        out
    }
}

impl ExternalPrefixRadixPlan {
    /// The control block the radix starts with: nothing sorted yet, an empty
    /// dispatch, and the plan's dispatch limit and capacity.
    pub fn initial_control(&self) -> (r: ExternalPrefixControl)
        ensures
            r == (ExternalPrefixControl {
                count: 0,
                active_group_count: 0,
                dispatch_x: 0,
                dispatch_y: 1,
                dispatch_z: 1,
                dispatch_limit: self.dispatch_limit,
                capacity_count: self.capacity,
                pad0: 0,
            }),
    {
        ExternalPrefixControl {
            count: 0,
            active_group_count: 0,
            dispatch_x: 0,
            dispatch_y: 1,
            dispatch_z: 1,
            dispatch_limit: self.dispatch_limit,
            capacity_count: self.capacity,
            pad0: 0,
        }
    }
}

} // verus!
