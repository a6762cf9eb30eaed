//! Layout of an RGBA8 texture readback: rows are copied into a buffer whose
//! row pitch is padded to the copy alignment, then packed tightly again.

use crate::gpu::scan::{div_ceil, div_ceil_u32, lemma_div_ceil};
use vstd::prelude::*;

verus! {

/// Bytes per RGBA8 pixel.
pub const RGBA8_BYTES_PER_PIXEL: u32 = 4;

/// Why a readback cannot be laid out.
#[derive(Debug, Clone, Copy, PartialEq, Eq, Structural)]
pub enum ReadbackLayoutError {
    /// The target has no pixels.
    EmptyTarget,
}

/// Row pitches and buffer size of one readback.
#[derive(Debug, Clone, Copy, PartialEq, Eq, Structural)]
pub struct RgbaReadbackLayout {
    pub width: u32,
    pub height: u32,
    pub unpadded_bytes_per_row: u32,
    pub padded_bytes_per_row: u32,
    pub buffer_size: u64,
}

/// `a * b`, or `u32::MAX` when the product does not fit.
pub open spec fn saturating_mul_u32(a: nat, b: nat) -> nat {
    if a * b <= u32::MAX {
        a * b
    } else {
        u32::MAX as nat
    }
}

/// The layout of a `width * height` readback whose rows are padded to a
/// multiple of `align` bytes (saturating at `u32::MAX`).
pub open spec fn readback_layout_spec(width: u32, height: u32, align: u32) -> RgbaReadbackLayout {
    let unpadded = saturating_mul_u32(width as nat, RGBA8_BYTES_PER_PIXEL as nat);
    let padded = saturating_mul_u32(div_ceil(unpadded, align as nat), align as nat);
    RgbaReadbackLayout {
        width,
        height,
        unpadded_bytes_per_row: unpadded as u32,
        padded_bytes_per_row: padded as u32,
        buffer_size: (padded * height) as u64,
    }
}

fn saturating_mul(a: u32, b: u32) -> (r: u32)
    ensures
        r == saturating_mul_u32(a as nat, b as nat),
{
    match a.checked_mul(b) {
        Some(product) => product,
        None => u32::MAX,
    }
}

impl RgbaReadbackLayout {
    /// Lays out the readback of a `width * height` target with rows padded to
    /// `align` bytes; an empty target is refused.
    pub fn for_size(width: u32, height: u32, align: u32) -> (r: Result<Self, ReadbackLayoutError>)
        requires
            align >= 1,
        ensures
            width == 0 || height == 0 ==> r == Err::<Self, ReadbackLayoutError>(
                ReadbackLayoutError::EmptyTarget,
            ),
            width != 0 && height != 0 ==> r == Ok::<Self, ReadbackLayoutError>(
                readback_layout_spec(width, height, align),
            ),
            r matches Ok(l) ==> l.unpadded_bytes_per_row <= l.padded_bytes_per_row,
    {
        if width == 0 || height == 0 {
            return Err(ReadbackLayoutError::EmptyTarget);
        }
        let unpadded = saturating_mul(width, RGBA8_BYTES_PER_PIXEL);
        let rows = div_ceil_u32(unpadded, align);
        let padded = saturating_mul(rows, align);
        proof {
            lemma_div_ceil(unpadded as nat, align as nat);
            assert(padded as u64 * height as u64 <= u64::MAX) by (nonlinear_arith)
                requires
                    padded <= u32::MAX,
                    height <= u32::MAX,
            ;
        }
        let buffer_size = padded as u64 * height as u64;
        Ok(
            RgbaReadbackLayout {
                width,
                height,
                unpadded_bytes_per_row: unpadded,
                padded_bytes_per_row: padded,
                buffer_size,
            },
        )
    }
}

/// The tightly packed pixels of a padded readback: row `r` of the output is
/// the first `unpadded` bytes of row `r` of `mapped`.
pub open spec fn unpadded_rows_spec(mapped: Seq<u8>, layout: RgbaReadbackLayout) -> Seq<u8> {
    let unpadded = layout.unpadded_bytes_per_row as int;
    let padded = layout.padded_bytes_per_row as int;
    Seq::new(
        (unpadded * layout.height) as nat,
        |i: int| mapped[(i / unpadded) * padded + i % unpadded],
    )
}

/// Packs the rows of a mapped readback tightly.
pub fn unpad_rows(mapped: &Vec<u8>, layout: RgbaReadbackLayout) -> (r: Vec<u8>)
    requires
        1 <= layout.unpadded_bytes_per_row <= layout.padded_bytes_per_row,
        layout.padded_bytes_per_row * layout.height <= mapped@.len(),
        layout.unpadded_bytes_per_row * layout.height <= usize::MAX,
    ensures
        r@ == unpadded_rows_spec(mapped@, layout),
{
    let unpadded = layout.unpadded_bytes_per_row as usize;
    let padded = layout.padded_bytes_per_row as usize;
    let height = layout.height as usize;
    let total = mapped.len();
    let ghost expected = unpadded_rows_spec(mapped@, layout);
    let mut out: Vec<u8> = Vec::new();
    let mut row: usize = 0;
    while row < height
        invariant
            unpadded == layout.unpadded_bytes_per_row,
            padded == layout.padded_bytes_per_row,
            height == layout.height,
            1 <= unpadded <= padded,
            padded * height <= mapped@.len(),
            total == mapped@.len(),
            unpadded * height <= usize::MAX,
            expected == unpadded_rows_spec(mapped@, layout),
            row <= height,
            out@ == expected.take((row * unpadded) as int),
        decreases height - row,
    {
        proof {
            assert((row + 1) * padded <= padded * height) by (nonlinear_arith)
                requires
                    row + 1 <= height,
            ;
            assert((row + 1) * unpadded <= unpadded * height) by (nonlinear_arith)
                requires
                    row + 1 <= height,
            ;
            assert(row * padded + padded == (row + 1) * padded) by (nonlinear_arith);
            assert(row * unpadded + unpadded == (row + 1) * unpadded) by (nonlinear_arith);
        }
        let src_start: usize = row * padded;
        let dst_start: usize = row * unpadded;
        let mut col: usize = 0;
        while col < unpadded
            invariant
                unpadded == layout.unpadded_bytes_per_row,
                padded == layout.padded_bytes_per_row,
                height == layout.height,
                1 <= unpadded <= padded,
                row < height,
                src_start == row * padded,
                dst_start == row * unpadded,
                src_start + padded <= mapped@.len(),
                total == mapped@.len(),
                dst_start + unpadded <= unpadded * height,
                expected == unpadded_rows_spec(mapped@, layout),
                col <= unpadded,
                out@ == expected.take(dst_start + col),
            decreases unpadded - col,
        {
            proof {
                let i = dst_start + col;
                assert(i / (unpadded as int) == row && i % (unpadded as int) == col) by (
                nonlinear_arith)
                    requires
                        i == row * unpadded + col,
                        col < unpadded,
                        0 <= row,
                ;
                assert(expected[i] == mapped@[src_start + col]);
                assert(expected.take(i + 1) =~= expected.take(i).push(mapped@[src_start + col]));
            }
            out.push(mapped[src_start + col]);
            col += 1;
        }
        row += 1;
    }
    proof {
        assert(expected.take((height * unpadded) as int) =~= expected) by {
            assert(height * unpadded == unpadded * height) by (nonlinear_arith);
        }
    }
    out
}

/// Without saturation, a readback row holds four bytes per pixel, its pitch
/// is the smallest multiple of the alignment that holds the row, and the
/// buffer holds one pitch per row.
pub proof fn lemma_readback_pitch_is_the_least_aligned_row(width: u32, height: u32, align: u32)
    requires
        align >= 1,
        width * 4 + align <= u32::MAX,
    ensures
        ({
            let l = readback_layout_spec(width, height, align);
            &&& l.unpadded_bytes_per_row == width * 4
            &&& l.padded_bytes_per_row % align == 0
            &&& l.unpadded_bytes_per_row <= l.padded_bytes_per_row
            &&& l.padded_bytes_per_row < l.unpadded_bytes_per_row + align
            &&& l.buffer_size == l.padded_bytes_per_row * height
            &&& l.width == width && l.height == height
        }),
{
    let unpadded = (width * 4) as nat;
    lemma_div_ceil(unpadded, align as nat);
    let q = div_ceil(unpadded, align as nat);
    assert((q * align) % (align as int) == 0) by (nonlinear_arith)
        requires
            align >= 1,
    ;
    assert(saturating_mul_u32(width as nat, 4) == unpadded);
    assert(saturating_mul_u32(q, align as nat) == q * align);
    let padded = q * align;
    assert(padded * height <= u64::MAX) by (nonlinear_arith)
        requires
            padded <= u32::MAX,
            height <= u32::MAX,
    ;
}

/// Packing keeps every pixel byte: byte `x` of row `y` of the packed image is
/// byte `x` of row `y` of the mapped buffer, at `y` pitches in.
pub proof fn lemma_unpadded_rows_keep_row_bytes(
    mapped: Seq<u8>,
    layout: RgbaReadbackLayout,
    y: int,
    x: int,
)
    requires
        1 <= layout.unpadded_bytes_per_row,
        0 <= y < layout.height,
        0 <= x < layout.unpadded_bytes_per_row,
    ensures
        unpadded_rows_spec(mapped, layout).len() == layout.unpadded_bytes_per_row * layout.height,
        unpadded_rows_spec(mapped, layout)[y * layout.unpadded_bytes_per_row + x] == mapped[y
            * layout.padded_bytes_per_row + x],
{
    let u = layout.unpadded_bytes_per_row as int;
    let i = y * u + x;
    assert(i / u == y && i % u == x) by (nonlinear_arith)
        requires
            u >= 1,
            0 <= x < u,
            y >= 0,
            i == y * u + x,
    ;
    assert(0 <= i < u * layout.height) by (nonlinear_arith)
        requires
            u >= 1,
            0 <= x < u,
            0 <= y < layout.height,
            i == y * u + x,
    ;
}

} // verus!
