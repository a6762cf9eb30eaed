//! Layout of the packed atlas: the 20-byte hot record, the 48-byte degree-3
//! SH sidecar, and the atlas and buffer sizes that hold them.

use vstd::prelude::*;

use crate::gpu::scan::{div_ceil, div_ceil_u32, lemma_div_ceil};

verus! {

/// Bytes of one hot render record: position/opacity, scale/flags, rotation
/// and color.
pub const HOT_RECORD_BYTES: usize = 20;

/// Bytes of one degree-3 SH sidecar.
pub const DEGREE3_SIDECAR_BYTES: usize = 48;

/// Degree-3 attribute budget before the 4-byte order ID.
pub const FULL_DEGREE3_ATTRIBUTE_BYTES: usize = 68;

/// Attribute payload of the direct path, used for reduction claims.
pub const DIRECT_DEGREE3_ATTRIBUTE_BYTES: usize = 244;

/// `u32` words of one hot record.
pub const HOT_RECORD_U32_WORDS: usize = 5;

/// Widest atlas row.
pub const MAX_ATLAS_WIDTH: u32 = 2048;

/// RGBA8 texels of one SH sidecar.
pub const SIDECAR_TEXELS: usize = 12;

/// Streams of the hot record.
#[derive(Debug, Clone, Copy, PartialEq, Eq, Structural)]
pub enum HotStream {
    PositionOpacity,
    /// Three u10 log scales plus two format/LOD flag bits.
    ScaleFlags,
    /// Smallest-three-packed quaternion.
    Rotation,
    Color,
}

impl HotStream {
    pub open spec fn spec_bytes_per_splat(self) -> usize {
        match self {
            Self::PositionOpacity => 8,
            Self::ScaleFlags => 4,
            Self::Rotation => 4,
            Self::Color => 4,
        }
    }

    pub fn bytes_per_splat(self) -> (r: usize)
        ensures
            r == self.spec_bytes_per_splat(),
    {
        match self {
            Self::PositionOpacity => 8,
            Self::ScaleFlags => 4,
            Self::Rotation => 4,
            Self::Color => 4,
        }
    }
}

/// The four streams make up exactly one hot record.
pub proof fn lemma_hot_streams_fill_record()
    ensures
        HotStream::PositionOpacity.spec_bytes_per_splat() + HotStream::ScaleFlags.spec_bytes_per_splat()
            + HotStream::Rotation.spec_bytes_per_splat() + HotStream::Color.spec_bytes_per_splat()
            == HOT_RECORD_BYTES,
        HOT_RECORD_BYTES + DEGREE3_SIDECAR_BYTES == FULL_DEGREE3_ATTRIBUTE_BYTES,
        HOT_RECORD_U32_WORDS * 4 == HOT_RECORD_BYTES,
{
}

/// Packed hot record of one splat.
#[derive(Debug, Clone, Copy, PartialEq, Eq)]
pub struct PackedHotRecord {
    pub position_opacity: [u16; 4],
    pub scale_flags: u32,
    pub rotation: u32,
    pub color: u32,
}

impl PackedHotRecord {
    /// The five storage words: the four 16-bit position/opacity lanes two per
    /// word (low half first), then scale/flags, rotation and color.
    pub open spec fn spec_storage_words(self) -> Seq<u32> {
        seq![
            (self.position_opacity[0] + self.position_opacity[1] * 65536) as u32,
            (self.position_opacity[2] + self.position_opacity[3] * 65536) as u32,
            self.scale_flags,
            self.rotation,
            self.color,
        ]
    }

    pub fn byte_len() -> (r: usize)
        ensures
            r == HOT_RECORD_BYTES,
    {
        HOT_RECORD_BYTES
    }

    pub fn to_storage_words(self) -> (r: [u32; 5])
        ensures
            r@ == self.spec_storage_words(),
    {
        let p = self.position_opacity;
        let (a, b, c, d) = (p[0], p[1], p[2], p[3]);
        let po0 = (a as u32) | ((b as u32) << 16u32);
        let po1 = (c as u32) | ((d as u32) << 16u32);
        proof {
            assert((a as u32) | ((b as u32) << 16u32) == a + b * 65536) by (bit_vector)
                requires
                    a <= 0xffff,
                    b <= 0xffff,
            ;
            assert((c as u32) | ((d as u32) << 16u32) == c + d * 65536) by (bit_vector)
                requires
                    c <= 0xffff,
                    d <= 0xffff,
            ;
        }
        let r = [po0, po1, self.scale_flags, self.rotation, self.color];
        proof {
            assert(r@ =~= self.spec_storage_words());
        }
        r
    }
}

/// Quantized degree-3 SH sidecar: 45 signed coefficients and 3 pad bytes.
#[derive(Debug, Clone, Copy, PartialEq, Eq)]
pub struct PackedShSidecar {
    pub coeffs_i8: [i8; 45],
    pub pad: [i8; 3],
}

impl PackedShSidecar {
    /// The 48 texel bytes: coefficients then pad, each reinterpreted as u8.
    pub open spec fn spec_texel_bytes(self) -> Seq<u8> {
        Seq::new(
            48,
            |i: int|
                if i < 45 {
                    self.coeffs_i8@[i] as u8
                } else {
                    self.pad@[i - 45] as u8
                },
        )
    }

    pub fn byte_len() -> (r: usize)
        ensures
            r == DEGREE3_SIDECAR_BYTES,
    {
        DEGREE3_SIDECAR_BYTES
    }

    pub fn as_texel_bytes(&self) -> (r: [u8; 48])
        ensures
            r@ == self.spec_texel_bytes(),
    {
        let mut out = [0u8; 48];
        let mut index: usize = 0;
        while index < 45
            invariant
                index <= 45,
                forall|i: int| 0 <= i < index ==> out@[i] == self.coeffs_i8@[i] as u8,
            decreases 45 - index,
        {
            out[index] = self.coeffs_i8[index] as u8;
            index += 1;
        }
        let mut pad_index: usize = 0;
        while pad_index < 3
            invariant
                pad_index <= 3,
                forall|i: int| 0 <= i < 45 ==> out@[i] == self.coeffs_i8@[i] as u8,
                forall|i: int| 0 <= i < pad_index ==> out@[45 + i] == self.pad@[i] as u8,
            decreases 3 - pad_index,
        {
            out[45 + pad_index] = self.pad[pad_index] as u8;
            pad_index += 1;
        }
        proof {
            assert forall|i: int| 0 <= i < 48 implies out@[i] == self.spec_texel_bytes()[i] by {
                if i >= 45 {
                    assert(out@[45 + (i - 45)] == self.pad@[i - 45] as u8);
                }
            }
            assert(out@ =~= self.spec_texel_bytes());
        }
        out
    }
}

/// The smallest power of two that is at least `n` (one for `n <= 1`).
pub open spec fn next_pow2(n: nat) -> nat
    decreases n,
{
    if n <= 1 {
        1
    } else {
        2 * next_pow2(((n + 1) / 2) as nat)
    }
}

pub proof fn lemma_next_pow2(n: nat)
    ensures
        next_pow2(n) >= n,
        next_pow2(n) >= 1,
        n >= 2 ==> next_pow2(n) % 2 == 0,
        n >= 1 ==> next_pow2(n) < 2 * n,
    decreases n,
{
    if n > 1 {
        let c = ((n + 1) / 2) as nat;
        lemma_next_pow2(c);
    }
}

/// `n.next_power_of_two()` for `n <= 2^31`.
pub fn next_power_of_two(n: u32) -> (r: u32)
    requires
        n <= 0x8000_0000,
    ensures
        r == next_pow2(n as nat),
    decreases n,
{
    proof {
        lemma_next_pow2(n as nat);
    }
    if n <= 1 {
        1
    } else {
        let half = n / 2 + n % 2;
        proof {
            lemma_next_pow2(half as nat);
            assert(half == (n + 1) / 2);
        }
        2 * next_power_of_two(half)
    }
}

/// `(width, height)` of an atlas with one texel per splat: a power-of-two
/// width of at most 2048 and enough rows for `max(count, 1)` splats, where
/// the count is taken as `u32`.
pub open spec fn atlas_dimensions_spec(splat_count: nat) -> (u32, u32) {
    let count = (if splat_count >= 1 {
        splat_count
    } else {
        1
    }) as u32;
    let p = next_pow2(count as nat);
    let width = if p <= MAX_ATLAS_WIDTH {
        p
    } else {
        MAX_ATLAS_WIDTH as nat
    };
    let height = div_ceil(count as nat, width);
    (width as u32, (if height >= 1 {
        height
    } else {
        1
    }) as u32)
}

/// Atlas width and height for `splat_count` slots.
pub fn atlas_dimensions(splat_count: usize) -> (r: (u32, u32))
    requires
        (if splat_count >= 1 {
            splat_count
        } else {
            1
        }) as u32 <= 0x8000_0000,
    ensures
        r == atlas_dimensions_spec(splat_count as nat),
        1 <= r.0 <= MAX_ATLAS_WIDTH,
        r.1 >= 1,
        r.0 as int * r.1 as int >= (if splat_count >= 1 {
            splat_count
        } else {
            1
        }) as u32,
{
    let count: u32 = (if splat_count >= 1 {
        splat_count
    } else {
        1
    }) as u32;
    let p = next_power_of_two(count);
    proof {
        lemma_next_pow2(count as nat);
    }
    let width = if p <= MAX_ATLAS_WIDTH {
        p
    } else {
        MAX_ATLAS_WIDTH
    };
    let ceil = div_ceil_u32(count, width);
    proof {
        lemma_div_ceil(count as nat, width as nat);
        assert(width as int * ceil as int == ceil as int * width as int) by (nonlinear_arith);
    }
    let height = if ceil >= 1 {
        ceil
    } else {
        1
    };
    proof {
        assert(width as int * height as int >= width as int * ceil as int) by (nonlinear_arith)
            requires
                height >= ceil,
                width >= 1,
        ;
    }
    (width, height)
}

/// Texel `(x, y)` of `slot` in rows of `width` texels.
pub fn slot_to_texel(slot: u32, width: u32) -> (r: (u32, u32))
    requires
        width > 0,
    ensures
        r == (slot % width, slot / width),
        r.0 < width,
        r.1 as int * width as int + r.0 as int == slot,
{
    proof {
        assert((slot / width) as int * width as int + (slot % width) as int == slot) by (nonlinear_arith)
            requires
                width > 0,
        ;
    }
    (slot % width, slot / width)
}

/// Every slot below `width * height` lands inside the atlas.
pub proof fn lemma_slot_inside_atlas(slot: u32, width: u32, height: u32)
    requires
        width > 0,
        (slot as int) < width as int * height as int,
    ensures
        slot % width < width,
        slot / width < height,
{
    assert(slot / width < height) by (nonlinear_arith)
        requires
            width > 0,
            (slot as int) < width as int * height as int,
    ;
}

/// `(width, height)` of the SH sidecar atlas: 12 texels per splat, a width of
/// at least 12 that is a power of two up to 2048, and enough rows.
pub open spec fn sh_sidecar_atlas_dimensions_spec(splat_count: nat) -> (u32, u32) {
    let total = ((if splat_count >= 1 {
        splat_count
    } else {
        1
    }) * SIDECAR_TEXELS) as u32;
    let p = next_pow2(total as nat);
    let wide = if p >= 12 {
        p
    } else {
        12
    };
    let width = if wide <= MAX_ATLAS_WIDTH {
        wide
    } else {
        MAX_ATLAS_WIDTH as nat
    };
    let height = div_ceil(total as nat, width);
    (width as u32, (if height >= 1 {
        height
    } else {
        1
    }) as u32)
}

pub fn sh_sidecar_atlas_dimensions(splat_count: usize) -> (r: (u32, u32))
    requires
        (if splat_count >= 1 {
            splat_count
        } else {
            1
        }) * SIDECAR_TEXELS <= usize::MAX,
        ((if splat_count >= 1 {
            splat_count
        } else {
            1
        }) * SIDECAR_TEXELS) as u32 <= 0x8000_0000,
    ensures
        r == sh_sidecar_atlas_dimensions_spec(splat_count as nat),
        12 <= r.0 <= MAX_ATLAS_WIDTH,
        r.1 >= 1,
        r.0 as int * r.1 as int >= ((if splat_count >= 1 {
            splat_count
        } else {
            1
        }) * SIDECAR_TEXELS) as u32,
{
    let count = if splat_count >= 1 {
        splat_count
    } else {
        1
    };
    let total = (count * SIDECAR_TEXELS) as u32;
    let p = next_power_of_two(total);
    proof {
        lemma_next_pow2(total as nat);
    }
    let wide = if p >= 12 {
        p
    } else {
        12
    };
    let width = if wide <= MAX_ATLAS_WIDTH {
        wide
    } else {
        MAX_ATLAS_WIDTH
    };
    let ceil = div_ceil_u32(total, width);
    proof {
        lemma_div_ceil(total as nat, width as nat);
        assert(width as int * ceil as int == ceil as int * width as int) by (nonlinear_arith);
    }
    let height = if ceil >= 1 {
        ceil
    } else {
        1
    };
    proof {
        assert(width as int * height as int >= width as int * ceil as int) by (nonlinear_arith)
            requires
                height >= ceil,
                width >= 1,
        ;
    }
    (width, height)
}

/// Bytes of the tightly packed hot storage buffer: one record per splat, at
/// least one.
pub fn measured_hot_texture_bytes(splat_count: usize) -> (r: u64)
    requires
        (if splat_count >= 1 {
            splat_count
        } else {
            1
        }) * HOT_RECORD_BYTES <= u64::MAX,
    ensures
        r == (if splat_count >= 1 {
            splat_count
        } else {
            1
        }) * HOT_RECORD_BYTES,
{
    let count = if splat_count >= 1 {
        splat_count
    } else {
        1
    };
    count as u64 * HOT_RECORD_BYTES as u64
}

/// Bytes of the RGBA8 SH sidecar texture, including the padding of its last
/// row.
pub fn measured_sh_sidecar_texture_bytes(splat_count: usize) -> (r: u64)
    requires
        (if splat_count >= 1 {
            splat_count
        } else {
            1
        }) * SIDECAR_TEXELS <= usize::MAX,
        ((if splat_count >= 1 {
            splat_count
        } else {
            1
        }) * SIDECAR_TEXELS) as u32 <= 0x8000_0000,
    ensures
        r == sh_sidecar_atlas_dimensions_spec(splat_count as nat).0 as int
            * sh_sidecar_atlas_dimensions_spec(splat_count as nat).1 as int * 4,
{
    let (width, height) = sh_sidecar_atlas_dimensions(splat_count);
    proof {
        assert(width as u64 * height as u64 * 4 <= u64::MAX) by (nonlinear_arith)
            requires
                width <= 2048,
                height <= u32::MAX,
        ;
    }
    width as u64 * height as u64 * 4
}

/// The SH sidecar texture holds 48 bytes per splat and pads less than one row:
/// for `n >= 1` splats, `48 n <= bytes < 48 n + 4 width`.
pub proof fn lemma_sidecar_padding_under_one_row(splat_count: nat)
    requires
        splat_count >= 1,
        splat_count * SIDECAR_TEXELS <= 0x8000_0000,
    ensures
        ({
            let (width, height) = sh_sidecar_atlas_dimensions_spec(splat_count);
            let bytes = width as int * height as int * 4;
            &&& bytes >= 48 * splat_count
            &&& bytes - 48 * splat_count < 4 * width as int
        }),
{
    let total = (splat_count * SIDECAR_TEXELS) as nat;
    assert(total as u32 == total);
    lemma_next_pow2(total);
    let (width, height) = sh_sidecar_atlas_dimensions_spec(splat_count);
    lemma_div_ceil(total, width as nat);
    let ceil = div_ceil(total, width as nat);
    assert(ceil >= 1);
    assert(height == ceil);
    assert(width as int * height as int == ceil * width) by (nonlinear_arith)
        requires
            height == ceil,
    ;
}

/// Tightly packed upload buffers of an atlas: the SH sidecar bytes of every
/// texel of a `width * height` atlas, 48 bytes per texel.
pub struct PackedAtlasCpuBuffers {
    pub width: u32,
    pub height: u32,
    pub sh_coeffs: Vec<u8>,
}

/// The sidecar bytes of an atlas with `texels` texels holding `sidecars` in
/// slot order; texels past the sidecars are zero.
pub open spec fn sidecar_bytes_spec(sidecars: Seq<PackedShSidecar>, texels: nat) -> Seq<u8> {
    Seq::new(
        texels * 48,
        |i: int|
            if i / 48 < sidecars.len() {
                sidecars[i / 48].spec_texel_bytes()[i % 48]
            } else {
                0u8
            },
    )
}

/// The storage words of `records`, five per record, in record order.
pub open spec fn storage_words_spec(records: Seq<PackedHotRecord>) -> Seq<u32> {
    Seq::new(
        records.len() * 5,
        |i: int| records[i / 5].spec_storage_words()[i % 5],
    )
}

impl PackedAtlasCpuBuffers {
    /// Lays out the sidecars of a packed scene of `splat_count` splats in its
    /// atlas, slot `i` at texel `i`.
    pub fn from_sidecars(splat_count: usize, sidecars: &Vec<PackedShSidecar>) -> (r: Self)
        requires
            (if splat_count >= 1 {
                splat_count
            } else {
                1
            }) as u32 <= 0x8000_0000,
            atlas_dimensions_spec(splat_count as nat).0 as int * atlas_dimensions_spec(
                splat_count as nat,
            ).1 as int * 48 <= usize::MAX,
            sidecars@.len() <= atlas_dimensions_spec(splat_count as nat).0 as int
                * atlas_dimensions_spec(splat_count as nat).1 as int,
        ensures
            (r.width, r.height) == atlas_dimensions_spec(splat_count as nat),
            r.sh_coeffs@ == sidecar_bytes_spec(sidecars@, r.width as nat * r.height as nat),
    {
        let (width, height) = atlas_dimensions(splat_count);
        proof {
            assert(width as int * height as int <= width as int * height as int * 48) by (nonlinear_arith)
                requires
                    width >= 1,
                    height >= 1,
            ;
        }
        let texels = width as usize * height as usize;
        let total = texels * DEGREE3_SIDECAR_BYTES;
        let mut sh_coeffs: Vec<u8> = Vec::with_capacity(total);
        let mut index: usize = 0;
        while index < total
            invariant
                index <= total,
                total == texels * 48,
                texels >= sidecars@.len(),
                sh_coeffs@.len() == index,
                forall|i: int|
                    0 <= i < index ==> sh_coeffs@[i] == sidecar_bytes_spec(sidecars@, texels as nat)[i],
            decreases total - index,
        {
            let slot = index / DEGREE3_SIDECAR_BYTES;
            let byte = if slot < sidecars.len() {
                let texel_bytes = sidecars[slot].as_texel_bytes();
                texel_bytes[index % DEGREE3_SIDECAR_BYTES]
            } else {
                0u8
            };
            sh_coeffs.push(byte);
            index += 1;
        }
        proof {
            assert(sh_coeffs@ =~= sidecar_bytes_spec(sidecars@, texels as nat));
        }
        Self { width, height, sh_coeffs }
    }

    /// Bytes staged on the CPU for upload.
    pub fn declared_cpu_staging_bytes(&self) -> (r: u64)
        ensures
            r == self.sh_coeffs@.len(),
    {
        self.sh_coeffs.len() as u64
    }

    /// Hot records as tightly packed storage words, five per splat.
    pub fn hot_storage_words(hot: &Vec<PackedHotRecord>) -> (r: Vec<u32>)
        requires
            hot@.len() * 5 <= usize::MAX,
        ensures
            r@ == storage_words_spec(hot@),
    {
        let mut words: Vec<u32> = Vec::with_capacity(hot.len() * HOT_RECORD_U32_WORDS);
        let mut index: usize = 0;
        while index < hot.len()
            invariant
                index <= hot@.len(),
                hot@.len() * 5 <= usize::MAX,
                words@ =~= storage_words_spec(hot@.take(index as int)),
            decreases hot@.len() - index,
        {
            let record = hot[index].to_storage_words();
            let mut lane: usize = 0;
            let ghost before = words@;
            while lane < 5
                invariant
                    lane <= 5,
                    index < hot@.len(),
                    record@ == hot@[index as int].spec_storage_words(),
                    words@ == before + record@.take(lane as int),
                decreases 5 - lane,
            {
                words.push(record[lane]);
                proof {
                    assert(record@.take(lane + 1) =~= record@.take(lane as int).push(record@[lane as int]));
                }
                lane += 1;
            }
            proof {
                let next = hot@.take(index + 1);
                assert(words@ =~= storage_words_spec(next)) by {
                    assert(record@.take(5) =~= record@);
                    assert forall|i: int| 0 <= i < next.len() * 5 implies words@[i]
                        == storage_words_spec(next)[i] by {
                        if i < index * 5 {
                            assert(next[i / 5] == hot@.take(index as int)[i / 5]);
                        } else {
                            assert(i / 5 == index);
                        }
                    }
                }
            }
            index += 1;
        }
        proof {
            assert(hot@.take(index as int) =~= hot@);
        }
        words
    }
}

} // verus!
