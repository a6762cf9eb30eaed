//! Checks of a decoded page payload before it may enter an atlas slot.
//!
//! A payload lists the scene splats of one page and carries its packed
//! records. Whether its quantization encoding equals the atlas's is decided
//! by the caller (the encodings hold floating-point ranges) and enters these
//! checks as a flag.

use crate::spatial_pages::PageId;
use vstd::prelude::*;

verus! {

/// Why a page could not be decoded from its source.
#[derive(Debug, Clone, Copy, PartialEq, Eq, Structural)]
pub enum PageSourceError {
    PageNotFound(PageId),
    SourceIndexOutOfBounds { page_id: PageId, source_index: u32, scene_splat_count: usize },
}

/// Why a decoded payload is refused.
#[derive(Debug, Clone, Copy, PartialEq, Eq, Structural)]
pub enum PagePayloadError {
    EmptyPage,
    PageTooLarge { splat_count: usize, page_capacity: usize },
    CountMismatch { source_indices: usize, packed_splats: usize, hot_records: usize },
    SourceIndexOutOfBounds { source_index: u32, scene_splat_count: usize },
    EncodingMismatch,
    SidecarCountMismatch { expected: usize, actual: usize },
}

/// The first index of `indices` that does not name one of `scene_splat_count`
/// splats.
pub open spec fn first_out_of_bounds_spec(indices: Seq<u32>, scene_splat_count: nat) -> Option<u32>
    decreases indices.len(),
{
    if indices.len() == 0 {
        None
    } else if indices[0] >= scene_splat_count {
        Some(indices[0])
    } else {
        first_out_of_bounds_spec(indices.drop_first(), scene_splat_count)
    }
}

proof fn lemma_first_out_of_bounds_prefix(indices: Seq<u32>, scene_splat_count: nat, i: int)
    requires
        0 <= i < indices.len(),
        forall|j: int| 0 <= j < i ==> #[trigger] indices[j] < scene_splat_count,
    ensures
        first_out_of_bounds_spec(indices, scene_splat_count) == first_out_of_bounds_spec(
            indices.subrange(i, indices.len() as int),
            scene_splat_count,
        ),
    decreases i,
{
    if i > 0 {
        assert(indices.drop_first().subrange(i - 1, indices.drop_first().len() as int)
            =~= indices.subrange(i, indices.len() as int));
        lemma_first_out_of_bounds_prefix(indices.drop_first(), scene_splat_count, i - 1);
    } else {
        assert(indices.subrange(0, indices.len() as int) =~= indices);
    }
}

/// The first source index of a page that lies outside the scene, if any.
pub fn first_source_index_out_of_bounds(indices: &Vec<u32>, scene_splat_count: usize) -> (r: Option<
    u32,
>)
    ensures
        r == first_out_of_bounds_spec(indices@, scene_splat_count as nat),
        r is None <==> forall|j: int| 0 <= j < indices@.len() ==> indices@[j] < scene_splat_count,
        r matches Some(x) ==> exists|i: int|
            0 <= i < indices@.len() && #[trigger] indices@[i] == x && x >= scene_splat_count
                && forall|j: int| 0 <= j < i ==> indices@[j] < scene_splat_count,
{
    let mut i: usize = 0;
    while i < indices.len()
        invariant
            i <= indices@.len(),
            forall|j: int| 0 <= j < i ==> #[trigger] indices@[j] < scene_splat_count,
        decreases indices@.len() - i,
    {
        if indices[i] as usize >= scene_splat_count {
            proof {
                lemma_first_out_of_bounds_prefix(indices@, scene_splat_count as nat, i as int);
                assert(indices@[i as int] == indices[i as int]);
            }
            return Some(indices[i]);
        }
        i += 1;
    }
    proof {
        lemma_none_out_of_bounds(indices@, scene_splat_count as nat);
    }
    None
}

proof fn lemma_none_out_of_bounds(indices: Seq<u32>, scene_splat_count: nat)
    requires
        forall|j: int| 0 <= j < indices.len() ==> #[trigger] indices[j] < scene_splat_count,
    ensures
        first_out_of_bounds_spec(indices, scene_splat_count) is None,
    decreases indices.len(),
{
    if indices.len() > 0 {
        assert forall|j: int| 0 <= j < indices.drop_first().len() implies #[trigger] indices.drop_first()[j]
            < scene_splat_count by {
            assert(indices.drop_first()[j] == indices[j + 1]);
        }
        lemma_none_out_of_bounds(indices.drop_first(), scene_splat_count);
    }
}

/// What the checks read of a decoded payload.
#[derive(Debug, Clone, Copy, PartialEq, Eq, Structural)]
pub struct PayloadShape {
    pub packed_splats: usize,
    pub hot_records: usize,
    pub sh_degree: u8,
    pub sidecars: usize,
}

/// The verdict on a payload, checks in order: non-empty, within the page
/// capacity, packed and hot counts equal to the source count, every source
/// index inside the scene, the atlas encoding, and one sidecar per splat when
/// SH is kept (none otherwise).
pub open spec fn payload_verdict(
    source_indices: Seq<u32>,
    shape: PayloadShape,
    scene_splat_count: nat,
    page_capacity: nat,
    encoding_matches: bool,
) -> Result<(), PagePayloadError> {
    let n = source_indices.len();
    let expected_sidecars: nat = if shape.sh_degree > 0 {
        n
    } else {
        0
    };
    if n == 0 {
        Err(PagePayloadError::EmptyPage)
    } else if n > page_capacity {
        Err(
            PagePayloadError::PageTooLarge {
                splat_count: n as usize,
                page_capacity: page_capacity as usize,
            },
        )
    } else if shape.packed_splats != n || shape.hot_records != n {
        Err(
            PagePayloadError::CountMismatch {
                source_indices: n as usize,
                packed_splats: shape.packed_splats,
                hot_records: shape.hot_records,
            },
        )
    } else if first_out_of_bounds_spec(source_indices, scene_splat_count) is Some {
        Err(
            PagePayloadError::SourceIndexOutOfBounds {
                source_index: first_out_of_bounds_spec(source_indices, scene_splat_count)->0,
                scene_splat_count: scene_splat_count as usize,
            },
        )
    } else if !encoding_matches {
        Err(PagePayloadError::EncodingMismatch)
    } else if shape.sidecars != expected_sidecars {
        Err(
            PagePayloadError::SidecarCountMismatch {
                expected: expected_sidecars as usize,
                actual: shape.sidecars,
            },
        )
    } else {
        Ok(())
    }
}

/// Validates a decoded payload against the scene and the atlas.
pub fn validate_payload(
    source_indices: &Vec<u32>,
    shape: PayloadShape,
    scene_splat_count: usize,
    page_capacity: usize,
    encoding_matches: bool,
) -> (r: Result<(), PagePayloadError>)
    ensures
        r == payload_verdict(
            source_indices@,
            shape,
            scene_splat_count as nat,
            page_capacity as nat,
            encoding_matches,
        ),
        r is Ok ==> {
            &&& 1 <= source_indices@.len() <= page_capacity
            &&& shape.packed_splats == source_indices@.len()
            &&& shape.hot_records == source_indices@.len()
            &&& forall|j: int|
                0 <= j < source_indices@.len() ==> (#[trigger] source_indices@[j])
                    < scene_splat_count
            &&& encoding_matches
            &&& shape.sidecars == if shape.sh_degree > 0 {
                source_indices@.len()
            } else {
                0
            }
        },
        1 <= source_indices@.len() <= page_capacity && (shape.packed_splats
            != source_indices@.len() || shape.hot_records != source_indices@.len()) ==> r
            == Err::<(), PagePayloadError>(
            PagePayloadError::CountMismatch {
                source_indices: source_indices@.len() as usize,
                packed_splats: shape.packed_splats,
                hot_records: shape.hot_records,
            },
        ),
{
    let splat_count = source_indices.len();
    if splat_count == 0 {
        return Err(PagePayloadError::EmptyPage);
    }
    if splat_count > page_capacity {
        return Err(PagePayloadError::PageTooLarge { splat_count, page_capacity });
    }
    if shape.packed_splats != splat_count || shape.hot_records != splat_count {
        return Err(
            PagePayloadError::CountMismatch {
                source_indices: splat_count,
                packed_splats: shape.packed_splats,
                hot_records: shape.hot_records,
            },
        );
    }
    match first_source_index_out_of_bounds(source_indices, scene_splat_count) {
        Some(source_index) => {
            return Err(PagePayloadError::SourceIndexOutOfBounds { source_index, scene_splat_count });
        },
        None => {},
    }
    if !encoding_matches {
        return Err(PagePayloadError::EncodingMismatch);
    }
    let expected_sidecars: usize = if shape.sh_degree > 0 {
        splat_count
    } else {
        0
    };
    if shape.sidecars != expected_sidecars {
        return Err(
            PagePayloadError::SidecarCountMismatch {
                expected: expected_sidecars,
                actual: shape.sidecars,
            },
        );
    }
    Ok(())
}

/// A payload that passes validation fits its atlas slot: it is non-empty,
/// within the page capacity, and names only splats of the scene.
pub proof fn lemma_valid_payload_fits_slot(
    source_indices: Seq<u32>,
    shape: PayloadShape,
    scene_splat_count: nat,
    page_capacity: nat,
    encoding_matches: bool,
)
    requires
        payload_verdict(source_indices, shape, scene_splat_count, page_capacity, encoding_matches)
            is Ok,
    ensures
        1 <= source_indices.len() <= page_capacity,
        shape.packed_splats == source_indices.len(),
        shape.hot_records == source_indices.len(),
        encoding_matches,
        forall|j: int| 0 <= j < source_indices.len() ==> source_indices[j] < scene_splat_count,
        shape.sidecars == if shape.sh_degree > 0 {
            source_indices.len()
        } else {
            0
        },
{
    if exists|j: int| 0 <= j < source_indices.len() && source_indices[j] >= scene_splat_count {
        let j = choose|j: int| 0 <= j < source_indices.len() && source_indices[j] >= scene_splat_count;
        lemma_some_out_of_bounds(source_indices, scene_splat_count, j);
    }
}

/// A payload of a non-empty page within capacity whose packed splats or hot
/// records do not number its source indices is refused as a count mismatch
/// that reports all three counts, whatever else it holds.
pub proof fn lemma_counts_must_match_sources(
    source_indices: Seq<u32>,
    shape: PayloadShape,
    scene_splat_count: nat,
    page_capacity: nat,
    encoding_matches: bool,
)
    requires
        1 <= source_indices.len() <= page_capacity,
        shape.packed_splats != source_indices.len() || shape.hot_records != source_indices.len(),
    ensures
        payload_verdict(source_indices, shape, scene_splat_count, page_capacity, encoding_matches)
            == Err::<(), PagePayloadError>(
            PagePayloadError::CountMismatch {
                source_indices: source_indices.len() as usize,
                packed_splats: shape.packed_splats,
                hot_records: shape.hot_records,
            },
        ),
{
}

/// Which payloads are refused, and why: an empty page and a page over the
/// capacity first; then any source index outside the scene, named as the
/// first such index; a mismatched atlas encoding; and a sidecar count other
/// than one per splat with spherical harmonics (none without).
pub proof fn lemma_payload_refusals(
    source_indices: Seq<u32>,
    shape: PayloadShape,
    scene_splat_count: nat,
    page_capacity: nat,
    encoding_matches: bool,
)
    ensures
        source_indices.len() == 0 ==> payload_verdict(
            source_indices,
            shape,
            scene_splat_count,
            page_capacity,
            encoding_matches,
        ) == Err::<(), PagePayloadError>(PagePayloadError::EmptyPage),
        source_indices.len() > page_capacity && source_indices.len() > 0 ==> payload_verdict(
            source_indices,
            shape,
            scene_splat_count,
            page_capacity,
            encoding_matches,
        ) is Err,
        (exists|j: int| 0 <= j < source_indices.len() && source_indices[j] >= scene_splat_count)
            ==> payload_verdict(
            source_indices,
            shape,
            scene_splat_count,
            page_capacity,
            encoding_matches,
        ) is Err,
        !encoding_matches ==> payload_verdict(
            source_indices,
            shape,
            scene_splat_count,
            page_capacity,
            encoding_matches,
        ) is Err,
        shape.sh_degree > 0 && shape.sidecars != source_indices.len() ==> payload_verdict(
            source_indices,
            shape,
            scene_splat_count,
            page_capacity,
            encoding_matches,
        ) is Err,
        shape.sh_degree == 0 && shape.sidecars != 0 ==> payload_verdict(
            source_indices,
            shape,
            scene_splat_count,
            page_capacity,
            encoding_matches,
        ) is Err,
{
    if payload_verdict(source_indices, shape, scene_splat_count, page_capacity, encoding_matches)
        is Ok {
        lemma_valid_payload_fits_slot(
            source_indices,
            shape,
            scene_splat_count,
            page_capacity,
            encoding_matches,
        );
    }
}

proof fn lemma_some_out_of_bounds(indices: Seq<u32>, scene_splat_count: nat, j: int)
    requires
        0 <= j < indices.len(),
        indices[j] >= scene_splat_count,
    ensures
        first_out_of_bounds_spec(indices, scene_splat_count) is Some,
    decreases indices.len(),
{
    if indices[0] < scene_splat_count {
        assert(indices.drop_first()[j - 1] == indices[j]);
        lemma_some_out_of_bounds(indices.drop_first(), scene_splat_count, j - 1);
    }
}

} // verus!
