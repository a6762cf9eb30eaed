//! Residency vocabulary shared by the page atlases: the attribute level of
//! detail of a resident page and the token that addresses one atlas slot.

use crate::spatial_pages::PageId;
use vstd::prelude::*;

verus! {

/// Spherical-harmonics degree kept for a resident page.
#[derive(Debug, Clone, Copy, PartialEq, Eq, Structural, Hash)]
pub enum AttributeLod {
    Degree0,
    Degree1,
    Degree2,
    Degree3,
}

impl AttributeLod {
    /// The SH degree of the level of detail.
    pub open spec fn degree(self) -> u8 {
        match self {
            AttributeLod::Degree0 => 0,
            AttributeLod::Degree1 => 1,
            AttributeLod::Degree2 => 2,
            AttributeLod::Degree3 => 3,
        }
    }

    pub fn as_u8(self) -> (r: u8)
        ensures
            r == self.degree(),
    {
        match self {
            AttributeLod::Degree0 => 0,
            AttributeLod::Degree1 => 1,
            AttributeLod::Degree2 => 2,
            AttributeLod::Degree3 => 3,
        }
    }
}

/// Addresses one atlas slot for one page at one slot generation.
#[derive(Debug, Clone, Copy, PartialEq, Eq, Structural)]
pub struct AsyncPageToken {
    pub scene_revision: u64,
    pub page_id: PageId,
    pub slot: u32,
    pub slot_generation: u64,
}

/// What a slot does with a token that installs a page: `None` when the token
/// is stale, else the slot's generation once the token is accepted. An
/// occupied slot accepts only its own page at its own generation; an empty
/// slot accepts any token not older than itself and adopts its generation.
pub open spec fn install_admission(
    occupied: bool,
    generation: u64,
    page: Option<PageId>,
    token: AsyncPageToken,
) -> Option<u64> {
    if occupied {
        if generation == token.slot_generation && page == Some(token.page_id) {
            Some(generation)
        } else {
            None
        }
    } else if generation > token.slot_generation {
        None
    } else {
        Some(token.slot_generation)
    }
}

/// Whether a token may clear a slot: it must name the slot's page at the
/// slot's generation.
pub open spec fn clear_admission(generation: u64, page: Option<PageId>, token: AsyncPageToken) -> bool {
    generation == token.slot_generation && page == Some(token.page_id)
}

/// Generation of a slot after a clear: one more, saturating.
pub open spec fn next_generation(generation: u64) -> u64 {
    if generation == u64::MAX {
        u64::MAX
    } else {
        (generation + 1) as u64
    }
}

} // verus!
