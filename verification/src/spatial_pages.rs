//! Identity of a spatial page of the scene.

use vstd::prelude::*;

verus! {

/// Identifier of one spatial page.
#[derive(Debug, Clone, Copy, PartialEq, Eq, Structural, Hash, PartialOrd, Ord)]
pub struct PageId(pub u32);

/// Whether an optional page identity names `page`.
pub fn names_page(slot_page: Option<PageId>, page: PageId) -> (r: bool)
    ensures
        r == (slot_page == Some(page)),
{
    match slot_page {
        Some(id) => id.0 == page.0,
        None => false,
    }
}

} // verus!
