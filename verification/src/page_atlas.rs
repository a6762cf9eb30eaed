//! CPU-side page atlas: a fixed table of slots, each holding at most one
//! packed spatial page, with attribute-byte accounting.
//!
//! A slot records the shape of its packed page (splat count and SH degree),
//! which is all the accounting reads; the packed records themselves are kept
//! by the caller.

use crate::packed_atlas::{
    DIRECT_DEGREE3_ATTRIBUTE_BYTES, FULL_DEGREE3_ATTRIBUTE_BYTES, HOT_RECORD_BYTES,
};
use crate::residency::{
    clear_admission, install_admission, next_generation, AsyncPageToken, AttributeLod,
};
use crate::spatial_pages::{names_page, PageId};
use vstd::prelude::*;

verus! {

/// Why a page-atlas operation was refused.
#[derive(Debug, Clone, Copy, PartialEq, Eq, Structural)]
pub enum PageAtlasError {
    SlotOutOfRange,
    StaleToken,
    PageTooLarge { splat_count: usize, page_capacity: usize },
    EmptyPage,
}

/// Splat count and SH degree of a packed page or scene.
#[derive(Debug, Clone, Copy, PartialEq, Eq, Structural)]
pub struct PackedSceneShape {
    pub splat_count: usize,
    pub sh_degree: u8,
}

/// Attribute bytes per splat at SH degree `sh_degree`: the hot record alone
/// at degree 0, the full degree-3 budget otherwise.
pub open spec fn attribute_bytes_per_splat_spec(sh_degree: u8) -> nat {
    if sh_degree == 0 {
        HOT_RECORD_BYTES as nat
    } else {
        FULL_DEGREE3_ATTRIBUTE_BYTES as nat
    }
}

impl PackedSceneShape {
    /// Attribute bytes of all splats, before order and scratch buffers.
    pub open spec fn attribute_bytes(self) -> nat {
        (self.splat_count as nat) * attribute_bytes_per_splat_spec(self.sh_degree)
    }

    pub fn attribute_bytes_per_splat(&self) -> (r: usize)
        ensures
            r == attribute_bytes_per_splat_spec(self.sh_degree),
            self.sh_degree == 0 ==> r == HOT_RECORD_BYTES,
            self.sh_degree >= 1 ==> r == FULL_DEGREE3_ATTRIBUTE_BYTES,
    {
        if self.sh_degree >= 3 {
            FULL_DEGREE3_ATTRIBUTE_BYTES
        } else if self.sh_degree == 0 {
            HOT_RECORD_BYTES
        } else {
            FULL_DEGREE3_ATTRIBUTE_BYTES
        }
    }

    pub fn total_attribute_bytes(&self) -> (r: u64)
        requires
            self.attribute_bytes() <= u64::MAX,
        ensures
            r == self.attribute_bytes(),
            self.sh_degree == 0 ==> r == self.splat_count * HOT_RECORD_BYTES,
            self.sh_degree >= 1 ==> r == self.splat_count * FULL_DEGREE3_ATTRIBUTE_BYTES,
    {
        let per_splat = self.attribute_bytes_per_splat();
        (self.splat_count as u64) * (per_splat as u64)
    }

    /// Attribute bytes that the direct path spends on `splat_count` splats.
    pub fn direct_degree3_attribute_bytes(splat_count: usize) -> (r: u64)
        requires
            splat_count * DIRECT_DEGREE3_ATTRIBUTE_BYTES <= u64::MAX,
        ensures
            r == splat_count * DIRECT_DEGREE3_ATTRIBUTE_BYTES,
    {
        (splat_count as u64) * (DIRECT_DEGREE3_ATTRIBUTE_BYTES as u64)
    }

    /// The shape once reduced to `lod`: the SH degree is capped by the LOD's.
    pub open spec fn with_lod(self, lod: AttributeLod) -> PackedSceneShape {
        PackedSceneShape {
            splat_count: self.splat_count,
            sh_degree: if lod.degree() < self.sh_degree {
                lod.degree()
            } else {
                self.sh_degree
            },
        }
    }

    pub fn apply_attribute_lod(&mut self, lod: AttributeLod)
        ensures
            *final(self) == old(self).with_lod(lod),
    {
        let degree = lod.as_u8();
        if degree < self.sh_degree {
            self.sh_degree = degree;
        }
    }
}

/// Every splat with spherical harmonics is charged the full degree-3
/// budget of 68 bytes, whatever its degree; only degree 0 costs the 20-byte
/// hot record alone. So a shape of degree 1 or 2 costs as much as the same
/// splats at degree 3, and more than at degree 0 whenever it has splats.
pub proof fn lemma_sh_splats_charge_the_full_budget(shape: PackedSceneShape)
    ensures
        shape.sh_degree >= 1 ==> shape.attribute_bytes() == shape.splat_count * 68,
        shape.sh_degree == 0 ==> shape.attribute_bytes() == shape.splat_count * 20,
        shape.sh_degree >= 1 ==> shape.attribute_bytes() == (PackedSceneShape {
            sh_degree: 3,
            ..shape
        }).attribute_bytes(),
        shape.sh_degree >= 1 && shape.splat_count > 0 ==> shape.attribute_bytes() > (
        PackedSceneShape { sh_degree: 0, ..shape }).attribute_bytes(),
{
    assert(shape.splat_count * 68 > shape.splat_count * 20 || shape.splat_count == 0)
        by (nonlinear_arith);
}

/// A slot holding a page with spherical harmonics is charged 68 bytes per
/// splat, and one holding a degree-0 page 20, whichever LOD it was reduced
/// to; an empty slot costs nothing.
pub proof fn lemma_slot_charge_follows_degree(slot: PageAtlasSlotCpu)
    ensures
        slot.packed matches Some(shape) ==> (shape.sh_degree >= 1 ==> slot.attribute_bytes_spec()
            == shape.splat_count * 68) && (shape.sh_degree == 0 ==> slot.attribute_bytes_spec()
            == shape.splat_count * 20),
        slot.packed is None ==> slot.attribute_bytes_spec() == 0,
{
    match slot.packed {
        Some(shape) => lemma_sh_splats_charge_the_full_budget(shape),
        None => {},
    }
}

/// Reducing a page to a LOD with spherical harmonics keeps its full charge.
pub proof fn lemma_lod_with_sh_keeps_the_full_charge(shape: PackedSceneShape, lod: AttributeLod)
    requires
        shape.sh_degree >= 1,
        lod != AttributeLod::Degree0,
    ensures
        shape.with_lod(lod).attribute_bytes() == shape.splat_count * 68,
        shape.with_lod(lod).attribute_bytes() == shape.attribute_bytes(),
{
    lemma_sh_splats_charge_the_full_budget(shape);
    lemma_sh_splats_charge_the_full_budget(shape.with_lod(lod));
}

/// Nominal attribute bytes per splat at a chosen LOD.
pub open spec fn attribute_bytes_for_lod_spec(lod: AttributeLod) -> nat {
    if lod == AttributeLod::Degree0 {
        HOT_RECORD_BYTES as nat
    } else {
        FULL_DEGREE3_ATTRIBUTE_BYTES as nat
    }
}

pub fn attribute_bytes_for_lod(lod: AttributeLod) -> (r: usize)
    ensures
        r == attribute_bytes_for_lod_spec(lod),
{
    match lod {
        AttributeLod::Degree0 => HOT_RECORD_BYTES,
        AttributeLod::Degree1 | AttributeLod::Degree2 | AttributeLod::Degree3 => {
            FULL_DEGREE3_ATTRIBUTE_BYTES
        },
    }
}

/// One slot of the CPU page atlas.
#[derive(Debug, Clone, Copy, PartialEq, Eq, Structural)]
pub struct PageAtlasSlotCpu {
    pub page_id: Option<PageId>,
    pub generation: u64,
    pub packed: Option<PackedSceneShape>,
    pub attribute_lod: AttributeLod,
}

/// An empty slot at `generation`.
pub open spec fn empty_slot(generation: u64) -> PageAtlasSlotCpu {
    PageAtlasSlotCpu {
        page_id: None,
        generation,
        packed: None,
        attribute_lod: AttributeLod::Degree0,
    }
}

impl PageAtlasSlotCpu {
    /// Attribute bytes of the packed page, zero when the slot is empty.
    pub open spec fn attribute_bytes_spec(self) -> nat {
        match self.packed {
            Some(shape) => shape.attribute_bytes(),
            None => 0,
        }
    }

    fn empty(generation: u64) -> (r: Self)
        ensures
            r == empty_slot(generation),
    {
        PageAtlasSlotCpu {
            page_id: None,
            generation,
            packed: None,
            attribute_lod: AttributeLod::Degree0,
        }
    }

    pub fn is_occupied(&self) -> (r: bool)
        ensures
            r == self.packed is Some,
    {
        self.packed.is_some()
    }

    pub fn attribute_bytes(&self) -> (r: u64)
        requires
            self.attribute_bytes_spec() <= u64::MAX,
        ensures
            r == self.attribute_bytes_spec(),
    {
        match &self.packed {
            Some(shape) => shape.total_attribute_bytes(),
            None => 0,
        }
    }
}

/// Mathematical model of the CPU page atlas.
pub struct PageAtlasView {
    pub page_capacity: nat,
    pub slots: Seq<PageAtlasSlotCpu>,
}

/// Invariant: at least one slot, and every packed page fits its slot.
pub open spec fn page_atlas_wf(v: PageAtlasView) -> bool {
    &&& v.page_capacity >= 1
    &&& v.slots.len() >= 1
    &&& forall|s: int|
        0 <= s < v.slots.len() ==> ((#[trigger] v.slots[s]).packed matches Some(shape)
            ==> shape.splat_count <= v.page_capacity)
}

/// Atlas after installing a page of shape `packed` at `lod` through `token`.
/// A slot that admits the token adopts the token's generation even when the
/// page is then refused.
pub open spec fn install_spec(
    v: PageAtlasView,
    token: AsyncPageToken,
    packed: PackedSceneShape,
    lod: AttributeLod,
) -> (PageAtlasView, Result<(), PageAtlasError>) {
    let s = token.slot as int;
    if s >= v.slots.len() {
        (v, Err(PageAtlasError::SlotOutOfRange))
    } else {
        let slot = v.slots[s];
        match install_admission(slot.packed is Some, slot.generation, slot.page_id, token) {
            None => (v, Err(PageAtlasError::StaleToken)),
            Some(generation) => {
                let adopted = PageAtlasView {
                    slots: v.slots.update(s, PageAtlasSlotCpu { generation, ..slot }),
                    ..v
                };
                if packed.splat_count == 0 {
                    (adopted, Err(PageAtlasError::EmptyPage))
                } else if packed.splat_count > v.page_capacity {
                    (
                        adopted,
                        Err(
                            PageAtlasError::PageTooLarge {
                                splat_count: packed.splat_count,
                                page_capacity: v.page_capacity as usize,
                            },
                        ),
                    )
                } else {
                    (
                        PageAtlasView {
                            slots: v.slots.update(
                                s,
                                PageAtlasSlotCpu {
                                    page_id: Some(token.page_id),
                                    generation,
                                    packed: Some(packed.with_lod(lod)),
                                    attribute_lod: lod,
                                },
                            ),
                            ..v
                        },
                        Ok(()),
                    )
                }
            },
        }
    }
}

/// Atlas after clearing the slot of `token`.
pub open spec fn clear_slot_spec(v: PageAtlasView, token: AsyncPageToken) -> (
    PageAtlasView,
    Result<(), PageAtlasError>,
) {
    let s = token.slot as int;
    if s >= v.slots.len() {
        (v, Err(PageAtlasError::SlotOutOfRange))
    } else if !clear_admission(v.slots[s].generation, v.slots[s].page_id, token) {
        (v, Err(PageAtlasError::StaleToken))
    } else {
        (
            PageAtlasView {
                slots: v.slots.update(s, empty_slot(next_generation(v.slots[s].generation))),
                ..v
            },
            Ok(()),
        )
    }
}

/// Occupied slots below `n`.
pub open spec fn atlas_occupied_below(v: PageAtlasView, n: int) -> nat
    decreases n,
{
    if n <= 0 {
        0
    } else {
        atlas_occupied_below(v, n - 1) + if v.slots[n - 1].packed is Some {
            1nat
        } else {
            0
        }
    }
}

/// Attribute bytes of the slots below `n`.
pub open spec fn atlas_bytes_below(v: PageAtlasView, n: int) -> nat
    decreases n,
{
    if n <= 0 {
        0
    } else {
        atlas_bytes_below(v, n - 1) + v.slots[n - 1].attribute_bytes_spec()
    }
}

/// Resident splats of the slots below `n`.
pub open spec fn atlas_splats_below(v: PageAtlasView, n: int) -> nat
    decreases n,
{
    if n <= 0 {
        0
    } else {
        atlas_splats_below(v, n - 1) + match v.slots[n - 1].packed {
            Some(shape) => shape.splat_count as nat,
            None => 0,
        }
    }
}

proof fn lemma_atlas_sums_monotone(v: PageAtlasView, i: int, n: int)
    requires
        0 <= i <= n <= v.slots.len(),
    ensures
        atlas_bytes_below(v, i) <= atlas_bytes_below(v, n),
        atlas_splats_below(v, i) <= atlas_splats_below(v, n),
        atlas_occupied_below(v, i) <= atlas_occupied_below(v, n),
        atlas_occupied_below(v, n) <= n,
    decreases n,
{
    if n > 0 {
        if i < n {
            lemma_atlas_sums_monotone(v, i, n - 1);
        } else {
            lemma_atlas_sums_monotone(v, n - 1, n - 1);
        }
    }
}

/// Fixed slot table holding packed page shapes on the CPU.
pub struct PageAtlasCpu {
    page_capacity: usize,
    slots: Vec<PageAtlasSlotCpu>,
}

impl View for PageAtlasCpu {
    type V = PageAtlasView;

    closed spec fn view(&self) -> PageAtlasView {
        PageAtlasView { page_capacity: self.page_capacity as nat, slots: self.slots@ }
    }
}

impl PageAtlasCpu {
    pub open spec fn wf(&self) -> bool {
        page_atlas_wf(self@)
    }

    /// `max(slot_count, 1)` empty slots at generation 1, each for pages of at
    /// most `max(page_capacity, 1)` splats.
    pub fn new(slot_count: usize, page_capacity: usize) -> (r: Self)
        ensures
            r.wf(),
            r@.page_capacity == if page_capacity == 0 {
                1
            } else {
                page_capacity as int
            },
            r@.slots == Seq::new(
                if slot_count == 0 {
                    1
                } else {
                    slot_count as nat
                },
                |i: int| empty_slot(1),
            ),
    {
        let slot_count: usize = if slot_count == 0 {
            1
        } else {
            slot_count
        };
        let page_capacity: usize = if page_capacity == 0 {
            1
        } else {
            page_capacity
        };
        let mut slots: Vec<PageAtlasSlotCpu> = Vec::new();
        let mut i: usize = 0;
        while i < slot_count
            invariant
                i <= slot_count,
                slots@.len() == i,
                forall|j: int| 0 <= j < i ==> #[trigger] slots@[j] == empty_slot(1),
            decreases slot_count - i,
        {
            slots.push(PageAtlasSlotCpu::empty(1));
            i += 1;
        }
        let atlas = PageAtlasCpu { page_capacity, slots };
        assert(atlas@.slots =~= Seq::new(slot_count as nat, |i: int| empty_slot(1)));
        atlas
    }

    pub fn page_capacity(&self) -> (r: usize)
        ensures
            r == self@.page_capacity,
    {
        self.page_capacity
    }

    pub fn slot_count(&self) -> (r: usize)
        ensures
            r == self@.slots.len(),
    {
        self.slots.len()
    }

    pub fn slot(&self, index: u32) -> (r: Option<&PageAtlasSlotCpu>)
        ensures
            index < self@.slots.len() ==> r == Some(&self@.slots[index as int]),
            index >= self@.slots.len() ==> r is None,
    {
        let i = index as usize;
        if i < self.slots.len() {
            Some(&self.slots[i])
        } else {
            None
        }
    }

    pub fn occupied_count(&self) -> (r: usize)
        ensures
            r == atlas_occupied_below(self@, self@.slots.len() as int),
    {
        let mut count: usize = 0;
        let mut i: usize = 0;
        while i < self.slots.len()
            invariant
                i <= self.slots@.len(),
                self@.slots == self.slots@,
                count == atlas_occupied_below(self@, i as int),
            decreases self.slots@.len() - i,
        {
            proof {
                lemma_atlas_sums_monotone(self@, i as int, i as int);
            }
            if self.slots[i].is_occupied() {
                count += 1;
            }
            i += 1;
        }
        count
    }

    /// Attribute bytes of every resident page; the sum must fit in `u64`.
    pub fn total_attribute_bytes(&self) -> (r: u64)
        requires
            atlas_bytes_below(self@, self@.slots.len() as int) <= u64::MAX,
        ensures
            r == atlas_bytes_below(self@, self@.slots.len() as int),
    {
        let mut total: u64 = 0;
        let mut i: usize = 0;
        while i < self.slots.len()
            invariant
                i <= self.slots@.len(),
                self@.slots == self.slots@,
                atlas_bytes_below(self@, self@.slots.len() as int) <= u64::MAX,
                total == atlas_bytes_below(self@, i as int),
            decreases self.slots@.len() - i,
        {
            proof {
                lemma_atlas_sums_monotone(self@, i as int + 1, self@.slots.len() as int);
            }
            let bytes = self.slots[i].attribute_bytes();
            total = total + bytes;
            i += 1;
        }
        total
    }

    /// Splats of every resident page; the sum must fit in `usize`.
    pub fn total_resident_splats(&self) -> (r: usize)
        requires
            atlas_splats_below(self@, self@.slots.len() as int) <= usize::MAX,
        ensures
            r == atlas_splats_below(self@, self@.slots.len() as int),
    {
        let mut total: usize = 0;
        let mut i: usize = 0;
        while i < self.slots.len()
            invariant
                i <= self.slots@.len(),
                self@.slots == self.slots@,
                atlas_splats_below(self@, self@.slots.len() as int) <= usize::MAX,
                total == atlas_splats_below(self@, i as int),
            decreases self.slots@.len() - i,
        {
            proof {
                lemma_atlas_sums_monotone(self@, i as int + 1, self@.slots.len() as int);
            }
            match &self.slots[i].packed {
                Some(shape) => {
                    total = total + shape.splat_count;
                },
                None => {},
            }
            i += 1;
        }
        total
    }

    /// Installs a page packed as `packed`, reduced to `attribute_lod`, in the
    /// slot of `token`.
    pub fn install_page(
        &mut self,
        token: AsyncPageToken,
        packed: PackedSceneShape,
        attribute_lod: AttributeLod,
    ) -> (r: Result<(), PageAtlasError>)
        requires
            old(self).wf(),
        ensures
            final(self).wf(),
            (final(self)@, r) == install_spec(old(self)@, token, packed, attribute_lod),
    {
        let ghost v = self@;
        let s = token.slot as usize;
        if s >= self.slots.len() {
            return Err(PageAtlasError::SlotOutOfRange);
        }
        let slot = self.slots[s];
        if slot.packed.is_some() {
            if slot.generation != token.slot_generation || !names_page(slot.page_id, token.page_id) {
                return Err(PageAtlasError::StaleToken);
            }
        } else if slot.generation > token.slot_generation {
            return Err(PageAtlasError::StaleToken);
        } else {
            self.slots.set(s, PageAtlasSlotCpu { generation: token.slot_generation, ..slot });
        }
        let generation = self.slots[s].generation;
        proof {
            let g = install_admission(slot.packed is Some, slot.generation, slot.page_id, token)->0;
            assert(generation == g);
            assert(self@.slots =~= v.slots.update(s as int, PageAtlasSlotCpu { generation: g, ..slot }));
        }
        if packed.splat_count == 0 {
            return Err(PageAtlasError::EmptyPage);
        }
        if packed.splat_count > self.page_capacity {
            return Err(
                PageAtlasError::PageTooLarge {
                    splat_count: packed.splat_count,
                    page_capacity: self.page_capacity,
                },
            );
        }
        let mut shape = packed;
        shape.apply_attribute_lod(attribute_lod);
        self.slots.set(
            s,
            PageAtlasSlotCpu {
                page_id: Some(token.page_id),
                generation,
                packed: Some(shape),
                attribute_lod,
            },
        );
        proof {
            assert(self@.slots =~= install_spec(v, token, packed, attribute_lod).0.slots);
        }
        Ok(())
    }

    /// Empties the slot of `token` and bumps its generation.
    pub fn clear_slot(&mut self, token: AsyncPageToken) -> (r: Result<(), PageAtlasError>)
        requires
            old(self).wf(),
        ensures
            final(self).wf(),
            (final(self)@, r) == clear_slot_spec(old(self)@, token),
    {
        let ghost v = self@;
        let s = token.slot as usize;
        if s >= self.slots.len() {
            return Err(PageAtlasError::SlotOutOfRange);
        }
        let slot = self.slots[s];
        if slot.generation != token.slot_generation {
            return Err(PageAtlasError::StaleToken);
        }
        if !names_page(slot.page_id, token.page_id) {
            return Err(PageAtlasError::StaleToken);
        }
        self.slots.set(s, PageAtlasSlotCpu::empty(slot.generation.saturating_add(1)));
        proof {
            assert(self@.slots =~= clear_slot_spec(v, token).0.slots);
        }
        Ok(())
    }
}

/// A successful install leaves the token's page in its slot at the token's
/// generation, reduced to the requested LOD.
pub proof fn lemma_install_places_page(
    v: PageAtlasView,
    token: AsyncPageToken,
    packed: PackedSceneShape,
    lod: AttributeLod,
)
    requires
        page_atlas_wf(v),
        install_spec(v, token, packed, lod).1 is Ok,
    ensures
        ({
            let slot = install_spec(v, token, packed, lod).0.slots[token.slot as int];
            &&& slot.page_id == Some(token.page_id)
            &&& slot.generation == token.slot_generation
            &&& slot.packed == Some(packed.with_lod(lod))
            &&& slot.attribute_lod == lod
        }),
{
}

/// After a token clears its slot, installing or clearing with that same token
/// is refused as stale.
pub proof fn lemma_cleared_install_is_stale(
    v: PageAtlasView,
    token: AsyncPageToken,
    packed: PackedSceneShape,
    lod: AttributeLod,
)
    requires
        page_atlas_wf(v),
        clear_slot_spec(v, token).1 is Ok,
        token.slot_generation < u64::MAX,
    ensures
        install_spec(clear_slot_spec(v, token).0, token, packed, lod).1 == Err::<(), PageAtlasError>(
            PageAtlasError::StaleToken,
        ),
        clear_slot_spec(clear_slot_spec(v, token).0, token).1 == Err::<(), PageAtlasError>(
            PageAtlasError::StaleToken,
        ),
{
}

/// Who may use a slot: a token older than the slot's generation can neither
/// install nor clear; an occupied slot refuses an install naming another page
/// or another generation; and a clear succeeds exactly for the slot's own page
/// at the slot's own generation.
pub proof fn lemma_atlas_slot_admission(
    v: PageAtlasView,
    token: AsyncPageToken,
    packed: PackedSceneShape,
    lod: AttributeLod,
)
    requires
        page_atlas_wf(v),
        (token.slot as int) < v.slots.len(),
    ensures
        ({
            let slot = v.slots[token.slot as int];
            &&& token.slot_generation < slot.generation ==> install_spec(v, token, packed, lod).1
                == Err::<(), PageAtlasError>(PageAtlasError::StaleToken) && clear_slot_spec(
                v,
                token,
            ).1 == Err::<(), PageAtlasError>(PageAtlasError::StaleToken)
            &&& slot.packed is Some && (slot.page_id != Some(token.page_id) || slot.generation
                != token.slot_generation) ==> install_spec(v, token, packed, lod).1 == Err::<
                (),
                PageAtlasError,
            >(PageAtlasError::StaleToken)
            &&& (clear_slot_spec(v, token).1 is Ok <==> (slot.page_id == Some(token.page_id)
                && slot.generation == token.slot_generation))
        }),
{
}

/// A page at degree-0 LOD costs exactly one hot record per splat.
pub proof fn lemma_degree0_costs_hot_record(packed: PackedSceneShape)
    ensures
        packed.with_lod(AttributeLod::Degree0).attribute_bytes() == packed.splat_count
            * HOT_RECORD_BYTES,
        attribute_bytes_for_lod_spec(AttributeLod::Degree0) == HOT_RECORD_BYTES,
{
}

} // verus!
