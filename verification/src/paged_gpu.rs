//! Slot bookkeeping of the fixed-capacity GPU atlas that hosts resident
//! spatial pages.
//!
//! Each atlas slot spans `page_capacity` hot records starting at
//! `slot * page_capacity`. A page enters a slot only with a token that the
//! slot admits, and a clear bumps the slot's generation so that every token
//! of the cleared page is stale from then on. The GPU writes themselves are
//! made by the caller at the record offsets these methods return.

use crate::residency::{
    clear_admission, install_admission, next_generation, AsyncPageToken,
};
use crate::spatial_pages::{names_page, PageId};
use vstd::prelude::*;

verus! {

/// Why a paged-atlas operation was refused.
#[derive(Debug, Clone, Copy, PartialEq, Eq, Structural)]
pub enum PagedGpuError {
    /// `slot_count * page_capacity` records do not fit in `usize`.
    CapacityExceeded,
    SlotOutOfRange,
    StaleToken,
    PageTooLarge { splat_count: usize, page_capacity: usize },
    EmptyPage,
}

/// What the atlas knows of one slot.
#[derive(Debug, Clone, Copy, PartialEq, Eq, Structural)]
pub struct GpuSlotMeta {
    pub page_id: Option<PageId>,
    pub generation: u64,
    pub splat_count: usize,
}

impl GpuSlotMeta {
    /// A slot holds a page when it names one with at least one splat.
    pub open spec fn occupied(self) -> bool {
        self.page_id is Some && self.splat_count > 0
    }

    pub fn empty(generation: u64) -> (r: Self)
        ensures
            r == (GpuSlotMeta { page_id: None, generation, splat_count: 0 }),
    {
        GpuSlotMeta { page_id: None, generation, splat_count: 0 }
    }

    pub fn is_occupied(&self) -> (r: bool)
        ensures
            r == self.occupied(),
    {
        self.page_id.is_some() && self.splat_count > 0
    }
}

/// Mathematical model of the slot table.
pub struct PagedSlotsView {
    pub page_capacity: nat,
    pub metas: Seq<GpuSlotMeta>,
    /// Scene splat indices of the page in each slot.
    pub indices: Seq<Seq<u32>>,
}

/// Invariant of the slot table: every slot fits its page, its indices list
/// its splats, and the whole atlas is addressable.
pub open spec fn paged_slots_wf(v: PagedSlotsView) -> bool {
    &&& v.page_capacity >= 1
    &&& v.metas.len() >= 1
    &&& v.metas.len() == v.indices.len()
    &&& v.metas.len() * v.page_capacity <= usize::MAX
    &&& forall|s: int|
        0 <= s < v.metas.len() ==> {
            &&& #[trigger] v.metas[s].splat_count <= v.page_capacity
            &&& (v.metas[s].page_id is Some <==> v.metas[s].splat_count > 0)
            &&& v.indices[s].len() == v.metas[s].splat_count
        }
}

/// Whether `token` addresses a slot that currently holds its page at its
/// generation.
pub open spec fn contains_token_spec(v: PagedSlotsView, token: AsyncPageToken) -> bool {
    let s = token.slot as int;
    &&& s < v.metas.len()
    &&& v.metas[s].occupied()
    &&& v.metas[s].page_id == Some(token.page_id)
    &&& v.metas[s].generation == token.slot_generation
}

/// Table after an upload of the page whose splats are `splat_indices`, and
/// the first hot record of its slot. A slot that admits the token adopts the
/// token's generation even when the page is then refused.
pub open spec fn upload_spec(
    v: PagedSlotsView,
    token: AsyncPageToken,
    splat_indices: Seq<u32>,
) -> (PagedSlotsView, Result<usize, PagedGpuError>) {
    let s = token.slot as int;
    if s >= v.metas.len() {
        (v, Err(PagedGpuError::SlotOutOfRange))
    } else {
        let meta = v.metas[s];
        match install_admission(meta.occupied(), meta.generation, meta.page_id, token) {
            None => (v, Err(PagedGpuError::StaleToken)),
            Some(generation) => {
                let adopted = PagedSlotsView {
                    metas: v.metas.update(s, GpuSlotMeta { generation, ..meta }),
                    ..v
                };
                if splat_indices.len() == 0 {
                    (adopted, Err(PagedGpuError::EmptyPage))
                } else if splat_indices.len() > v.page_capacity {
                    (
                        adopted,
                        Err(
                            PagedGpuError::PageTooLarge {
                                splat_count: splat_indices.len() as usize,
                                page_capacity: v.page_capacity as usize,
                            },
                        ),
                    )
                } else {
                    (
                        PagedSlotsView {
                            page_capacity: v.page_capacity,
                            metas: v.metas.update(
                                s,
                                GpuSlotMeta {
                                    page_id: Some(token.page_id),
                                    generation: token.slot_generation,
                                    splat_count: splat_indices.len() as usize,
                                },
                            ),
                            indices: v.indices.update(s, splat_indices),
                        },
                        Ok((s * v.page_capacity) as usize),
                    )
                }
            },
        }
    }
}

/// Table after clearing the slot of `token`, and the first hot record of
/// that slot.
pub open spec fn clear_spec(v: PagedSlotsView, token: AsyncPageToken) -> (
    PagedSlotsView,
    Result<usize, PagedGpuError>,
) {
    let s = token.slot as int;
    if s >= v.metas.len() {
        (v, Err(PagedGpuError::SlotOutOfRange))
    } else if !clear_admission(v.metas[s].generation, v.metas[s].page_id, token) {
        (v, Err(PagedGpuError::StaleToken))
    } else {
        (
            PagedSlotsView {
                page_capacity: v.page_capacity,
                metas: v.metas.update(
                    s,
                    GpuSlotMeta {
                        page_id: None,
                        generation: next_generation(v.metas[s].generation),
                        splat_count: 0,
                    },
                ),
                indices: v.indices.update(s, Seq::empty()),
            },
            Ok((s * v.page_capacity) as usize),
        )
    }
}

/// `(global atlas index, scene splat index)` pairs of the splats in slot `s`.
/// A global index is the record offset taken modulo `2^32`.
pub open spec fn slot_entries(v: PagedSlotsView, s: int) -> Seq<(u32, u32)> {
    if v.metas[s].occupied() {
        Seq::new(
            v.metas[s].splat_count as nat,
            |l: int| (((s * v.page_capacity + l) as u32), v.indices[s][l]),
        )
    } else {
        Seq::empty()
    }
}

/// Entries of the slots below `n`, in slot order.
pub open spec fn entries_below(v: PagedSlotsView, n: int) -> Seq<(u32, u32)>
    decreases n,
{
    if n <= 0 {
        Seq::empty()
    } else {
        entries_below(v, n - 1) + slot_entries(v, n - 1)
    }
}

/// Splats held by the occupied slots below `n`.
pub open spec fn splats_below(v: PagedSlotsView, n: int) -> nat
    decreases n,
{
    if n <= 0 {
        0
    } else {
        splats_below(v, n - 1) + if v.metas[n - 1].occupied() {
            v.metas[n - 1].splat_count as nat
        } else {
            0
        }
    }
}

/// Occupied slots below `n`.
pub open spec fn occupied_below(v: PagedSlotsView, n: int) -> nat
    decreases n,
{
    if n <= 0 {
        0
    } else {
        occupied_below(v, n - 1) + if v.metas[n - 1].occupied() {
            1nat
        } else {
            0
        }
    }
}

proof fn lemma_splats_below_bound(v: PagedSlotsView, n: int)
    requires
        paged_slots_wf(v),
        0 <= n <= v.metas.len(),
    ensures
        splats_below(v, n) <= n * v.page_capacity,
    decreases n,
{
    if n > 0 {
        lemma_splats_below_bound(v, n - 1);
        assert(v.metas[n - 1].splat_count <= v.page_capacity);
        assert(n * v.page_capacity == (n - 1) * v.page_capacity + v.page_capacity) by (nonlinear_arith);
    }
}

proof fn lemma_occupied_below_bound(v: PagedSlotsView, n: int)
    requires
        0 <= n,
    ensures
        occupied_below(v, n) <= n,
    decreases n,
{
    if n > 0 {
        lemma_occupied_below_bound(v, n - 1);
    }
}

proof fn lemma_slot_base_fits(v: PagedSlotsView, s: int, l: int)
    requires
        paged_slots_wf(v),
        0 <= s < v.metas.len(),
        0 <= l <= v.page_capacity,
    ensures
        s * v.page_capacity + l <= v.metas.len() * v.page_capacity,
        0 <= s * v.page_capacity,
{
    assert(s * v.page_capacity + v.page_capacity <= v.metas.len() * v.page_capacity)
        by (nonlinear_arith)
        requires
            s + 1 <= v.metas.len(),
            v.page_capacity >= 1,
    ;
    assert(0 <= s * v.page_capacity) by (nonlinear_arith)
        requires
            0 <= s,
            v.page_capacity >= 1,
    ;
}

/// Fixed slot table of the paged GPU atlas.
pub struct PagedAtlasSlots {
    page_capacity: usize,
    slot_meta: Vec<GpuSlotMeta>,
    slot_scene_indices: Vec<Vec<u32>>,
}

impl View for PagedAtlasSlots {
    type V = PagedSlotsView;

    closed spec fn view(&self) -> PagedSlotsView {
        PagedSlotsView {
            page_capacity: self.page_capacity as nat,
            metas: self.slot_meta@,
            indices: self.slot_scene_indices@.map_values(|v: Vec<u32>| v@),
        }
    }
}

impl PagedAtlasSlots {
    pub open spec fn wf(&self) -> bool {
        paged_slots_wf(self@)
    }

    /// A table of `max(slot_count, 1)` empty slots of `max(page_capacity, 1)`
    /// records each, at generation 1; refused when the records of all slots
    /// do not fit in `usize`.
    pub fn new(slot_count: usize, page_capacity: usize) -> (r: Result<Self, PagedGpuError>)
        ensures
            ({
                let n: int = if slot_count == 0 { 1 } else { slot_count as int };
                let c: int = if page_capacity == 0 { 1 } else { page_capacity as int };
                match r {
                    Ok(t) => {
                        &&& n * c <= usize::MAX
                        &&& t.wf()
                        &&& t@.page_capacity == c
                        &&& t@.metas == Seq::new(
                            n as nat,
                            |i: int| GpuSlotMeta { page_id: None, generation: 1, splat_count: 0 },
                        )
                    },
                    Err(e) => e == PagedGpuError::CapacityExceeded && n * c > usize::MAX,
                }
            }),
    {
        let slot_count: usize = if slot_count == 0 {
            1
        } else {
            slot_count
        };
        let page_capacity: usize = if page_capacity == 0 {
            1
        } else {
            page_capacity
        };
        if slot_count.checked_mul(page_capacity).is_none() {
            return Err(PagedGpuError::CapacityExceeded);
        }
        let mut slot_meta: Vec<GpuSlotMeta> = Vec::new();
        let mut slot_scene_indices: Vec<Vec<u32>> = Vec::new();
        let mut i: usize = 0;
        while i < slot_count
            invariant
                i <= slot_count,
                slot_meta@.len() == i,
                slot_scene_indices@.len() == i,
                forall|j: int|
                    0 <= j < i ==> #[trigger] slot_meta@[j] == (GpuSlotMeta {
                        page_id: None,
                        generation: 1,
                        splat_count: 0,
                    }),
                forall|j: int| 0 <= j < i ==> (#[trigger] slot_scene_indices@[j])@.len() == 0,
            decreases slot_count - i,
        {
            slot_meta.push(GpuSlotMeta::empty(1));
            slot_scene_indices.push(Vec::new());
            i += 1;
        }
        let table = PagedAtlasSlots { page_capacity, slot_meta, slot_scene_indices };
        assert(table@.metas =~= Seq::new(
            slot_count as nat,
            |i: int| GpuSlotMeta { page_id: None, generation: 1, splat_count: 0 },
        ));
        Ok(table)
    }

    pub fn page_capacity(&self) -> (r: usize)
        ensures
            r == self@.page_capacity,
    {
        self.page_capacity
    }

    pub fn slot_count(&self) -> (r: usize)
        ensures
            r == self@.metas.len(),
    {
        self.slot_meta.len()
    }

    pub fn occupied_slot_count(&self) -> (r: usize)
        requires
            self.wf(),
        ensures
            r == occupied_below(self@, self@.metas.len() as int),
    {
        let mut count: usize = 0;
        let mut i: usize = 0;
        while i < self.slot_meta.len()
            invariant
                i <= self.slot_meta@.len(),
                count == occupied_below(self@, i as int),
                self@.metas == self.slot_meta@,
            decreases self.slot_meta@.len() - i,
        {
            proof {
                lemma_occupied_below_bound(self@, i as int);
            }
            if self.slot_meta[i].is_occupied() {
                count += 1;
            }
            i += 1;
        }
        count
    }

    pub fn contains_token(&self, token: AsyncPageToken) -> (r: bool)
        ensures
            r == contains_token_spec(self@, token),
    {
        let s = token.slot as usize;
        if s >= self.slot_meta.len() {
            return false;
        }
        let meta = self.slot_meta[s];
        meta.is_occupied() && names_page(meta.page_id, token.page_id) && meta.generation
            == token.slot_generation
    }

    pub fn resident_splat_count(&self) -> (r: usize)
        requires
            self.wf(),
        ensures
            r == splats_below(self@, self@.metas.len() as int),
    {
        let mut total: usize = 0;
        let mut i: usize = 0;
        while i < self.slot_meta.len()
            invariant
                paged_slots_wf(self@),
                i <= self.slot_meta@.len(),
                total == splats_below(self@, i as int),
                self@.metas == self.slot_meta@,
            decreases self.slot_meta@.len() - i,
        {
            proof {
                lemma_splats_below_bound(self@, i as int + 1);
                assert((i + 1) * self@.page_capacity <= self@.metas.len() * self@.page_capacity)
                    by (nonlinear_arith)
                    requires
                        i + 1 <= self@.metas.len(),
                ;
            }
            let meta = self.slot_meta[i];
            if meta.is_occupied() {
                total += meta.splat_count;
            }
            i += 1;
        }
        total
    }

    /// `(global atlas index, scene splat index)` pairs of every resident
    /// splat, slot by slot.
    pub fn active_entries(&self) -> (r: Vec<(u32, u32)>)
        requires
            self.wf(),
        ensures
            r@ == entries_below(self@, self@.metas.len() as int),
    {
        let mut entries: Vec<(u32, u32)> = Vec::new();
        let mut slot: usize = 0;
        while slot < self.slot_meta.len()
            invariant
                paged_slots_wf(self@),
                slot <= self.slot_meta@.len(),
                self@.metas == self.slot_meta@,
                self@.page_capacity == self.page_capacity,
                self.slot_meta@.len() == self.slot_scene_indices@.len(),
                entries@ == entries_below(self@, slot as int),
            decreases self.slot_meta@.len() - slot,
        {
            let meta = self.slot_meta[slot];
            if meta.is_occupied() {
                let scene_indices = &self.slot_scene_indices[slot];
                proof {
                    assert(self@.indices[slot as int] == scene_indices@);
                    lemma_slot_base_fits(self@, slot as int, self@.page_capacity as int);
                }
                let base: usize = slot * self.page_capacity;
                let ghost before = entries@;
                let mut local: usize = 0;
                while local < meta.splat_count
                    invariant
                        paged_slots_wf(self@),
                        slot < self.slot_meta@.len(),
                        meta == self@.metas[slot as int],
                        meta.occupied(),
                        scene_indices@ == self@.indices[slot as int],
                        base == slot * self@.page_capacity,
                        local <= meta.splat_count,
                        self@.page_capacity == self.page_capacity,
                        entries@ == before + slot_entries(self@, slot as int).take(local as int),
                    decreases meta.splat_count - local,
                {
                    proof {
                        lemma_slot_base_fits(self@, slot as int, local as int);
                    }
                    let global: usize = base + local;
                    let entry: (u32, u32) = (global as u32, scene_indices[local]);
                    entries.push(entry);
                    proof {
                        assert(slot_entries(self@, slot as int).take(local as int + 1)
                            =~= slot_entries(self@, slot as int).take(local as int).push(entry));
                    }
                    local += 1;
                }
                proof {
                    assert(slot_entries(self@, slot as int).take(local as int) =~= slot_entries(
                        self@,
                        slot as int,
                    ));
                }
            } else {
                proof {
                    assert(entries_below(self@, slot as int + 1) =~= entries_below(
                        self@,
                        slot as int,
                    ));
                }
            }
            slot += 1;
        }
        entries
    }

    /// Global atlas indices of every resident splat, in the order of
    /// [`Self::active_entries`].
    pub fn active_global_indices(&self) -> (r: Vec<u32>)
        requires
            self.wf(),
        ensures
            r@ == entries_below(self@, self@.metas.len() as int).map_values(
                |e: (u32, u32)| e.0,
            ),
    {
        let entries = self.active_entries();
        let mut globals: Vec<u32> = Vec::new();
        let mut i: usize = 0;
        while i < entries.len()
            invariant
                i <= entries@.len(),
                globals@ == entries@.take(i as int).map_values(|e: (u32, u32)| e.0),
            decreases entries@.len() - i,
        {
            globals.push(entries[i].0);
            proof {
                assert(entries@.take(i as int + 1).map_values(|e: (u32, u32)| e.0)
                    =~= entries@.take(i as int).map_values(|e: (u32, u32)| e.0).push(
                    entries@[i as int].0,
                ));
            }
            i += 1;
        }
        proof {
            assert(entries@.take(i as int) =~= entries@);
        }
        globals
    }

    /// Installs the page whose scene splats are `splat_indices` in the slot
    /// of `token`, and returns the first hot record of that slot, where the
    /// caller writes the packed page after clearing `page_capacity` records.
    pub fn upload_page(&mut self, token: AsyncPageToken, splat_indices: Vec<u32>) -> (r: Result<
        usize,
        PagedGpuError,
    >)
        requires
            old(self).wf(),
        ensures
            final(self).wf(),
            (final(self)@, r) == upload_spec(old(self)@, token, splat_indices@),
    {
        let ghost v = self@;
        let s = token.slot as usize;
        if s >= self.slot_meta.len() {
            return Err(PagedGpuError::SlotOutOfRange);
        }
        let meta = self.slot_meta[s];
        if meta.is_occupied() {
            if meta.generation != token.slot_generation || !names_page(meta.page_id, token.page_id) {
                return Err(PagedGpuError::StaleToken);
            }
        } else if meta.generation > token.slot_generation {
            return Err(PagedGpuError::StaleToken);
        } else {
            self.slot_meta.set(s, GpuSlotMeta { generation: token.slot_generation, ..meta });
        }
        proof {
            let g = install_admission(meta.occupied(), meta.generation, meta.page_id, token)->0;
            assert(self@.indices =~= v.indices);
            assert(self@.metas =~= v.metas.update(s as int, GpuSlotMeta { generation: g, ..meta }));
        }
        let count = splat_indices.len();
        if count == 0 {
            return Err(PagedGpuError::EmptyPage);
        }
        if count > self.page_capacity {
            return Err(
                PagedGpuError::PageTooLarge { splat_count: count, page_capacity: self.page_capacity },
            );
        }
        proof {
            lemma_slot_base_fits(v, s as int, 0);
        }
        let base: usize = s * self.page_capacity;
        self.slot_scene_indices.set(s, splat_indices);
        self.slot_meta.set(
            s,
            GpuSlotMeta {
                page_id: Some(token.page_id),
                generation: token.slot_generation,
                splat_count: count,
            },
        );
        proof {
            let w = upload_spec(v, token, splat_indices@).0;
            assert(self@.indices =~= w.indices);
            assert(self@.metas =~= w.metas);
        }
        Ok(base)
    }

    /// Installs a page in `atlas_slot` under the slot's current generation,
    /// without a residency token.
    pub fn force_install_page(
        &mut self,
        atlas_slot: u32,
        page_id: PageId,
        splat_indices: Vec<u32>,
    ) -> (r: Result<usize, PagedGpuError>)
        requires
            old(self).wf(),
        ensures
            final(self).wf(),
            atlas_slot >= old(self)@.metas.len() ==> final(self)@ == old(self)@ && r == Err::<
                usize,
                PagedGpuError,
            >(PagedGpuError::SlotOutOfRange),
            atlas_slot < old(self)@.metas.len() ==> (final(self)@, r) == upload_spec(
                old(self)@,
                AsyncPageToken {
                    scene_revision: 0,
                    page_id,
                    slot: atlas_slot,
                    slot_generation: old(self)@.metas[atlas_slot as int].generation,
                },
                splat_indices@,
            ),
    {
        let s = atlas_slot as usize;
        if s >= self.slot_meta.len() {
            return Err(PagedGpuError::SlotOutOfRange);
        }
        let generation = self.slot_meta[s].generation;
        self.upload_page(
            AsyncPageToken { scene_revision: 0, page_id, slot: atlas_slot, slot_generation: generation },
            splat_indices,
        )
    }

    /// Empties the slot of `token`, bumps its generation, and returns the
    /// first hot record of the slot, whose `page_capacity` records the caller
    /// clears.
    pub fn clear_slot(&mut self, token: AsyncPageToken) -> (r: Result<usize, PagedGpuError>)
        requires
            old(self).wf(),
        ensures
            final(self).wf(),
            (final(self)@, r) == clear_spec(old(self)@, token),
    {
        let ghost v = self@;
        let s = token.slot as usize;
        if s >= self.slot_meta.len() {
            return Err(PagedGpuError::SlotOutOfRange);
        }
        let meta = self.slot_meta[s];
        if !names_page(meta.page_id, token.page_id) || meta.generation != token.slot_generation {
            return Err(PagedGpuError::StaleToken);
        }
        proof {
            lemma_slot_base_fits(v, s as int, 0);
        }
        let base: usize = s * self.page_capacity;
        self.slot_scene_indices.set(s, Vec::new());
        self.slot_meta.set(s, GpuSlotMeta::empty(meta.generation.saturating_add(1)));
        proof {
            let w = clear_spec(v, token).0;
            assert(self@.indices =~= w.indices);
            assert(self@.metas =~= w.metas);
        }
        Ok(base)
    }
}

/// A successful upload installs the token's page: the atlas then contains
/// the token, and its slot holds exactly the uploaded splats.
pub proof fn lemma_upload_installs(v: PagedSlotsView, token: AsyncPageToken, splat_indices: Seq<u32>)
    requires
        paged_slots_wf(v),
        upload_spec(v, token, splat_indices).1 is Ok,
    ensures
        contains_token_spec(upload_spec(v, token, splat_indices).0, token),
        upload_spec(v, token, splat_indices).0.indices[token.slot as int] == splat_indices,
{
    lemma_capacity_fits(v);
}

proof fn lemma_capacity_fits(v: PagedSlotsView)
    requires
        paged_slots_wf(v),
    ensures
        v.page_capacity <= usize::MAX,
{
    assert(v.page_capacity <= v.metas.len() * v.page_capacity) by (nonlinear_arith)
        requires
            v.metas.len() >= 1,
    ;
}

/// Clearing a slot retires the token that cleared it: the atlas no longer
/// contains it, and the same token can neither upload nor clear again.
pub proof fn lemma_cleared_token_is_stale(
    v: PagedSlotsView,
    token: AsyncPageToken,
    splat_indices: Seq<u32>,
)
    requires
        paged_slots_wf(v),
        clear_spec(v, token).1 is Ok,
        token.slot_generation < u64::MAX,
    ensures
        !contains_token_spec(clear_spec(v, token).0, token),
        upload_spec(clear_spec(v, token).0, token, splat_indices).1 == Err::<usize, PagedGpuError>(
            PagedGpuError::StaleToken,
        ),
        clear_spec(clear_spec(v, token).0, token).1 == Err::<usize, PagedGpuError>(
            PagedGpuError::StaleToken,
        ),
{
}

/// Uploads and clears touch only the token's slot, and never lower any slot's
/// generation.
pub proof fn lemma_slot_operations_are_local(
    v: PagedSlotsView,
    token: AsyncPageToken,
    splat_indices: Seq<u32>,
)
    requires
        paged_slots_wf(v),
    ensures
        ({
            let u = upload_spec(v, token, splat_indices).0;
            let c = clear_spec(v, token).0;
            &&& u.metas.len() == v.metas.len()
            &&& c.metas.len() == v.metas.len()
            &&& forall|s: int|
                0 <= s < v.metas.len() && s != token.slot ==> #[trigger] u.metas[s] == v.metas[s]
                    && u.indices[s] == v.indices[s] && c.metas[s] == v.metas[s] && c.indices[s]
                    == v.indices[s]
            &&& forall|s: int|
                0 <= s < v.metas.len() ==> #[trigger] u.metas[s].generation >= v.metas[s].generation
                    && c.metas[s].generation >= v.metas[s].generation
        }),
{
}

/// Who may use a slot: a token older than the slot's generation can neither
/// upload nor clear; an occupied slot refuses an upload or clear naming
/// another page or another generation; and a clear succeeds exactly for the
/// slot's own page at the slot's own generation.
pub proof fn lemma_slot_admission(v: PagedSlotsView, token: AsyncPageToken, splat_indices: Seq<u32>)
    requires
        paged_slots_wf(v),
        (token.slot as int) < v.metas.len(),
    ensures
        ({
            let m = v.metas[token.slot as int];
            &&& token.slot_generation < m.generation ==> upload_spec(v, token, splat_indices).1
                == Err::<usize, PagedGpuError>(PagedGpuError::StaleToken)
                && clear_spec(v, token).1 == Err::<usize, PagedGpuError>(
                PagedGpuError::StaleToken,
            )
            &&& m.page_id is Some && (m.page_id != Some(token.page_id) || m.generation
                != token.slot_generation) ==> upload_spec(v, token, splat_indices).1 == Err::<
                usize,
                PagedGpuError,
            >(PagedGpuError::StaleToken)
            &&& (clear_spec(v, token).1 is Ok <==> (m.page_id == Some(token.page_id)
                && m.generation == token.slot_generation))
        }),
{
}

/// Uploading a page and then clearing its slot with the same token returns
/// the slot's first record and leaves the slot empty at the next generation.
pub proof fn lemma_upload_then_clear(v: PagedSlotsView, token: AsyncPageToken, splat_indices: Seq<u32>)
    requires
        paged_slots_wf(v),
        upload_spec(v, token, splat_indices).1 is Ok,
    ensures
        ({
            let u = upload_spec(v, token, splat_indices);
            let c = clear_spec(u.0, token);
            &&& c.1 == u.1
            &&& c.0.metas[token.slot as int].page_id is None
            &&& c.0.metas[token.slot as int].splat_count == 0
            &&& c.0.metas[token.slot as int].generation == next_generation(token.slot_generation)
            &&& !contains_token_spec(c.0, token)
        }),
{
}

/// The resident splats never outnumber the atlas records.
pub proof fn lemma_resident_splats_fit(v: PagedSlotsView)
    requires
        paged_slots_wf(v),
    ensures
        splats_below(v, v.metas.len() as int) <= v.metas.len() * v.page_capacity,
        entries_below(v, v.metas.len() as int).len() == splats_below(v, v.metas.len() as int),
{
    lemma_splats_below_bound(v, v.metas.len() as int);
    lemma_entries_len(v, v.metas.len() as int);
}

proof fn lemma_entries_len(v: PagedSlotsView, n: int)
    requires
        0 <= n <= v.metas.len(),
    ensures
        entries_below(v, n).len() == splats_below(v, n),
    decreases n,
{
    if n > 0 {
        lemma_entries_len(v, n - 1);
    }
}

} // verus!
