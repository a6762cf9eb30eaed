//! Eviction choice of the CPU page scheduler.

use crate::spatial_pages::PageId;
use vstd::prelude::*;

verus! {

/// Pages requested, evicted, retained and visible after one scheduling tick.
#[derive(Debug, Clone, PartialEq, Eq)]
pub struct ScheduleOutcome {
    pub requested: Vec<PageId>,
    pub evicted: Vec<PageId>,
    pub retained: Vec<PageId>,
    pub visible: Vec<PageId>,
}

/// A resident page and the last frame in which it was visible.
#[derive(Debug, Clone, Copy, PartialEq, Eq, Structural)]
pub struct ResidentPageRecency {
    pub page_id: PageId,
    pub last_visible_frame: u64,
}

/// Eviction order: older visibility first, then the smaller page id.
pub open spec fn evicts_before(a: ResidentPageRecency, b: ResidentPageRecency) -> bool {
    a.last_visible_frame < b.last_visible_frame || (a.last_visible_frame == b.last_visible_frame
        && a.page_id.0 < b.page_id.0)
}

/// Whether the resident at position `i` may be evicted: it is not retained.
pub open spec fn evictable(residents: Seq<ResidentPageRecency>, retain: Seq<PageId>, i: int) -> bool {
    0 <= i < residents.len() && !retain.contains(residents[i].page_id)
}

/// Position `i` holds the first evictable resident that no other evictable
/// resident precedes in eviction order.
pub open spec fn is_eviction_choice(
    residents: Seq<ResidentPageRecency>,
    retain: Seq<PageId>,
    i: int,
) -> bool {
    &&& evictable(residents, retain, i)
    &&& forall|j: int|
        #![trigger residents[j]]
        evictable(residents, retain, j) ==> !evicts_before(residents[j], residents[i])
    &&& forall|j: int|
        #![trigger residents[j]]
        0 <= j < i && evictable(residents, retain, j) ==> evicts_before(residents[i], residents[j])
}

/// Whether `retain` holds `page`.
pub fn retains_page(retain: &Vec<PageId>, page: PageId) -> (r: bool)
    ensures
        r == retain@.contains(page),
{
    let mut i: usize = 0;
    while i < retain.len()
        invariant
            i <= retain@.len(),
            forall|j: int| 0 <= j < i ==> retain@[j] != page,
        decreases retain@.len() - i,
    {
        if retain[i].0 == page.0 {
            assert(retain@[i as int] == page);
            return true;
        }
        i += 1;
    }
    proof {
        if retain@.contains(page) {
            let k = choose|k: int| 0 <= k < retain@.len() && retain@[k] == page;
            assert(retain@[k] != page);
        }
    }
    false
}

/// The eviction choice, when one exists, is unique.
pub proof fn lemma_eviction_choice_unique(
    residents: Seq<ResidentPageRecency>,
    retain: Seq<PageId>,
    i: int,
    j: int,
)
    requires
        is_eviction_choice(residents, retain, i),
        is_eviction_choice(residents, retain, j),
    ensures
        i == j,
{
    if j < i {
        assert(evicts_before(residents[i], residents[j]));
    } else if i < j {
        assert(evicts_before(residents[j], residents[i]));
    }
}

/// Position of the resident to evict first among those not in `retain`.
fn eviction_choice_index(residents: &Vec<ResidentPageRecency>, retain: &Vec<PageId>) -> (r: Option<
    usize,
>)
    ensures
        r is None <==> forall|i: int| 0 <= i < residents@.len() ==> !evictable(residents@, retain@, i),
        r matches Some(b) ==> is_eviction_choice(residents@, retain@, b as int),
{
    let mut best: Option<usize> = None;
    let mut i: usize = 0;
    while i < residents.len()
        invariant
            i <= residents@.len(),
            best is None ==> forall|j: int| 0 <= j < i ==> !evictable(residents@, retain@, j),
            best matches Some(b) ==> {
                &&& b < i
                &&& evictable(residents@, retain@, b as int)
                &&& forall|j: int|
                    #![trigger residents@[j]]
                    0 <= j < i && evictable(residents@, retain@, j) ==> !evicts_before(
                        residents@[j],
                        residents@[b as int],
                    )
                &&& forall|j: int|
                    #![trigger residents@[j]]
                    0 <= j < b && evictable(residents@, retain@, j) ==> evicts_before(
                        residents@[b as int],
                        residents@[j],
                    )
            },
        decreases residents@.len() - i,
    {
        let candidate = residents[i];
        if !retains_page(retain, candidate.page_id) {
            match best {
                None => {
                    best = Some(i);
                },
                Some(b) => {
                    let current = residents[b];
                    if candidate.last_visible_frame < current.last_visible_frame || (
                    candidate.last_visible_frame == current.last_visible_frame
                        && candidate.page_id.0 < current.page_id.0) {
                        best = Some(i);
                    }
                },
            }
        }
        i += 1;
    }
    match best {
        Some(b) => {
            assert(is_eviction_choice(residents@, retain@, b as int));
        },
        None => {},
    }
    best
}

/// The resident page to evict first among those not in `retain`: the one
/// visible longest ago, ties broken by the smaller page id; `None` when every
/// resident page is retained.
pub fn oldest_unprotected_resident(
    residents: &Vec<ResidentPageRecency>,
    retain: &Vec<PageId>,
) -> (r: Option<PageId>)
    ensures
        r is None <==> forall|i: int| 0 <= i < residents@.len() ==> !evictable(residents@, retain@, i),
        r matches Some(page) ==> exists|i: int|
            is_eviction_choice(residents@, retain@, i) && residents@[i].page_id == page,
{
    match eviction_choice_index(residents, retain) {
        Some(b) => Some(residents[b].page_id),
        None => None,
    }
}

/// Why a scheduling tick could not finish.
#[derive(Debug, Clone, Copy, PartialEq, Eq, Structural)]
pub enum ScheduleError {
    /// Every resident page is retained, so none can make room.
    NoFreeSlot,
}

/// What evicting down to `target` pages does to `residents`: while more than
/// `target` are resident, the eviction choice leaves. The residents left, the
/// pages evicted in order, and whether the target was reached; it is not
/// reached when every page left over the target is retained.
pub open spec fn evict_over_target_spec(
    residents: Seq<ResidentPageRecency>,
    retain: Seq<PageId>,
    target: nat,
) -> (Seq<ResidentPageRecency>, Seq<PageId>, bool)
    decreases residents.len(),
{
    if residents.len() <= target {
        (residents, Seq::empty(), true)
    } else if forall|i: int| 0 <= i < residents.len() ==> !evictable(residents, retain, i) {
        (residents, Seq::empty(), false)
    } else {
        let i = choose|i: int| is_eviction_choice(residents, retain, i);
        if 0 <= i < residents.len() {
            let (left, evicted, reached) = evict_over_target_spec(
                residents.remove(i),
                retain,
                target,
            );
            (left, seq![residents[i].page_id] + evicted, reached)
        } else {
            (residents, Seq::empty(), false)
        }
    }
}

/// `b` is the eviction choice among the residents below `n`.
spec fn is_choice_below(
    residents: Seq<ResidentPageRecency>,
    retain: Seq<PageId>,
    b: int,
    n: int,
) -> bool {
    &&& 0 <= b < n
    &&& evictable(residents, retain, b)
    &&& forall|j: int|
        #![trigger residents[j]]
        0 <= j < n && evictable(residents, retain, j) ==> !evicts_before(residents[j], residents[b])
    &&& forall|j: int|
        #![trigger residents[j]]
        0 <= j < b && evictable(residents, retain, j) ==> evicts_before(residents[b], residents[j])
}

proof fn lemma_choice_below(residents: Seq<ResidentPageRecency>, retain: Seq<PageId>, n: int) -> (b:
    int)
    requires
        0 < n <= residents.len(),
        exists|j: int| 0 <= j < n && evictable(residents, retain, j),
    ensures
        is_choice_below(residents, retain, b, n),
    decreases n,
{
    if exists|j: int| 0 <= j < n - 1 && evictable(residents, retain, j) {
        let c = lemma_choice_below(residents, retain, n - 1);
        if evictable(residents, retain, n - 1) && evicts_before(residents[n - 1], residents[c]) {
            n - 1
        } else {
            c
        }
    } else {
        n - 1
    }
}

/// Whenever some resident may be evicted, there is an eviction choice.
pub proof fn lemma_eviction_choice_exists(residents: Seq<ResidentPageRecency>, retain: Seq<PageId>)
    requires
        exists|j: int| 0 <= j < residents.len() && evictable(residents, retain, j),
    ensures
        exists|i: int| is_eviction_choice(residents, retain, i),
{
    let b = lemma_choice_below(residents, retain, residents.len() as int);
    assert(is_eviction_choice(residents, retain, b));
}

/// What evicting down to a target guarantees: no retained page is evicted,
/// every page is either left or evicted, the residents left are some of the
/// old ones in their old order; reaching the target leaves at most `target`
/// pages, and failing to leaves more, every one of them retained.
pub proof fn lemma_eviction_respects_retain_and_target(
    residents: Seq<ResidentPageRecency>,
    retain: Seq<PageId>,
    target: nat,
)
    ensures
        ({
            let (left, evicted, reached) = evict_over_target_spec(residents, retain, target);
            &&& forall|k: int| 0 <= k < evicted.len() ==> !retain.contains(#[trigger] evicted[k])
            &&& left.len() + evicted.len() == residents.len()
            &&& forall|k: int| 0 <= k < left.len() ==> residents.contains(#[trigger] left[k])
            &&& reached ==> left.len() <= target
            &&& !reached ==> left.len() > target && forall|k: int|
                0 <= k < left.len() ==> retain.contains(#[trigger] left[k].page_id)
        }),
    decreases residents.len(),
{
    if residents.len() <= target {
    } else if forall|i: int| 0 <= i < residents.len() ==> !evictable(residents, retain, i) {
        let (left, evicted, reached) = evict_over_target_spec(residents, retain, target);
        assert forall|k: int| 0 <= k < left.len() implies retain.contains(
            #[trigger] left[k].page_id,
        ) by {
            assert(!evictable(residents, retain, k));
        }
    } else {
        let w = choose|j: int| 0 <= j < residents.len() && evictable(residents, retain, j);
        lemma_eviction_choice_exists(residents, retain);
        let i = choose|i: int| is_eviction_choice(residents, retain, i);
        if 0 <= i < residents.len() {
            let rest = residents.remove(i);
            lemma_eviction_respects_retain_and_target(rest, retain, target);
            let (left, evicted, reached) = evict_over_target_spec(rest, retain, target);
            let all = seq![residents[i].page_id] + evicted;
            assert forall|k: int| 0 <= k < all.len() implies !retain.contains(#[trigger] all[k]) by {
                if k == 0 {
                    assert(evictable(residents, retain, i));
                } else {
                    assert(all[k] == evicted[k - 1]);
                }
            }
            assert forall|k: int| 0 <= k < left.len() implies residents.contains(#[trigger] left[k]) by {
                assert(rest.contains(left[k]));
                let m = choose|m: int| 0 <= m < rest.len() && rest[m] == left[k];
                if m < i {
                    assert(rest[m] == residents[m]);
                } else {
                    assert(rest[m] == residents[m + 1]);
                }
            }
        }
    }
}

/// Evicts pages not in `retain`, oldest visibility first, until at most
/// `target` are resident, and returns them in eviction order. When every page
/// left is retained before the target is reached, the tick fails with
/// [`ScheduleError::NoFreeSlot`]; the pages evicted before that stay evicted.
pub fn evict_over_target(
    residents: &mut Vec<ResidentPageRecency>,
    retain: &Vec<PageId>,
    target: usize,
) -> (r: Result<Vec<PageId>, ScheduleError>)
    ensures
        ({
            let (left, evicted, reached) = evict_over_target_spec(
                old(residents)@,
                retain@,
                target as nat,
            );
            &&& final(residents)@ == left
            &&& reached ==> (r matches Ok(pages) && pages@ == evicted)
            &&& !reached ==> r == Err::<Vec<PageId>, ScheduleError>(ScheduleError::NoFreeSlot)
        }),
{
    let ghost start = residents@;
    let mut evicted: Vec<PageId> = Vec::new();
    while residents.len() > target
        invariant_except_break
            ({
                let (left, more, reached) = evict_over_target_spec(
                    residents@,
                    retain@,
                    target as nat,
                );
                evict_over_target_spec(start, retain@, target as nat) == (
                    left,
                    evicted@ + more,
                    reached,
                )
            }),
        ensures
            residents@.len() <= target ==> evict_over_target_spec(start, retain@, target as nat)
                == (residents@, evicted@, true),
            residents@.len() > target ==> evict_over_target_spec(start, retain@, target as nat)
                == (residents@, evicted@, false),
        decreases residents@.len(),
    {
        let ghost before = residents@;
        let ghost evicted_before = evicted@;
        match eviction_choice_index(residents, retain) {
            Some(b) => {
                proof {
                    let i = choose|i: int| is_eviction_choice(before, retain@, i);
                    lemma_eviction_choice_unique(before, retain@, i, b as int);
                }
                let page = residents[b].page_id;
                residents.remove(b);
                evicted.push(page);
                proof {
                    assert(residents@ == before.remove(b as int));
                    let (left, more, reached) = evict_over_target_spec(
                        residents@,
                        retain@,
                        target as nat,
                    );
                    assert(evicted@ + more =~= evicted_before + (seq![page] + more));
                }
            },
            None => {
                proof {
                    assert(evicted@ + Seq::<PageId>::empty() =~= evicted@);
                }
                break;
            },
        }
    }
    proof {
        assert(evicted@ + Seq::<PageId>::empty() =~= evicted@);
    }
    if residents.len() > target {
        return Err(ScheduleError::NoFreeSlot);
    }
    Ok(evicted)
}

} // verus!
