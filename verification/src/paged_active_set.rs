//! Keeping the paged GPU atlas in step with the residency schedule.
//!
//! After a scheduling tick, slots whose token is no longer resident are
//! cleared first; then every resident token the atlas does not already hold
//! is uploaded. Tokens are compared by page, slot and slot generation.

use crate::paged_gpu::{clear_spec, contains_token_spec, PagedAtlasSlots, PagedGpuError, PagedSlotsView};
use crate::residency::AsyncPageToken;
use vstd::prelude::*;

verus! {

/// Two tokens address the same residency: same page, slot and generation.
pub open spec fn same_residency(a: AsyncPageToken, b: AsyncPageToken) -> bool {
    a.page_id == b.page_id && a.slot == b.slot && a.slot_generation == b.slot_generation
}

/// Whether `token` is among the resident tokens `current`.
pub open spec fn is_still_resident(current: Seq<AsyncPageToken>, token: AsyncPageToken) -> bool {
    exists|i: int| 0 <= i < current.len() && same_residency(#[trigger] current[i], token)
}

pub fn still_resident(current: &Vec<AsyncPageToken>, token: AsyncPageToken) -> (r: bool)
    ensures
        r == is_still_resident(current@, token),
        r <==> exists|i: int|
            0 <= i < current@.len() && (#[trigger] current@[i]).page_id == token.page_id
                && current@[i].slot == token.slot && current@[i].slot_generation
                == token.slot_generation,
{
    let mut i: usize = 0;
    while i < current.len()
        invariant
            i <= current@.len(),
            forall|j: int| 0 <= j < i ==> !same_residency(#[trigger] current@[j], token),
        decreases current@.len() - i,
    {
        let resident = current[i];
        if resident.page_id.0 == token.page_id.0 && resident.slot == token.slot
            && resident.slot_generation == token.slot_generation {
            assert(same_residency(current@[i as int], token));
            return true;
        }
        i += 1;
    }
    false
}

/// The atlas after clearing, in order, the slots of the tokens of
/// `previous` below `n` that are no longer resident, and the first record of
/// each cleared slot; the first refused clear stops the sequence.
pub open spec fn retire_spec(
    v: PagedSlotsView,
    previous: Seq<AsyncPageToken>,
    current: Seq<AsyncPageToken>,
    n: int,
) -> (PagedSlotsView, Result<Seq<usize>, PagedGpuError>)
    decreases n,
{
    if n <= 0 {
        (v, Ok(Seq::empty()))
    } else {
        let (w, r) = retire_spec(v, previous, current, n - 1);
        match r {
            Err(e) => (w, Err(e)),
            Ok(bases) => if is_still_resident(current, previous[n - 1]) {
                (w, Ok(bases))
            } else {
                let (w2, cleared) = clear_spec(w, previous[n - 1]);
                match cleared {
                    Ok(base) => (w2, Ok(bases.push(base))),
                    Err(e) => (w2, Err(e)),
                }
            },
        }
    }
}

/// A token stays resident exactly when some current token names its page,
/// its slot and its slot generation: the same page re-admitted to the same
/// slot at another generation does not keep the old token.
pub proof fn lemma_residency_needs_page_slot_and_generation(
    current: Seq<AsyncPageToken>,
    token: AsyncPageToken,
)
    ensures
        is_still_resident(current, token) <==> exists|i: int|
            0 <= i < current.len() && (#[trigger] current[i]).page_id == token.page_id
                && current[i].slot == token.slot && current[i].slot_generation
                == token.slot_generation,
        forall|i: int|
            0 <= i < current.len() && (#[trigger] current[i]).page_id == token.page_id
                && current[i].slot == token.slot ==> (is_still_resident(current, token)
                || current[i].slot_generation != token.slot_generation),
        (forall|i: int|
            0 <= i < current.len() ==> (#[trigger] current[i]).slot_generation
                != token.slot_generation) ==> !is_still_resident(current, token),
{
}

/// A previous token that no current token names with its page, slot and
/// slot generation is retired: with that token alone, retiring does exactly
/// what clearing its slot does.
pub proof fn lemma_stale_generation_is_cleared(
    v: PagedSlotsView,
    token: AsyncPageToken,
    current: Seq<AsyncPageToken>,
)
    requires
        forall|i: int|
            0 <= i < current.len() ==> !((#[trigger] current[i]).page_id == token.page_id
                && current[i].slot == token.slot && current[i].slot_generation
                == token.slot_generation),
    ensures
        retire_spec(v, seq![token], current, 1).0 == clear_spec(v, token).0,
        retire_spec(v, seq![token], current, 1).1 == match clear_spec(v, token).1 {
            Ok(base) => Ok::<Seq<usize>, PagedGpuError>(seq![base]),
            Err(e) => Err(e),
        },
{
    assert(!is_still_resident(current, token)) by {
        if is_still_resident(current, token) {
            let i = choose|i: int| 0 <= i < current.len() && same_residency(#[trigger] current[i], token);
            assert(current[i].page_id == token.page_id);
        }
    }
    assert(seq![token][0] == token);
    assert(retire_spec(v, seq![token], current, 0) == (v, Ok::<Seq<usize>, PagedGpuError>(
        Seq::empty(),
    )));
    match clear_spec(v, token).1 {
        Ok(base) => {
            assert(Seq::<usize>::empty().push(base) =~= seq![base]);
        },
        Err(e) => {},
    }
}

/// A previous token that some current token names with its page, slot and
/// slot generation is kept: with that token alone, retiring changes nothing.
pub proof fn lemma_resident_token_is_kept(
    v: PagedSlotsView,
    token: AsyncPageToken,
    current: Seq<AsyncPageToken>,
    i: int,
)
    requires
        0 <= i < current.len(),
        current[i].page_id == token.page_id,
        current[i].slot == token.slot,
        current[i].slot_generation == token.slot_generation,
    ensures
        retire_spec(v, seq![token], current, 1) == (v, Ok::<Seq<usize>, PagedGpuError>(
            Seq::empty(),
        )),
{
    assert(same_residency(current[i], token));
    assert(seq![token][0] == token);
    assert(is_still_resident(current, token));
    assert(retire_spec(v, seq![token], current, 0) == (v, Ok::<Seq<usize>, PagedGpuError>(
        Seq::empty(),
    )));
}

/// Clears the slot of every previously resident token that is no longer
/// resident, in order, and returns the first hot record of each cleared slot.
pub fn retire_stale_tokens(
    slots: &mut PagedAtlasSlots,
    previous: &Vec<AsyncPageToken>,
    current: &Vec<AsyncPageToken>,
) -> (r: Result<Vec<usize>, PagedGpuError>)
    requires
        old(slots).wf(),
    ensures
        final(slots).wf(),
        final(slots)@ == retire_spec(old(slots)@, previous@, current@, previous@.len() as int).0,
        r matches Ok(bases) ==> retire_spec(
            old(slots)@,
            previous@,
            current@,
            previous@.len() as int,
        ).1 == Ok::<Seq<usize>, PagedGpuError>(bases@),
        r matches Err(e) ==> retire_spec(
            old(slots)@,
            previous@,
            current@,
            previous@.len() as int,
        ).1 == Err::<Seq<usize>, PagedGpuError>(e),
{
    let ghost v = slots@;
    let mut bases: Vec<usize> = Vec::new();
    let mut i: usize = 0;
    while i < previous.len()
        invariant
            slots.wf(),
            old(slots)@ == v,
            i <= previous@.len(),
            retire_spec(v, previous@, current@, i as int) == (slots@, Ok::<
                Seq<usize>,
                PagedGpuError,
            >(bases@)),
        decreases previous@.len() - i,
    {
        let token = previous[i];
        if !still_resident(current, token) {
            match slots.clear_slot(token) {
                Ok(base) => {
                    bases.push(base);
                },
                Err(error) => {
                    proof {
                        assert(retire_spec(v, previous@, current@, i as int + 1) == (
                            slots@,
                            Err::<Seq<usize>, PagedGpuError>(error),
                        ));
                        lemma_retire_error_sticks(
                            v,
                            previous@,
                            current@,
                            i as int + 1,
                            previous@.len() as int,
                        );
                    }
                    return Err(error);
                },
            }
        }
        i += 1;
    }
    Ok(bases)
}

proof fn lemma_retire_error_sticks(
    v: PagedSlotsView,
    previous: Seq<AsyncPageToken>,
    current: Seq<AsyncPageToken>,
    m: int,
    n: int,
)
    requires
        0 <= m <= n,
        retire_spec(v, previous, current, m).1 is Err,
    ensures
        retire_spec(v, previous, current, n) == retire_spec(v, previous, current, m),
    decreases n - m,
{
    if n > m {
        lemma_retire_error_sticks(v, previous, current, m, n - 1);
    }
}

/// The resident tokens the atlas does not hold yet, in order.
pub open spec fn uploads_spec(v: PagedSlotsView, current: Seq<AsyncPageToken>) -> Seq<AsyncPageToken> {
    current.filter(|t: AsyncPageToken| !contains_token_spec(v, t))
}

pub fn tokens_to_upload(slots: &PagedAtlasSlots, current: &Vec<AsyncPageToken>) -> (r: Vec<
    AsyncPageToken,
>)
    ensures
        r@ == uploads_spec(slots@, current@),
        r@.len() <= current@.len(),
        forall|k: int|
            0 <= k < r@.len() ==> current@.contains(#[trigger] r@[k]) && !contains_token_spec(
                slots@,
                r@[k],
            ),
        forall|k: int|
            0 <= k < current@.len() && !contains_token_spec(slots@, #[trigger] current@[k])
                ==> r@.contains(current@[k]),
{
    let mut uploads: Vec<AsyncPageToken> = Vec::new();
    let mut i: usize = 0;
    while i < current.len()
        invariant
            i <= current@.len(),
            uploads@ == uploads_spec(slots@, current@.take(i as int)),
        decreases current@.len() - i,
    {
        let token = current[i];
        if !slots.contains_token(token) {
            uploads.push(token);
        }
        proof {
            reveal(Seq::filter);
            assert(current@.take(i as int + 1).drop_last() =~= current@.take(i as int));
            assert(current@.take(i as int + 1).last() == token);
        }
        i += 1;
    }
    proof {
        assert(current@.take(i as int) =~= current@);
        lemma_uploads_are_the_missing_tokens(slots@, current@);
    }
    uploads
}

/// The uploads of a tick are exactly the resident tokens the atlas does not
/// hold: none of them is held already, and none of the missing ones is left
/// out; there are never more uploads than resident tokens.
pub proof fn lemma_uploads_are_the_missing_tokens(v: PagedSlotsView, current: Seq<AsyncPageToken>)
    ensures
        uploads_spec(v, current).len() <= current.len(),
        forall|k: int|
            0 <= k < uploads_spec(v, current).len() ==> current.contains(
                #[trigger] uploads_spec(v, current)[k],
            ) && !contains_token_spec(v, uploads_spec(v, current)[k]),
        forall|k: int|
            0 <= k < current.len() && !contains_token_spec(v, #[trigger] current[k])
                ==> uploads_spec(v, current).contains(current[k]),
{
    broadcast use vstd::seq_lib::group_filter_ensures;

    let p = |t: AsyncPageToken| !contains_token_spec(v, t);
    assert forall|k: int| 0 <= k < uploads_spec(v, current).len() implies current.contains(
        #[trigger] uploads_spec(v, current)[k],
    ) && !contains_token_spec(v, uploads_spec(v, current)[k]) by {
        let u = uploads_spec(v, current);
        assert(u.contains(u[k]));
        current.lemma_filter_contains_rev(p, u[k]);
        assert(p(u[k]));
    }
    assert forall|k: int| 0 <= k < current.len() && !contains_token_spec(v, #[trigger] current[k])
        implies uploads_spec(v, current).contains(current[k]) by {
        assert(p(current[k]));
        current.lemma_filter_contains(p, k);
    }
}

/// After the stale tokens are retired without error, the slot of every
/// retired token is empty, so the atlas no longer holds any of them.
pub proof fn lemma_retired_tokens_leave_the_atlas(
    v: PagedSlotsView,
    previous: Seq<AsyncPageToken>,
    current: Seq<AsyncPageToken>,
    n: int,
    k: int,
)
    requires
        0 <= k < n <= previous.len(),
        retire_spec(v, previous, current, n).1 is Ok,
        !is_still_resident(current, previous[k]),
    ensures
        (previous[k].slot as int) < retire_spec(v, previous, current, n).0.metas.len(),
        !retire_spec(v, previous, current, n).0.metas[previous[k].slot as int].occupied(),
        !contains_token_spec(retire_spec(v, previous, current, n).0, previous[k]),
    decreases n,
{
    let (w, r) = retire_spec(v, previous, current, n - 1);
    assert(r is Ok);
    if k < n - 1 {
        lemma_retired_tokens_leave_the_atlas(v, previous, current, n - 1, k);
    }
}

} // verus!
