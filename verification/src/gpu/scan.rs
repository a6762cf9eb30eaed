//! Planning of the portable hierarchical exclusive prefix scan.

use vstd::prelude::*;

use crate::gpu_error::ResidentGpuError;

verus! {

pub const SCAN_WORKGROUP_SIZE: u32 = 256;

/// Items one scan workgroup consumes.
pub const SCAN_ITEMS_PER_GROUP: u32 = 512;

pub const WORD_BYTES: u64 = 4;

/// `ceil(a / b)` for `b > 0`.
pub open spec fn div_ceil(a: nat, b: nat) -> nat
    recommends
        b > 0,
{
    ((a + b - 1) / b as int) as nat
}

/// `a.div_ceil(b)` for `b > 0`.
pub fn div_ceil_u32(a: u32, b: u32) -> (r: u32)
    requires
        b > 0,
    ensures
        r == div_ceil(a as nat, b as nat),
{
    let q = a / b;
    if a % b == 0 {
        proof {
            assert(q == div_ceil(a as nat, b as nat)) by (nonlinear_arith)
                requires
                    b > 0,
                    q == a / b,
                    a % b == 0,
            {
            }
        }
        q
    } else {
        proof {
            assert(q + 1 == div_ceil(a as nat, b as nat) && q < u32::MAX) by (nonlinear_arith)
                requires
                    b > 0,
                    q == a / b,
                    a % b != 0,
                    a <= u32::MAX,
            {
            }
        }
        q + 1
    }
}

/// `a.div_ceil(b)` for `b > 0`.
pub fn div_ceil_usize(a: usize, b: usize) -> (r: usize)
    requires
        b > 0,
    ensures
        r == div_ceil(a as nat, b as nat),
{
    let q = a / b;
    if a % b == 0 {
        proof {
            assert(q == div_ceil(a as nat, b as nat)) by (nonlinear_arith)
                requires
                    b > 0,
                    q == a / b,
                    a % b == 0,
            {
            }
        }
        q
    } else {
        proof {
            assert(q + 1 == div_ceil(a as nat, b as nat) && q < usize::MAX) by (nonlinear_arith)
                requires
                    b > 0,
                    q == a / b,
                    a % b != 0,
                    a <= usize::MAX,
            {
            }
        }
        q + 1
    }
}

/// `ceil(a / b) * b` covers `a`, and undershoots `a + b` .
pub proof fn lemma_div_ceil(a: nat, b: nat)
    requires
        b > 0,
    ensures
        div_ceil(a, b) * b >= a,
        div_ceil(a, b) * b < a + b,
        a > 0 ==> div_ceil(a, b) >= 1,
        a <= b ==> div_ceil(a, b) <= 1,
{
    assert(div_ceil(a, b) * b >= a && div_ceil(a, b) * b < a + b) by (nonlinear_arith)
        requires
            b > 0,
            div_ceil(a, b) == (a + b - 1) / b as int,
    {
    }
    if a > 0 {
        assert(div_ceil(a, b) >= 1) by (nonlinear_arith)
            requires
                b > 0,
                a > 0,
                div_ceil(a, b) * b >= a,
        {
        }
    }
    if a <= b {
        assert(div_ceil(a, b) <= 1) by (nonlinear_arith)
            requires
                b > 0,
                a <= b,
                div_ceil(a, b) * b < a + b,
        {
        }
    }
}

/// Workgroups one scan level uses for `count` items (at least one).
pub open spec fn scan_groups(count: nat) -> nat {
    if count == 0 {
        1
    } else {
        div_ceil(count, SCAN_ITEMS_PER_GROUP as nat)
    }
}

pub proof fn lemma_scan_groups(count: nat)
    ensures
        scan_groups(count) >= 1,
        count > SCAN_ITEMS_PER_GROUP ==> scan_groups(count) < count,
        count <= SCAN_ITEMS_PER_GROUP ==> scan_groups(count) == 1,
        scan_groups(count) * SCAN_ITEMS_PER_GROUP >= count,
        scan_groups(count) * SCAN_ITEMS_PER_GROUP < count + SCAN_ITEMS_PER_GROUP + 1,
{
    lemma_div_ceil(count, SCAN_ITEMS_PER_GROUP as nat);
}

/// The `(items, groups)` of each scan level, first level first: every level
/// scans the group sums of the previous one, until one group remains.
pub open spec fn scan_levels_spec(count: nat) -> Seq<(nat, nat)>
    decreases count,
{
    let groups = scan_groups(count);
    if groups == 1 || groups >= count {
        seq![(count, groups)]
    } else {
        seq![(count, groups)] + scan_levels_spec(groups)
    }
}

/// Bytes of the sum buffers of all levels, bytes of the largest one, and the
/// number of levels.
pub open spec fn scan_sum_plan_spec(count: nat) -> (nat, nat, nat)
    decreases count,
{
    let groups = scan_groups(count);
    let bytes = (groups * WORD_BYTES) as nat;
    if groups == 1 || groups >= count {
        (bytes, bytes, 1)
    } else {
        let rest = scan_sum_plan_spec(groups);
        ((bytes + rest.0) as nat, if bytes >= rest.1 {
            bytes
        } else {
            rest.1
        }, (rest.2 + 1) as nat)
    }
}

/// The plan of a scan over `count >= 1` items: its total is at most eight
/// bytes per item, its largest buffer at most its total, and it has between
/// one and `count` levels, one per entry of [`scan_levels_spec`].
pub proof fn lemma_scan_sum_plan_bounds(count: nat)
    requires
        count >= 1,
    ensures
        scan_sum_plan_spec(count).0 <= 8 * count,
        scan_sum_plan_spec(count).1 <= scan_sum_plan_spec(count).0,
        scan_sum_plan_spec(count).1 >= 4,
        scan_sum_plan_spec(count).2 >= 1,
        scan_sum_plan_spec(count).2 <= count,
        scan_sum_plan_spec(count).2 == scan_levels_spec(count).len(),
    decreases count,
{
    lemma_scan_groups(count);
    let groups = scan_groups(count);
    if !(groups == 1 || groups >= count) {
        lemma_scan_sum_plan_bounds(groups);
    }
}

/// Plans the sum buffers of a scan over `count` items: total bytes, largest
/// buffer bytes, and level count.
pub fn scan_sum_plan(count: u32) -> (r: Result<(u64, u64, u32), ResidentGpuError>)
    requires
        count > 0,
    ensures
        r matches Ok(plan) && plan.0 == scan_sum_plan_spec(count as nat).0 && plan.1
            == scan_sum_plan_spec(count as nat).1 && plan.2 == scan_sum_plan_spec(count as nat).2,
{
    let ghost initial_count = count as nat;
    let mut items = count;
    let mut total: u64 = 0;
    let mut largest: u64 = 0;
    let mut levels: u32 = 0;
    proof {
        lemma_scan_sum_plan_bounds(initial_count);
    }
    loop
        invariant
            initial_count == count as nat,
            items >= 1,
            items <= initial_count,
            ({
                let rest = scan_sum_plan_spec(items as nat);
                let whole = scan_sum_plan_spec(initial_count);
                &&& total + rest.0 == whole.0
                &&& levels + rest.2 == whole.2
                &&& whole.1 == if largest >= rest.1 {
                    largest as nat
                } else {
                    rest.1
                }
            }),
            scan_sum_plan_spec(items as nat).2 >= 1,
            scan_sum_plan_spec(initial_count).0 <= 8 * initial_count,
            scan_sum_plan_spec(initial_count).2 <= initial_count,
            initial_count <= u32::MAX,
        decreases items,
    {
        proof {
            lemma_scan_groups(items as nat);
            lemma_scan_sum_plan_bounds(items as nat);
        }
        let ceil = div_ceil_u32(items, SCAN_ITEMS_PER_GROUP);
        let groups = if ceil > 1 {
            ceil
        } else {
            1
        };
        let bytes = groups as u64 * WORD_BYTES;
        total = total + bytes;
        largest = if largest >= bytes {
            largest
        } else {
            bytes
        };
        levels = levels + 1;
        if groups == 1 {
            return Ok((total, largest, levels));
        }
        items = groups;
    }
}

/// The `(items, groups)` of every level of a scan over `count` items.
pub fn scan_level_counts(count: u32) -> (r: Vec<(u32, u32)>)
    requires
        count > 0,
    ensures
        r@.len() == scan_levels_spec(count as nat).len(),
        forall|i: int|
            0 <= i < r@.len() ==> r@[i].0 == scan_levels_spec(count as nat)[i].0 && r@[i].1
                == scan_levels_spec(count as nat)[i].1,
{
    let ghost initial_count = count as nat;
    let ghost mut done: Seq<(nat, nat)> = Seq::empty();
    let mut items = count;
    let mut levels: Vec<(u32, u32)> = Vec::new();
    loop
        invariant
            initial_count == count as nat,
            items >= 1,
            done.len() == levels@.len(),
            forall|i: int|
                0 <= i < done.len() ==> done[i] == (levels@[i].0 as nat, levels@[i].1 as nat),
            scan_levels_spec(initial_count) == done + scan_levels_spec(items as nat),
        decreases items,
    {
        proof {
            lemma_scan_groups(items as nat);
        }
        let ceil = div_ceil_u32(items, SCAN_ITEMS_PER_GROUP);
        let groups = if ceil > 1 {
            ceil
        } else {
            1
        };
        levels.push((items, groups));
        proof {
            let ghost prev = done;
            done = done.push((items as nat, groups as nat));
            if groups != 1 {
                assert(prev + scan_levels_spec(items as nat) =~= done + scan_levels_spec(
                    groups as nat,
                ));
            } else {
                assert(prev + scan_levels_spec(items as nat) =~= done);
            }
        }
        if groups == 1 {
            proof {
                assert(scan_levels_spec(initial_count) =~= done);
                assert forall|i: int| 0 <= i < levels@.len() implies levels@[i].0
                    == scan_levels_spec(initial_count)[i].0 && levels@[i].1 == scan_levels_spec(
                    initial_count,
                )[i].1 by {
                    assert(done[i] == scan_levels_spec(initial_count)[i]);
                }
            }
            return levels;
        }
        items = groups;
    }
}

/// A two-dimensional dispatch of workgroups.
#[derive(Clone, Copy, Debug, PartialEq, Eq, Structural)]
pub struct Dispatch2d {
    pub x: u32,
    pub y: u32,
}

/// Splits `workgroups` over two dimensions of at most `max(limit, 1)` each.
pub open spec fn dispatch_for_workgroups_spec(workgroups: nat, limit: nat) -> Result<
    Dispatch2d,
    ResidentGpuError,
> {
    if workgroups == 0 {
        Ok(Dispatch2d { x: 0, y: 1 })
    } else {
        let l = if limit >= 1 {
            limit
        } else {
            1
        };
        let x = if workgroups <= l {
            workgroups
        } else {
            l
        };
        let y = div_ceil(workgroups, x);
        if y > l {
            Err(ResidentGpuError::DispatchLimitExceeded)
        } else {
            Ok(Dispatch2d { x: x as u32, y: y as u32 })
        }
    }
}

/// Workgroups of 128 items each that cover `items`, split over two
/// dimensions; an empty input still dispatches one workgroup.
pub open spec fn dispatch_for_items_spec(items: nat, limit: nat) -> Result<Dispatch2d, ResidentGpuError> {
    if items == 0 {
        Ok(Dispatch2d { x: 1, y: 1 })
    } else {
        dispatch_for_workgroups_spec(div_ceil(items, PROJECT_WORKGROUP_SIZE as nat), limit)
    }
}

/// Items one projection workgroup handles.
pub const PROJECT_WORKGROUP_SIZE: u32 = 128;

impl Dispatch2d {
    pub fn for_workgroups(workgroups: u32, limit: u32) -> (r: Result<Self, ResidentGpuError>)
        ensures
            r == dispatch_for_workgroups_spec(workgroups as nat, limit as nat),
            r matches Ok(d) ==> d.x as int * d.y as int >= workgroups,
            r matches Ok(d) ==> workgroups > 0 ==> 1 <= d.x && 1 <= d.y && (d.x <= limit && d.y
                <= limit || limit == 0 && d.x == 1 && d.y == 1),
    {
        if workgroups == 0 {
            return Ok(Self { x: 0, y: 1 });
        }
        let limit = if limit >= 1 {
            limit
        } else {
            1
        };
        let x = if workgroups <= limit {
            workgroups
        } else {
            limit
        };
        let y = div_ceil_u32(workgroups, x);
        proof {
            lemma_div_ceil(workgroups as nat, x as nat);
            assert(x as int * y as int == y as int * x as int) by (nonlinear_arith);
        }
        if y > limit {
            return Err(ResidentGpuError::DispatchLimitExceeded);
        }
        Ok(Self { x, y })
    }

    /// Dispatch of the projection kernel over `items` items.
    pub fn for_items(items: u32, limit: u32) -> (r: Result<Self, ResidentGpuError>)
        ensures
            r == dispatch_for_items_spec(items as nat, limit as nat),
            r matches Ok(d) ==> d.x as int * d.y as int * PROJECT_WORKGROUP_SIZE >= items,
    {
        if items == 0 {
            return Ok(Self { x: 1, y: 1 });
        }
        let logical_groups = div_ceil_u32(items, PROJECT_WORKGROUP_SIZE);
        proof {
            lemma_div_ceil(items as nat, PROJECT_WORKGROUP_SIZE as nat);
        }
        let r = Self::for_workgroups(logical_groups, limit);
        proof {
            if r is Ok {
                let d = r->Ok_0;
                assert(d.x as int * d.y as int * 128 >= logical_groups * 128) by (nonlinear_arith)
                    requires
                        d.x as int * d.y as int >= logical_groups,
                {
                }
            }
        }
        r
    }
}

} // verus!
