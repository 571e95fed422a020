//! Content-hash deduplication: files with equal digests form a group; of
//! each group of two or more, exactly one survives, preferring Albums over
//! Shared over General, earliest first on ties.

use vstd::prelude::*;
use crate::model::{MediaView, DestLocation};

verus! {

/// Duplicate-retention priority of a category.
pub open spec fn prio(c: DestLocation) -> int {
    match c {
        DestLocation::Albums => 2,
        DestLocation::Shared => 1,
        DestLocation::General => 0,
    }
}

pub open spec fn vprio(v: MediaView) -> int {
    prio(v.destination_type.unwrap())
}

pub fn prio_of(c: DestLocation) -> (r: u8)
    ensures
        r as int == prio(c),
{
    match c {
        DestLocation::Albums => 2,
        DestLocation::Shared => 1,
        DestLocation::General => 0,
    }
}

/// Occurrences of digest `d` among the first `n` digests.
pub open spec fn count_eq(ds: Seq<Seq<u8>>, d: Seq<u8>, n: int) -> int
    decreases n,
{
    if n <= 0 {
        0
    } else {
        count_eq(ds, d, n - 1) + (if ds[n - 1] == d {
            1int
        } else {
            0int
        })
    }
}

pub open spec fn group_count(ds: Seq<Seq<u8>>, d: Seq<u8>) -> int {
    count_eq(ds, d, ds.len() as int)
}

/// Highest priority among the first `n` members of digest group `d`;
/// `-1` when the prefix holds no member.
pub open spec fn max_prio(vs: Seq<MediaView>, ds: Seq<Seq<u8>>, d: Seq<u8>, n: int) -> int
    decreases n,
{
    if n <= 0 {
        -1
    } else {
        let rest = max_prio(vs, ds, d, n - 1);
        if ds[n - 1] == d && vprio(vs[n - 1]) > rest {
            vprio(vs[n - 1])
        } else {
            rest
        }
    }
}

/// File `i` survives deduplication: its digest is unique, or it is the first
/// member of its group carrying the group's highest priority.
pub open spec fn keep_spec(vs: Seq<MediaView>, ds: Seq<Seq<u8>>, i: int) -> bool {
    let d = ds[i];
    let m = max_prio(vs, ds, d, ds.len() as int);
    group_count(ds, d) <= 1 || (vprio(vs[i]) == m && (forall|j: int|
        0 <= j < i ==> !(ds[j] == d && vprio(vs[j]) == m)))
}

/// The views that survive, in their original order.
pub open spec fn filtered(vs: Seq<MediaView>, ds: Seq<Seq<u8>>, n: int) -> Seq<MediaView>
    decreases n,
{
    if n <= 0 {
        Seq::empty()
    } else {
        filtered(vs, ds, n - 1) + (if keep_spec(vs, ds, n - 1) {
            seq![vs[n - 1]]
        } else {
            Seq::empty()
        })
    }
}

/// Surviving members of digest group `d` among the first `n` files.
pub open spec fn kept_count(vs: Seq<MediaView>, ds: Seq<Seq<u8>>, d: Seq<u8>, n: int) -> int
    decreases n,
{
    if n <= 0 {
        0
    } else {
        kept_count(vs, ds, d, n - 1) + (if ds[n - 1] == d && keep_spec(vs, ds, n - 1) {
            1int
        } else {
            0int
        })
    }
}

// ---------------------------------------------------------------------------
// Laws
// ---------------------------------------------------------------------------

proof fn lemma_max_prio_bounds(vs: Seq<MediaView>, ds: Seq<Seq<u8>>, d: Seq<u8>, n: int)
    requires
        n <= ds.len(),
        vs.len() == ds.len(),
    ensures
        forall|j: int| 0 <= j < n && ds[j] == d ==> vprio(vs[j]) <= max_prio(vs, ds, d, n),
        max_prio(vs, ds, d, n) >= -1,
    decreases n,
{
    if n > 0 {
        lemma_max_prio_bounds(vs, ds, d, n - 1);
    }
}

proof fn lemma_max_prio_attained(vs: Seq<MediaView>, ds: Seq<Seq<u8>>, d: Seq<u8>, n: int)
    requires
        n <= ds.len(),
        vs.len() == ds.len(),
        count_eq(ds, d, n) >= 1,
    ensures
        exists|j: int| 0 <= j < n && ds[j] == d && vprio(vs[j]) == max_prio(vs, ds, d, n),
    decreases n,
{
    if n > 0 {
        let rest = max_prio(vs, ds, d, n - 1);
        if ds[n - 1] == d && vprio(vs[n - 1]) > rest {
            assert(ds[n - 1] == d && vprio(vs[n - 1]) == max_prio(vs, ds, d, n));
        } else {
            if count_eq(ds, d, n - 1) >= 1 {
                lemma_max_prio_attained(vs, ds, d, n - 1);
            } else {
                assert(ds[n - 1] == d);
                lemma_max_prio_empty(vs, ds, d, n - 1);
                assert(rest == -1);
                assert(vprio(vs[n - 1]) > rest);
            }
        }
    }
}

proof fn lemma_max_prio_empty(vs: Seq<MediaView>, ds: Seq<Seq<u8>>, d: Seq<u8>, n: int)
    requires
        n <= ds.len(),
        count_eq(ds, d, n) == 0,
    ensures
        max_prio(vs, ds, d, n) == -1,
    decreases n,
{
    if n > 0 {
        assert(count_eq(ds, d, n - 1) >= 0) by {
            lemma_count_nonneg(ds, d, n - 1);
        }
        lemma_max_prio_empty(vs, ds, d, n - 1);
    }
}

proof fn lemma_count_nonneg(ds: Seq<Seq<u8>>, d: Seq<u8>, n: int)
    ensures
        count_eq(ds, d, n) >= 0,
    decreases n,
{
    if n > 0 {
        lemma_count_nonneg(ds, d, n - 1);
    }
}

/// Index of the first group member carrying the group's highest priority,
/// scanning from `j`; `-1` when none follows.
spec fn first_rep_from(vs: Seq<MediaView>, ds: Seq<Seq<u8>>, d: Seq<u8>, j: int) -> int
    decreases ds.len() - j,
{
    if j < 0 || j >= ds.len() {
        -1
    } else if ds[j] == d && vprio(vs[j]) == max_prio(vs, ds, d, ds.len() as int) {
        j
    } else {
        first_rep_from(vs, ds, d, j + 1)
    }
}

proof fn lemma_first_rep(vs: Seq<MediaView>, ds: Seq<Seq<u8>>, d: Seq<u8>, j: int)
    requires
        0 <= j <= ds.len(),
    ensures
        ({
            let r = first_rep_from(vs, ds, d, j);
            let m = max_prio(vs, ds, d, ds.len() as int);
            (r == -1 && (forall|k: int| j <= k < ds.len() ==> !(ds[k] == d && vprio(vs[k]) == m)))
                || (j <= r < ds.len() && ds[r] == d && vprio(vs[r]) == m && (forall|k: int|
                j <= k < r ==> !(ds[k] == d && vprio(vs[k]) == m)))
        }),
    decreases ds.len() - j,
{
    if j < ds.len() {
        lemma_first_rep(vs, ds, d, j + 1);
    }
}

proof fn lemma_kept_count_step(vs: Seq<MediaView>, ds: Seq<Seq<u8>>, d: Seq<u8>, r: int, n: int)
    requires
        vs.len() == ds.len(),
        0 <= n <= ds.len(),
        0 <= r < ds.len(),
        ds[r] == d,
        keep_spec(vs, ds, r),
        forall|k: int| 0 <= k < ds.len() && ds[k] == d && k != r ==> !keep_spec(vs, ds, k),
    ensures
        kept_count(vs, ds, d, n) == (if r < n {
            1int
        } else {
            0int
        }),
    decreases n,
{
    if n > 0 {
        lemma_kept_count_step(vs, ds, d, r, n - 1);
    }
}

/// Of every duplicate group, exactly one file survives, and the survivor's
/// category priority is at least that of every member: the Albums member if
/// one exists, else Shared, else General.
pub proof fn lemma_duplicate_retention(vs: Seq<MediaView>, ds: Seq<Seq<u8>>, d: Seq<u8>)
    requires
        vs.len() == ds.len(),
        group_count(ds, d) >= 2,
    ensures
        kept_count(vs, ds, d, ds.len() as int) == 1,
        exists|r: int|
            0 <= r < ds.len() && ds[r] == d && keep_spec(vs, ds, r) && (forall|j: int|
            0 <= j < ds.len() && ds[j] == d ==> vprio(vs[j]) <= vprio(vs[r])),
{
    let n = ds.len() as int;
    let m = max_prio(vs, ds, d, n);
    lemma_max_prio_bounds(vs, ds, d, n);
    lemma_max_prio_attained(vs, ds, d, n);
    lemma_first_rep(vs, ds, d, 0);
    let r = first_rep_from(vs, ds, d, 0);
    assert(0 <= r < n && ds[r] == d && vprio(vs[r]) == m);
    assert(keep_spec(vs, ds, r));
    assert forall|k: int| 0 <= k < n && ds[k] == d && k != r implies !keep_spec(vs, ds, k) by {
        if k < r {
            assert(!(ds[k] == d && vprio(vs[k]) == m));
        } else {
            assert(ds[r] == d && vprio(vs[r]) == m && r < k);
        }
    }
    lemma_kept_count_step(vs, ds, d, r, n);
    assert(forall|j: int| 0 <= j < n && ds[j] == d ==> vprio(vs[j]) <= vprio(vs[r]));
}

} // verus!
