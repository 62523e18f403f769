//! Priority-ordered pruning of zone bundles.
//!
//! Cleanup sorts a storage root's bundles so that the lowest-priority
//! bundles come first, then deletes from that end until the root's usage
//! falls to or below its budget, or no bundle is left.

use vstd::prelude::*;
use core::cmp::Ordering;
use vstd::multiset::Multiset;
use crate::limits::{BundleUtilization, CleanupCount};
use crate::meta::ZoneBundleInfo;
use crate::priority::{PriorityDimension, PriorityOrder};

verus! {

broadcast use vstd::seq_lib::group_to_multiset_ensures, vstd::multiset::group_multiset_axioms;

/// Whether `a` orders strictly below `b` along one priority dimension.
pub open spec fn dim_lt(d: PriorityDimension, a: ZoneBundleInfo, b: ZoneBundleInfo) -> bool {
    match d {
        PriorityDimension::Cause => a.metadata.cause.rank() < b.metadata.cause.rank(),
        PriorityDimension::Time => a.metadata.time_created.spec_lt(b.metadata.time_created),
    }
}

/// Whether `a` and `b` tie along one priority dimension.
pub open spec fn dim_eq(d: PriorityDimension, a: ZoneBundleInfo, b: ZoneBundleInfo) -> bool {
    match d {
        PriorityDimension::Cause => a.metadata.cause == b.metadata.cause,
        PriorityDimension::Time => a.metadata.time_created == b.metadata.time_created,
    }
}

/// Whether `a` has strictly lower priority than `b`: the dimensions are
/// compared lexicographically in the configured order.
pub open spec fn bundle_lt(p: PriorityOrder, a: ZoneBundleInfo, b: ZoneBundleInfo) -> bool {
    dim_lt(p.0[0], a, b) || (dim_eq(p.0[0], a, b) && dim_lt(p.0[1], a, b))
}

/// A sequence is sorted by rising priority: no later element orders
/// strictly below an earlier one.
pub open spec fn sorted_by(p: PriorityOrder, s: Seq<ZoneBundleInfo>) -> bool {
    forall|i: int, j: int| 0 <= i < j < s.len() ==> !bundle_lt(p, s[j], s[i])
}

/// The order along one dimension is total: two bundles not ordered either
/// way tie.
proof fn lemma_dim_total(d: PriorityDimension, a: ZoneBundleInfo, b: ZoneBundleInfo)
    ensures
        !dim_lt(d, a, b) && !dim_lt(d, b, a) ==> dim_eq(d, a, b),
        dim_lt(d, a, b) ==> !dim_lt(d, b, a) && !dim_eq(d, a, b),
{
    match d {
        PriorityDimension::Cause => {
            crate::meta::ZoneBundleCause::lemma_rank_injective(
                a.metadata.cause,
                b.metadata.cause,
            );
        },
        PriorityDimension::Time => {
            crate::timespan::UtcTime::lemma_lt_total(
                a.metadata.time_created,
                b.metadata.time_created,
            );
        },
    }
}

/// The priority order is total: two bundles not ordered either way tie in
/// both cause and creation time.
pub proof fn lemma_bundle_lt_total(p: PriorityOrder, a: ZoneBundleInfo, b: ZoneBundleInfo)
    requires
        p.wf(),
    ensures
        !bundle_lt(p, a, b) && !bundle_lt(p, b, a) ==> a.metadata.cause == b.metadata.cause
            && a.metadata.time_created == b.metadata.time_created,
        bundle_lt(p, a, b) ==> !bundle_lt(p, b, a),
{
    lemma_dim_total(p.0[0], a, b);
    lemma_dim_total(p.0[1], a, b);
}

impl PriorityOrder {
    /// Order zone bundle info according to the contained priority.
    ///
    /// The info is compared by each dimension in the order in which it
    /// appears, so earlier dimensions outrank later ones.
    pub fn compare_bundles(&self, lhs: &ZoneBundleInfo, rhs: &ZoneBundleInfo) -> (r: Ordering)
        ensures
            r == Ordering::Less <==> bundle_lt(*self, *lhs, *rhs),
            r == Ordering::Greater <==> bundle_lt(*self, *rhs, *lhs),
            r == Ordering::Equal <==> (dim_eq(self.0[0], *lhs, *rhs) && dim_eq(
                self.0[1],
                *lhs,
                *rhs,
            )),
    {
        proof {
            lemma_dim_total(self.0[0], *lhs, *rhs);
            lemma_dim_total(self.0[1], *lhs, *rhs);
        }
        let first = compare_dim(vstd::array::array_index_get(&self.0, 0), lhs, rhs);
        match first {
            Ordering::Equal => compare_dim(vstd::array::array_index_get(&self.0, 1), lhs, rhs),
            _ => first,
        }
    }
}

/// Compare two bundles along a single dimension.
fn compare_dim(d: &PriorityDimension, lhs: &ZoneBundleInfo, rhs: &ZoneBundleInfo) -> (r: Ordering)
    ensures
        r == Ordering::Less <==> dim_lt(*d, *lhs, *rhs),
        r == Ordering::Greater <==> dim_lt(*d, *rhs, *lhs),
        r == Ordering::Equal <==> dim_eq(*d, *lhs, *rhs),
{
    proof {
        lemma_dim_total(*d, *lhs, *rhs);
    }
    match d {
        PriorityDimension::Cause => {
            let l = lhs.metadata.cause.rank_u8();
            let r = rhs.metadata.cause.rank_u8();
            if l < r {
                Ordering::Less
            } else if r < l {
                Ordering::Greater
            } else {
                Ordering::Equal
            }
        },
        PriorityDimension::Time => {
            if lhs.metadata.time_created.lt(&rhs.metadata.time_created) {
                Ordering::Less
            } else if rhs.metadata.time_created.lt(&lhs.metadata.time_created) {
                Ordering::Greater
            } else {
                Ordering::Equal
            }
        },
    }
}

/// Sort a root's bundles by rising priority: the first element of the
/// result is the first to be pruned.
///
/// The result is a permutation of the input. Among bundles that tie in
/// every dimension, the input order is kept.
pub fn sort_bundles(p: &PriorityOrder, v: Vec<ZoneBundleInfo>) -> (r: Vec<ZoneBundleInfo>)
    ensures
        sorted_by(*p, r@),
        r@.to_multiset() == v@.to_multiset(),
        r@.len() == v@.len(),
{
    let mut rest = v;
    let mut out: Vec<ZoneBundleInfo> = Vec::new();
    proof {
        assert(out@.to_multiset().add(rest@.to_multiset()) =~= v@.to_multiset());
    }
    while rest.len() > 0
        invariant
            sorted_by(*p, out@),
            out@.to_multiset().add(rest@.to_multiset()) == v@.to_multiset(),
            out@.len() + rest@.len() == v@.len(),
            forall|i: int, j: int|
                0 <= i < out@.len() && 0 <= j < rest@.len() ==> !bundle_lt(
                    *p,
                    rest@[j],
                    out@[i],
                ),
        decreases rest@.len(),
    {
        // Find the first minimal element of what is left.
        let mut m: usize = 0;
        let mut k: usize = 1;
        while k < rest.len()
            invariant
                0 < rest@.len(),
                m < k,
                k <= rest@.len(),
                forall|q: int| 0 <= q < k ==> !bundle_lt(*p, rest@[q], rest@[m as int]),
            decreases rest@.len() - k,
        {
            let c = p.compare_bundles(&rest[k], &rest[m]);
            if matches!(c, Ordering::Less) {
                m = k;
            }
            k += 1;
        }
        let ghost prev_rest = rest@;
        let ghost prev_out = out@;
        let x = rest.remove(m);
        out.push(x);
        proof {
            assert(prev_rest.contains(prev_rest[m as int]));
            assert(rest@ =~= prev_rest.remove(m as int));
            assert(prev_rest.remove(m as int).to_multiset() =~= prev_rest.to_multiset().remove(
                prev_rest[m as int],
            ));
            assert(rest@.to_multiset() =~= prev_rest.to_multiset().remove(x));
            assert(out@ =~= prev_out.push(x));
            assert(prev_out.push(x).to_multiset() =~= prev_out.to_multiset().insert(x));
            assert(out@.to_multiset() =~= prev_out.to_multiset().insert(x));
            assert(prev_rest.to_multiset().count(x) > 0);
            assert(out@.to_multiset().add(rest@.to_multiset()) =~= prev_out.to_multiset().add(
                prev_rest.to_multiset(),
            ));
            // The element just placed orders at or above everything already
            // placed, so the output stays sorted.
            assert forall|i: int, j: int| 0 <= i < j < out@.len() implies !bundle_lt(
                *p,
                out@[j],
                out@[i],
            ) by {
                if j + 1 == out@.len() {
                    assert(out@[j] == x);
                    assert(out@[i] == prev_out[i]);
                }
            }
            // Everything still unplaced orders at or above everything placed.
            assert forall|i: int, j: int|
                0 <= i < out@.len() && 0 <= j < rest@.len() implies !bundle_lt(
                *p,
                rest@[j],
                out@[i],
            ) by {
                let q: int = if j < m { j } else { j + 1 };
                assert(rest@[j] == prev_rest[q]);
                if i + 1 == out@.len() {
                    assert(out@[i] == x);
                    assert(!bundle_lt(*p, prev_rest[q], prev_rest[m as int]));
                } else {
                    assert(out@[i] == prev_out[i]);
                }
            }
        }
    }
    proof {
        assert(rest@.to_multiset() =~= Multiset::empty());
        assert(out@.to_multiset() =~= v@.to_multiset());
    }
    out
}

/// Bytes that remain counted against a root after pruning the first `n`
/// bundles of `s`, starting from `used` and subtracting each bundle's size,
/// saturating at zero.
pub open spec fn remaining_after(used: int, s: Seq<ZoneBundleInfo>, n: int) -> int
    decreases n,
{
    if n <= 0 {
        used
    } else {
        let r = remaining_after(used, s, n - 1);
        if r >= s[n - 1].bytes {
            r - s[n - 1].bytes
        } else {
            0
        }
    }
}

/// Total size of the first `n` bundles of `s`, saturating at the largest
/// unsigned 64-bit value.
pub open spec fn pruned_bytes(s: Seq<ZoneBundleInfo>, n: int) -> int
    decreases n,
{
    if n <= 0 {
        0
    } else {
        let r = pruned_bytes(s, n - 1);
        if r + s[n - 1].bytes <= u64::MAX {
            r + s[n - 1].bytes
        } else {
            u64::MAX as int
        }
    }
}

/// Decide how many bundles to prune from a root.
///
/// `sorted` must hold the root's bundles by rising priority; the plan is to
/// delete exactly the first `r.0` of them. Pruning stops as soon as the
/// root's usage falls to or below its budget; every bundle it prunes was
/// deleted while usage was still above budget. If even pruning every bundle
/// leaves the root above budget, every bundle is pruned.
pub fn plan_cleanup_root(sorted: &Vec<ZoneBundleInfo>, usage: &BundleUtilization) -> (r: (
    usize,
    CleanupCount,
))
    ensures
        r.0 <= sorted@.len(),
        r.0 == sorted@.len() || remaining_after(
            usage.bytes_used as int,
            sorted@,
            r.0 as int,
        ) <= usage.bytes_available,
        forall|i: int|
            0 <= i < r.0 ==> remaining_after(usage.bytes_used as int, sorted@, i)
                > usage.bytes_available,
        r.1.bundles == r.0,
        r.1.bytes == pruned_bytes(sorted@, r.0 as int),
        usage.bytes_used <= usage.bytes_available ==> r.0 == 0,
{
    let mut n: usize = 0;
    let mut n_bytes: u64 = usage.bytes_used;
    let mut count_bytes: u64 = 0;
    while n < sorted.len() && n_bytes > usage.bytes_available
        invariant
            n <= sorted@.len(),
            n_bytes == remaining_after(usage.bytes_used as int, sorted@, n as int),
            count_bytes == pruned_bytes(sorted@, n as int),
            forall|i: int|
                0 <= i < n ==> remaining_after(usage.bytes_used as int, sorted@, i)
                    > usage.bytes_available,
        decreases sorted@.len() - n,
    {
        let b = sorted[n].bytes;
        n_bytes = if n_bytes >= b {
            n_bytes - b
        } else {
            0
        };
        count_bytes = if count_bytes <= u64::MAX - b {
            count_bytes + b
        } else {
            u64::MAX
        };
        n += 1;
    }
    (n, CleanupCount { bundles: n as u64, bytes: count_bytes })
}

/// Any bundle pruned by the plan orders no higher than any bundle kept;
/// where the two differ in cause or in creation time, the kept bundle
/// orders strictly higher.
pub proof fn lemma_cleanup_priority_order(
    p: PriorityOrder,
    s: Seq<ZoneBundleInfo>,
    n: int,
    i: int,
    j: int,
)
    requires
        p.wf(),
        sorted_by(p, s),
        0 <= i < n <= j < s.len(),
    ensures
        !bundle_lt(p, s[j], s[i]),
        s[i].metadata.cause != s[j].metadata.cause || s[i].metadata.time_created
            != s[j].metadata.time_created ==> bundle_lt(p, s[i], s[j]),
{
    lemma_bundle_lt_total(p, s[i], s[j]);
}

/// Pruning more bundles never increases what remains, so cleanup
/// converges: the pruning plan stops either at or below the budget, or
/// with every bundle pruned, and no shorter plan it passed over was
/// already sufficient.
pub proof fn lemma_remaining_monotone(used: int, s: Seq<ZoneBundleInfo>, a: int, b: int)
    requires
        0 <= used,
        0 <= a <= b,
    ensures
        remaining_after(used, s, b) <= remaining_after(used, s, a),
    decreases b - a,
{
    if a < b {
        lemma_remaining_monotone(used, s, a, b - 1);
        lemma_remaining_nonneg(used, s, b - 1);
    }
}

/// What remains counted against a root is never negative.
pub proof fn lemma_remaining_nonneg(used: int, s: Seq<ZoneBundleInfo>, n: int)
    requires
        0 <= used,
        0 <= n,
    ensures
        remaining_after(used, s, n) >= 0,
    decreases n,
{
    if n > 0 {
        lemma_remaining_nonneg(used, s, n - 1);
    }
}

} // verus!
