//! Laws relating the container's operations, proved from their contracts.
//!
//! Each lemma takes the values involved in a sequence of calls, assumes of
//! them exactly what the operations' contracts guarantee, and concludes the
//! stated relationship.

use core::cmp::Ordering;
use vstd::prelude::*;
use vstd::std_specs::cmp::PartialOrdSpec;

use crate::pair::Pair;
use crate::slice::spec_hslice_partial_cmp;
use crate::slice::spec_seq_partial_cmp;
use crate::vec::spec_cap_after_pushes;
use crate::vec::spec_push_cap;
use crate::vec::HeaderVec;

verus! {

/// Raw-parts round trip: rebuilding a container from the parts that
/// `into_raw_parts` handed out yields the original container back — the same
/// header, the same body, and the same capacity.
pub proof fn lemma_raw_parts_round_trip<H, T>(
    v: HeaderVec<H, T>,
    parts: Pair<H, T>,
    len: usize,
    cap: usize,
    w: HeaderVec<H, T>,
)
    requires
        // what `into_raw_parts` guarantees of its result
        parts.head == v.spec_head(),
        parts.body@ == v@,
        len == v@.len(),
        cap as nat == v.spec_cap(),
        // what `from_raw_parts` guarantees of the rebuilt container
        w.spec_head() == parts.head,
        w@ == parts.body@,
        w.spec_cap() == cap,
    ensures
        w.spec_head() == v.spec_head(),
        w@ == v@,
        w.spec_cap() == v.spec_cap(),
{
}

/// Growth invariant: starting from an empty container of capacity zero, a
/// run of `n` pushes leaves exactly the capacity that the doubling rule
/// reaches, growth point by growth point. `caps` records the capacity before
/// each push and after the last one.
pub proof fn lemma_push_growth_from_empty<T>(caps: Seq<nat>, n: nat)
    requires
        caps.len() == n + 1,
        caps[0] == 0,
        // each push turns the capacity at length `i` into the pushed one
        forall|i: int| 0 <= i < n ==> caps[i + 1] == spec_push_cap::<T>(#[trigger] caps[i], i as nat),
    ensures
        caps[n as int] == spec_cap_after_pushes::<T>(0, 0, n),
    decreases n,
{
    if n > 0 {
        let prefix = caps.take(n as int);
        assert(forall|i: int|
            0 <= i < n - 1 ==> prefix[i + 1] == spec_push_cap::<T>(#[trigger] prefix[i], i as nat));
        lemma_push_growth_from_empty::<T>(prefix, (n - 1) as nat);
        crate::vec::lemma_cap_after_pushes_snoc::<T>(0, 0, (n - 1) as nat);
        assert(caps[n as int] == spec_push_cap::<T>(caps[n - 1], (n - 1) as nat));
    }
}

/// Zero-sized elements: whatever the container's length and recorded slot
/// count, the reported capacity is the maximum representable value.
pub proof fn lemma_zst_capacity_unbounded<H, T>(v: HeaderVec<H, T>)
    requires
        crate::vec::spec_is_zst::<T>(),
    ensures
        v.spec_capacity() == usize::MAX,
{
}

/// Insert/remove inverse: removing at the index just inserted at hands the
/// inserted value back and restores the original header and body.
pub proof fn lemma_remove_undoes_insert<H, T>(
    v: HeaderVec<H, T>,
    i: usize,
    x: T,
    w: HeaderVec<H, T>,
    u: HeaderVec<H, T>,
    r: Option<T>,
)
    requires
        i <= v@.len(),
        // what `insert` at index `i` guarantees of the container
        w.spec_head() == v.spec_head(),
        w@ == v@.insert(i as int, x),
        // what `remove` at index `i` guarantees, the index being in range
        u.spec_head() == w.spec_head(),
        i < w@.len() ==> r == Some(w@[i as int]) && u@ == w@.remove(i as int),
    ensures
        r == Some(x),
        u.spec_head() == v.spec_head(),
        u@ == v@,
{
    assert(w@.len() == v@.len() + 1);
    assert(w@[i as int] == x);
    assert(w@.remove(i as int) =~= v@);
}

/// Pop/push inverse: popping right after pushing `x` returns `x` and
/// restores the prior header and body. The capacity may differ, since a pop
/// may shrink the allocation.
pub proof fn lemma_pop_undoes_push<H, T>(
    v: HeaderVec<H, T>,
    x: T,
    w: HeaderVec<H, T>,
    u: HeaderVec<H, T>,
    r: Option<T>,
)
    requires
        // what `push` guarantees of the container
        w.spec_head() == v.spec_head(),
        w@ == v@.push(x),
        // what `pop` guarantees on a non-empty container
        u.spec_head() == w.spec_head(),
        w@.len() > 0 ==> r == Some(w@.last()) && u@ == w@.drop_last(),
    ensures
        r == Some(x),
        u.spec_head() == v.spec_head(),
        u@ == v@,
{
    assert(w@.drop_last() =~= v@);
}

/// Ordering, headers first: a strictly smaller header decides the comparison
/// whatever the bodies hold.
pub proof fn lemma_order_headers_first<H: PartialOrd, T: PartialOrd>(
    h1: H,
    b1: Seq<T>,
    h2: H,
    b2: Seq<T>,
)
    requires
        h1.partial_cmp_spec(&h2) == Some(Ordering::Less),
    ensures
        spec_hslice_partial_cmp(h1, b1, h2, b2) == Some(Ordering::Less),
{
}

/// Ordering, equal headers: when the headers compare equal, the bodies alone
/// decide, lexicographically.
pub proof fn lemma_order_equal_headers<H: PartialOrd, T: PartialOrd>(
    h1: H,
    b1: Seq<T>,
    h2: H,
    b2: Seq<T>,
)
    requires
        h1.partial_cmp_spec(&h2) == Some(Ordering::Equal),
    ensures
        spec_hslice_partial_cmp(h1, b1, h2, b2) == spec_seq_partial_cmp(b1, b2),
{
}

/// A sequence whose elements compare equal to themselves sorts strictly
/// before any proper extension of itself.
proof fn lemma_seq_cmp_extension<T: PartialOrd>(s: Seq<T>, ext: Seq<T>)
    requires
        forall|i: int|
            0 <= i < s.len() ==> #[trigger] s[i].partial_cmp_spec(&s[i]) == Some(Ordering::Equal),
        ext.len() > 0,
    ensures
        spec_seq_partial_cmp(s, s + ext) == Some(Ordering::Less),
    decreases s.len(),
{
    if s.len() == 0 {
        assert(s + ext =~= ext);
    } else {
        assert((s + ext)[0] == s[0]);
        let s1 = s.drop_first();
        assert((s + ext).drop_first() =~= s1 + ext);
        lemma_seq_cmp_extension(s1, ext);
    }
}

/// Ordering, prefix before extension: with equal headers, a container sorts
/// strictly before one whose body extends its own by at least one element.
/// The premise that each value compares equal to itself is what rules out
/// bodies holding incomparable values.
pub proof fn lemma_order_prefix_extension<H: PartialOrd, T: PartialOrd>(
    h: H,
    s: Seq<T>,
    ext: Seq<T>,
)
    requires
        h.partial_cmp_spec(&h) == Some(Ordering::Equal),
        forall|i: int|
            0 <= i < s.len() ==> #[trigger] s[i].partial_cmp_spec(&s[i]) == Some(Ordering::Equal),
        ext.len() > 0,
    ensures
        spec_hslice_partial_cmp(h, s, h, s + ext) == Some(Ordering::Less),
{
    lemma_seq_cmp_extension(s, ext);
}

} // verus!
