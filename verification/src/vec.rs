//! The owning growable container: one header value plus a growable body.
//!
//! `HeaderVec` tracks its length and its capacity separately. The capacity
//! follows an exact policy: growing reallocates to `max(2 * target_len, cap)`,
//! shrinking to `min(max(2 * target_len, MIN_CAP), cap)`, and a zero-sized
//! element type switches all capacity bookkeeping off. Every mutating method
//! states in its contract both the resulting contents and the resulting
//! capacity under that policy.

use core::cmp::Ordering;
use vstd::prelude::*;
use vstd::std_specs::cmp::OrdSpec;
use vstd::std_specs::cmp::PartialEqSpec;
use vstd::std_specs::cmp::PartialOrdSpec;

verus! {

/// The smallest capacity the shrink policy will leave in place.
pub const MIN_CAP: usize = 8;

/// The element type's three-way comparison behaves as a total order: its
/// executable `cmp` matches its specification, comparing in the other
/// direction reverses the answer, and being at-most is transitive, also
/// across one strict step.
pub open spec fn spec_cmp_lawful<T: Ord>() -> bool {
    &&& T::obeys_cmp_spec()
    &&& forall|a: T, b: T|
        #[trigger] a.cmp_spec(&b) == Ordering::Less <==> b.cmp_spec(&a) == Ordering::Greater
    &&& forall|a: T, b: T, c: T|
        #![trigger a.cmp_spec(&b), b.cmp_spec(&c)]
        a.cmp_spec(&b) != Ordering::Greater && b.cmp_spec(&c) != Ordering::Greater
            ==> a.cmp_spec(&c) != Ordering::Greater
    &&& forall|a: T, b: T, c: T|
        #![trigger a.cmp_spec(&b), b.cmp_spec(&c)]
        a.cmp_spec(&b) != Ordering::Greater && b.cmp_spec(&c) == Ordering::Less
            ==> a.cmp_spec(&c) == Ordering::Less
    &&& forall|a: T, b: T, c: T|
        #![trigger a.cmp_spec(&b), b.cmp_spec(&c)]
        a.cmp_spec(&b) == Ordering::Less && b.cmp_spec(&c) != Ordering::Greater
            ==> a.cmp_spec(&c) == Ordering::Less
}

/// The sequence is sorted under the element type's comparison: no earlier
/// element compares greater than a later one.
pub open spec fn spec_sorted<T: Ord>(s: Seq<T>) -> bool {
    forall|i: int, j: int|
        0 <= i < j < s.len() ==> #[trigger] s[i].cmp_spec(&s[j]) != Ordering::Greater
}

/// Whether the element type occupies zero bytes, in which case capacity
/// bookkeeping is switched off and the reported capacity is unbounded.
pub open spec fn spec_is_zst<T>() -> bool {
    vstd::layout::size_of::<T>() == 0
}

/// Capacity after reallocating to exactly `count` slots: a zero-sized element
/// type leaves the recorded capacity untouched.
pub open spec fn spec_realloc_cap<T>(cap: nat, count: nat) -> nat {
    if spec_is_zst::<T>() {
        cap
    } else {
        count
    }
}

/// Capacity after growing for a target length: `max(2 * target_len, cap)`,
/// untouched for a zero-sized element type.
pub open spec fn spec_grow_cap<T>(cap: nat, target_len: nat) -> nat {
    if spec_is_zst::<T>() {
        cap
    } else if 2 * target_len > cap {
        2 * target_len
    } else {
        cap
    }
}

/// Capacity after shrinking for a target length:
/// `min(max(2 * target_len, MIN_CAP), cap)`, untouched for a zero-sized
/// element type.
pub open spec fn spec_shrink_cap<T>(cap: nat, target_len: nat) -> nat {
    if spec_is_zst::<T>() {
        cap
    } else {
        let lower = if 2 * target_len > MIN_CAP as nat {
            2 * target_len
        } else {
            MIN_CAP as nat
        };
        if lower < cap {
            lower
        } else {
            cap
        }
    }
}

/// Capacity after one `push` from a state with the given capacity and length:
/// the container grows only when the appended length would exceed capacity.
pub open spec fn spec_push_cap<T>(cap: nat, len: nat) -> nat {
    if len + 1 > cap {
        spec_grow_cap::<T>(cap, len + 1)
    } else {
        cap
    }
}

/// Capacity after one `insert` at position `i` into a body of length `len`:
/// inserting at the end appends like `push`; inserting in the middle always
/// applies the grow rule for the new length first.
pub open spec fn spec_insert_cap<T>(cap: nat, len: nat, i: nat) -> nat {
    if i == len {
        spec_push_cap::<T>(cap, len)
    } else {
        spec_grow_cap::<T>(cap, len + 1)
    }
}

/// Capacity after `n` consecutive `push` calls starting from the given
/// capacity and length.
pub open spec fn spec_cap_after_pushes<T>(cap: nat, len: nat, n: nat) -> nat
    decreases n,
{
    if n == 0 {
        cap
    } else {
        spec_cap_after_pushes::<T>(spec_push_cap::<T>(cap, len), len + 1, (n - 1) as nat)
    }
}

/// Peeling one `push` off the end of a run of `n + 1` pushes.
pub proof fn lemma_cap_after_pushes_snoc<T>(cap: nat, len: nat, n: nat)
    ensures
        spec_cap_after_pushes::<T>(cap, len, n + 1) == spec_push_cap::<T>(
            spec_cap_after_pushes::<T>(cap, len, n),
            len + n,
        ),
    decreases n,
{
    if n == 0 {
        assert(spec_cap_after_pushes::<T>(cap, len, 1) == spec_cap_after_pushes::<T>(
            spec_push_cap::<T>(cap, len),
            len + 1,
            0,
        ));
    } else {
        lemma_cap_after_pushes_snoc::<T>(
            spec_push_cap::<T>(cap, len),
            len + 1,
            (n - 1) as nat,
        );
        assert(spec_cap_after_pushes::<T>(cap, len, n + 1) == spec_cap_after_pushes::<T>(
            spec_push_cap::<T>(cap, len),
            len + 1,
            n,
        ));
    }
}

/// A growable container holding one header value and a body of elements in
/// what is conceptually a single allocation of `cap` element slots.
#[derive(Debug)]
pub struct HeaderVec<H, T> {
    /// The header value stored ahead of the body.
    pub head: H,
    body: Vec<T>,
    cap: usize,
}

impl<H, T> View for HeaderVec<H, T> {
    type V = Seq<T>;

    closed spec fn view(&self) -> Seq<T> {
        self.body@
    }
}

impl<H, T> HeaderVec<H, T> {
    /// The header value, for use in contracts.
    pub closed spec fn spec_head(self) -> H {
        self.head
    }

    /// The recorded number of element slots, before the zero-sized-element
    /// adjustment that `capacity` reports.
    pub closed spec fn spec_cap(self) -> nat {
        self.cap as nat
    }

    /// The capacity as reported to callers: unbounded for a zero-sized
    /// element type, the recorded slot count otherwise.
    pub open spec fn spec_capacity(self) -> nat {
        if spec_is_zst::<T>() {
            usize::MAX as nat
        } else {
            self.spec_cap()
        }
    }

    /// Well-formedness: the body never outgrows the recorded capacity, except
    /// that a zero-sized element type needs no capacity at all.
    pub open spec fn wf(self) -> bool {
        !spec_is_zst::<T>() ==> self@.len() <= self.spec_cap()
    }

    /// The total reserved capacity of the vector.
    pub fn capacity(&self) -> (r: usize)
        ensures
            r as nat == self.spec_capacity(),
    {
        if core::mem::size_of::<T>() == 0 {
            usize::MAX
        } else {
            self.cap
        }
    }

    /// The number of body elements.
    pub fn len(&self) -> (n: usize)
        ensures
            n == self@.len(),
    {
        self.body.len()
    }

    /// The body elements as a slice.
    pub fn as_slice(&self) -> (s: &[T])
        ensures
            s@ == self@,
    {
        self.body.as_slice()
    }

    /// Creates an empty `HeaderVec` with the specified capacity.
    pub fn with_capacity(head: H, cap: usize) -> (r: Self)
        ensures
            r.spec_head() == head,
            r@ == Seq::<T>::empty(),
            r.spec_cap() == cap,
            r.wf(),
    {
        HeaderVec { head, body: Vec::new(), cap }
    }

    /// Creates an empty `HeaderVec` with the default minimum capacity.
    pub fn new(head: H) -> (r: Self)
        ensures
            r.spec_head() == head,
            r@ == Seq::<T>::empty(),
            r.spec_cap() == MIN_CAP,
            r.wf(),
    {
        Self::with_capacity(head, MIN_CAP)
    }

    /// Reallocate so that the vector has exactly the requested capacity.
    /// The contents are untouched; for a zero-sized element type this is a
    /// no-op.
    fn realloc_exact(&mut self, count: usize)
        ensures
            final(self).spec_head() == old(self).spec_head(),
            final(self)@ == old(self)@,
            final(self).spec_cap() == spec_realloc_cap::<T>(old(self).spec_cap(), count as nat),
    {
        if core::mem::size_of::<T>() == 0 {
            return;
        }
        self.cap = count;
    }

    /// Increase capacity so that about half of it is unused.
    fn grow(&mut self, target_len: usize)
        requires
            !spec_is_zst::<T>() ==> 2 * target_len <= usize::MAX,
        ensures
            final(self).spec_head() == old(self).spec_head(),
            final(self)@ == old(self)@,
            final(self).spec_cap() == spec_grow_cap::<T>(old(self).spec_cap(), target_len as nat),
    {
        if core::mem::size_of::<T>() == 0 {
            return;
        }
        let doubled = target_len * 2;
        let target_cap = if doubled > self.cap {
            doubled
        } else {
            self.cap
        };
        self.realloc_exact(target_cap);
    }

    /// Decrease capacity so that about half of it is unused, never below the
    /// minimum capacity and never growing.
    fn shrink(&mut self, target_len: usize)
        ensures
            final(self).spec_head() == old(self).spec_head(),
            final(self)@ == old(self)@,
            final(self).spec_cap() == spec_shrink_cap::<T>(old(self).spec_cap(), target_len as nat),
    {
        if core::mem::size_of::<T>() == 0 {
            return;
        }
        let target_cap = if target_len > self.cap / 2 {
            // The doubled target would already be at or above the current
            // capacity, and shrinking never grows.
            self.cap
        } else {
            let lower = if target_len > MIN_CAP / 2 {
                target_len * 2
            } else {
                MIN_CAP
            };
            if lower < self.cap {
                lower
            } else {
                self.cap
            }
        };
        self.realloc_exact(target_cap);
    }

    /// Push a value to the end of the vector.
    pub fn push(&mut self, val: T)
        requires
            old(self)@.len() < usize::MAX,
            !spec_is_zst::<T>() && old(self)@.len() + 1 > old(self).spec_cap() ==> 2 * (old(
                self,
            )@.len() + 1) <= usize::MAX,
        ensures
            final(self).spec_head() == old(self).spec_head(),
            final(self)@ == old(self)@.push(val),
            final(self).spec_cap() == spec_push_cap::<T>(old(self).spec_cap(), old(self)@.len()),
            final(self).wf(),
    {
        let new_len = self.body.len() + 1;
        if new_len > self.cap {
            self.grow(new_len);
        }
        self.body.push(val);
    }

    /// Pop a value from the end of the vector, if there is one.
    pub fn pop(&mut self) -> (r: Option<T>)
        ensures
            final(self).spec_head() == old(self).spec_head(),
            old(self)@.len() == 0 ==> {
                &&& r is None
                &&& final(self)@ == old(self)@
                &&& final(self).spec_cap() == old(self).spec_cap()
            },
            old(self)@.len() > 0 ==> {
                &&& r == Some(old(self)@.last())
                &&& final(self)@ == old(self)@.drop_last()
                &&& final(self).spec_cap() == spec_shrink_cap::<T>(
                    old(self).spec_cap(),
                    (old(self)@.len() - 1) as nat,
                )
            },
            old(self).wf() ==> final(self).wf(),
    {
        if self.body.len() == 0 {
            return None;
        }
        let new_len = self.body.len() - 1;
        let val = self.body.pop();
        self.shrink(new_len);
        val
    }

    /// Removes the value at the given index, if there is one.
    /// All entries after `index` are shifted one slot to the left.
    pub fn remove(&mut self, index: usize) -> (r: Option<T>)
        ensures
            final(self).spec_head() == old(self).spec_head(),
            index >= old(self)@.len() ==> {
                &&& r is None
                &&& final(self)@ == old(self)@
                &&& final(self).spec_cap() == old(self).spec_cap()
            },
            index < old(self)@.len() ==> {
                &&& r == Some(old(self)@[index as int])
                &&& final(self)@ == old(self)@.remove(index as int)
                &&& final(self).spec_cap() == spec_shrink_cap::<T>(
                    old(self).spec_cap(),
                    (old(self)@.len() - 1) as nat,
                )
            },
            old(self).wf() ==> final(self).wf(),
    {
        if index >= self.body.len() {
            return None;
        }
        let val = self.body.remove(index);
        let new_len = self.body.len();
        self.shrink(new_len);
        Some(val)
    }

    /// Removes the value at `index`, if there is one, by moving the last
    /// element into its place. Does not preserve the order of the remaining
    /// elements.
    pub fn swap_remove(&mut self, index: usize) -> (r: Option<T>)
        ensures
            final(self).spec_head() == old(self).spec_head(),
            index >= old(self)@.len() ==> {
                &&& r is None
                &&& final(self)@ == old(self)@
                &&& final(self).spec_cap() == old(self).spec_cap()
            },
            index < old(self)@.len() ==> {
                &&& r == Some(old(self)@[index as int])
                &&& final(self)@ == old(self)@.update(
                    index as int,
                    old(self)@.last(),
                ).drop_last()
                &&& final(self).spec_cap() == spec_shrink_cap::<T>(
                    old(self).spec_cap(),
                    (old(self)@.len() - 1) as nat,
                )
            },
            old(self).wf() ==> final(self).wf(),
    {
        if index >= self.body.len() {
            return None;
        }
        let val = self.body.swap_remove(index);
        let new_len = self.body.len();
        self.shrink(new_len);
        Some(val)
    }

    /// Inserts an element at `index`, shifting all elements after `index` one
    /// slot to the right. The index must be at most the current length.
    pub fn insert(&mut self, index: usize, val: T)
        requires
            index <= old(self)@.len(),
            old(self)@.len() < usize::MAX,
            !spec_is_zst::<T>() && (index < old(self)@.len() || old(self)@.len() + 1 > old(
                self,
            ).spec_cap()) ==> 2 * (old(self)@.len() + 1) <= usize::MAX,
        ensures
            final(self).spec_head() == old(self).spec_head(),
            final(self)@ == old(self)@.insert(index as int, val),
            final(self).spec_cap() == spec_insert_cap::<T>(
                old(self).spec_cap(),
                old(self)@.len(),
                index as nat,
            ),
            final(self).wf(),
    {
        if index == self.body.len() {
            self.push(val);
            proof {
                assert(final(self)@ =~= old(self)@.insert(index as int, val));
            }
            return;
        }
        let new_len = self.body.len() + 1;
        self.grow(new_len);
        self.body.insert(index, val);
    }

    /// Shortens the vector to the given length, which must be at most the
    /// current length. Shrinks the capacity unless the length is unchanged.
    pub fn truncate(&mut self, new_len: usize)
        requires
            new_len <= old(self)@.len(),
        ensures
            final(self).spec_head() == old(self).spec_head(),
            final(self)@ == old(self)@.subrange(0, new_len as int),
            final(self).spec_cap() == if new_len == old(self)@.len() {
                old(self).spec_cap()
            } else {
                spec_shrink_cap::<T>(old(self).spec_cap(), new_len as nat)
            },
            old(self).wf() ==> final(self).wf(),
    {
        if new_len == self.body.len() {
            proof {
                assert(old(self)@.subrange(0, new_len as int) =~= old(self)@);
            }
            return;
        }
        self.body.truncate(new_len);
        self.shrink(new_len);
    }

    /// Drops all elements and reallocates away all capacity.
    pub fn clear(&mut self)
        ensures
            final(self).spec_head() == old(self).spec_head(),
            final(self)@ == Seq::<T>::empty(),
            final(self).spec_cap() == spec_realloc_cap::<T>(old(self).spec_cap(), 0),
            final(self).wf(),
    {
        self.clear_in_place();
        self.realloc_exact(0);
    }

    /// Drops all elements without touching the capacity.
    pub fn clear_in_place(&mut self)
        ensures
            final(self).spec_head() == old(self).spec_head(),
            final(self)@ == Seq::<T>::empty(),
            final(self).spec_cap() == old(self).spec_cap(),
            final(self).wf(),
    {
        self.body.clear();
    }

    /// Reallocates so that there is no excess capacity: afterwards the
    /// recorded capacity equals the length.
    pub fn shrink_to_fit(&mut self)
        ensures
            final(self).spec_head() == old(self).spec_head(),
            final(self)@ == old(self)@,
            final(self).spec_cap() == spec_realloc_cap::<T>(
                old(self).spec_cap(),
                old(self)@.len(),
            ),
            final(self).wf(),
    {
        let len = self.body.len();
        self.realloc_exact(len);
    }

    /// Reallocates if necessary to hold a vector of the given length:
    /// a smaller target shrinks, a target beyond the reported capacity grows.
    fn realloc_for(&mut self, len: usize)
        requires
            !spec_is_zst::<T>() && len > old(self).spec_cap() ==> 2 * len <= usize::MAX,
        ensures
            final(self).spec_head() == old(self).spec_head(),
            final(self)@ == old(self)@,
            final(self).spec_cap() == if len < old(self)@.len() {
                spec_shrink_cap::<T>(old(self).spec_cap(), len as nat)
            } else if len > old(self).spec_capacity() {
                spec_grow_cap::<T>(old(self).spec_cap(), len as nat)
            } else {
                old(self).spec_cap()
            },
    {
        if len < self.body.len() {
            self.shrink(len);
        } else {
            let c = self.capacity();
            if len > c {
                self.grow(len);
            }
        }
    }

    /// Reserve enough capacity to add at least `additional` elements without
    /// reallocating, growing with the usual doubling rule if needed.
    pub fn reserve(&mut self, additional: usize)
        requires
            old(self)@.len() + additional <= usize::MAX,
            !spec_is_zst::<T>() && old(self)@.len() + additional > old(self).spec_cap()
                ==> 2 * (old(self)@.len() + additional) <= usize::MAX,
        ensures
            final(self).spec_head() == old(self).spec_head(),
            final(self)@ == old(self)@,
            final(self).spec_cap() == if old(self)@.len() + additional > old(
                self,
            ).spec_capacity() {
                spec_grow_cap::<T>(old(self).spec_cap(), (old(self)@.len() + additional) as nat)
            } else {
                old(self).spec_cap()
            },
            old(self).wf() ==> final(self).wf(),
    {
        let target = self.body.len() + additional;
        self.realloc_for(target);
    }

    /// Reserve enough capacity to add exactly `additional` elements without
    /// reallocating, reallocating to exactly that size if it was smaller.
    pub fn reserve_exact(&mut self, additional: usize)
        requires
            old(self)@.len() + additional <= usize::MAX,
        ensures
            final(self).spec_head() == old(self).spec_head(),
            final(self)@ == old(self)@,
            final(self).spec_cap() == if old(self)@.len() + additional <= old(self).spec_cap() {
                old(self).spec_cap()
            } else {
                spec_realloc_cap::<T>(
                    old(self).spec_cap(),
                    (old(self)@.len() + additional) as nat,
                )
            },
            old(self).wf() ==> final(self).wf(),
    {
        let new_cap = self.body.len() + additional;
        if new_cap <= self.cap {
            return;
        }
        self.realloc_exact(new_cap);
    }

    /// Creates a `HeaderVec` from the given header and elements, with
    /// capacity equal to the number of elements.
    pub fn from_iter(head: H, items: Vec<T>) -> (r: Self)
        ensures
            r.spec_head() == head,
            r@ == items@,
            r.spec_cap() == items@.len(),
            r.wf(),
    {
        let cap = items.len();
        HeaderVec { head, body: items, cap }
    }

    /// Pushes every element of `items` onto the end of the vector, in order,
    /// growing with the usual per-push doubling rule.
    pub fn extend(&mut self, items: Vec<T>)
        requires
            old(self)@.len() + items@.len() <= usize::MAX,
            !spec_is_zst::<T>() && items@.len() > 0 ==> 2 * (old(self)@.len()
                + items@.len()) <= usize::MAX,
        ensures
            final(self).spec_head() == old(self).spec_head(),
            final(self)@ == old(self)@ + items@,
            final(self).spec_cap() == spec_cap_after_pushes::<T>(
                old(self).spec_cap(),
                old(self)@.len(),
                items@.len(),
            ),
            old(self).wf() ==> final(self).wf(),
    {
        let mut items = items;
        let ghost items0 = items@;
        let ghost n = items0.len();
        // Reverse into a scratch vector so that elements can be moved out one
        // at a time from the back.
        let mut rev: Vec<T> = Vec::new();
        while items.len() > 0
            invariant
                items@.len() + rev@.len() == n,
                forall|j: int| 0 <= j < items@.len() ==> items@[j] == items0[j],
                forall|i: int|
                    0 <= i < rev@.len() ==> rev@[i] == items0[n - 1 - i],
            decreases items@.len(),
        {
            let ghost items_prev = items@;
            let x = items.pop().unwrap();
            proof {
                assert(x == items_prev[items_prev.len() - 1]);
                assert forall|j: int| 0 <= j < items@.len() implies items@[j] == items0[j] by {
                    assert(items_prev.subrange(0, items_prev.len() - 1)[j] == items_prev[j]);
                }
            }
            rev.push(x);
        }
        while rev.len() > 0
            invariant
                rev@.len() <= n,
                forall|i: int|
                    0 <= i < rev@.len() ==> rev@[i] == items0[n - 1 - i],
                self.spec_head() == old(self).spec_head(),
                self@.len() == old(self)@.len() + n - rev@.len(),
                forall|j: int| 0 <= j < old(self)@.len() ==> self@[j] == old(self)@[j],
                forall|j: int|
                    old(self)@.len() <= j < self@.len() ==> self@[j] == items0[j - old(
                        self,
                    )@.len()],
                self.spec_cap() == spec_cap_after_pushes::<T>(
                    old(self).spec_cap(),
                    old(self)@.len(),
                    (n - rev@.len()) as nat,
                ),
                old(self).wf() ==> self.wf(),
                old(self)@.len() + n <= usize::MAX,
                !spec_is_zst::<T>() && n > 0 ==> 2 * (old(self)@.len() + n) <= usize::MAX,
            decreases rev@.len(),
        {
            let ghost done = (n - rev@.len()) as nat;
            let x = rev.pop().unwrap();
            proof {
                assert(x == items0[done as int]);
                lemma_cap_after_pushes_snoc::<T>(
                    old(self).spec_cap(),
                    old(self)@.len(),
                    done,
                );
            }
            self.push(x);
        }
        proof {
            assert(final(self)@ =~= old(self)@ + items0);
        }
    }

    /// Resizes the vector: a shorter target truncates, a longer one appends
    /// values produced by the given function.
    pub fn resize_with<F: Fn() -> T>(&mut self, new_len: usize, f: F)
        requires
            f.requires(()),
            !spec_is_zst::<T>() && new_len > old(self)@.len() ==> 2 * new_len <= usize::MAX,
        ensures
            final(self).spec_head() == old(self).spec_head(),
            new_len < old(self)@.len() ==> {
                &&& final(self)@ == old(self)@.subrange(0, new_len as int)
                &&& final(self).spec_cap() == spec_shrink_cap::<T>(
                    old(self).spec_cap(),
                    new_len as nat,
                )
            },
            new_len >= old(self)@.len() ==> {
                &&& final(self)@.len() == new_len
                &&& final(self)@.subrange(0, old(self)@.len() as int) == old(self)@
                &&& forall|i: int|
                    old(self)@.len() <= i < new_len ==> call_ensures(f, (), #[trigger] final(self)@[i])
                &&& final(self).spec_cap() == spec_cap_after_pushes::<T>(
                    old(self).spec_cap(),
                    old(self)@.len(),
                    (new_len - old(self)@.len()) as nat,
                )
            },
            old(self).wf() ==> final(self).wf(),
    {
        if new_len < self.body.len() {
            self.truncate(new_len);
            return;
        }
        let ghost len0 = old(self)@.len();
        while self.body.len() < new_len
            invariant
                len0 <= self@.len() <= new_len,
                self.spec_head() == old(self).spec_head(),
                self@.subrange(0, len0 as int) == old(self)@,
                forall|i: int| len0 <= i < self@.len() ==> call_ensures(f, (), #[trigger] self@[i]),
                self.spec_cap() == spec_cap_after_pushes::<T>(
                    old(self).spec_cap(),
                    len0,
                    (self@.len() - len0) as nat,
                ),
                old(self).wf() ==> self.wf(),
                f.requires(()),
                !spec_is_zst::<T>() && new_len > len0 ==> 2 * new_len <= usize::MAX,
            decreases new_len - self@.len(),
        {
            let ghost done = (self@.len() - len0) as nat;
            let x = f();
            proof {
                lemma_cap_after_pushes_snoc::<T>(old(self).spec_cap(), len0, done);
            }
            self.push(x);
            proof {
                assert(self@.subrange(0, len0 as int) =~= old(self)@);
            }
        }
        proof {
            if new_len == len0 {
                assert(final(self)@.subrange(0, len0 as int) =~= old(self)@);
            }
        }
    }

    /// Consumes the vector and returns the raw parts: the detached storage
    /// (header plus initialized elements), the length, and the capacity.
    pub fn into_raw_parts(self) -> (r: (crate::pair::Pair<H, T>, usize, usize))
        ensures
            r.0.head == self.spec_head(),
            r.0.body@ == self@,
            r.1 == self@.len(),
            r.2 as nat == self.spec_cap(),
    {
        let HeaderVec { head, body, cap } = self;
        let len = body.len();
        (crate::pair::Pair { head, body }, len, cap)
    }

    /// The length and the recorded capacity, without consuming the vector.
    /// The storage itself stays owned by the vector and is not handed out.
    pub fn as_raw_parts(&self) -> (r: (usize, usize))
        ensures
            r.0 == self@.len(),
            r.1 as nat == self.spec_cap(),
    {
        (self.body.len(), self.cap)
    }

    /// Reconstructs a vector from raw parts as returned by `into_raw_parts`.
    /// The length must match the number of initialized elements in the
    /// storage, and the capacity must be able to hold them.
    pub fn from_raw_parts(parts: crate::pair::Pair<H, T>, len: usize, cap: usize) -> (r: Self)
        requires
            len == parts.body@.len(),
            !spec_is_zst::<T>() ==> len <= cap,
        ensures
            r.spec_head() == parts.head,
            r@ == parts.body@,
            r.spec_cap() == cap,
            r.wf(),
    {
        let crate::pair::Pair { head, body } = parts;
        HeaderVec { head, body, cap }
    }

    /// Converts the vector into a boxed `HeaderSlice`, first shrinking so the
    /// boxed form carries no excess capacity.
    pub fn into_box(self) -> (r: Box<crate::slice::HeaderSlice<H, T>>)
        ensures
            r.head == self.spec_head(),
            r.body@ == self@,
    {
        let mut this = self;
        this.shrink_to_fit();
        let HeaderVec { head, body, cap: _ } = this;
        Box::new(crate::slice::HeaderSlice { head, body })
    }

    /// Creates a vector from a boxed `HeaderSlice`; the result has capacity
    /// equal to its length, since the boxed form has no excess capacity.
    pub fn from_box(src: Box<crate::slice::HeaderSlice<H, T>>) -> (r: Self)
        ensures
            r.spec_head() == src.head,
            r@ == src.body@,
            r.spec_cap() == src.body@.len(),
            r.wf(),
    {
        let crate::slice::HeaderSlice { head, body } = *src;
        let cap = body.len();
        HeaderVec { head, body, cap }
    }

    /// Consumes the vector and returns its header and an iterator over its
    /// values. The allocation's capacity bookkeeping ends here; the iterator
    /// owns exactly the not-yet-yielded elements.
    pub fn into_header_values(self) -> (r: (H, IntoValuesIter<T>))
        ensures
            r.0 == self.spec_head(),
            r.1.remaining() == self@,
    {
        let HeaderVec { head, body, cap: _ } = self;
        (head, IntoValuesIter { items: body })
    }

    /// Consumes the vector, drops the header, and returns an iterator over
    /// its values.
    pub fn into_values(self) -> (r: IntoValuesIter<T>)
        ensures
            r.remaining() == self@,
    {
        self.into_header_values().1
    }
}

impl<H, T: Clone> HeaderVec<H, T> {
    /// Resizes the vector. A shorter target truncates; a longer one appends
    /// values cloned from `val`: the first appended slot takes `val` itself
    /// and every later slot takes a clone of the slot before it.
    pub fn resize(&mut self, new_len: usize, val: T)
        requires
            !spec_is_zst::<T>() && new_len > old(self)@.len() ==> 2 * new_len <= usize::MAX,
        ensures
            final(self).spec_head() == old(self).spec_head(),
            new_len < old(self)@.len() ==> {
                &&& final(self)@ == old(self)@.subrange(0, new_len as int)
                &&& final(self).spec_cap() == spec_shrink_cap::<T>(
                    old(self).spec_cap(),
                    new_len as nat,
                )
            },
            new_len == old(self)@.len() ==> {
                &&& final(self)@ == old(self)@
                &&& final(self).spec_cap() == old(self).spec_cap()
            },
            new_len > old(self)@.len() ==> {
                &&& final(self)@.len() == new_len
                &&& final(self)@.subrange(0, old(self)@.len() as int) == old(self)@
                &&& final(self)@[old(self)@.len() as int] == val
                &&& forall|i: int|
                    old(self)@.len() < i < new_len ==> cloned::<T>(
                        final(self)@[i - 1],
                        #[trigger] final(self)@[i],
                    )
                &&& final(self).spec_cap() == spec_cap_after_pushes::<T>(
                    old(self).spec_cap(),
                    old(self)@.len(),
                    (new_len - old(self)@.len()) as nat,
                )
            },
            old(self).wf() ==> final(self).wf(),
    {
        if new_len < self.body.len() {
            self.truncate(new_len);
            return;
        }
        if new_len == self.body.len() {
            return;
        }
        let ghost len0 = old(self)@.len();
        let ghost val0 = val;
        let mut val = val;
        while self.body.len() < new_len - 1
            invariant
                len0 < new_len <= usize::MAX,
                len0 <= self@.len() <= new_len - 1,
                self.spec_head() == old(self).spec_head(),
                forall|j: int| 0 <= j < len0 ==> self@[j] == old(self)@[j],
                self@.len() == len0 ==> val == val0,
                self@.len() > len0 ==> self@[len0 as int] == val0,
                forall|i: int|
                    len0 < i < self@.len() ==> cloned::<T>(self@[i - 1], #[trigger] self@[i]),
                self@.len() > len0 ==> cloned::<T>(self@[self@.len() - 1], val),
                self.spec_cap() == spec_cap_after_pushes::<T>(
                    old(self).spec_cap(),
                    len0,
                    (self@.len() - len0) as nat,
                ),
                old(self).wf() ==> self.wf(),
                !spec_is_zst::<T>() ==> 2 * new_len <= usize::MAX,
            decreases new_len - self@.len(),
        {
            let ghost done = (self@.len() - len0) as nat;
            let next_val = val.clone();
            proof {
                lemma_cap_after_pushes_snoc::<T>(old(self).spec_cap(), len0, done);
            }
            self.push(val);
            val = next_val;
        }
        proof {
            lemma_cap_after_pushes_snoc::<T>(
                old(self).spec_cap(),
                len0,
                (self@.len() - len0) as nat,
            );
        }
        self.push(val);
        proof {
            assert(final(self)@.subrange(0, len0 as int) =~= old(self)@);
        }
    }
}

impl<H, T: Default> HeaderVec<H, T> {
    /// Resizes the vector. A shorter target truncates; a longer one appends
    /// values produced by the element type's default.
    pub fn resize_default(&mut self, new_len: usize)
        requires
            !spec_is_zst::<T>() && new_len > old(self)@.len() ==> 2 * new_len <= usize::MAX,
        ensures
            final(self).spec_head() == old(self).spec_head(),
            new_len < old(self)@.len() ==> {
                &&& final(self)@ == old(self)@.subrange(0, new_len as int)
                &&& final(self).spec_cap() == spec_shrink_cap::<T>(
                    old(self).spec_cap(),
                    new_len as nat,
                )
            },
            new_len >= old(self)@.len() ==> {
                &&& final(self)@.len() == new_len
                &&& final(self)@.subrange(0, old(self)@.len() as int) == old(self)@
                &&& forall|i: int|
                    old(self)@.len() <= i < new_len ==> call_ensures(
                        T::default,
                        (),
                        #[trigger] final(self)@[i],
                    )
                &&& final(self).spec_cap() == spec_cap_after_pushes::<T>(
                    old(self).spec_cap(),
                    old(self)@.len(),
                    (new_len - old(self)@.len()) as nat,
                )
            },
            old(self).wf() ==> final(self).wf(),
    {
        if new_len < self.body.len() {
            self.truncate(new_len);
            return;
        }
        let ghost len0 = old(self)@.len();
        while self.body.len() < new_len
            invariant
                len0 <= self@.len() <= new_len,
                self.spec_head() == old(self).spec_head(),
                self@.subrange(0, len0 as int) == old(self)@,
                forall|i: int|
                    len0 <= i < self@.len() ==> call_ensures(T::default, (), #[trigger] self@[i]),
                self.spec_cap() == spec_cap_after_pushes::<T>(
                    old(self).spec_cap(),
                    len0,
                    (self@.len() - len0) as nat,
                ),
                old(self).wf() ==> self.wf(),
                !spec_is_zst::<T>() && new_len > len0 ==> 2 * new_len <= usize::MAX,
            decreases new_len - self@.len(),
        {
            let ghost done = (self@.len() - len0) as nat;
            let x = T::default();
            proof {
                lemma_cap_after_pushes_snoc::<T>(old(self).spec_cap(), len0, done);
            }
            self.push(x);
            proof {
                assert(self@.subrange(0, len0 as int) =~= old(self)@);
            }
        }
        proof {
            if new_len == len0 {
                assert(final(self)@.subrange(0, len0 as int) =~= old(self)@);
            }
        }
    }
}

impl<H, T: Copy> HeaderVec<H, T> {
    /// Copies the contents of a slice into a new `HeaderVec`, with capacity
    /// equal to the slice's length.
    pub fn copy_from_slice(head: H, src: &[T]) -> (r: Self)
        ensures
            r.spec_head() == head,
            r@ == src@,
            r.spec_cap() == src@.len(),
            r.wf(),
    {
        let mut this = Self::with_capacity(head, src.len());
        let ghost cap0 = this.spec_cap();
        let mut i: usize = 0;
        while i < src.len()
            invariant
                i <= src@.len(),
                this.spec_head() == head,
                this@.len() == i,
                forall|j: int| 0 <= j < i ==> this@[j] == src@[j],
                this.spec_cap() == cap0,
                cap0 == src@.len(),
            decreases src@.len() - i,
        {
            this.body.push(src[i]);
            i = i + 1;
        }
        proof {
            assert(this@ =~= src@);
        }
        this
    }

    /// Copies the contents of a slice onto the end of the vector, growing
    /// once up front if the combined length exceeds the capacity.
    pub fn extend_from_slice(&mut self, src: &[T])
        requires
            old(self)@.len() + src@.len() <= usize::MAX,
            !spec_is_zst::<T>() && old(self)@.len() + src@.len() > old(self).spec_cap()
                ==> 2 * (old(self)@.len() + src@.len()) <= usize::MAX,
        ensures
            final(self).spec_head() == old(self).spec_head(),
            final(self)@ == old(self)@ + src@,
            final(self).spec_cap() == if old(self)@.len() + src@.len() > old(self).spec_cap() {
                spec_grow_cap::<T>(
                    old(self).spec_cap(),
                    (old(self)@.len() + src@.len()) as nat,
                )
            } else {
                old(self).spec_cap()
            },
            final(self).wf(),
    {
        let new_len = self.body.len() + src.len();
        if new_len > self.cap {
            self.grow(new_len);
        }
        let ghost cap1 = self.spec_cap();
        let ghost len0 = old(self)@.len();
        let mut i: usize = 0;
        while i < src.len()
            invariant
                i <= src@.len(),
                self.spec_head() == old(self).spec_head(),
                self@.len() == len0 + i,
                forall|j: int| 0 <= j < len0 ==> self@[j] == old(self)@[j],
                forall|j: int| 0 <= j < i ==> self@[len0 + j] == src@[j],
                self.spec_cap() == cap1,
            decreases src@.len() - i,
        {
            self.body.push(src[i]);
            i = i + 1;
        }
        proof {
            assert(final(self)@ =~= old(self)@ + src@);
        }
    }
}

/// A consuming iterator over the values of a `HeaderVec`: it owns exactly the
/// elements that have not yet been yielded and hands them out in order.
#[derive(Clone, Debug)]
pub struct IntoValuesIter<T> {
    items: Vec<T>,
}

impl<T> IntoValuesIter<T> {
    /// The elements that have not yet been yielded, in the order they will
    /// come out.
    pub closed spec fn remaining(self) -> Seq<T> {
        self.items@
    }

    /// The number of elements that have not yet been yielded.
    pub fn len(&self) -> (n: usize)
        ensures
            n == self.remaining().len(),
    {
        self.items.len()
    }

    /// Yields the next value, or nothing once every element has been handed
    /// out.
    pub fn next(&mut self) -> (r: Option<T>)
        ensures
            old(self).remaining().len() == 0 ==> {
                &&& r is None
                &&& final(self).remaining() == old(self).remaining()
            },
            old(self).remaining().len() > 0 ==> {
                &&& r == Some(old(self).remaining()[0])
                &&& final(self).remaining() == old(self).remaining().drop_first()
            },
    {
        if self.items.len() == 0 {
            return None;
        }
        let x = self.items.remove(0);
        proof {
            assert(final(self).remaining() =~= old(self).remaining().drop_first());
        }
        Some(x)
    }
}

impl<H, T: Ord> HeaderVec<H, T> {
    /// Binary search for the position of `val` in the sorted body: either the
    /// index of some element that compares equal (`r.1` true), or the index
    /// at which inserting `val` keeps the body sorted (`r.1` false).
    fn sorted_position(body: &Vec<T>, val: &T) -> (r: (usize, bool))
        ensures
            r.0 <= body@.len(),
            r.1 ==> r.0 < body@.len(),
            T::obeys_cmp_spec() ==> {
                &&& r.1 ==> body@[r.0 as int].cmp_spec(val) == Ordering::Equal
                &&& !r.1 && r.0 > 0 ==> body@[r.0 - 1].cmp_spec(val) == Ordering::Less
                &&& !r.1 && r.0 < body@.len() ==> body@[r.0 as int].cmp_spec(val)
                    == Ordering::Greater
            },
            spec_cmp_lawful::<T>() && spec_sorted(body@) ==> {
                &&& forall|k: int|
                    0 <= k < r.0 as int ==> #[trigger] body@[k].cmp_spec(val) != Ordering::Greater
                &&& forall|k: int|
                    r.0 as int <= k < body@.len() ==> #[trigger] body@[k].cmp_spec(val)
                        != Ordering::Less
                &&& !r.1 ==> forall|k: int|
                    0 <= k < body@.len() ==> #[trigger] body@[k].cmp_spec(val) != Ordering::Equal
            },
    {
        let mut lo: usize = 0;
        let mut hi: usize = body.len();
        while lo < hi
            invariant
                lo <= hi <= body@.len(),
                T::obeys_cmp_spec() && lo > 0 ==> body@[lo - 1].cmp_spec(val) == Ordering::Less,
                T::obeys_cmp_spec() && hi < body@.len() ==> body@[hi as int].cmp_spec(val)
                    == Ordering::Greater,
            decreases hi - lo,
        {
            let mid = lo + (hi - lo) / 2;
            match body[mid].cmp(val) {
                Ordering::Less => {
                    lo = mid + 1;
                },
                Ordering::Greater => {
                    hi = mid;
                },
                Ordering::Equal => {
                    proof {
                        if spec_cmp_lawful::<T>() && spec_sorted(body@) {
                            assert forall|k: int| 0 <= k < mid as int implies #[trigger] (
                            body@[k]).cmp_spec(val) != Ordering::Greater by {
                                assert(body@[k].cmp_spec(&body@[mid as int]) != Ordering::Greater);
                            }
                            assert forall|k: int|
                                mid as int <= k < body@.len() implies #[trigger] (
                            body@[k]).cmp_spec(val) != Ordering::Less by {
                                if k > mid as int {
                                    assert(body@[mid as int].cmp_spec(&body@[k])
                                        != Ordering::Greater);
                                    // val is at most the probed element, which is at most
                                    // the later one; flipping twice gives the claim.
                                    assert(val.cmp_spec(&body@[mid as int]) != Ordering::Greater);
                                    assert(val.cmp_spec(&body@[k]) != Ordering::Greater);
                                }
                            }
                        }
                    }
                    return (mid, true);
                },
            }
        }
        proof {
            if spec_cmp_lawful::<T>() && spec_sorted(body@) {
                assert forall|k: int| 0 <= k < lo as int implies #[trigger] body@[k].cmp_spec(val)
                    == Ordering::Less by {
                    if k < lo - 1 {
                        assert(body@[k].cmp_spec(&body@[lo - 1]) != Ordering::Greater);
                    }
                }
                assert forall|k: int| lo as int <= k < body@.len() implies #[trigger] (
                body@[k]).cmp_spec(val) == Ordering::Greater by {
                    if k > lo as int {
                        assert(body@[lo as int].cmp_spec(&body@[k]) != Ordering::Greater);
                        assert(val.cmp_spec(&body@[lo as int]) == Ordering::Less);
                        assert(val.cmp_spec(&body@[k]) == Ordering::Less);
                    }
                }
            }
        }
        (lo, false)
    }

    /// Assuming the body is sorted, inserts the given value at a position
    /// that keeps it sorted. With an unsorted body or an unlawful comparison
    /// the value still ends up at some position.
    pub fn insert_sorted(&mut self, val: T)
        requires
            old(self)@.len() < usize::MAX,
            !spec_is_zst::<T>() ==> 2 * (old(self)@.len() + 1) <= usize::MAX,
        ensures
            final(self).spec_head() == old(self).spec_head(),
            exists|i: int|
                {
                    &&& 0 <= i <= old(self)@.len()
                    &&& final(self)@ == old(self)@.insert(i, val)
                    &&& final(self).spec_cap() == spec_insert_cap::<T>(
                        old(self).spec_cap(),
                        old(self)@.len(),
                        i as nat,
                    )
                },
            spec_cmp_lawful::<T>() && spec_sorted(old(self)@) ==> spec_sorted(final(self)@),
            final(self).wf(),
    {
        let (i, _) = Self::sorted_position(&self.body, &val);
        let ghost pos = i as int;
        self.insert(i, val);
        proof {
            assert({
                &&& 0 <= pos <= old(self)@.len()
                &&& final(self)@ == old(self)@.insert(pos, val)
                &&& final(self).spec_cap() == spec_insert_cap::<T>(
                    old(self).spec_cap(),
                    old(self)@.len(),
                    pos as nat,
                )
            });
            if spec_cmp_lawful::<T>() && spec_sorted(old(self)@) {
                lemma_sorted_insert(old(self)@, pos, val);
            }
        }
    }

    /// Assuming the body is sorted, inserts the given value at its sorted
    /// position unless some element already compares equal to it; in that
    /// case that element is replaced with `val` and handed back.
    pub fn insert_or_replace_sorted(&mut self, val: T) -> (r: Option<T>)
        requires
            old(self)@.len() < usize::MAX,
            !spec_is_zst::<T>() ==> 2 * (old(self)@.len() + 1) <= usize::MAX,
        ensures
            final(self).spec_head() == old(self).spec_head(),
            r is Some ==> exists|k: int|
                {
                    &&& 0 <= k < old(self)@.len()
                    &&& r == Some(old(self)@[k])
                    &&& final(self)@ == old(self)@.update(k, val)
                    &&& final(self).spec_cap() == old(self).spec_cap()
                },
            r is None ==> exists|i: int|
                {
                    &&& 0 <= i <= old(self)@.len()
                    &&& final(self)@ == old(self)@.insert(i, val)
                    &&& final(self).spec_cap() == spec_insert_cap::<T>(
                        old(self).spec_cap(),
                        old(self)@.len(),
                        i as nat,
                    )
                },
            spec_cmp_lawful::<T>() && spec_sorted(old(self)@) ==> {
                &&& spec_sorted(final(self)@)
                &&& (r is Some <==> exists|k: int|
                    0 <= k < old(self)@.len() && #[trigger] old(self)@[k].cmp_spec(&val)
                        == Ordering::Equal)
            },
            old(self).wf() ==> final(self).wf(),
    {
        let (i, found) = Self::sorted_position(&self.body, &val);
        let ghost pos = i as int;
        if found {
            let prev = self.body.remove(i);
            self.body.insert(i, val);
            proof {
                assert(final(self)@ =~= old(self)@.update(pos, val));
                if spec_cmp_lawful::<T>() && spec_sorted(old(self)@) {
                    lemma_sorted_replace(old(self)@, pos, val);
                }
            }
            Some(prev)
        } else {
            self.insert(i, val);
            proof {
                assert({
                    &&& 0 <= pos <= old(self)@.len()
                    &&& final(self)@ == old(self)@.insert(pos, val)
                    &&& final(self).spec_cap() == spec_insert_cap::<T>(
                        old(self).spec_cap(),
                        old(self)@.len(),
                        pos as nat,
                    )
                });
                if spec_cmp_lawful::<T>() && spec_sorted(old(self)@) {
                    lemma_sorted_insert(old(self)@, pos, val);
                }
            }
            None
        }
    }
}

/// Inserting a value between its lower and upper neighbours keeps a sorted
/// sequence sorted.
proof fn lemma_sorted_insert<T: Ord>(s: Seq<T>, i: int, val: T)
    requires
        spec_cmp_lawful::<T>(),
        spec_sorted(s),
        0 <= i <= s.len(),
        forall|k: int| 0 <= k < i ==> #[trigger] s[k].cmp_spec(&val) != Ordering::Greater,
        forall|k: int| i <= k < s.len() ==> #[trigger] s[k].cmp_spec(&val) != Ordering::Less,
    ensures
        spec_sorted(s.insert(i, val)),
{
    let t = s.insert(i, val);
    assert forall|p: int, q: int| 0 <= p < q < t.len() implies #[trigger] t[p].cmp_spec(&t[q])
        != Ordering::Greater by {
        if p < i && q == i {
            // t[p] is s[p], at most val.
        } else if p == i && q > i {
            // val against s[q - 1]: s[q - 1] is at least val, so flipping
            // gives val at most s[q - 1].
            assert(s[q - 1].cmp_spec(&val) != Ordering::Less);
            if t[p].cmp_spec(&t[q]) == Ordering::Greater {
                assert(s[q - 1].cmp_spec(&val) == Ordering::Less);
            }
        } else if p < i && q > i {
            assert(t[p] == s[p] && t[q] == s[q - 1]);
        } else if p > i && q > i {
            assert(t[p] == s[p - 1] && t[q] == s[q - 1]);
        } else if p < i && q < i {
            assert(t[p] == s[p] && t[q] == s[q]);
        }
    }
}

impl<H: PartialEq, T: PartialEq> vstd::std_specs::cmp::PartialEqSpecImpl for HeaderVec<H, T> {
    open spec fn obeys_eq_spec() -> bool {
        H::obeys_eq_spec() && T::obeys_eq_spec()
    }

    open spec fn eq_spec(&self, other: &Self) -> bool {
        &&& self.spec_head().eq_spec(&other.spec_head())
        &&& self@.len() == other@.len()
        &&& forall|i: int| 0 <= i < self@.len() ==> #[trigger] self@[i].eq_spec(&other@[i])
    }
}

impl<H: PartialEq, T: PartialEq> PartialEq for HeaderVec<H, T> {
    /// Structural equality: the headers and the bodies, element by element.
    /// The capacity plays no part.
    fn eq(&self, other: &Self) -> (r: bool) {
        self.head == other.head && self.body == other.body
    }
}

impl<H: Eq, T: Eq> Eq for HeaderVec<H, T> {

}

impl<H: PartialOrd, T: PartialOrd> vstd::std_specs::cmp::PartialOrdSpecImpl for HeaderVec<H, T> {
    open spec fn obeys_partial_cmp_spec() -> bool {
        H::obeys_partial_cmp_spec() && T::obeys_partial_cmp_spec()
    }

    open spec fn partial_cmp_spec(&self, other: &Self) -> Option<Ordering> {
        crate::slice::spec_hslice_partial_cmp(
            self.spec_head(),
            self@,
            other.spec_head(),
            other@,
        )
    }
}

impl<H: PartialOrd, T: PartialOrd> PartialOrd for HeaderVec<H, T> {
    /// Lexicographic order: the headers first, then the bodies element by
    /// element, then by length; an incomparable pair anywhere makes the
    /// values incomparable.
    fn partial_cmp(&self, other: &Self) -> (r: Option<Ordering>) {
        let c = self.head.partial_cmp(&other.head);
        match c {
            Some(Ordering::Equal) => crate::slice::slice_partial_cmp(
                self.body.as_slice(),
                other.body.as_slice(),
            ),
            _ => c,
        }
    }
}

impl<H: Clone, T: Clone> Clone for HeaderVec<H, T> {
    /// Deep clone: the header and every element are cloned into a freshly
    /// built container whose capacity equals its length.
    fn clone(&self) -> (res: Self)
        ensures
            cloned::<H>(self.spec_head(), res.spec_head()),
            res@.len() == self@.len(),
            forall|i: int| 0 <= i < self@.len() ==> cloned::<T>(self@[i], #[trigger] res@[i]),
            res.spec_cap() == self@.len(),
            res.wf(),
    {
        let body = self.body.clone();
        let cap = body.len();
        HeaderVec { head: self.head.clone(), body, cap }
    }
}

impl<H: Default, T> Default for HeaderVec<H, T> {
    /// An empty container around the header type's default value, with the
    /// default minimum capacity.
    fn default() -> (r: Self)
        ensures
            call_ensures(H::default, (), r.spec_head()),
            r@ == Seq::<T>::empty(),
            r.spec_cap() == MIN_CAP,
            r.wf(),
    {
        Self::new(H::default())
    }
}

/// Replacing an element with one that compares equal to it keeps a sorted
/// sequence sorted.
proof fn lemma_sorted_replace<T: Ord>(s: Seq<T>, i: int, val: T)
    requires
        spec_cmp_lawful::<T>(),
        spec_sorted(s),
        0 <= i < s.len(),
        s[i].cmp_spec(&val) == Ordering::Equal,
    ensures
        spec_sorted(s.update(i, val)),
{
    let t = s.update(i, val);
    // The replacement compares equal in both directions.
    assert(val.cmp_spec(&s[i]) != Ordering::Greater && val.cmp_spec(&s[i]) != Ordering::Less);
    assert forall|p: int, q: int| 0 <= p < q < t.len() implies #[trigger] t[p].cmp_spec(&t[q])
        != Ordering::Greater by {
        if q == i {
            assert(s[p].cmp_spec(&s[i]) != Ordering::Greater);
        } else if p == i {
            assert(s[i].cmp_spec(&s[q]) != Ordering::Greater);
        }
    }
}

} // verus!
