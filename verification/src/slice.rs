//! The combined-layout view: a header value followed by a run of elements.
//!
//! `HeaderSlice` is the exact-size form of the data: header plus body with no
//! excess capacity, the shape a container takes when it is boxed. Comparisons
//! are lexicographic, header first, then the body element by element, and the
//! layout computation mirrors the platform rule for a header field followed
//! by an array field.

use core::cmp::Ordering;
use vstd::prelude::*;
use vstd::std_specs::cmp::PartialEqSpec;
use vstd::std_specs::cmp::PartialOrdSpec;

verus! {

/// `x` rounded up to the next multiple of `a`.
pub open spec fn spec_round_up(x: nat, a: nat) -> nat
    recommends
        a > 0,
{
    (((x + a - 1) / (a as int)) * (a as int)) as nat
}

proof fn lemma_round_up(x: nat, a: nat)
    requires
        a > 0,
    ensures
        spec_round_up(x, a) >= x,
        x % a == 0 ==> spec_round_up(x, a) == x,
        x % a != 0 ==> spec_round_up(x, a) == (x / a + 1) * a,
{
    assert(((x + a - 1) / (a as int)) * (a as int) >= x) by (nonlinear_arith)
        requires
            a > 0,
    ;
    assert(x % a == 0 ==> ((x + a - 1) / (a as int)) * (a as int) == x) by (nonlinear_arith)
        requires
            a > 0,
    ;
    assert(x % a != 0 ==> ((x + a - 1) / (a as int)) * (a as int) == ((x as int) / (a as int)
        + 1) * (a as int)) by (nonlinear_arith)
        requires
            a > 0,
    ;
}

/// The alignment of a header of type `H` followed by elements of type `T`:
/// the larger of the two alignments.
pub open spec fn spec_combined_align<H, T>() -> nat {
    if vstd::layout::align_of::<H>() > vstd::layout::align_of::<T>() {
        vstd::layout::align_of::<H>()
    } else {
        vstd::layout::align_of::<T>()
    }
}

/// The size of a header of type `H` followed by `n` elements of type `T`:
/// the header padded up to the element alignment, then the element array,
/// then the whole padded up to the combined alignment.
pub open spec fn spec_combined_size<H, T>(n: nat) -> nat {
    spec_round_up(
        spec_round_up(vstd::layout::size_of::<H>(), vstd::layout::align_of::<T>()) + n
            * vstd::layout::size_of::<T>(),
        spec_combined_align::<H, T>(),
    )
}

/// Rounds `x` up to the next multiple of `a`.
fn round_up_to(x: usize, a: usize) -> (r: usize)
    requires
        a > 0,
        spec_round_up(x as nat, a as nat) <= usize::MAX,
    ensures
        r as nat == spec_round_up(x as nat, a as nat),
{
    proof {
        lemma_round_up(x as nat, a as nat);
        assert((x as int / a as int) * (a as int) <= x as int) by (nonlinear_arith)
            requires
                a > 0,
        ;
    }
    let q = x / a;
    proof {
        assert(((x as int / a as int) + 1) * (a as int) == (x as int / a as int) * (a as int)
            + a as int) by (nonlinear_arith);
        assert(x as int % a as int == x as int - (x as int / a as int) * (a as int))
            by (nonlinear_arith)
            requires
                a > 0,
        ;
    }
    let m = q * a;
    if m == x {
        m
    } else {
        m + a
    }
}

/// A header value followed by a contiguous run of body elements, with no
/// capacity beyond the body's length.
#[derive(Hash, Debug)]
pub struct HeaderSlice<H, T> {
    /// The single fixed value stored ahead of the body.
    pub head: H,
    /// The body elements, in order.
    pub body: Vec<T>,
}

impl<H, T> HeaderSlice<H, T> {
    /// The number of body elements.
    pub fn len(&self) -> (n: usize)
        ensures
            n == self.body@.len(),
    {
        self.body.len()
    }

    /// The memory layout, as a size and an alignment, of a single allocation
    /// holding one header and `len` elements: the platform rule for a struct
    /// of a header field followed by an array field.
    pub fn layout_for_len(len: usize) -> (r: (usize, usize))
        requires
            spec_combined_size::<H, T>(len as nat) <= isize::MAX as nat,
        ensures
            r.0 as nat == spec_combined_size::<H, T>(len as nat),
            r.1 as nat == spec_combined_align::<H, T>(),
    {
        proof {
            broadcast use vstd::layout::align_nonzero;

            assert(vstd::layout::align_of::<H>() > 0);
            assert(vstd::layout::align_of::<T>() > 0);
        }
        let sh = core::mem::size_of::<H>();
        let st = core::mem::size_of::<T>();
        let ah = core::mem::align_of::<H>();
        let at = core::mem::align_of::<T>();
        let align = if ah > at {
            ah
        } else {
            at
        };
        let ghost off_s = spec_round_up(sh as nat, at as nat);
        let ghost inner = off_s + (len as nat) * (st as nat);
        let ghost aa = spec_combined_align::<H, T>();
        proof {
            assert(aa == align as nat);
            assert(spec_combined_size::<H, T>(len as nat) == spec_round_up(inner, aa));
            lemma_round_up(inner, aa);
            lemma_round_up(sh as nat, at as nat);
            assert(inner <= isize::MAX as nat);
            assert((len as nat) * (st as nat) <= isize::MAX as nat);
        }
        let offset = round_up_to(sh, at);
        let arr = len * st;
        let total = offset + arr;
        let size = round_up_to(total, align);
        (size, align)
    }
}

impl<H: Clone, T: Clone> HeaderSlice<H, T> {
    /// Clones the header and every element into a freshly built `HeaderVec`
    /// whose capacity equals its length.
    pub fn to_owned(&self) -> (r: crate::vec::HeaderVec<H, T>)
        ensures
            cloned::<H>(self.head, r.spec_head()),
            r@.len() == self.body@.len(),
            forall|i: int|
                0 <= i < self.body@.len() ==> cloned::<T>(self.body@[i], #[trigger] r@[i]),
            r.spec_cap() == self.body@.len(),
            r.wf(),
    {
        crate::vec::HeaderVec::from_iter(self.head.clone(), self.body.clone())
    }
}

/// Lexicographic comparison of two sequences, element by element, then by
/// length on a shared prefix; an incomparable element pair makes the whole
/// comparison incomparable.
pub open spec fn spec_seq_partial_cmp<T: PartialOrd>(a: Seq<T>, b: Seq<T>) -> Option<Ordering>
    decreases a.len(),
{
    if a.len() == 0 && b.len() == 0 {
        Some(Ordering::Equal)
    } else if a.len() == 0 {
        Some(Ordering::Less)
    } else if b.len() == 0 {
        Some(Ordering::Greater)
    } else {
        match a[0].partial_cmp_spec(&b[0]) {
            Some(Ordering::Equal) => spec_seq_partial_cmp(a.drop_first(), b.drop_first()),
            o => o,
        }
    }
}

/// Lexicographic comparison of header-plus-body values: the headers decide
/// unless they compare equal, in which case the bodies decide.
pub open spec fn spec_hslice_partial_cmp<H: PartialOrd, T: PartialOrd>(
    h1: H,
    b1: Seq<T>,
    h2: H,
    b2: Seq<T>,
) -> Option<Ordering> {
    match h1.partial_cmp_spec(&h2) {
        Some(Ordering::Equal) => spec_seq_partial_cmp(b1, b2),
        o => o,
    }
}

/// A shared prefix of pairwise-equal elements does not affect the
/// lexicographic comparison.
proof fn lemma_seq_partial_cmp_skip<T: PartialOrd>(a: Seq<T>, b: Seq<T>, i: int)
    requires
        0 <= i <= a.len(),
        i <= b.len(),
        forall|j: int|
            0 <= j < i ==> #[trigger] a[j].partial_cmp_spec(&b[j]) == Some(Ordering::Equal),
    ensures
        spec_seq_partial_cmp(a, b) == spec_seq_partial_cmp(a.skip(i), b.skip(i)),
    decreases i,
{
    if i == 0 {
        assert(a.skip(0) =~= a);
        assert(b.skip(0) =~= b);
    } else {
        assert(a[0].partial_cmp_spec(&b[0]) == Some(Ordering::Equal));
        let a1 = a.drop_first();
        let b1 = b.drop_first();
        assert(forall|j: int|
            0 <= j < i - 1 ==> #[trigger] a1[j].partial_cmp_spec(&b1[j]) == Some(Ordering::Equal));
        lemma_seq_partial_cmp_skip(a1, b1, i - 1);
        assert(a1.skip(i - 1) =~= a.skip(i));
        assert(b1.skip(i - 1) =~= b.skip(i));
    }
}

/// Lexicographic comparison of two slices, used by both the view type and
/// the owning container.
pub(crate) fn slice_partial_cmp<T: PartialOrd>(a: &[T], b: &[T]) -> (r: Option<Ordering>)
    ensures
        T::obeys_partial_cmp_spec() ==> r == spec_seq_partial_cmp(a@, b@),
{
    let a_len = a.len();
    let b_len = b.len();
    let common = if a_len < b_len {
        a_len
    } else {
        b_len
    };
    let mut i: usize = 0;
    while i < common
        invariant
            0 <= i <= common,
            common == if a@.len() < b@.len() {
                a@.len()
            } else {
                b@.len()
            },
            T::obeys_partial_cmp_spec() ==> forall|j: int|
                0 <= j < i ==> #[trigger] a@[j].partial_cmp_spec(&b@[j]) == Some(Ordering::Equal),
        decreases common - i,
    {
        let c = a[i].partial_cmp(&b[i]);
        match c {
            Some(Ordering::Equal) => {
                i = i + 1;
            },
            _ => {
                proof {
                    if T::obeys_partial_cmp_spec() {
                        lemma_seq_partial_cmp_skip(a@, b@, i as int);
                        assert(a@.skip(i as int)[0] == a@[i as int]);
                        assert(b@.skip(i as int)[0] == b@[i as int]);
                    }
                }
                return c;
            },
        }
    }
    proof {
        if T::obeys_partial_cmp_spec() {
            lemma_seq_partial_cmp_skip(a@, b@, common as int);
            if a@.len() > common {
                assert(a@.skip(common as int).len() > 0);
            }
            if b@.len() > common {
                assert(b@.skip(common as int).len() > 0);
            }
        }
    }
    if a_len == b_len {
        Some(Ordering::Equal)
    } else if a_len < b_len {
        Some(Ordering::Less)
    } else {
        Some(Ordering::Greater)
    }
}

impl<H: PartialEq, T: PartialEq> vstd::std_specs::cmp::PartialEqSpecImpl for HeaderSlice<H, T> {
    open spec fn obeys_eq_spec() -> bool {
        H::obeys_eq_spec() && T::obeys_eq_spec()
    }

    open spec fn eq_spec(&self, other: &Self) -> bool {
        &&& self.head.eq_spec(&other.head)
        &&& self.body@.len() == other.body@.len()
        &&& forall|i: int|
            0 <= i < self.body@.len() ==> #[trigger] self.body@[i].eq_spec(&other.body@[i])
    }
}

impl<H: PartialEq, T: PartialEq> PartialEq for HeaderSlice<H, T> {
    /// Structural equality: the headers and the bodies, element by element.
    fn eq(&self, other: &Self) -> (r: bool) {
        self.head == other.head && self.body == other.body
    }
}

impl<H: Eq, T: Eq> Eq for HeaderSlice<H, T> {

}

impl<H: PartialOrd, T: PartialOrd> vstd::std_specs::cmp::PartialOrdSpecImpl for HeaderSlice<H, T> {
    open spec fn obeys_partial_cmp_spec() -> bool {
        H::obeys_partial_cmp_spec() && T::obeys_partial_cmp_spec()
    }

    open spec fn partial_cmp_spec(&self, other: &Self) -> Option<Ordering> {
        spec_hslice_partial_cmp(self.head, self.body@, other.head, other.body@)
    }
}

impl<H: PartialOrd, T: PartialOrd> PartialOrd for HeaderSlice<H, T> {
    /// Lexicographic order: the headers first, then the bodies element by
    /// element, then by length; an incomparable pair anywhere makes the
    /// values incomparable.
    fn partial_cmp(&self, other: &Self) -> (r: Option<Ordering>) {
        let c = self.head.partial_cmp(&other.head);
        match c {
            Some(Ordering::Equal) => slice_partial_cmp(
                self.body.as_slice(),
                other.body.as_slice(),
            ),
            _ => c,
        }
    }
}

} // verus!
