//! The raw pair representation: a header followed by the body slots.
//!
//! A `Pair` is the concrete shape a container's storage takes once it has been
//! detached from the container's bookkeeping: the header value, then the
//! initialized body elements. Raw-parts extraction hands one out together with
//! the recorded length and capacity, and reconstruction takes it back.

use vstd::prelude::*;

verus! {

/// The header of a container followed by its initialized body elements,
/// detached from any length or capacity bookkeeping.
#[derive(Debug)]
pub struct Pair<H, T> {
    /// The header value that occupied the header slot.
    pub head: H,
    /// The initialized body elements, in order.
    pub body: Vec<T>,
}

} // verus!
