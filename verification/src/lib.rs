//! A growable, owned sequence that couples a fixed header value with a
//! variable-length body of elements.
//!
//! The container tracks its length and its capacity separately and follows an
//! exact geometric growth and shrink policy; every public operation carries a
//! contract that pins down the resulting contents and the resulting capacity.

pub mod laws;
pub mod pair;
pub mod slice;
pub mod vec;

pub use pair::Pair;
pub use slice::HeaderSlice;
pub use vec::HeaderVec;
pub use vec::IntoValuesIter;
