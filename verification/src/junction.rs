use vstd::prelude::*;

verus! {

/// One hop in a bounded path: either an ascent to the enclosing scope or a
/// descent into a child selected by index.
///
/// Ordering is by variant first (`Parent` before any `ChildIndex`), then by
/// index; equality is structural.
#[derive(Clone, Copy, PartialEq, Eq, PartialOrd, Ord, Structural, Debug, Hash)]
pub enum Junction {
    /// The ascend marker: move to the parent/enclosing scope.
    Parent,
    /// Descend into the child with the given index.
    ChildIndex(u64),
}

} // verus!
