use vstd::prelude::*;

verus! {

/// The void type descriptor in the abstract syntax tree.
#[derive(Hash, Eq, PartialEq, Debug, Copy, Clone, Structural)]
pub struct VoidKind {}

} // verus!
