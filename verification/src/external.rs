use vstd::prelude::*;
use crate::prototype::{Prototype, PrototypeView};

verus! {

/// An external function declaration: a prototype with no body.
#[derive(Hash, Eq, PartialEq, Debug)]
pub struct External {
    pub prototype: Prototype,
}

/// Mathematical image of an `External`.
pub struct ExternalView {
    pub prototype: PrototypeView,
}

impl View for External {
    type V = ExternalView;

    open spec fn view(&self) -> ExternalView {
        ExternalView { prototype: self.prototype@ }
    }
}

impl Clone for External {
    fn clone(&self) -> (r: External)
        ensures
            r@ == self@,
    {
        External { prototype: self.prototype.clone() }
    }
}

} // verus!
