use vstd::prelude::*;
use crate::block::{Block, BlockView};
use crate::prototype::{Prototype, PrototypeView};

verus! {

/// A function definition: a visibility flag, a prototype and a body.
#[derive(Hash, Eq, PartialEq, Debug)]
pub struct Function {
    pub is_public: bool,
    pub prototype: Prototype,
    pub body: Block,
}

/// Mathematical image of a `Function`.
pub struct FunctionView {
    pub is_public: bool,
    pub prototype: PrototypeView,
    pub body: BlockView,
}

impl View for Function {
    type V = FunctionView;

    open spec fn view(&self) -> FunctionView {
        FunctionView {
            is_public: self.is_public,
            prototype: self.prototype@,
            body: self.body@,
        }
    }
}

impl Clone for Function {
    fn clone(&self) -> (r: Function)
        ensures
            r@ == self@,
    {
        Function {
            is_public: self.is_public,
            prototype: self.prototype.clone(),
            body: self.body.clone(),
        }
    }
}

} // verus!
