use vstd::prelude::*;
use crate::node::AnyLiteralNode;

verus! {

/// A `return` statement, with an optional literal return value.
#[derive(Hash, Eq, PartialEq, Debug, Copy, Clone)]
pub struct ReturnStmt {
    pub value: Option<AnyLiteralNode>,
}

/// The closed set of statement kinds in scope.
#[derive(Hash, Eq, PartialEq, Debug, Copy, Clone)]
pub enum AnyStatementNode {
    ReturnStmt(ReturnStmt),
}

/// A brace-delimited list of statements.
#[derive(Hash, Eq, PartialEq, Debug)]
pub struct Block {
    pub statements: Vec<AnyStatementNode>,
}

/// Mathematical image of a `Block`.
pub struct BlockView {
    pub statements: Seq<AnyStatementNode>,
}

impl View for Block {
    type V = BlockView;

    open spec fn view(&self) -> BlockView {
        BlockView { statements: self.statements@ }
    }
}

impl Clone for Block {
    fn clone(&self) -> (r: Block)
        ensures
            r@ == self@,
    {
        let mut statements: Vec<AnyStatementNode> = Vec::new();
        let mut i: usize = 0;
        while i < self.statements.len()
            invariant
                i <= self.statements.len(),
                statements@ == self.statements@.subrange(0, i as int),
            decreases self.statements.len() - i,
        {
            statements.push(self.statements[i]);
            i += 1;
        }
        proof {
            assert(statements@ =~= self.statements@);
        }
        Block { statements }
    }
}

} // verus!
