use vstd::prelude::*;
use crate::block::{AnyStatementNode, Block, BlockView, ReturnStmt};
use crate::external::{External, ExternalView};
use crate::function::{Function, FunctionView};
use crate::int_kind::IntKind;
use crate::namespace::{Namespace, NamespaceView, TableEntryView, TopLevelNode, TopLevelNodeView};
use crate::prototype::{Prototype, PrototypeView};
use crate::void_kind::VoidKind;

verus! {

/// The closed set of type descriptors in scope.
#[derive(Hash, Eq, PartialEq, Debug, Copy, Clone, Structural)]
pub enum AnyKindNode {
    IntKind(IntKind),
    VoidKind(VoidKind),
}

/// A boolean literal value node.
#[derive(Hash, Eq, PartialEq, Debug, Copy, Clone, Structural)]
pub struct BoolLiteral {
    pub value: bool,
}

/// The closed set of literal value nodes in scope.
#[derive(Hash, Eq, PartialEq, Debug, Copy, Clone, Structural)]
pub enum AnyLiteralNode {
    BoolLiteral(BoolLiteral),
}

/// A bare identifier node carrying its text.
#[derive(Hash, Eq, PartialEq, Debug)]
pub struct Identifier {
    pub name: String,
}

/// Mathematical image of an `Identifier`.
pub struct IdentifierView {
    pub name: Seq<char>,
}

impl View for Identifier {
    type V = IdentifierView;

    open spec fn view(&self) -> IdentifierView {
        IdentifierView { name: self.name@ }
    }
}

/// A kind together with its reference and mutability modifiers.
#[derive(Hash, Eq, PartialEq, Debug, Copy, Clone, Structural)]
pub struct KindGroup {
    pub kind: AnyKindNode,
    pub is_reference: bool,
    pub is_mutable: bool,
}

/// The closed, tagged set of syntax tree nodes a pass can visit. Passes
/// dispatch on the tag in place of dynamic double dispatch.
#[derive(Debug)]
pub enum Node {
    Namespace(Namespace),
    Function(Function),
    External(External),
    Prototype(Prototype),
    Block(Block),
    ReturnStmt(ReturnStmt),
    IntKind(IntKind),
    VoidKind(VoidKind),
    BoolLiteral(BoolLiteral),
}

/// Mathematical image of a `Node`.
pub enum NodeView {
    Namespace(NamespaceView),
    Function(FunctionView),
    External(ExternalView),
    Prototype(PrototypeView),
    Block(BlockView),
    ReturnStmt(ReturnStmt),
    IntKind(IntKind),
    VoidKind(VoidKind),
    BoolLiteral(BoolLiteral),
}

impl View for Node {
    type V = NodeView;

    open spec fn view(&self) -> NodeView {
        match self {
            Node::Namespace(n) => NodeView::Namespace(n@),
            Node::Function(n) => NodeView::Function(n@),
            Node::External(n) => NodeView::External(n@),
            Node::Prototype(n) => NodeView::Prototype(n@),
            Node::Block(n) => NodeView::Block(n@),
            Node::ReturnStmt(n) => NodeView::ReturnStmt(*n),
            Node::IntKind(n) => NodeView::IntKind(*n),
            Node::VoidKind(n) => NodeView::VoidKind(*n),
            Node::BoolLiteral(n) => NodeView::BoolLiteral(*n),
        }
    }
}

/// The node a top-level declaration stands for when enumerated as a child.
pub open spec fn spec_top_level_child(t: TopLevelNodeView) -> NodeView {
    match t {
        TopLevelNodeView::Function(f) => NodeView::Function(f),
        TopLevelNodeView::External(e) => NodeView::External(e),
    }
}

/// The node a statement stands for when enumerated as a child.
pub open spec fn spec_statement_child(s: AnyStatementNode) -> NodeView {
    match s {
        AnyStatementNode::ReturnStmt(r) => NodeView::ReturnStmt(r),
    }
}

/// The immediate children of a node: the container nodes (namespace,
/// block) expose their entries, every other node has none.
pub open spec fn spec_children(n: NodeView) -> Seq<NodeView> {
    match n {
        NodeView::Namespace(ns) => ns.symbol_table.map_values(
            |e: TableEntryView| spec_top_level_child(e.1),
        ),
        NodeView::Block(b) => b.statements.map_values(|s: AnyStatementNode| spec_statement_child(s)),
        _ => Seq::<NodeView>::empty(),
    }
}

impl Node {
    /// Enumerate the immediate children of this node, for the default
    /// child-first traversal of a pass.
    pub fn get_children(&self) -> (r: Vec<Node>)
        ensures
            r@.map_values(|c: Node| c@) == spec_children(self@),
    {
        match self {
            Node::Namespace(ns) => {
                let mut out: Vec<Node> = Vec::new();
                let mut i: usize = 0;
                while i < ns.symbol_table.len()
                    invariant
                        i <= ns.symbol_table.len(),
                        out@.len() == i,
                        forall|j: int| 0 <= j < i
                            ==> out@.map_values(|c: Node| c@)[j]
                                == spec_children(NodeView::Namespace(ns@))[j],
                    decreases ns.symbol_table.len() - i,
                {
                    match &ns.symbol_table[i].1 {
                        TopLevelNode::Function(f) => out.push(Node::Function(f.clone())),
                        TopLevelNode::External(e) => out.push(Node::External(e.clone())),
                    }
                    i += 1;
                }
                proof {
                    assert(out@.map_values(|c: Node| c@) =~= spec_children(self@));
                }
                out
            },
            Node::Block(b) => {
                let mut out: Vec<Node> = Vec::new();
                let mut i: usize = 0;
                while i < b.statements.len()
                    invariant
                        i <= b.statements.len(),
                        out@.len() == i,
                        forall|j: int| 0 <= j < i
                            ==> out@.map_values(|c: Node| c@)[j]
                                == spec_children(NodeView::Block(b@))[j],
                    decreases b.statements.len() - i,
                {
                    match b.statements[i] {
                        AnyStatementNode::ReturnStmt(stmt) => out.push(Node::ReturnStmt(stmt)),
                    }
                    i += 1;
                }
                proof {
                    assert(out@.map_values(|c: Node| c@) =~= spec_children(self@));
                }
                out
            },
            _ => {
                let out: Vec<Node> = Vec::new();
                proof {
                    assert(out@.map_values(|c: Node| c@) =~= spec_children(self@));
                }
                out
            },
        }
    }
}

} // verus!
