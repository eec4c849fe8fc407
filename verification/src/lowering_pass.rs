use vstd::prelude::*;
use vstd::string::StringExecFns;
use crate::block::{AnyStatementNode, Block, BlockView, ReturnStmt};
use crate::diagnostic::{Diagnostic, DiagnosticSeverity, DiagnosticView};
use crate::external::{External, ExternalView};
use crate::function::{Function, FunctionView};
use crate::int_kind::{spec_bit_width, IntKind};
use crate::namespace::{Namespace, TableEntryView, TopLevelNode, TopLevelNodeView};
use crate::node::{AnyKindNode, AnyLiteralNode, BoolLiteral, Node, NodeView};
use crate::pass::{Pass, PassResult};
use crate::pass_manager::PassManager;
use crate::prototype::Prototype;
use crate::target::{
    Linkage, TargetAction, TargetActionView, TargetBlock, TargetFunction, TargetSignature,
    TargetType, TargetValue,
};
use crate::void_kind::VoidKind;

verus! {

/// A lowering pass: it maps kind and literal nodes to opaque target
/// types and values, memoizing each, and drives the code-generation
/// target by recording the requests it makes, in order.
#[derive(Debug)]
pub struct LoweringPass {
    pub type_map: Vec<(AnyKindNode, TargetType)>,
    pub value_map: Vec<(AnyLiteralNode, TargetValue)>,
    pub actions: Vec<TargetAction>,
    pub current_function: Option<TargetFunction>,
    pub current_block: Option<TargetBlock>,
}

/// Mathematical image of a `LoweringPass`.
pub struct LoweringPassView {
    pub type_map: Seq<(AnyKindNode, TargetType)>,
    pub value_map: Seq<(AnyLiteralNode, TargetValue)>,
    pub actions: Seq<TargetActionView>,
    pub current_function: Option<TargetFunction>,
    pub current_block: Option<TargetBlock>,
}

impl View for LoweringPass {
    type V = LoweringPassView;

    open spec fn view(&self) -> LoweringPassView {
        LoweringPassView {
            type_map: self.type_map@,
            value_map: self.value_map@,
            actions: self.actions@.map_values(|a: TargetAction| a@),
            current_function: self.current_function,
            current_block: self.current_block,
        }
    }
}

/// The target type memoized for a kind, if any: the first entry under
/// the key.
pub open spec fn spec_lookup_type(m: Seq<(AnyKindNode, TargetType)>, key: AnyKindNode) -> Option<
    TargetType,
>
    decreases m.len(),
{
    if m.len() == 0 {
        None
    } else if m[0].0 == key {
        Some(m[0].1)
    } else {
        spec_lookup_type(m.drop_first(), key)
    }
}

/// The target value memoized for a literal, if any.
pub open spec fn spec_lookup_value(
    m: Seq<(AnyLiteralNode, TargetValue)>,
    key: AnyLiteralNode,
) -> Option<TargetValue>
    decreases m.len(),
{
    if m.len() == 0 {
        None
    } else if m[0].0 == key {
        Some(m[0].1)
    } else {
        spec_lookup_value(m.drop_first(), key)
    }
}

proof fn lemma_spec_lookup_type_push(
    m: Seq<(AnyKindNode, TargetType)>,
    key: AnyKindNode,
    entry: (AnyKindNode, TargetType),
)
    ensures
        spec_lookup_type(m.push(entry), key) == (if spec_lookup_type(m, key) is Some {
            spec_lookup_type(m, key)
        } else if entry.0 == key {
            Some(entry.1)
        } else {
            None
        }),
    decreases m.len(),
{
    if m.len() == 0 {
        assert(m.push(entry)[0] == entry);
        assert(m.push(entry).drop_first() =~= Seq::<(AnyKindNode, TargetType)>::empty());
        assert(spec_lookup_type(Seq::<(AnyKindNode, TargetType)>::empty(), key) is None);
    } else {
        assert(m.push(entry)[0] == m[0]);
        assert(m.push(entry).drop_first() =~= m.drop_first().push(entry));
        lemma_spec_lookup_type_push(m.drop_first(), key, entry);
    }
}

proof fn lemma_spec_lookup_value_push(
    m: Seq<(AnyLiteralNode, TargetValue)>,
    key: AnyLiteralNode,
    entry: (AnyLiteralNode, TargetValue),
)
    ensures
        spec_lookup_value(m.push(entry), key) == (if spec_lookup_value(m, key) is Some {
            spec_lookup_value(m, key)
        } else if entry.0 == key {
            Some(entry.1)
        } else {
            None
        }),
    decreases m.len(),
{
    if m.len() == 0 {
        assert(m.push(entry)[0] == entry);
        assert(m.push(entry).drop_first() =~= Seq::<(AnyLiteralNode, TargetValue)>::empty());
        assert(spec_lookup_value(Seq::<(AnyLiteralNode, TargetValue)>::empty(), key) is None);
    } else {
        assert(m.push(entry)[0] == m[0]);
        assert(m.push(entry).drop_first() =~= m.drop_first().push(entry));
        lemma_spec_lookup_value_push(m.drop_first(), key, entry);
    }
}

/// Materialize a target type for an integer kind, unless the kind is
/// already memoized: the target gives one canonical type per kind.
pub open spec fn spec_visit_int_kind(s: LoweringPassView, int_kind: IntKind) -> LoweringPassView {
    let key = AnyKindNode::IntKind(int_kind);
    if spec_lookup_type(s.type_map, key) is Some {
        s
    } else {
        let result = TargetType(s.actions.len() as u64);
        LoweringPassView {
            type_map: s.type_map.push((key, result)),
            actions: s.actions.push(
                TargetActionView::MapIntType { bits: spec_bit_width(int_kind.size), result },
            ),
            ..s
        }
    }
}

/// Materialize the target's void type, unless already memoized.
pub open spec fn spec_visit_void_kind(s: LoweringPassView, void_kind: VoidKind) -> LoweringPassView {
    let key = AnyKindNode::VoidKind(void_kind);
    if spec_lookup_type(s.type_map, key) is Some {
        s
    } else {
        let result = TargetType(s.actions.len() as u64);
        LoweringPassView {
            type_map: s.type_map.push((key, result)),
            actions: s.actions.push(TargetActionView::MapVoidType { result }),
            ..s
        }
    }
}

/// Materialize a target constant for a boolean literal, unless already
/// memoized.
pub open spec fn spec_visit_bool_literal(s: LoweringPassView, lit: BoolLiteral) -> LoweringPassView {
    let key = AnyLiteralNode::BoolLiteral(lit);
    if spec_lookup_value(s.value_map, key) is Some {
        s
    } else {
        let result = TargetValue(s.actions.len() as u64);
        LoweringPassView {
            value_map: s.value_map.push((key, result)),
            actions: s.actions.push(TargetActionView::ConstBool { value: lit.value, result }),
            ..s
        }
    }
}

/// Resolve a kind to its target type: visit it unless already
/// memoized, then hand the memoized type out.
pub open spec fn spec_visit_or_retrieve_type(s: LoweringPassView, kind: AnyKindNode) -> (
    LoweringPassView,
    Option<TargetType>,
) {
    if spec_lookup_type(s.type_map, kind) is Some {
        (s, spec_lookup_type(s.type_map, kind))
    } else {
        let s1 = match kind {
            AnyKindNode::IntKind(ik) => spec_visit_int_kind(s, ik),
            AnyKindNode::VoidKind(vk) => spec_visit_void_kind(s, vk),
        };
        (s1, spec_lookup_type(s1.type_map, kind))
    }
}

/// Resolve a literal to its target value.
pub open spec fn spec_visit_or_retrieve_value(s: LoweringPassView, lit: AnyLiteralNode) -> (
    LoweringPassView,
    Option<TargetValue>,
) {
    if spec_lookup_value(s.value_map, lit) is Some {
        (s, spec_lookup_value(s.value_map, lit))
    } else {
        let s1 = match lit {
            AnyLiteralNode::BoolLiteral(b) => spec_visit_bool_literal(s, b),
        };
        (s1, spec_lookup_value(s1.value_map, lit))
    }
}

/// Lower a return statement: demands an open block, resolves the
/// optional value and emits one return instruction.
pub open spec fn spec_visit_return_stmt(s: LoweringPassView, stmt: ReturnStmt) -> (
    LoweringPassView,
    Option<DiagnosticView>,
) {
    match s.current_block {
        None => (
            s,
            Some(
                DiagnosticView {
                    message: "lowering: no active block for a return"@,
                    severity: DiagnosticSeverity::Internal,
                },
            ),
        ),
        Some(_) => match stmt.value {
            None => (
                LoweringPassView {
                    actions: s.actions.push(TargetActionView::BuildReturn { value: None }),
                    ..s
                },
                None,
            ),
            Some(lit) => {
                let (s1, value) = spec_visit_or_retrieve_value(s, lit);
                match value {
                    None => (
                        s1,
                        Some(
                            DiagnosticView {
                                message: "lowering: literal resolution did not produce a value"@,
                                severity: DiagnosticSeverity::Internal,
                            },
                        ),
                    ),
                    Some(v) => (
                        LoweringPassView {
                            actions: s1.actions.push(
                                TargetActionView::BuildReturn { value: Some(v) },
                            ),
                            ..s1
                        },
                        None,
                    ),
                }
            },
        },
    }
}

/// Lower the statements of a block in order, stopping at the first
/// diagnostic.
pub open spec fn spec_visit_stmts(s: LoweringPassView, ss: Seq<AnyStatementNode>) -> (
    LoweringPassView,
    Option<DiagnosticView>,
)
    decreases ss.len(),
{
    if ss.len() == 0 {
        (s, None)
    } else {
        let step = match ss[0] {
            AnyStatementNode::ReturnStmt(r) => spec_visit_return_stmt(s, r),
        };
        match step.1 {
            Some(d) => (step.0, Some(d)),
            None => spec_visit_stmts(step.0, ss.drop_first()),
        }
    }
}

/// Lower a block: demands a current function, opens one basic block,
/// positions the builder at its end, then lowers each statement.
pub open spec fn spec_visit_block(s: LoweringPassView, b: BlockView) -> (
    LoweringPassView,
    Option<DiagnosticView>,
) {
    match s.current_function {
        None => (
            s,
            Some(
                DiagnosticView {
                    message: "lowering: no active function for a block"@,
                    severity: DiagnosticSeverity::Internal,
                },
            ),
        ),
        Some(function) => {
            let result = TargetBlock(s.actions.len() as u64);
            let s1 = LoweringPassView {
                actions: s.actions.push(TargetActionView::OpenBlock { function, result }).push(
                    TargetActionView::PositionAt { block: result },
                ),
                current_block: Some(result),
                ..s
            };
            spec_visit_stmts(s1, b.statements)
        },
    }
}

/// Lower a function: resolve its return kind, declare it with
/// `External` linkage when public and `Private` otherwise, and lower
/// its body; an empty body is lowered as one implicit value-less
/// return.
pub open spec fn spec_visit_function(s: LoweringPassView, f: FunctionView) -> (
    LoweringPassView,
    Option<DiagnosticView>,
) {
    let resolved = spec_visit_or_retrieve_type(s, f.prototype.return_kind_group.kind);
    match resolved.1 {
        None => (
            resolved.0,
            Some(
                DiagnosticView {
                    message: "lowering: kind resolution did not produce a type"@,
                    severity: DiagnosticSeverity::Internal,
                },
            ),
        ),
        Some(return_type) => {
            let s1 = resolved.0;
            let signature = TargetSignature { return_type, is_variadic: f.prototype.is_variadic };
            let linkage = if f.is_public {
                Linkage::External
            } else {
                Linkage::Private
            };
            let result = TargetFunction(s1.actions.len() as u64);
            let s2 = LoweringPassView {
                actions: s1.actions.push(
                    TargetActionView::DeclareFunction {
                        name: f.prototype.name,
                        signature,
                        linkage,
                        result,
                    },
                ),
                current_function: Some(result),
                ..s1
            };
            let body = if f.body.statements.len() == 0 {
                BlockView {
                    statements: seq![AnyStatementNode::ReturnStmt(ReturnStmt { value: None })],
                }
            } else {
                f.body
            };
            spec_visit_block(s2, body)
        },
    }
}

/// Lower an external declaration: resolve its return kind and declare
/// it, always with `External` linkage.
pub open spec fn spec_visit_external(s: LoweringPassView, e: ExternalView) -> (
    LoweringPassView,
    Option<DiagnosticView>,
) {
    let resolved = spec_visit_or_retrieve_type(s, e.prototype.return_kind_group.kind);
    match resolved.1 {
        None => (
            resolved.0,
            Some(
                DiagnosticView {
                    message: "lowering: kind resolution did not produce a type"@,
                    severity: DiagnosticSeverity::Internal,
                },
            ),
        ),
        Some(return_type) => {
            let s1 = resolved.0;
            let signature = TargetSignature { return_type, is_variadic: e.prototype.is_variadic };
            let result = TargetFunction(s1.actions.len() as u64);
            (
                LoweringPassView {
                    actions: s1.actions.push(
                        TargetActionView::DeclareFunction {
                            name: e.prototype.name,
                            signature,
                            linkage: Linkage::External,
                            result,
                        },
                    ),
                    ..s1
                },
                None,
            )
        },
    }
}

/// Lower every top-level declaration of a namespace, in symbol table
/// order, stopping at the first diagnostic.
pub open spec fn spec_visit_top_levels(s: LoweringPassView, table: Seq<TableEntryView>) -> (
    LoweringPassView,
    Option<DiagnosticView>,
)
    decreases table.len(),
{
    if table.len() == 0 {
        (s, None)
    } else {
        let step = match table[0].1 {
            TopLevelNodeView::Function(f) => spec_visit_function(s, f),
            TopLevelNodeView::External(e) => spec_visit_external(s, e),
        };
        match step.1 {
            Some(d) => (step.0, Some(d)),
            None => spec_visit_top_levels(step.0, table.drop_first()),
        }
    }
}

/// What one visit of a node does to the lowering pass.
pub open spec fn spec_visit_node(s: LoweringPassView, node: NodeView) -> (
    LoweringPassView,
    Option<DiagnosticView>,
) {
    match node {
        NodeView::Namespace(n) => spec_visit_top_levels(s, n.symbol_table),
        NodeView::Function(f) => spec_visit_function(s, f),
        NodeView::External(e) => spec_visit_external(s, e),
        NodeView::Prototype(_) => (s, None),
        NodeView::Block(b) => spec_visit_block(s, b),
        NodeView::ReturnStmt(r) => spec_visit_return_stmt(s, r),
        NodeView::IntKind(ik) => (spec_visit_int_kind(s, ik), None),
        NodeView::VoidKind(vk) => (spec_visit_void_kind(s, vk), None),
        NodeView::BoolLiteral(b) => (spec_visit_bool_literal(s, b), None),
    }
}

/// Resolving a kind twice memoizes: the first resolution materializes
/// the target type at most once, and the second call changes nothing
/// and hands back the same cached type.
pub proof fn lemma_visit_or_retrieve_type_memoizes(s: LoweringPassView, kind: AnyKindNode)
    ensures
        ({
            let first = spec_visit_or_retrieve_type(s, kind);
            let second = spec_visit_or_retrieve_type(first.0, kind);
            &&& first.1 is Some
            &&& second.0 == first.0
            &&& second.1 == first.1
            &&& (spec_lookup_type(s.type_map, kind) is Some ==> first.0 == s)
            &&& (spec_lookup_type(s.type_map, kind) is None ==> first.0.type_map.len()
                == s.type_map.len() + 1)
        }),
{
    if spec_lookup_type(s.type_map, kind) is None {
        match kind {
            AnyKindNode::IntKind(ik) => {
                lemma_spec_lookup_type_push(
                    s.type_map,
                    kind,
                    (kind, TargetType(s.actions.len() as u64)),
                );
            },
            AnyKindNode::VoidKind(vk) => {
                lemma_spec_lookup_type_push(
                    s.type_map,
                    kind,
                    (kind, TargetType(s.actions.len() as u64)),
                );
            },
        }
    }
}

/// As `lemma_visit_or_retrieve_type_memoizes`, for literal values.
pub proof fn lemma_visit_or_retrieve_value_memoizes(s: LoweringPassView, lit: AnyLiteralNode)
    ensures
        ({
            let first = spec_visit_or_retrieve_value(s, lit);
            let second = spec_visit_or_retrieve_value(first.0, lit);
            &&& first.1 is Some
            &&& second.0 == first.0
            &&& second.1 == first.1
            &&& (spec_lookup_value(s.value_map, lit) is Some ==> first.0 == s)
            &&& (spec_lookup_value(s.value_map, lit) is None ==> first.0.value_map.len()
                == s.value_map.len() + 1)
        }),
{
    if spec_lookup_value(s.value_map, lit) is None {
        match lit {
            AnyLiteralNode::BoolLiteral(b) => {
                lemma_spec_lookup_value_push(
                    s.value_map,
                    lit,
                    (lit, TargetValue(s.actions.len() as u64)),
                );
            },
        }
    }
}

impl LoweringPass {
    /// A lowering pass with empty memo tables, no recorded requests
    /// and no open function or block.
    pub fn new() -> (r: LoweringPass)
        ensures
            r@.type_map == Seq::<(AnyKindNode, TargetType)>::empty(),
            r@.value_map == Seq::<(AnyLiteralNode, TargetValue)>::empty(),
            r@.actions == Seq::<TargetActionView>::empty(),
            r@.current_function is None,
            r@.current_block is None,
    {
        let r = LoweringPass {
            type_map: Vec::new(),
            value_map: Vec::new(),
            actions: Vec::new(),
            current_function: None,
            current_block: None,
        };
        proof {
            assert(r@.actions =~= Seq::<TargetActionView>::empty());
        }
        r
    }

    /// The target type memoized for `key`, if any.
    pub fn lookup_type(&self, key: &AnyKindNode) -> (r: Option<TargetType>)
        ensures
            r == spec_lookup_type(self@.type_map, *key),
    {
        let mut i: usize = 0;
        proof {
            assert(self@.type_map.subrange(0, self@.type_map.len() as int) =~= self@.type_map);
        }
        while i < self.type_map.len()
            invariant
                i <= self.type_map.len(),
                spec_lookup_type(self@.type_map, *key) == spec_lookup_type(
                    self@.type_map.subrange(i as int, self@.type_map.len() as int),
                    *key,
                ),
            decreases self.type_map.len() - i,
        {
            let ghost rest = self@.type_map.subrange(i as int, self@.type_map.len() as int);
            proof {
                assert(rest[0] == self@.type_map[i as int]);
                assert(rest.drop_first() =~= self@.type_map.subrange(
                    i + 1,
                    self@.type_map.len() as int,
                ));
            }
            if self.type_map[i].0 == *key {
                return Some(self.type_map[i].1);
            }
            i += 1;
        }
        None
    }

    /// The target value memoized for `key`, if any.
    pub fn lookup_value(&self, key: &AnyLiteralNode) -> (r: Option<TargetValue>)
        ensures
            r == spec_lookup_value(self@.value_map, *key),
    {
        let mut i: usize = 0;
        proof {
            assert(self@.value_map.subrange(0, self@.value_map.len() as int) =~= self@.value_map);
        }
        while i < self.value_map.len()
            invariant
                i <= self.value_map.len(),
                spec_lookup_value(self@.value_map, *key) == spec_lookup_value(
                    self@.value_map.subrange(i as int, self@.value_map.len() as int),
                    *key,
                ),
            decreases self.value_map.len() - i,
        {
            let ghost rest = self@.value_map.subrange(i as int, self@.value_map.len() as int);
            proof {
                assert(rest[0] == self@.value_map[i as int]);
                assert(rest.drop_first() =~= self@.value_map.subrange(
                    i + 1,
                    self@.value_map.len() as int,
                ));
            }
            if self.value_map[i].0 == *key {
                return Some(self.value_map[i].1);
            }
            i += 1;
        }
        None
    }

    /// Record one request to the code-generation target.
    fn log_action(&mut self, action: TargetAction)
        ensures
            final(self)@ == (LoweringPassView { actions: old(self)@.actions.push(action@), ..old(
                self,
            )@ }),
    {
        let ghost av = action@;
        let ghost prev = self@;
        self.actions.push(action);
        proof {
            assert(self@.actions =~= prev.actions.push(av));
        }
    }

    /// Lower an integer kind to a target type, memoized.
    pub fn visit_int_kind(&mut self, int_kind: &IntKind) -> (r: PassResult)
        ensures
            final(self)@ == spec_visit_int_kind(old(self)@, *int_kind),
            r is Ok,
    {
        let key = AnyKindNode::IntKind(*int_kind);
        if self.lookup_type(&key).is_some() {
            return Ok(());
        }
        let result = TargetType(self.actions.len() as u64);
        self.type_map.push((key, result));
        self.log_action(TargetAction::MapIntType { bits: int_kind.bit_width(), result });
        Ok(())
    }

    /// Lower the void kind to the target's void type, memoized.
    pub fn visit_void_kind(&mut self, void_kind: &VoidKind) -> (r: PassResult)
        ensures
            final(self)@ == spec_visit_void_kind(old(self)@, *void_kind),
            r is Ok,
    {
        let key = AnyKindNode::VoidKind(*void_kind);
        if self.lookup_type(&key).is_some() {
            return Ok(());
        }
        let result = TargetType(self.actions.len() as u64);
        self.type_map.push((key, result));
        self.log_action(TargetAction::MapVoidType { result });
        Ok(())
    }

    /// Lower a boolean literal to a target constant, memoized.
    pub fn visit_bool_literal(&mut self, literal: &BoolLiteral) -> (r: PassResult)
        ensures
            final(self)@ == spec_visit_bool_literal(old(self)@, *literal),
            r is Ok,
    {
        let key = AnyLiteralNode::BoolLiteral(*literal);
        if self.lookup_value(&key).is_some() {
            return Ok(());
        }
        let result = TargetValue(self.actions.len() as u64);
        self.value_map.push((key, result));
        self.log_action(TargetAction::ConstBool { value: literal.value, result });
        Ok(())
    }

    /// Visit the kind and return its target type, or, if it was
    /// already visited, simply retrieve the memoized type: each
    /// distinct kind is materialized on the target at most once.
    pub fn visit_or_retrieve_type(&mut self, node: &AnyKindNode) -> (r: Result<
        TargetType,
        Diagnostic,
    >)
        ensures
            final(self)@ == spec_visit_or_retrieve_type(old(self)@, *node).0,
            r matches Ok(t) && spec_visit_or_retrieve_type(old(self)@, *node).1 == Some(t),
    {
        proof {
            lemma_visit_or_retrieve_type_memoizes(old(self)@, *node);
        }
        if self.lookup_type(node).is_none() {
            match node {
                AnyKindNode::IntKind(ik) => {
                    let int_kind = *ik;
                    let _ = self.visit_int_kind(&int_kind);
                },
                AnyKindNode::VoidKind(vk) => {
                    let void_kind = *vk;
                    let _ = self.visit_void_kind(&void_kind);
                },
            }
        }
        match self.lookup_type(node) {
            Some(t) => Ok(t),
            None => {
                proof {
                    assert(false);
                }
                Err(
                    Diagnostic {
                        message: String::from_str("lowering: kind resolution did not produce a type"),
                        severity: DiagnosticSeverity::Internal,
                    },
                )
            },
        }
    }

    /// Visit the literal and return its target value, memoized as the
    /// kinds are.
    pub fn visit_or_retrieve_value(&mut self, node: &AnyLiteralNode) -> (r: Result<
        TargetValue,
        Diagnostic,
    >)
        ensures
            final(self)@ == spec_visit_or_retrieve_value(old(self)@, *node).0,
            r matches Ok(v) && spec_visit_or_retrieve_value(old(self)@, *node).1 == Some(v),
    {
        proof {
            lemma_visit_or_retrieve_value_memoizes(old(self)@, *node);
        }
        if self.lookup_value(node).is_none() {
            match node {
                AnyLiteralNode::BoolLiteral(b) => {
                    let literal = *b;
                    let _ = self.visit_bool_literal(&literal);
                },
            }
        }
        match self.lookup_value(node) {
            Some(v) => Ok(v),
            None => {
                proof {
                    assert(false);
                }
                Err(
                    Diagnostic {
                        message: String::from_str(
                            "lowering: literal resolution did not produce a value",
                        ),
                        severity: DiagnosticSeverity::Internal,
                    },
                )
            },
        }
    }

    /// Lower a return statement into the open block.
    pub fn visit_return_stmt(&mut self, return_stmt: &ReturnStmt) -> (r: PassResult)
        ensures
            final(self)@ == spec_visit_return_stmt(old(self)@, *return_stmt).0,
            match r {
                Ok(_) => spec_visit_return_stmt(old(self)@, *return_stmt).1 is None,
                Err(d) => spec_visit_return_stmt(old(self)@, *return_stmt).1 == Some(d@),
            },
    {
        if self.current_block.is_none() {
            return Err(
                Diagnostic {
                    message: String::from_str("lowering: no active block for a return"),
                    severity: DiagnosticSeverity::Internal,
                },
            );
        }
        match return_stmt.value {
            None => {
                self.log_action(TargetAction::BuildReturn { value: None });
                Ok(())
            },
            Some(lit) => {
                let value = match self.visit_or_retrieve_value(&lit) {
                    Ok(v) => v,
                    Err(d) => {
                        return Err(d);
                    },
                };
                self.log_action(TargetAction::BuildReturn { value: Some(value) });
                Ok(())
            },
        }
    }

    /// Lower a block: open one basic block on the target inside the
    /// current function, position at its end, and lower each statement
    /// in order.
    #[verifier::loop_isolation(false)]
    pub fn visit_block(&mut self, block: &Block) -> (r: PassResult)
        ensures
            final(self)@ == spec_visit_block(old(self)@, block@).0,
            match r {
                Ok(_) => spec_visit_block(old(self)@, block@).1 is None,
                Err(d) => spec_visit_block(old(self)@, block@).1 == Some(d@),
            },
    {
        let function = match self.current_function {
            Some(f) => f,
            None => {
                return Err(
                    Diagnostic {
                        message: String::from_str("lowering: no active function for a block"),
                        severity: DiagnosticSeverity::Internal,
                    },
                );
            },
        };
        let result = TargetBlock(self.actions.len() as u64);
        self.log_action(TargetAction::OpenBlock { function, result });
        self.log_action(TargetAction::PositionAt { block: result });
        self.current_block = Some(result);
        let ghost s1 = self@;
        let mut i: usize = 0;
        proof {
            assert(block@.statements.subrange(0, block@.statements.len() as int)
                =~= block@.statements);
        }
        while i < block.statements.len()
            invariant
                i <= block.statements.len(),
                spec_visit_stmts(s1, block@.statements) == spec_visit_stmts(
                    self@,
                    block@.statements.subrange(i as int, block@.statements.len() as int),
                ),
            decreases block.statements.len() - i,
        {
            let ghost rest = block@.statements.subrange(
                i as int,
                block@.statements.len() as int,
            );
            proof {
                assert(rest[0] == block@.statements[i as int]);
                assert(rest.drop_first() =~= block@.statements.subrange(
                    i + 1,
                    block@.statements.len() as int,
                ));
            }
            match block.statements[i] {
                AnyStatementNode::ReturnStmt(stmt) => {
                    match self.visit_return_stmt(&stmt) {
                        Ok(_) => {},
                        Err(d) => {
                            return Err(d);
                        },
                    }
                },
            }
            i += 1;
        }
        proof {
            assert(block@.statements.subrange(0, block@.statements.len() as int)
                =~= block@.statements);
            assert(block@.statements.subrange(
                block@.statements.len() as int,
                block@.statements.len() as int,
            ).len() == 0);
        }
        Ok(())
    }

    /// Lower a function: resolve the return kind, declare the function
    /// with its linkage, and lower the body; an empty body becomes one
    /// implicit value-less return.
    pub fn visit_function(&mut self, function: &Function) -> (r: PassResult)
        ensures
            final(self)@ == spec_visit_function(old(self)@, function@).0,
            match r {
                Ok(_) => spec_visit_function(old(self)@, function@).1 is None,
                Err(d) => spec_visit_function(old(self)@, function@).1 == Some(d@),
            },
    {
        let return_type = match self.visit_or_retrieve_type(
            &function.prototype.return_kind_group.kind,
        ) {
            Ok(t) => t,
            Err(d) => {
                return Err(d);
            },
        };
        let signature = TargetSignature { return_type, is_variadic: function.prototype.is_variadic };
        let linkage = if function.is_public {
            Linkage::External
        } else {
            Linkage::Private
        };
        let result = TargetFunction(self.actions.len() as u64);
        self.log_action(
            TargetAction::DeclareFunction {
                name: function.prototype.name.clone(),
                signature,
                linkage,
                result,
            },
        );
        self.current_function = Some(result);
        if function.body.statements.len() == 0 {
            let implicit = Block {
                statements: vec![AnyStatementNode::ReturnStmt(ReturnStmt { value: None })],
            };
            proof {
                assert(implicit@.statements =~= seq![
                    AnyStatementNode::ReturnStmt(ReturnStmt { value: None }),
                ]);
            }
            self.visit_block(&implicit)
        } else {
            self.visit_block(&function.body)
        }
    }

    /// Lower an external declaration: resolve the return kind and
    /// declare the function, always with `External` linkage.
    pub fn visit_external(&mut self, external: &External) -> (r: PassResult)
        ensures
            final(self)@ == spec_visit_external(old(self)@, external@).0,
            match r {
                Ok(_) => spec_visit_external(old(self)@, external@).1 is None,
                Err(d) => spec_visit_external(old(self)@, external@).1 == Some(d@),
            },
    {
        let return_type = match self.visit_or_retrieve_type(
            &external.prototype.return_kind_group.kind,
        ) {
            Ok(t) => t,
            Err(d) => {
                return Err(d);
            },
        };
        let signature = TargetSignature { return_type, is_variadic: external.prototype.is_variadic };
        let result = TargetFunction(self.actions.len() as u64);
        self.log_action(
            TargetAction::DeclareFunction {
                name: external.prototype.name.clone(),
                signature,
                linkage: Linkage::External,
                result,
            },
        );
        Ok(())
    }

    /// A prototype on its own lowers to nothing.
    pub fn visit_prototype(&mut self, _prototype: &Prototype) -> (r: PassResult)
        ensures
            final(self)@ == old(self)@,
            r is Ok,
    {
        Ok(())
    }

    /// Lower every declaration of a namespace, in symbol table order.
    #[verifier::loop_isolation(false)]
    pub fn visit_namespace(&mut self, namespace: &Namespace) -> (r: PassResult)
        ensures
            final(self)@ == spec_visit_top_levels(old(self)@, namespace@.symbol_table).0,
            match r {
                Ok(_) => spec_visit_top_levels(old(self)@, namespace@.symbol_table).1 is None,
                Err(d) => spec_visit_top_levels(old(self)@, namespace@.symbol_table).1 == Some(
                    d@,
                ),
            },
    {
        let ghost s0 = self@;
        let ghost table = namespace@.symbol_table;
        let mut i: usize = 0;
        proof {
            assert(table.subrange(0, table.len() as int) =~= table);
        }
        while i < namespace.symbol_table.len()
            invariant
                i <= namespace.symbol_table.len(),
                spec_visit_top_levels(s0, table) == spec_visit_top_levels(
                    self@,
                    table.subrange(i as int, table.len() as int),
                ),
            decreases namespace.symbol_table.len() - i,
        {
            let ghost rest = table.subrange(i as int, table.len() as int);
            proof {
                assert(rest[0] == table[i as int]);
                assert(rest.drop_first() =~= table.subrange(i + 1, table.len() as int));
            }
            match &namespace.symbol_table[i].1 {
                TopLevelNode::Function(f) => {
                    match self.visit_function(f) {
                        Ok(_) => {},
                        Err(d) => {
                            return Err(d);
                        },
                    }
                },
                TopLevelNode::External(e) => {
                    match self.visit_external(e) {
                        Ok(_) => {},
                        Err(d) => {
                            return Err(d);
                        },
                    }
                },
            }
            i += 1;
        }
        proof {
            assert(table.subrange(0, table.len() as int) =~= table);
            assert(table.subrange(table.len() as int, table.len() as int).len() == 0);
        }
        Ok(())
    }
}

impl Pass for LoweringPass {
    open spec fn spec_register(&self) -> bool {
        true
    }

    open spec fn spec_diagnostics(&self) -> Seq<DiagnosticView> {
        Seq::<DiagnosticView>::empty()
    }

    open spec fn spec_visit_rel(pre: Self, post: Self, node: NodeView) -> bool {
        post@ == spec_visit_node(pre@, node).0
    }

    open spec fn spec_visit_error(pre: Self, node: NodeView) -> Option<DiagnosticView> {
        spec_visit_node(pre@, node).1
    }

    fn register(&self, _pass_manager: &PassManager<Self>) -> (r: bool) {
        true
    }

    fn get_diagnostics(&self) -> (r: Vec<Diagnostic>) {
        let r: Vec<Diagnostic> = Vec::new();
        proof {
            assert(r@.map_values(|d: Diagnostic| d@) =~= Seq::<DiagnosticView>::empty());
        }
        r
    }

    fn visit(&mut self, node: &Node) -> (r: PassResult) {
        match node {
            Node::Namespace(n) => self.visit_namespace(n),
            Node::Function(f) => self.visit_function(f),
            Node::External(e) => self.visit_external(e),
            Node::Prototype(p) => self.visit_prototype(p),
            Node::Block(b) => self.visit_block(b),
            Node::ReturnStmt(stmt) => {
                let s = *stmt;
                self.visit_return_stmt(&s)
            },
            Node::IntKind(ik) => {
                let k = *ik;
                self.visit_int_kind(&k)
            },
            Node::VoidKind(vk) => {
                let k = *vk;
                self.visit_void_kind(&k)
            },
            Node::BoolLiteral(b) => {
                let lit = *b;
                self.visit_bool_literal(&lit)
            },
        }
    }
}

} // verus!
