use vstd::prelude::*;
use crate::block::{BlockView, ReturnStmt};
use crate::diagnostic::DiagnosticSeverity;
use crate::external::ExternalView;
use crate::function::FunctionView;
use crate::int_kind::{IntKind, IntSize};
use crate::namespace::{table_contains_name, NamespaceView, TableEntryView, TopLevelNodeView};
use crate::node::{AnyKindNode, AnyLiteralNode, BoolLiteral, KindGroup};
use crate::block::AnyStatementNode;
use crate::prototype::{ParameterView, PrototypeView};
use crate::token::TokenView;
use crate::void_kind::VoidKind;

verus! {

/// The token stream a parse operates on.
pub type TokenSeq = Seq<TokenView>;

/// Whether the token at the cursor equals `tok`; false out of bounds.
pub open spec fn spec_is(t: TokenSeq, i: int, tok: TokenView) -> bool {
    0 <= i < t.len() && t[i] == tok
}

/// The cursor after one advance: it stays put at the last token.
pub open spec fn spec_skip(t: TokenSeq, i: int) -> int {
    if i + 1 >= t.len() {
        i
    } else {
        i + 1
    }
}

/// Whether the cursor sits at the end of the stream.
pub open spec fn spec_is_eof(t: TokenSeq, i: int) -> bool {
    t.len() == 0 || i == t.len() - 1
}

/// Demand `tok` at the cursor and step over it; an `Error` diagnostic
/// otherwise, with the cursor untouched.
pub open spec fn spec_skip_past(t: TokenSeq, i: int, tok: TokenView) -> Result<
    int,
    DiagnosticSeverity,
> {
    if spec_is(t, i, tok) {
        Ok(spec_skip(t, i))
    } else {
        Err(DiagnosticSeverity::Error)
    }
}

/// An identifier's text at the cursor. A non-identifier is an internal
/// fault: callers only ask for a name after looking at the token.
pub open spec fn spec_parse_name(t: TokenSeq, i: int) -> Result<
    (Seq<char>, int),
    DiagnosticSeverity,
> {
    if i >= t.len() {
        Err(DiagnosticSeverity::Error)
    } else {
        match t[i] {
            TokenView::Identifier(s) => Ok((s, spec_skip(t, i))),
            _ => Err(DiagnosticSeverity::Internal),
        }
    }
}

/// The integer size a type name stands for, if any.
pub open spec fn spec_int_size_of_name(s: Seq<char>) -> Option<IntSize> {
    if s == "i8"@ {
        Some(IntSize::Signed8)
    } else if s == "i16"@ {
        Some(IntSize::Signed16)
    } else if s == "i32"@ {
        Some(IntSize::Signed32)
    } else if s == "i64"@ {
        Some(IntSize::Signed64)
    } else if s == "i128"@ {
        Some(IntSize::Signed128)
    } else {
        None
    }
}

/// One identifier token naming an integer type.
pub open spec fn spec_parse_int_kind(t: TokenSeq, i: int) -> Result<
    (IntKind, int),
    DiagnosticSeverity,
> {
    if i >= t.len() {
        Err(DiagnosticSeverity::Error)
    } else {
        match t[i] {
            TokenView::Identifier(s) => match spec_int_size_of_name(s) {
                Some(size) => Ok((IntKind { size }, spec_skip(t, i))),
                None => Err(DiagnosticSeverity::Error),
            },
            _ => Err(DiagnosticSeverity::Error),
        }
    }
}

/// The dedicated void type token.
pub open spec fn spec_parse_void_kind(t: TokenSeq, i: int) -> Result<
    (VoidKind, int),
    DiagnosticSeverity,
> {
    match spec_skip_past(t, i, TokenView::TypeVoid) {
        Ok(j) => Ok((VoidKind {  }, j)),
        Err(s) => Err(s),
    }
}

/// Dispatch on the lead token to a kind parse; an unrecognized lead
/// token is an internal fault of the caller's dispatch.
pub open spec fn spec_parse_kind(t: TokenSeq, i: int) -> Result<
    (AnyKindNode, int),
    DiagnosticSeverity,
> {
    if i >= t.len() {
        Err(DiagnosticSeverity::Error)
    } else {
        match t[i] {
            TokenView::TypeVoid => match spec_parse_void_kind(t, i) {
                Ok((v, j)) => Ok((AnyKindNode::VoidKind(v), j)),
                Err(s) => Err(s),
            },
            TokenView::TypeInt32 => Ok(
                (AnyKindNode::IntKind(IntKind { size: IntSize::Signed32 }), spec_skip(t, i)),
            ),
            TokenView::Identifier(_) => match spec_parse_int_kind(t, i) {
                Ok((k, j)) => Ok((AnyKindNode::IntKind(k), j)),
                Err(s) => Err(s),
            },
            _ => Err(DiagnosticSeverity::Internal),
        }
    }
}

/// An optional reference marker, an optional mutability marker, then a
/// kind.
pub open spec fn spec_parse_kind_group(t: TokenSeq, i: int) -> Result<
    (KindGroup, int),
    DiagnosticSeverity,
> {
    let is_reference = spec_is(t, i, TokenView::SymbolAmpersand);
    let i1 = if is_reference {
        spec_skip(t, i)
    } else {
        i
    };
    let is_mutable = spec_is(t, i1, TokenView::KeywordMut);
    let i2 = if is_mutable {
        spec_skip(t, i1)
    } else {
        i1
    };
    match spec_parse_kind(t, i2) {
        Ok((kind, j)) => Ok((KindGroup { kind, is_reference, is_mutable }, j)),
        Err(s) => Err(s),
    }
}

/// A `name : kind-group` formal parameter.
pub open spec fn spec_parse_parameter(t: TokenSeq, i: int) -> Result<
    (ParameterView, int),
    DiagnosticSeverity,
> {
    match spec_parse_name(t, i) {
        Ok((name, i1)) => match spec_skip_past(t, i1, TokenView::SymbolColon) {
            Ok(i2) => match spec_parse_kind_group(t, i2) {
                Ok((kind_group, j)) => Ok(((name, kind_group), j)),
                Err(s) => Err(s),
            },
            Err(s) => Err(s),
        },
        Err(s) => Err(s),
    }
}

pub proof fn lemma_spec_parse_kind_bounds(t: TokenSeq, i: int)
    ensures
        spec_parse_kind(t, i) matches Ok(r) ==> i <= r.1 < t.len(),
{
}

pub proof fn lemma_spec_parse_kind_group_bounds(t: TokenSeq, i: int)
    ensures
        spec_parse_kind_group(t, i) matches Ok(r) ==> i <= r.1 < t.len(),
{
    let is_reference = spec_is(t, i, TokenView::SymbolAmpersand);
    let i1 = if is_reference {
        spec_skip(t, i)
    } else {
        i
    };
    let is_mutable = spec_is(t, i1, TokenView::KeywordMut);
    let i2 = if is_mutable {
        spec_skip(t, i1)
    } else {
        i1
    };
    lemma_spec_parse_kind_bounds(t, i2);
}

pub proof fn lemma_spec_parse_parameter_advances(t: TokenSeq, i: int)
    ensures
        spec_parse_parameter(t, i) matches Ok(r) ==> i < r.1 < t.len(),
{
    match spec_parse_name(t, i) {
        Ok((name, i1)) => {
            lemma_spec_parse_kind_group_bounds(t, spec_skip(t, i1));
            lemma_spec_parse_kind_group_bounds(t, i1);
        },
        Err(_) => {},
    }
}

/// The parameter list between the parentheses of a prototype: formal
/// parameters separated by commas, optionally ended by the variadic
/// marker. The cursor stops at what should be the closing parenthesis.
pub open spec fn spec_parse_params(t: TokenSeq, i: int) -> Result<
    (Seq<ParameterView>, bool, int),
    DiagnosticSeverity,
>
    decreases t.len() - i,
{
    if spec_is(t, i, TokenView::SymbolParenthesesR) || spec_is_eof(t, i) {
        Ok((Seq::<ParameterView>::empty(), false, i))
    } else if spec_is(t, i, TokenView::SymbolVariadic) {
        Ok((Seq::<ParameterView>::empty(), true, spec_skip(t, i)))
    } else {
        match spec_parse_parameter(t, i) {
            Ok((p, j)) => {
                if spec_is(t, j, TokenView::SymbolComma) {
                    proof {
                        lemma_spec_parse_parameter_advances(t, i);
                    }
                    match spec_parse_params(t, spec_skip(t, j)) {
                        Ok((ps, variadic, k)) => Ok((seq![p] + ps, variadic, k)),
                        Err(s) => Err(s),
                    }
                } else {
                    Ok((seq![p], false, j))
                }
            },
            Err(s) => Err(s),
        }
    }
}

pub proof fn lemma_spec_parse_params_bounds(t: TokenSeq, i: int)
    requires
        0 <= i < t.len(),
    ensures
        spec_parse_params(t, i) matches Ok(r) ==> i <= r.2 < t.len(),
    decreases t.len() - i,
{
    if !(spec_is(t, i, TokenView::SymbolParenthesesR) || spec_is_eof(t, i)) && !spec_is(
        t,
        i,
        TokenView::SymbolVariadic,
    ) {
        match spec_parse_parameter(t, i) {
            Ok((p, j)) => {
                lemma_spec_parse_parameter_advances(t, i);
                if spec_is(t, j, TokenView::SymbolComma) {
                    lemma_spec_parse_params_bounds(t, spec_skip(t, j));
                }
            },
            Err(_) => {},
        }
    }
}

/// Prepend already-collected parameters to the outcome of parsing the
/// rest of a parameter list.
pub open spec fn spec_params_prepend(
    ps: Seq<ParameterView>,
    r: Result<(Seq<ParameterView>, bool, int), DiagnosticSeverity>,
) -> Result<(Seq<ParameterView>, bool, int), DiagnosticSeverity> {
    match r {
        Ok((qs, variadic, k)) => Ok((ps + qs, variadic, k)),
        Err(s) => Err(s),
    }
}

/// Prepend already-collected statements to the outcome of parsing the
/// rest of a statement list.
pub open spec fn spec_stmts_prepend(
    ss: Seq<AnyStatementNode>,
    r: Result<(Seq<AnyStatementNode>, int), DiagnosticSeverity>,
) -> Result<(Seq<AnyStatementNode>, int), DiagnosticSeverity> {
    match r {
        Ok((rest, k)) => Ok((ss + rest, k)),
        Err(s) => Err(s),
    }
}

/// A full function signature: name, parenthesized parameter list, the
/// return-type introducer and the return kind group.
pub open spec fn spec_parse_prototype(t: TokenSeq, i: int) -> Result<
    (PrototypeView, int),
    DiagnosticSeverity,
> {
    match spec_parse_name(t, i) {
        Ok((name, i1)) => match spec_skip_past(t, i1, TokenView::SymbolParenthesesL) {
            Ok(i2) => match spec_parse_params(t, i2) {
                Ok((parameters, is_variadic, i3)) => match spec_skip_past(
                    t,
                    i3,
                    TokenView::SymbolParenthesesR,
                ) {
                    Ok(i4) => match spec_skip_past(t, i4, TokenView::SymbolTilde) {
                        Ok(i5) => match spec_parse_kind_group(t, i5) {
                            Ok((return_kind_group, i6)) => Ok(
                                (
                                    PrototypeView {
                                        name,
                                        parameters,
                                        is_variadic,
                                        return_kind_group,
                                    },
                                    i6,
                                ),
                            ),
                            Err(s) => Err(s),
                        },
                        Err(s) => Err(s),
                    },
                    Err(s) => Err(s),
                },
                Err(s) => Err(s),
            },
            Err(s) => Err(s),
        },
        Err(s) => Err(s),
    }
}

pub proof fn lemma_spec_parse_prototype_bounds(t: TokenSeq, i: int)
    ensures
        spec_parse_prototype(t, i) matches Ok(r) ==> i <= r.1 < t.len(),
{
    match spec_parse_name(t, i) {
        Ok((name, i1)) => match spec_skip_past(t, i1, TokenView::SymbolParenthesesL) {
            Ok(i2) => {
                lemma_spec_parse_params_bounds(t, i2);
                match spec_parse_params(t, i2) {
                    Ok((ps, v, i3)) => match spec_skip_past(
                        t,
                        i3,
                        TokenView::SymbolParenthesesR,
                    ) {
                        Ok(i4) => match spec_skip_past(t, i4, TokenView::SymbolTilde) {
                            Ok(i5) => {
                                lemma_spec_parse_kind_group_bounds(t, i5);
                            },
                            Err(_) => {},
                        },
                        Err(_) => {},
                    },
                    Err(_) => {},
                }
            },
            Err(_) => {},
        },
        Err(_) => {},
    }
}

/// One boolean literal token.
pub open spec fn spec_parse_bool_literal(t: TokenSeq, i: int) -> Result<
    (BoolLiteral, int),
    DiagnosticSeverity,
> {
    if i >= t.len() {
        Err(DiagnosticSeverity::Error)
    } else {
        match t[i] {
            TokenView::LiteralBool(value) => Ok((BoolLiteral { value }, spec_skip(t, i))),
            _ => Err(DiagnosticSeverity::Error),
        }
    }
}

/// One literal value token; only booleans are in scope.
pub open spec fn spec_parse_literal(t: TokenSeq, i: int) -> Result<
    (AnyLiteralNode, int),
    DiagnosticSeverity,
> {
    match spec_parse_bool_literal(t, i) {
        Ok((lit, j)) => Ok((AnyLiteralNode::BoolLiteral(lit), j)),
        Err(s) => Err(s),
    }
}

/// `return` with an optional literal value, ended by a semicolon.
pub open spec fn spec_parse_return_stmt(t: TokenSeq, i: int) -> Result<
    (ReturnStmt, int),
    DiagnosticSeverity,
> {
    match spec_skip_past(t, i, TokenView::KeywordReturn) {
        Ok(i1) => {
            if spec_is(t, i1, TokenView::SymbolSemiColon) {
                match spec_skip_past(t, i1, TokenView::SymbolSemiColon) {
                    Ok(i2) => Ok((ReturnStmt { value: None }, i2)),
                    Err(s) => Err(s),
                }
            } else {
                match spec_parse_literal(t, i1) {
                    Ok((lit, i2)) => match spec_skip_past(t, i2, TokenView::SymbolSemiColon) {
                        Ok(i3) => Ok((ReturnStmt { value: Some(lit) }, i3)),
                        Err(s) => Err(s),
                    },
                    Err(s) => Err(s),
                }
            }
        },
        Err(s) => Err(s),
    }
}

pub proof fn lemma_spec_parse_return_stmt_advances(t: TokenSeq, i: int)
    ensures
        spec_parse_return_stmt(t, i) matches Ok(r) ==> i < r.1 < t.len(),
{
}

/// The statements of a block, up to the closing brace or the end of
/// the stream; only `return` statements are in scope.
pub open spec fn spec_parse_stmts(t: TokenSeq, i: int) -> Result<
    (Seq<AnyStatementNode>, int),
    DiagnosticSeverity,
>
    decreases t.len() - i,
{
    if spec_is(t, i, TokenView::SymbolBraceR) || spec_is_eof(t, i) {
        Ok((Seq::<AnyStatementNode>::empty(), i))
    } else if i >= t.len() {
        Err(DiagnosticSeverity::Error)
    } else {
        match t[i] {
            TokenView::KeywordReturn => match spec_parse_return_stmt(t, i) {
                Ok((stmt, j)) => {
                    proof {
                        lemma_spec_parse_return_stmt_advances(t, i);
                    }
                    match spec_parse_stmts(t, j) {
                        Ok((rest, k)) => Ok((seq![AnyStatementNode::ReturnStmt(stmt)] + rest, k)),
                        Err(s) => Err(s),
                    }
                },
                Err(s) => Err(s),
            },
            _ => Err(DiagnosticSeverity::Error),
        }
    }
}

pub proof fn lemma_spec_parse_stmts_bounds(t: TokenSeq, i: int)
    requires
        0 <= i < t.len(),
    ensures
        spec_parse_stmts(t, i) matches Ok(r) ==> i <= r.1 < t.len(),
    decreases t.len() - i,
{
    if !(spec_is(t, i, TokenView::SymbolBraceR) || spec_is_eof(t, i)) {
        if t[i] is KeywordReturn {
            match spec_parse_return_stmt(t, i) {
                Ok((stmt, j)) => {
                    lemma_spec_parse_return_stmt_advances(t, i);
                    lemma_spec_parse_stmts_bounds(t, j);
                },
                Err(_) => {},
            }
        }
    }
}

/// A brace-delimited statement list.
pub open spec fn spec_parse_block(t: TokenSeq, i: int) -> Result<
    (BlockView, int),
    DiagnosticSeverity,
> {
    match spec_skip_past(t, i, TokenView::SymbolBraceL) {
        Ok(i1) => match spec_parse_stmts(t, i1) {
            Ok((statements, i2)) => match spec_skip_past(t, i2, TokenView::SymbolBraceR) {
                Ok(i3) => Ok((BlockView { statements }, i3)),
                Err(s) => Err(s),
            },
            Err(s) => Err(s),
        },
        Err(s) => Err(s),
    }
}

pub proof fn lemma_spec_parse_block_bounds(t: TokenSeq, i: int)
    ensures
        spec_parse_block(t, i) matches Ok(r) ==> i <= r.1 < t.len(),
{
    match spec_skip_past(t, i, TokenView::SymbolBraceL) {
        Ok(i1) => {
            lemma_spec_parse_stmts_bounds(t, i1);
        },
        Err(_) => {},
    }
}

/// An optional `pub` marker, `fn`, a prototype and a body block.
pub open spec fn spec_parse_function(t: TokenSeq, i: int) -> Result<
    (FunctionView, int),
    DiagnosticSeverity,
> {
    let is_public = spec_is(t, i, TokenView::KeywordPub);
    let i1 = if is_public {
        spec_skip(t, i)
    } else {
        i
    };
    match spec_skip_past(t, i1, TokenView::KeywordFn) {
        Ok(i2) => match spec_parse_prototype(t, i2) {
            Ok((prototype, i3)) => match spec_parse_block(t, i3) {
                Ok((body, i4)) => Ok((FunctionView { is_public, prototype, body }, i4)),
                Err(s) => Err(s),
            },
            Err(s) => Err(s),
        },
        Err(s) => Err(s),
    }
}

pub proof fn lemma_spec_parse_function_advances(t: TokenSeq, i: int)
    ensures
        spec_parse_function(t, i) matches Ok(r) ==> i < r.1 < t.len(),
{
    let is_public = spec_is(t, i, TokenView::KeywordPub);
    let i1 = if is_public {
        spec_skip(t, i)
    } else {
        i
    };
    match spec_skip_past(t, i1, TokenView::KeywordFn) {
        Ok(i2) => {
            lemma_spec_parse_prototype_bounds(t, i2);
            match spec_parse_prototype(t, i2) {
                Ok((p, i3)) => {
                    lemma_spec_parse_block_bounds(t, i3);
                },
                Err(_) => {},
            }
        },
        Err(_) => {},
    }
}

/// `extern`, a prototype and a closing semicolon.
pub open spec fn spec_parse_external(t: TokenSeq, i: int) -> Result<
    (ExternalView, int),
    DiagnosticSeverity,
> {
    match spec_skip_past(t, i, TokenView::KeywordExtern) {
        Ok(i1) => match spec_parse_prototype(t, i1) {
            Ok((prototype, i2)) => match spec_skip_past(t, i2, TokenView::SymbolSemiColon) {
                Ok(i3) => Ok((ExternalView { prototype }, i3)),
                Err(s) => Err(s),
            },
            Err(s) => Err(s),
        },
        Err(s) => Err(s),
    }
}

pub proof fn lemma_spec_parse_external_advances(t: TokenSeq, i: int)
    ensures
        spec_parse_external(t, i) matches Ok(r) ==> i < r.1 < t.len(),
{
    match spec_skip_past(t, i, TokenView::KeywordExtern) {
        Ok(i1) => {
            lemma_spec_parse_prototype_bounds(t, i1);
        },
        Err(_) => {},
    }
}

/// The name a top-level declaration is entered under.
pub open spec fn spec_top_level_name(node: TopLevelNodeView) -> Seq<char> {
    match node {
        TopLevelNodeView::Function(f) => f.prototype.name,
        TopLevelNodeView::External(e) => e.prototype.name,
    }
}

/// The top-level declarations of a namespace body, entered into the
/// symbol table in source order; a second declaration under an already
/// present name is an error.
pub open spec fn spec_parse_top_levels(t: TokenSeq, i: int, acc: Seq<TableEntryView>) -> Result<
    (Seq<TableEntryView>, int),
    DiagnosticSeverity,
>
    decreases t.len() - i,
{
    if spec_is(t, i, TokenView::SymbolBraceR) || spec_is_eof(t, i) {
        Ok((acc, i))
    } else if i >= t.len() {
        Err(DiagnosticSeverity::Error)
    } else {
        match t[i] {
            TokenView::KeywordFn | TokenView::KeywordPub => match spec_parse_function(t, i) {
                Ok((f, j)) => {
                    if table_contains_name(acc, f.prototype.name) {
                        Err(DiagnosticSeverity::Error)
                    } else {
                        proof {
                            lemma_spec_parse_function_advances(t, i);
                        }
                        spec_parse_top_levels(
                            t,
                            j,
                            acc.push((f.prototype.name, TopLevelNodeView::Function(f))),
                        )
                    }
                },
                Err(s) => Err(s),
            },
            TokenView::KeywordExtern => match spec_parse_external(t, i) {
                Ok((e, j)) => {
                    if table_contains_name(acc, e.prototype.name) {
                        Err(DiagnosticSeverity::Error)
                    } else {
                        proof {
                            lemma_spec_parse_external_advances(t, i);
                        }
                        spec_parse_top_levels(
                            t,
                            j,
                            acc.push((e.prototype.name, TopLevelNodeView::External(e))),
                        )
                    }
                },
                Err(s) => Err(s),
            },
            _ => Err(DiagnosticSeverity::Error),
        }
    }
}

pub proof fn lemma_spec_parse_top_levels_bounds(t: TokenSeq, i: int, acc: Seq<TableEntryView>)
    requires
        0 <= i < t.len(),
    ensures
        spec_parse_top_levels(t, i, acc) matches Ok(r) ==> i <= r.1 < t.len(),
    decreases t.len() - i,
{
    if !(spec_is(t, i, TokenView::SymbolBraceR) || spec_is_eof(t, i)) {
        match t[i] {
            TokenView::KeywordFn | TokenView::KeywordPub => {
                match spec_parse_function(t, i) {
                    Ok((f, j)) => {
                        lemma_spec_parse_function_advances(t, i);
                        if !table_contains_name(acc, f.prototype.name) {
                            lemma_spec_parse_top_levels_bounds(
                                t,
                                j,
                                acc.push((f.prototype.name, TopLevelNodeView::Function(f))),
                            );
                        }
                    },
                    Err(_) => {},
                }
            },
            TokenView::KeywordExtern => {
                match spec_parse_external(t, i) {
                    Ok((e, j)) => {
                        lemma_spec_parse_external_advances(t, i);
                        if !table_contains_name(acc, e.prototype.name) {
                            lemma_spec_parse_top_levels_bounds(
                                t,
                                j,
                                acc.push((e.prototype.name, TopLevelNodeView::External(e))),
                            );
                        }
                    },
                    Err(_) => {},
                }
            },
            _ => {},
        }
    }
}

/// `namespace`, a name, then the brace-delimited list of top-level
/// declarations.
pub open spec fn spec_parse_namespace(t: TokenSeq, i: int) -> Result<
    (NamespaceView, int),
    DiagnosticSeverity,
> {
    match spec_skip_past(t, i, TokenView::KeywordNamespace) {
        Ok(i1) => match spec_parse_name(t, i1) {
            Ok((name, i2)) => match spec_skip_past(t, i2, TokenView::SymbolBraceL) {
                Ok(i3) => match spec_parse_top_levels(t, i3, Seq::<TableEntryView>::empty()) {
                    Ok((symbol_table, i4)) => match spec_skip_past(t, i4, TokenView::SymbolBraceR) {
                        Ok(i5) => Ok((NamespaceView { name, symbol_table }, i5)),
                        Err(s) => Err(s),
                    },
                    Err(s) => Err(s),
                },
                Err(s) => Err(s),
            },
            Err(s) => Err(s),
        },
        Err(s) => Err(s),
    }
}

} // verus!
