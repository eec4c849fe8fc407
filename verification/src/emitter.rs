use vstd::prelude::*;
use vstd::string::StringExecFns;
use crate::block::{AnyStatementNode, Block, BlockView, ReturnStmt};
use crate::diagnostic::DiagnosticSeverity;
use crate::external::ExternalView;
use crate::function::FunctionView;
use crate::grammar::{
    spec_is, spec_is_eof, spec_parse_block, spec_parse_external, spec_parse_function,
    spec_parse_kind, spec_parse_kind_group, spec_parse_name, spec_parse_namespace,
    spec_parse_parameter, spec_parse_params, spec_parse_prototype, spec_parse_return_stmt,
    spec_parse_stmts, spec_parse_top_levels, spec_int_size_of_name, spec_skip, spec_skip_past,
    spec_top_level_name, TokenSeq,
};
use crate::external::External;
use crate::function::Function;
use crate::int_kind::IntSize;
use crate::namespace::{
    table_contains_name, Namespace, NamespaceView, TableEntry, TableEntryView, TopLevelNode,
    TopLevelNodeView,
};
use crate::node::{AnyKindNode, AnyLiteralNode, KindGroup};
use crate::prototype::{view_parameters, Parameter, ParameterView, Prototype, PrototypeView};
use crate::token::{Token, TokenView};

verus! {

broadcast use {Seq::add_empty_right, Seq::add_empty_left};

/// The canonical identifier text of an integer kind.
pub open spec fn spec_int_kind_name(size: IntSize) -> Seq<char> {
    match size {
        IntSize::Signed8 => "i8"@,
        IntSize::Signed16 => "i16"@,
        IntSize::Signed32 => "i32"@,
        IntSize::Signed64 => "i64"@,
        IntSize::Signed128 => "i128"@,
    }
}

/// The canonical token form of a kind: the dedicated token where one
/// exists, the type name as an identifier otherwise.
pub open spec fn spec_emit_kind(kind: AnyKindNode) -> Seq<TokenView> {
    match kind {
        AnyKindNode::VoidKind(_) => seq![TokenView::TypeVoid],
        AnyKindNode::IntKind(ik) => match ik.size {
            IntSize::Signed32 => seq![TokenView::TypeInt32],
            _ => seq![TokenView::Identifier(spec_int_kind_name(ik.size))],
        },
    }
}

/// The token form of a kind group: its optional markers, then the kind.
pub open spec fn spec_emit_kind_group(group: KindGroup) -> Seq<TokenView> {
    (if group.is_reference {
        seq![TokenView::SymbolAmpersand]
    } else {
        Seq::<TokenView>::empty()
    }) + (if group.is_mutable {
        seq![TokenView::KeywordMut]
    } else {
        Seq::<TokenView>::empty()
    }) + spec_emit_kind(group.kind)
}

/// The token form of a formal parameter.
pub open spec fn spec_emit_parameter(p: ParameterView) -> Seq<TokenView> {
    seq![TokenView::Identifier(p.0), TokenView::SymbolColon] + spec_emit_kind_group(p.1)
}

/// The token form of a parameter list: parameters separated by commas,
/// with the variadic marker last when the prototype is variadic.
pub open spec fn spec_emit_params(ps: Seq<ParameterView>, is_variadic: bool) -> Seq<TokenView>
    decreases ps.len(),
{
    if ps.len() == 0 {
        if is_variadic {
            seq![TokenView::SymbolVariadic]
        } else {
            Seq::<TokenView>::empty()
        }
    } else if ps.len() == 1 && !is_variadic {
        spec_emit_parameter(ps[0])
    } else {
        spec_emit_parameter(ps[0]) + seq![TokenView::SymbolComma] + spec_emit_params(
            ps.drop_first(),
            is_variadic,
        )
    }
}

/// The token form of a prototype.
pub open spec fn spec_emit_prototype(p: PrototypeView) -> Seq<TokenView> {
    seq![TokenView::Identifier(p.name), TokenView::SymbolParenthesesL] + spec_emit_params(
        p.parameters,
        p.is_variadic,
    ) + seq![TokenView::SymbolParenthesesR, TokenView::SymbolTilde] + spec_emit_kind_group(
        p.return_kind_group,
    )
}

/// The token form of a literal.
pub open spec fn spec_emit_literal(lit: AnyLiteralNode) -> Seq<TokenView> {
    match lit {
        AnyLiteralNode::BoolLiteral(b) => seq![TokenView::LiteralBool(b.value)],
    }
}

/// The token form of a statement.
pub open spec fn spec_emit_stmt(stmt: AnyStatementNode) -> Seq<TokenView> {
    match stmt {
        AnyStatementNode::ReturnStmt(r) => seq![TokenView::KeywordReturn] + (match r.value {
            Some(lit) => spec_emit_literal(lit),
            None => Seq::<TokenView>::empty(),
        }) + seq![TokenView::SymbolSemiColon],
    }
}

/// The token form of a statement list.
pub open spec fn spec_emit_stmts(ss: Seq<AnyStatementNode>) -> Seq<TokenView>
    decreases ss.len(),
{
    if ss.len() == 0 {
        Seq::<TokenView>::empty()
    } else {
        spec_emit_stmt(ss[0]) + spec_emit_stmts(ss.drop_first())
    }
}

/// The token form of a block.
pub open spec fn spec_emit_block(b: BlockView) -> Seq<TokenView> {
    seq![TokenView::SymbolBraceL] + spec_emit_stmts(b.statements) + seq![TokenView::SymbolBraceR]
}

/// The token form of a function definition.
pub open spec fn spec_emit_function(f: FunctionView) -> Seq<TokenView> {
    (if f.is_public {
        seq![TokenView::KeywordPub]
    } else {
        Seq::<TokenView>::empty()
    }) + seq![TokenView::KeywordFn] + spec_emit_prototype(f.prototype) + spec_emit_block(f.body)
}

/// The token form of an external declaration.
pub open spec fn spec_emit_external(e: ExternalView) -> Seq<TokenView> {
    seq![TokenView::KeywordExtern] + spec_emit_prototype(e.prototype) + seq![
        TokenView::SymbolSemiColon,
    ]
}

/// The token form of a top-level declaration.
pub open spec fn spec_emit_top_level(node: TopLevelNodeView) -> Seq<TokenView> {
    match node {
        TopLevelNodeView::Function(f) => spec_emit_function(f),
        TopLevelNodeView::External(e) => spec_emit_external(e),
    }
}

/// The token form of a symbol table, in insertion order.
pub open spec fn spec_emit_top_levels(table: Seq<TableEntryView>) -> Seq<TokenView>
    decreases table.len(),
{
    if table.len() == 0 {
        Seq::<TokenView>::empty()
    } else {
        spec_emit_top_level(table[0].1) + spec_emit_top_levels(table.drop_first())
    }
}

/// The token form of a whole namespace.
pub open spec fn spec_emit_namespace(n: NamespaceView) -> Seq<TokenView> {
    seq![TokenView::KeywordNamespace, TokenView::Identifier(n.name), TokenView::SymbolBraceL]
        + spec_emit_top_levels(n.symbol_table) + seq![TokenView::SymbolBraceR]
}

/// The token views of an executable token vector.
pub open spec fn view_tokens(v: Seq<Token>) -> Seq<TokenView> {
    v.map_values(|tk: Token| tk@)
}

/// Append one token.
fn push_token(out: &mut Vec<Token>, tok: Token)
    ensures
        view_tokens(final(out)@) == view_tokens(old(out)@) + seq![tok@],
{
    let ghost prev = out@;
    let ghost tv = tok@;
    out.push(tok);
    proof {
        assert(view_tokens(out@) =~= view_tokens(prev) + seq![tv]);
    }
}

/// Write the canonical token form of a kind.
pub fn emit_kind(kind: &AnyKindNode, out: &mut Vec<Token>)
    ensures
        view_tokens(final(out)@) == view_tokens(old(out)@) + spec_emit_kind(*kind),
{
    match kind {
        AnyKindNode::VoidKind(_) => push_token(out, Token::TypeVoid),
        AnyKindNode::IntKind(ik) => match ik.size {
            IntSize::Signed8 => push_token(
                out,
                Token::Identifier(String::from_str("i8")),
            ),
            IntSize::Signed16 => push_token(
                out,
                Token::Identifier(String::from_str("i16")),
            ),
            IntSize::Signed32 => push_token(out, Token::TypeInt32),
            IntSize::Signed64 => push_token(
                out,
                Token::Identifier(String::from_str("i64")),
            ),
            IntSize::Signed128 => push_token(
                out,
                Token::Identifier(String::from_str("i128")),
            ),
        },
    }
    proof {
        assert(view_tokens(out@) =~= view_tokens(old(out)@) + spec_emit_kind(*kind));
    }
}

/// Write the token form of a kind group.
pub fn emit_kind_group(group: &KindGroup, out: &mut Vec<Token>)
    ensures
        view_tokens(final(out)@) == view_tokens(old(out)@) + spec_emit_kind_group(*group),
{
    if group.is_reference {
        push_token(out, Token::SymbolAmpersand);
    }
    if group.is_mutable {
        push_token(out, Token::KeywordMut);
    }
    emit_kind(&group.kind, out);
    proof {
        assert(view_tokens(out@) =~= view_tokens(old(out)@) + spec_emit_kind_group(*group));
    }
}

/// Write the token form of a formal parameter.
pub fn emit_parameter(p: &Parameter, out: &mut Vec<Token>)
    ensures
        view_tokens(final(out)@) == view_tokens(old(out)@) + spec_emit_parameter((p.0@, p.1)),
{
    push_token(out, Token::Identifier(p.0.clone()));
    push_token(out, Token::SymbolColon);
    emit_kind_group(&p.1, out);
    proof {
        assert(view_tokens(out@) =~= view_tokens(old(out)@) + spec_emit_parameter((p.0@, p.1)));
    }
}

/// Write the token form of the parameter list from `start` on.
fn emit_params_from(ps: &Vec<Parameter>, start: usize, is_variadic: bool, out: &mut Vec<Token>)
    requires
        start <= ps.len(),
    ensures
        view_tokens(final(out)@) == view_tokens(old(out)@) + spec_emit_params(
            view_parameters(ps@).subrange(start as int, ps@.len() as int),
            is_variadic,
        ),
    decreases ps.len() - start,
{
    let ghost pv = view_parameters(ps@).subrange(start as int, ps@.len() as int);
    let remaining = ps.len() - start;
    if remaining == 0 {
        if is_variadic {
            push_token(out, Token::SymbolVariadic);
        }
    } else if remaining == 1 && !is_variadic {
        emit_parameter(&ps[start], out);
        proof {
            assert(pv[0] == view_parameters(ps@)[start as int]);
        }
    } else {
        emit_parameter(&ps[start], out);
        push_token(out, Token::SymbolComma);
        emit_params_from(ps, start + 1, is_variadic, out);
        proof {
            assert(pv[0] == view_parameters(ps@)[start as int]);
            assert(pv.drop_first() =~= view_parameters(ps@).subrange(
                start + 1,
                ps@.len() as int,
            ));
        }
    }
    proof {
        assert(view_tokens(out@) =~= view_tokens(old(out)@) + spec_emit_params(pv, is_variadic));
    }
}

/// Write the token form of a prototype.
pub fn emit_prototype(p: &Prototype, out: &mut Vec<Token>)
    ensures
        view_tokens(final(out)@) == view_tokens(old(out)@) + spec_emit_prototype(p@),
{
    push_token(out, Token::Identifier(p.name.clone()));
    push_token(out, Token::SymbolParenthesesL);
    emit_params_from(&p.parameters, 0, p.is_variadic, out);
    push_token(out, Token::SymbolParenthesesR);
    push_token(out, Token::SymbolTilde);
    emit_kind_group(&p.return_kind_group, out);
    proof {
        assert(view_parameters(p.parameters@).subrange(0, p.parameters@.len() as int)
            =~= view_parameters(p.parameters@));
        assert(view_tokens(out@) =~= view_tokens(old(out)@) + spec_emit_prototype(p@));
    }
}

/// Write the token form of a statement.
pub fn emit_statement(stmt: &AnyStatementNode, out: &mut Vec<Token>)
    ensures
        view_tokens(final(out)@) == view_tokens(old(out)@) + spec_emit_stmt(*stmt),
{
    match stmt {
        AnyStatementNode::ReturnStmt(r) => {
            push_token(out, Token::KeywordReturn);
            match r.value {
                Some(AnyLiteralNode::BoolLiteral(b)) => {
                    push_token(out, Token::LiteralBool(b.value));
                },
                None => {},
            }
            push_token(out, Token::SymbolSemiColon);
        },
    }
    proof {
        assert(view_tokens(out@) =~= view_tokens(old(out)@) + spec_emit_stmt(*stmt));
    }
}

/// Write the token form of the statement list from `start` on.
fn emit_stmts_from(ss: &Vec<AnyStatementNode>, start: usize, out: &mut Vec<Token>)
    requires
        start <= ss.len(),
    ensures
        view_tokens(final(out)@) == view_tokens(old(out)@) + spec_emit_stmts(
            ss@.subrange(start as int, ss@.len() as int),
        ),
    decreases ss.len() - start,
{
    let ghost sv = ss@.subrange(start as int, ss@.len() as int);
    if start < ss.len() {
        emit_statement(&ss[start], out);
        emit_stmts_from(ss, start + 1, out);
        proof {
            assert(sv.drop_first() =~= ss@.subrange(start + 1, ss@.len() as int));
        }
    }
    proof {
        assert(view_tokens(out@) =~= view_tokens(old(out)@) + spec_emit_stmts(sv));
    }
}

/// Write the token form of a block.
pub fn emit_block(b: &Block, out: &mut Vec<Token>)
    ensures
        view_tokens(final(out)@) == view_tokens(old(out)@) + spec_emit_block(b@),
{
    push_token(out, Token::SymbolBraceL);
    emit_stmts_from(&b.statements, 0, out);
    push_token(out, Token::SymbolBraceR);
    proof {
        assert(b.statements@.subrange(0, b.statements@.len() as int) =~= b.statements@);
        assert(view_tokens(out@) =~= view_tokens(old(out)@) + spec_emit_block(b@));
    }
}

/// Write the token form of a function definition.
pub fn emit_function(f: &Function, out: &mut Vec<Token>)
    ensures
        view_tokens(final(out)@) == view_tokens(old(out)@) + spec_emit_function(f@),
{
    if f.is_public {
        push_token(out, Token::KeywordPub);
    }
    push_token(out, Token::KeywordFn);
    emit_prototype(&f.prototype, out);
    emit_block(&f.body, out);
    proof {
        assert(view_tokens(out@) =~= view_tokens(old(out)@) + spec_emit_function(f@));
    }
}

/// Write the token form of an external declaration.
pub fn emit_external(e: &External, out: &mut Vec<Token>)
    ensures
        view_tokens(final(out)@) == view_tokens(old(out)@) + spec_emit_external(e@),
{
    push_token(out, Token::KeywordExtern);
    emit_prototype(&e.prototype, out);
    push_token(out, Token::SymbolSemiColon);
    proof {
        assert(view_tokens(out@) =~= view_tokens(old(out)@) + spec_emit_external(e@));
    }
}

/// Write the token form of the symbol table from `start` on.
fn emit_top_levels_from(table: &Vec<TableEntry>, start: usize, out: &mut Vec<Token>)
    requires
        start <= table.len(),
    ensures
        view_tokens(final(out)@) == view_tokens(old(out)@) + spec_emit_top_levels(
            crate::namespace::view_table(table@).subrange(start as int, table@.len() as int),
        ),
    decreases table.len() - start,
{
    let ghost tv = crate::namespace::view_table(table@).subrange(
        start as int,
        table@.len() as int,
    );
    if start < table.len() {
        match &table[start].1 {
            TopLevelNode::Function(f) => emit_function(f, out),
            TopLevelNode::External(e) => emit_external(e, out),
        }
        emit_top_levels_from(table, start + 1, out);
        proof {
            assert(tv[0] == crate::namespace::view_table(table@)[start as int]);
            assert(tv.drop_first() =~= crate::namespace::view_table(table@).subrange(
                start + 1,
                table@.len() as int,
            ));
        }
    }
    proof {
        assert(view_tokens(out@) =~= view_tokens(old(out)@) + spec_emit_top_levels(tv));
    }
}

/// The full token form of a namespace, ready to be re-parsed.
pub fn emit_namespace(namespace: &Namespace) -> (r: Vec<Token>)
    ensures
        view_tokens(r@) == spec_emit_namespace(namespace@),
{
    let mut out: Vec<Token> = Vec::new();
    push_token(&mut out, Token::KeywordNamespace);
    push_token(&mut out, Token::Identifier(namespace.name.clone()));
    push_token(&mut out, Token::SymbolBraceL);
    emit_top_levels_from(&namespace.symbol_table, 0, &mut out);
    push_token(&mut out, Token::SymbolBraceR);
    proof {
        assert(crate::namespace::view_table(namespace.symbol_table@).subrange(
            0,
            namespace.symbol_table@.len() as int,
        ) =~= crate::namespace::view_table(namespace.symbol_table@));
        assert(view_tokens(out@) =~= spec_emit_namespace(namespace@));
    }
    out
}

/// Whether `seg` stands in `t` beginning at position `i`.
pub open spec fn tokens_at(t: TokenSeq, i: int, seg: Seq<TokenView>) -> bool {
    &&& 0 <= i
    &&& i + seg.len() <= t.len()
    &&& forall|j: int| 0 <= j < seg.len() ==> t[i + j] == #[trigger] seg[j]
}

/// A well-formed namespace: every symbol table entry is keyed by the
/// name of the declaration it holds, and the keys are distinct.
pub open spec fn wf_namespace(n: NamespaceView) -> bool {
    &&& forall|i: int| 0 <= i < n.symbol_table.len()
        ==> (#[trigger] n.symbol_table[i]).0 == spec_top_level_name(n.symbol_table[i].1)
    &&& forall|i: int, j: int|
        0 <= i < j < n.symbol_table.len() ==> (#[trigger] n.symbol_table[i]).0 != (
        #[trigger] n.symbol_table[j]).0
}

/// Every type name the emitter writes reads back as the size it stands
/// for.
proof fn lemma_int_kind_name_round_trip(size: IntSize)
    ensures
        spec_int_size_of_name(spec_int_kind_name(size)) == Some(size),
{
    reveal_strlit("i8");
    reveal_strlit("i16");
    reveal_strlit("i32");
    reveal_strlit("i64");
    reveal_strlit("i128");
    assert("i8"@.len() == 2);
    assert("i16"@.len() == 3);
    assert("i32"@.len() == 3);
    assert("i64"@.len() == 3);
    assert("i128"@.len() == 4);
    assert("i16"@[1] == '1');
    assert("i32"@[1] == '3');
    assert("i64"@[1] == '6');
}

proof fn lemma_round_trip_kind(t: TokenSeq, i: int, kind: AnyKindNode)
    requires
        tokens_at(t, i, spec_emit_kind(kind)),
        i + spec_emit_kind(kind).len() < t.len(),
    ensures
        spec_parse_kind(t, i) == Ok::<(AnyKindNode, int), DiagnosticSeverity>(
            (kind, i + spec_emit_kind(kind).len()),
        ),
{
    let seg = spec_emit_kind(kind);
    assert(t[i] == seg[0]);
    match kind {
        AnyKindNode::VoidKind(_) => {},
        AnyKindNode::IntKind(ik) => {
            lemma_int_kind_name_round_trip(ik.size);
        },
    }
}

proof fn lemma_round_trip_kind_group(t: TokenSeq, i: int, group: KindGroup)
    requires
        tokens_at(t, i, spec_emit_kind_group(group)),
        i + spec_emit_kind_group(group).len() < t.len(),
    ensures
        spec_parse_kind_group(t, i) == Ok::<(KindGroup, int), DiagnosticSeverity>(
            (group, i + spec_emit_kind_group(group).len()),
        ),
{
    let seg = spec_emit_kind_group(group);
    let kseg = spec_emit_kind(group.kind);
    let markers: int = (if group.is_reference {
        1int
    } else {
        0int
    }) + (if group.is_mutable {
        1int
    } else {
        0int
    });
    assert(seg.len() == markers + kseg.len());
    assert(t[i] == seg[0]);
    if group.is_reference {
        assert(seg[0] == TokenView::SymbolAmpersand);
        assert(t[i + 1] == seg[1]);
    }
    if group.is_mutable {
        assert(seg[markers - 1] == TokenView::KeywordMut);
    }
    // the kind tokens follow the markers
    assert forall|j: int| 0 <= j < kseg.len() implies t[i + markers + j] == #[trigger] kseg[j] by {
        assert(seg[markers + j] == kseg[j]);
    }
    assert(t[i + markers] == kseg[0]);
    // a kind's first token is never a marker, so the optional markers
    // are consumed exactly when they were emitted
    match group.kind {
        AnyKindNode::VoidKind(_) => {},
        AnyKindNode::IntKind(_) => {},
    }
    lemma_round_trip_kind(t, i + markers, group.kind);
}

proof fn lemma_round_trip_parameter(t: TokenSeq, i: int, p: ParameterView)
    requires
        tokens_at(t, i, spec_emit_parameter(p)),
        i + spec_emit_parameter(p).len() < t.len(),
    ensures
        spec_parse_parameter(t, i) == Ok::<(ParameterView, int), DiagnosticSeverity>(
            (p, i + spec_emit_parameter(p).len()),
        ),
{
    let seg = spec_emit_parameter(p);
    let kgseg = spec_emit_kind_group(p.1);
    assert(t[i] == seg[0]);
    assert(t[i + 1] == seg[1]);
    assert forall|j: int| 0 <= j < kgseg.len() implies t[i + 2 + j] == #[trigger] kgseg[j] by {
        assert(seg[2 + j] == kgseg[j]);
    }
    lemma_round_trip_kind_group(t, i + 2, p.1);
}

proof fn lemma_round_trip_params(t: TokenSeq, i: int, ps: Seq<ParameterView>, is_variadic: bool)
    requires
        tokens_at(t, i, spec_emit_params(ps, is_variadic)),
        i + spec_emit_params(ps, is_variadic).len() < t.len(),
        t[i + spec_emit_params(ps, is_variadic).len()] == TokenView::SymbolParenthesesR,
    ensures
        spec_parse_params(t, i) == Ok::<(Seq<ParameterView>, bool, int), DiagnosticSeverity>(
            (ps, is_variadic, i + spec_emit_params(ps, is_variadic).len()),
        ),
    decreases ps.len(),
{
    let seg = spec_emit_params(ps, is_variadic);
    if ps.len() == 0 {
        assert(ps =~= Seq::<ParameterView>::empty());
        if is_variadic {
            assert(t[i] == seg[0]);
        } else {
            assert(spec_is(t, i, TokenView::SymbolParenthesesR));
        }
    } else {
        let pseg = spec_emit_parameter(ps[0]);
        assert(t[i] == seg[0]);
        assert(seg[0] == pseg[0]);
        if ps.len() == 1 && !is_variadic {
            lemma_round_trip_parameter(t, i, ps[0]);
            assert(t[i + pseg.len()] == TokenView::SymbolParenthesesR);
            assert(seq![ps[0]] =~= ps);
        } else {
            let rest = spec_emit_params(ps.drop_first(), is_variadic);
            assert forall|j: int| 0 <= j < pseg.len() implies t[i + j] == #[trigger] pseg[j] by {
                assert(seg[j] == pseg[j]);
            }
            lemma_round_trip_parameter(t, i, ps[0]);
            let after = i + pseg.len();
            assert(seg[pseg.len() as int] == TokenView::SymbolComma);
            assert(t[after] == TokenView::SymbolComma);
            assert forall|j: int| 0 <= j < rest.len() implies t[after + 1 + j] == #[trigger] rest[j]
                by {
                assert(seg[pseg.len() + 1 + j] == rest[j]);
            }
            lemma_round_trip_params(t, after + 1, ps.drop_first(), is_variadic);
            assert(spec_skip(t, after) == after + 1);
            assert(seq![ps[0]] + ps.drop_first() =~= ps);
        }
    }
}

proof fn lemma_round_trip_prototype(t: TokenSeq, i: int, p: PrototypeView)
    requires
        tokens_at(t, i, spec_emit_prototype(p)),
        i + spec_emit_prototype(p).len() < t.len(),
    ensures
        spec_parse_prototype(t, i) == Ok::<(PrototypeView, int), DiagnosticSeverity>(
            (p, i + spec_emit_prototype(p).len()),
        ),
{
    let seg = spec_emit_prototype(p);
    let params = spec_emit_params(p.parameters, p.is_variadic);
    let kg = spec_emit_kind_group(p.return_kind_group);
    assert(seg.len() == 4 + params.len() + kg.len());
    assert(t[i] == seg[0]);
    assert(t[i + 1] == seg[1]);
    let pstart = i + 2;
    assert forall|j: int| 0 <= j < params.len() implies t[pstart + j] == #[trigger] params[j] by {
        assert(seg[2 + j] == params[j]);
    }
    let pend = pstart + params.len();
    assert(seg[2 + params.len() as int] == TokenView::SymbolParenthesesR);
    assert(seg[3 + params.len() as int] == TokenView::SymbolTilde);
    assert(t[pend] == TokenView::SymbolParenthesesR);
    assert(t[pend + 1] == TokenView::SymbolTilde);
    lemma_round_trip_params(t, pstart, p.parameters, p.is_variadic);
    assert forall|j: int| 0 <= j < kg.len() implies t[pend + 2 + j] == #[trigger] kg[j] by {
        assert(seg[4 + params.len() + j] == kg[j]);
    }
    lemma_round_trip_kind_group(t, pend + 2, p.return_kind_group);
}

proof fn lemma_round_trip_return_stmt(t: TokenSeq, i: int, stmt: ReturnStmt)
    requires
        tokens_at(t, i, spec_emit_stmt(AnyStatementNode::ReturnStmt(stmt))),
        i + spec_emit_stmt(AnyStatementNode::ReturnStmt(stmt)).len() < t.len(),
    ensures
        spec_parse_return_stmt(t, i) == Ok::<(ReturnStmt, int), DiagnosticSeverity>(
            (stmt, i + spec_emit_stmt(AnyStatementNode::ReturnStmt(stmt)).len()),
        ),
{
    let seg = spec_emit_stmt(AnyStatementNode::ReturnStmt(stmt));
    assert(t[i] == seg[0]);
    match stmt.value {
        None => {
            assert(t[i + 1] == seg[1]);
        },
        Some(lit) => {
            assert(t[i + 1] == seg[1]);
            assert(t[i + 2] == seg[2]);
            match lit {
                AnyLiteralNode::BoolLiteral(_) => {},
            }
        },
    }
}

proof fn lemma_round_trip_stmts(t: TokenSeq, i: int, ss: Seq<AnyStatementNode>)
    requires
        tokens_at(t, i, spec_emit_stmts(ss)),
        i + spec_emit_stmts(ss).len() < t.len(),
        t[i + spec_emit_stmts(ss).len()] == TokenView::SymbolBraceR,
    ensures
        spec_parse_stmts(t, i) == Ok::<(Seq<AnyStatementNode>, int), DiagnosticSeverity>(
            (ss, i + spec_emit_stmts(ss).len()),
        ),
    decreases ss.len(),
{
    let seg = spec_emit_stmts(ss);
    if ss.len() == 0 {
        assert(ss =~= Seq::<AnyStatementNode>::empty());
        assert(spec_is(t, i, TokenView::SymbolBraceR));
    } else {
        let sseg = spec_emit_stmt(ss[0]);
        let rest = spec_emit_stmts(ss.drop_first());
        assert forall|j: int| 0 <= j < sseg.len() implies t[i + j] == #[trigger] sseg[j] by {
            assert(seg[j] == sseg[j]);
        }
        assert(t[i] == sseg[0]);
        let stmt = ss[0]->ReturnStmt_0;
        lemma_round_trip_return_stmt(t, i, stmt);
        let after = i + sseg.len();
        assert forall|j: int| 0 <= j < rest.len() implies t[after + j] == #[trigger] rest[j] by {
            assert(seg[sseg.len() + j] == rest[j]);
        }
        lemma_round_trip_stmts(t, after, ss.drop_first());
        assert(seq![ss[0]] + ss.drop_first() =~= ss);
    }
}

proof fn lemma_round_trip_block(t: TokenSeq, i: int, b: BlockView)
    requires
        tokens_at(t, i, spec_emit_block(b)),
        i + spec_emit_block(b).len() < t.len(),
    ensures
        spec_parse_block(t, i) == Ok::<(BlockView, int), DiagnosticSeverity>(
            (b, i + spec_emit_block(b).len()),
        ),
{
    let seg = spec_emit_block(b);
    let stmts = spec_emit_stmts(b.statements);
    assert(t[i] == seg[0]);
    assert forall|j: int| 0 <= j < stmts.len() implies t[i + 1 + j] == #[trigger] stmts[j] by {
        assert(seg[1 + j] == stmts[j]);
    }
    assert(seg[1 + stmts.len() as int] == TokenView::SymbolBraceR);
    assert(t[i + 1 + stmts.len()] == TokenView::SymbolBraceR);
    lemma_round_trip_stmts(t, i + 1, b.statements);
}

proof fn lemma_round_trip_function(t: TokenSeq, i: int, f: FunctionView)
    requires
        tokens_at(t, i, spec_emit_function(f)),
        i + spec_emit_function(f).len() < t.len(),
    ensures
        spec_parse_function(t, i) == Ok::<(FunctionView, int), DiagnosticSeverity>(
            (f, i + spec_emit_function(f).len()),
        ),
{
    let seg = spec_emit_function(f);
    let proto = spec_emit_prototype(f.prototype);
    let body = spec_emit_block(f.body);
    let markers: int = if f.is_public {
        1int
    } else {
        0int
    };
    assert(t[i] == seg[0]);
    if f.is_public {
        assert(t[i + 1] == seg[1]);
    }
    assert(seg[markers] == TokenView::KeywordFn);
    assert(t[i + markers] == TokenView::KeywordFn);
    let pstart = i + markers + 1;
    assert forall|j: int| 0 <= j < proto.len() implies t[pstart + j] == #[trigger] proto[j] by {
        assert(seg[markers + 1 + j] == proto[j]);
    }
    lemma_round_trip_prototype(t, pstart, f.prototype);
    let bstart = pstart + proto.len();
    assert forall|j: int| 0 <= j < body.len() implies t[bstart + j] == #[trigger] body[j] by {
        assert(seg[markers + 1 + proto.len() + j] == body[j]);
    }
    lemma_round_trip_block(t, bstart, f.body);
}

proof fn lemma_round_trip_external(t: TokenSeq, i: int, e: ExternalView)
    requires
        tokens_at(t, i, spec_emit_external(e)),
        i + spec_emit_external(e).len() < t.len(),
    ensures
        spec_parse_external(t, i) == Ok::<(ExternalView, int), DiagnosticSeverity>(
            (e, i + spec_emit_external(e).len()),
        ),
{
    let seg = spec_emit_external(e);
    let proto = spec_emit_prototype(e.prototype);
    assert(t[i] == seg[0]);
    assert forall|j: int| 0 <= j < proto.len() implies t[i + 1 + j] == #[trigger] proto[j] by {
        assert(seg[1 + j] == proto[j]);
    }
    lemma_round_trip_prototype(t, i + 1, e.prototype);
    assert(seg[1 + proto.len() as int] == TokenView::SymbolSemiColon);
    assert(t[i + 1 + proto.len()] == TokenView::SymbolSemiColon);
}

proof fn lemma_round_trip_top_levels(
    t: TokenSeq,
    i: int,
    table: Seq<TableEntryView>,
    acc: Seq<TableEntryView>,
)
    requires
        tokens_at(t, i, spec_emit_top_levels(table)),
        i + spec_emit_top_levels(table).len() < t.len(),
        t[i + spec_emit_top_levels(table).len()] == TokenView::SymbolBraceR,
        forall|k: int| 0 <= k < table.len() ==> (#[trigger] table[k]).0 == spec_top_level_name(
            table[k].1,
        ),
        forall|k: int, l: int|
            0 <= k < l < table.len() ==> (#[trigger] table[k]).0 != (#[trigger] table[l]).0,
        forall|k: int| 0 <= k < table.len() ==> !table_contains_name(
            acc,
            (#[trigger] table[k]).0,
        ),
    ensures
        spec_parse_top_levels(t, i, acc) == Ok::<(Seq<TableEntryView>, int), DiagnosticSeverity>(
            (acc + table, i + spec_emit_top_levels(table).len()),
        ),
    decreases table.len(),
{
    let seg = spec_emit_top_levels(table);
    if table.len() == 0 {
        assert(spec_is(t, i, TokenView::SymbolBraceR));
        assert(acc + table =~= acc);
    } else {
        let nseg = spec_emit_top_level(table[0].1);
        let rest = spec_emit_top_levels(table.drop_first());
        assert forall|j: int| 0 <= j < nseg.len() implies t[i + j] == #[trigger] nseg[j] by {
            assert(seg[j] == nseg[j]);
        }
        assert(t[i] == nseg[0]);
        let after = i + nseg.len();
        assert forall|j: int| 0 <= j < rest.len() implies t[after + j] == #[trigger] rest[j] by {
            assert(seg[nseg.len() + j] == rest[j]);
        }
        let acc1 = acc.push((table[0].0, table[0].1));
        assert(!table_contains_name(acc, table[0].0));
        match table[0].1 {
            TopLevelNodeView::Function(f) => {
                lemma_round_trip_function(t, i, f);
            },
            TopLevelNodeView::External(e) => {
                lemma_round_trip_external(t, i, e);
            },
        }
        assert forall|k: int| 0 <= k < table.drop_first().len() implies !table_contains_name(
            acc1,
            (#[trigger] table.drop_first()[k]).0,
        ) by {
            assert(table.drop_first()[k] == table[k + 1]);
            assert(table[k + 1].0 != table[0].0);
            assert(!table_contains_name(acc, table[k + 1].0));
            assert forall|m: int| 0 <= m < acc1.len() implies acc1[m].0 != table[k + 1].0 by {
                if m < acc.len() {
                    assert(acc1[m] == acc[m]);
                } else {
                    assert(acc1[m] == (table[0].0, table[0].1));
                }
            }
        }
        lemma_round_trip_top_levels(t, after, table.drop_first(), acc1);
        assert(acc1 + table.drop_first() =~= acc + table);
        assert((table[0].0, table[0].1) == table[0]);
    }
}

/// A namespace successfully parsed from tokens is well formed: its
/// symbol table keys each entry by its declaration's name, and no two
/// entries share a name.
pub proof fn lemma_parse_namespace_wf(t: TokenSeq, i: int)
    ensures
        spec_parse_namespace(t, i) matches Ok(r) ==> wf_namespace(r.0),
{
    match spec_skip_past(t, i, TokenView::KeywordNamespace) {
        Ok(i1) => match spec_parse_name(t, i1) {
            Ok((name, i2)) => match spec_skip_past(t, i2, TokenView::SymbolBraceL) {
                Ok(i3) => {
                    lemma_parse_top_levels_wf(t, i3, Seq::<TableEntryView>::empty());
                },
                Err(_) => {},
            },
            Err(_) => {},
        },
        Err(_) => {},
    }
}

proof fn lemma_parse_top_levels_wf(t: TokenSeq, i: int, acc: Seq<TableEntryView>)
    requires
        forall|k: int| 0 <= k < acc.len() ==> (#[trigger] acc[k]).0 == spec_top_level_name(
            acc[k].1,
        ),
        forall|k: int, l: int|
            0 <= k < l < acc.len() ==> (#[trigger] acc[k]).0 != (#[trigger] acc[l]).0,
    ensures
        spec_parse_top_levels(t, i, acc) matches Ok(r) ==> {
            &&& forall|k: int| 0 <= k < r.0.len() ==> (#[trigger] r.0[k]).0 == spec_top_level_name(
                r.0[k].1,
            )
            &&& forall|k: int, l: int|
                0 <= k < l < r.0.len() ==> (#[trigger] r.0[k]).0 != (#[trigger] r.0[l]).0
        },
    decreases t.len() - i,
{
    if spec_is(t, i, TokenView::SymbolBraceR) || spec_is_eof(t, i) {
    } else if i >= t.len() {
    } else {
        match t[i] {
            TokenView::KeywordFn | TokenView::KeywordPub => {
                match spec_parse_function(t, i) {
                    Ok((f, j)) => {
                        if !table_contains_name(acc, f.prototype.name) {
                            let acc1 = acc.push(
                                (f.prototype.name, TopLevelNodeView::Function(f)),
                            );
                            assert forall|k: int, l: int| 0 <= k < l < acc1.len() implies (
                            #[trigger] acc1[k]).0 != (#[trigger] acc1[l]).0 by {
                                if l == acc.len() {
                                    assert(acc1[k] == acc[k]);
                                    assert(!table_contains_name(acc, f.prototype.name));
                                }
                            }
                            crate::grammar::lemma_spec_parse_function_advances(t, i);
                            lemma_parse_top_levels_wf(t, j, acc1);
                        }
                    },
                    Err(_) => {},
                }
            },
            TokenView::KeywordExtern => {
                match spec_parse_external(t, i) {
                    Ok((e, j)) => {
                        if !table_contains_name(acc, e.prototype.name) {
                            let acc1 = acc.push(
                                (e.prototype.name, TopLevelNodeView::External(e)),
                            );
                            assert forall|k: int, l: int| 0 <= k < l < acc1.len() implies (
                            #[trigger] acc1[k]).0 != (#[trigger] acc1[l]).0 by {
                                if l == acc.len() {
                                    assert(acc1[k] == acc[k]);
                                    assert(!table_contains_name(acc, e.prototype.name));
                                }
                            }
                            crate::grammar::lemma_spec_parse_external_advances(t, i);
                            lemma_parse_top_levels_wf(t, j, acc1);
                        }
                    },
                    Err(_) => {},
                }
            },
            _ => {},
        }
    }
}

/// Re-parsing the emitted token form of a well-formed namespace gives
/// back a structurally equal namespace. Together with
/// `lemma_parse_namespace_wf`, every successfully parsed namespace
/// survives an emit-and-reparse round trip unchanged.
pub proof fn lemma_namespace_round_trip(n: NamespaceView)
    requires
        wf_namespace(n),
    ensures
        ({
            let e = spec_emit_namespace(n);
            spec_parse_namespace(e, 0) matches Ok(r) && r.0 == n
        }),
{
    let e = spec_emit_namespace(n);
    let body = spec_emit_top_levels(n.symbol_table);
    assert(e.len() == 4 + body.len());
    assert(e[0] == TokenView::KeywordNamespace);
    assert(e[1] == TokenView::Identifier(n.name));
    assert(e[2] == TokenView::SymbolBraceL);
    assert(e[3 + body.len() as int] == TokenView::SymbolBraceR);
    assert forall|j: int| 0 <= j < body.len() implies e[3 + j] == #[trigger] body[j] by {}
    assert(tokens_at(e, 3, body));
    assert forall|k: int| 0 <= k < n.symbol_table.len() implies !table_contains_name(
        Seq::<TableEntryView>::empty(),
        (#[trigger] n.symbol_table[k]).0,
    ) by {}
    lemma_round_trip_top_levels(e, 3, n.symbol_table, Seq::<TableEntryView>::empty());
    assert(Seq::<TableEntryView>::empty() + n.symbol_table =~= n.symbol_table);
    assert(spec_skip_past(e, 3 + body.len() as int, TokenView::SymbolBraceR) == Ok::<
        int,
        DiagnosticSeverity,
    >(3 + body.len() as int));
}

} // verus!
