use vstd::prelude::*;
use vstd::string::StringExecFns;
use crate::block::{AnyStatementNode, Block, ReturnStmt};
use crate::diagnostic::{Diagnostic, DiagnosticSeverity};
use crate::external::External;
use crate::function::Function;
use crate::grammar::{
    lemma_spec_parse_external_advances, lemma_spec_parse_function_advances,
    lemma_spec_parse_parameter_advances, lemma_spec_parse_return_stmt_advances, spec_is,
    spec_is_eof, spec_parse_block, spec_parse_bool_literal, spec_parse_external,
    spec_parse_function, spec_parse_int_kind, spec_parse_kind, spec_parse_kind_group,
    spec_parse_literal, spec_parse_name, spec_parse_namespace, spec_parse_parameter,
    spec_parse_params, spec_parse_prototype, spec_parse_return_stmt, spec_parse_stmts,
    spec_parse_top_levels, spec_parse_void_kind, spec_params_prepend, spec_skip, spec_skip_past,
    spec_stmts_prepend, spec_top_level_name, TokenSeq,
};
use crate::int_kind::{IntKind, IntSize};
use crate::namespace::{Namespace, TableEntryView, TopLevelNode};
use crate::node::{AnyKindNode, AnyLiteralNode, BoolLiteral, KindGroup};
use crate::prototype::{view_parameters, Parameter, ParameterView, Prototype, PrototypeView};
use crate::token::{token_debug_string, token_eq, Token, TokenView};
use crate::void_kind::VoidKind;

verus! {

broadcast use {Seq::add_empty_right, Seq::add_empty_left};

/// A recursive-descent parser over an already-lexed token sequence,
/// with a cursor that only ever moves forward.
#[derive(Debug)]
pub struct Parser {
    pub tokens: Vec<Token>,
    pub index: usize,
}

/// Mathematical image of a `Parser`: the token views and the cursor.
pub struct ParserView {
    pub tokens: TokenSeq,
    pub index: int,
}

impl View for Parser {
    type V = ParserView;

    open spec fn view(&self) -> ParserView {
        ParserView {
            tokens: self.tokens@.map_values(|tk: Token| tk@),
            index: self.index as int,
        }
    }
}

/// The name a top-level declaration is entered into the symbol table
/// under: the name of its prototype.
pub fn find_top_level_node_name(top_level_node: &TopLevelNode) -> (r: String)
    ensures
        r@ == spec_top_level_name(top_level_node@),
{
    match top_level_node {
        TopLevelNode::Function(function) => function.prototype.name.clone(),
        TopLevelNode::External(external) => external.prototype.name.clone(),
    }
}

/// `skip_past` either rejects the token and reports an error, or
/// accepts it and advances the cursor by exactly one — never both.
/// Stated away from the final token, where an accepted advance is
/// clamped in place.
pub proof fn lemma_skip_past_dichotomy(t: TokenSeq, i: int, tok: TokenView)
    requires
        i + 1 < t.len() || !spec_is(t, i, tok),
    ensures
        match spec_skip_past(t, i, tok) {
            Ok(j) => j == i + 1,
            Err(s) => s == DiagnosticSeverity::Error,
        },
{
}

impl Parser {
    /// A parser over `tokens`, with the cursor at the first token.
    pub fn new(tokens: Vec<Token>) -> (r: Parser)
        ensures
            r@.tokens == tokens@.map_values(|tk: Token| tk@),
            r@.index == 0,
    {
        Self { tokens, index: 0 }
    }

    /// Whether the token at the cursor structurally equals `token`;
    /// false when the cursor is out of bounds.
    pub fn is(&self, token: Token) -> (r: bool)
        ensures
            r == spec_is(self@.tokens, self@.index, token@),
    {
        if self.index >= self.tokens.len() {
            return false;
        }
        token_eq(&self.tokens[self.index], &token)
    }

    /// Advance the cursor by one; at the last token it stays put and
    /// the advance is reported as out of bounds.
    pub fn skip(&mut self) -> (r: bool)
        ensures
            final(self)@.tokens == old(self)@.tokens,
            final(self)@.index == spec_skip(old(self)@.tokens, old(self)@.index),
            r == (old(self)@.index + 1 < old(self)@.tokens.len()),
    {
        if self.tokens.len() == 0 || self.index >= self.tokens.len() - 1 {
            return false;
        }
        self.index += 1;
        true
    }

    /// Whether the cursor sits at the end of the token sequence.
    pub fn is_eof(&self) -> (r: bool)
        ensures
            r == spec_is_eof(self@.tokens, self@.index),
    {
        self.tokens.len() == 0 || self.index == self.tokens.len() - 1
    }

    /// The token one past the cursor, if any.
    pub fn peek(&self) -> (r: Option<Token>)
        ensures
            match r {
                Some(tk) => self@.index + 1 < self@.tokens.len() && tk@ == self@.tokens[self@.index
                    + 1],
                None => self@.index + 1 >= self@.tokens.len(),
            },
    {
        if self.index >= self.tokens.len() {
            return None;
        }
        if self.index + 1 < self.tokens.len() {
            Some(self.tokens[self.index + 1].clone())
        } else {
            None
        }
    }

    /// Whether the token one past the cursor equals `token`.
    pub fn peek_is(&self, token: Token) -> (r: bool)
        ensures
            r == spec_is(self@.tokens, self@.index + 1, token@),
    {
        match self.peek() {
            None => false,
            Some(next_token) => token_eq(&next_token, &token),
        }
    }

    /// Demand `token` at the cursor and step over it. On a mismatch the
    /// cursor is left untouched and an `Error` diagnostic quotes both
    /// the expected and the actual token.
    pub fn skip_past(&mut self, token: Token) -> (r: Result<(), Diagnostic>)
        ensures
            final(self)@.tokens == old(self)@.tokens,
            match r {
                Ok(_) => spec_skip_past(old(self)@.tokens, old(self)@.index, token@)
                    == Ok::<int, DiagnosticSeverity>(final(self)@.index),
                Err(d) => spec_skip_past(old(self)@.tokens, old(self)@.index, token@)
                    == Err::<int, DiagnosticSeverity>(d.severity) && final(self)@.index == old(
                    self,
                )@.index,
            },
    {
        if !self.is(token.clone()) {
            let found = if self.index < self.tokens.len() {
                token_debug_string(&self.tokens[self.index])
            } else {
                String::from_str("end of input")
            };
            let message = String::from_str("expected token `").concat(
                token_debug_string(&token).as_str(),
            ).concat("` but got `").concat(found.as_str()).concat("`");
            return Err(Diagnostic { message, severity: DiagnosticSeverity::Error });
        }
        self.skip();
        Ok(())
    }

    /// The text of the identifier at the cursor. Callers only ask for a
    /// name after looking at the token, so a non-identifier is an
    /// internal fault, not a syntax error.
    pub fn parse_name(&mut self) -> (r: Result<String, Diagnostic>)
        ensures
            final(self)@.tokens == old(self)@.tokens,
            match r {
                Ok(name) => spec_parse_name(old(self)@.tokens, old(self)@.index) == Ok::<
                    (Seq<char>, int),
                    DiagnosticSeverity,
                >((name@, final(self)@.index)),
                Err(d) => spec_parse_name(old(self)@.tokens, old(self)@.index) matches Err(s)
                    && s == d.severity,
            },
    {
        if self.index >= self.tokens.len() {
            return Err(
                Diagnostic {
                    message: String::from_str("unexpected end of input"),
                    severity: DiagnosticSeverity::Error,
                },
            );
        }
        let name = match &self.tokens[self.index] {
            Token::Identifier(value) => value.clone(),
            _ => {
                return Err(
                    Diagnostic {
                        message: String::from_str("expected an identifier"),
                        severity: DiagnosticSeverity::Internal,
                    },
                );
            },
        };
        self.skip();
        Ok(name)
    }

    /// One identifier token naming an integer type (`i8` through
    /// `i128`); any other text is rejected with an `Error` diagnostic.
    pub fn parse_int_kind(&mut self) -> (r: Result<IntKind, Diagnostic>)
        ensures
            final(self)@.tokens == old(self)@.tokens,
            match r {
                Ok(kind) => spec_parse_int_kind(old(self)@.tokens, old(self)@.index) == Ok::<
                    (IntKind, int),
                    DiagnosticSeverity,
                >((kind, final(self)@.index)),
                Err(d) => spec_parse_int_kind(old(self)@.tokens, old(self)@.index) matches Err(s)
                    && s == d.severity,
            },
    {
        if self.index >= self.tokens.len() {
            return Err(
                Diagnostic {
                    message: String::from_str("unexpected end of input"),
                    severity: DiagnosticSeverity::Error,
                },
            );
        }
        let size = match &self.tokens[self.index] {
            Token::Identifier(value) => {
                if crate::token::str_eq(value.as_str(), "i8") {
                    IntSize::Signed8
                } else if crate::token::str_eq(value.as_str(), "i16") {
                    IntSize::Signed16
                } else if crate::token::str_eq(value.as_str(), "i32") {
                    IntSize::Signed32
                } else if crate::token::str_eq(value.as_str(), "i64") {
                    IntSize::Signed64
                } else if crate::token::str_eq(value.as_str(), "i128") {
                    IntSize::Signed128
                } else {
                    return Err(
                        Diagnostic {
                            message: String::from_str("invalid integer type name"),
                            severity: DiagnosticSeverity::Error,
                        },
                    );
                }
            },
            _ => {
                return Err(
                    Diagnostic {
                        message: String::from_str("expected an integer type name"),
                        severity: DiagnosticSeverity::Error,
                    },
                );
            },
        };
        self.skip();
        Ok(IntKind { size })
    }

    /// The dedicated void type token.
    pub fn parse_void_kind(&mut self) -> (r: Result<VoidKind, Diagnostic>)
        ensures
            final(self)@.tokens == old(self)@.tokens,
            match r {
                Ok(kind) => spec_parse_void_kind(old(self)@.tokens, old(self)@.index) == Ok::<
                    (VoidKind, int),
                    DiagnosticSeverity,
                >((kind, final(self)@.index)),
                Err(d) => spec_parse_void_kind(old(self)@.tokens, old(self)@.index) matches Err(s)
                    && s == d.severity,
            },
    {
        match self.skip_past(Token::TypeVoid) {
            Ok(_) => Ok(VoidKind {  }),
            Err(d) => Err(d),
        }
    }

    /// Dispatch on the lead token to the matching kind parse. An
    /// unrecognized lead token is an internal fault: callers dispatch
    /// here only for tokens that open a kind.
    pub fn parse_kind(&mut self) -> (r: Result<AnyKindNode, Diagnostic>)
        ensures
            final(self)@.tokens == old(self)@.tokens,
            match r {
                Ok(kind) => spec_parse_kind(old(self)@.tokens, old(self)@.index) == Ok::<
                    (AnyKindNode, int),
                    DiagnosticSeverity,
                >((kind, final(self)@.index)),
                Err(d) => spec_parse_kind(old(self)@.tokens, old(self)@.index) matches Err(s)
                    && s == d.severity,
            },
    {
        if self.index >= self.tokens.len() {
            return Err(
                Diagnostic {
                    message: String::from_str("unexpected end of input"),
                    severity: DiagnosticSeverity::Error,
                },
            );
        }
        if self.is(Token::TypeVoid) {
            match self.parse_void_kind() {
                Ok(kind) => Ok(AnyKindNode::VoidKind(kind)),
                Err(d) => Err(d),
            }
        } else if self.is(Token::TypeInt32) {
            self.skip();
            Ok(AnyKindNode::IntKind(IntKind { size: IntSize::Signed32 }))
        } else if matches!(&self.tokens[self.index], Token::Identifier(_)) {
            match self.parse_int_kind() {
                Ok(kind) => Ok(AnyKindNode::IntKind(kind)),
                Err(d) => Err(d),
            }
        } else {
            Err(
                Diagnostic {
                    message: String::from_str("unrecognized kind lead token"),
                    severity: DiagnosticSeverity::Internal,
                },
            )
        }
    }

    /// An optional reference marker (`&`), an optional mutability
    /// marker (`mut`), in that order and each independent, then a kind.
    pub fn parse_kind_group(&mut self) -> (r: Result<KindGroup, Diagnostic>)
        ensures
            final(self)@.tokens == old(self)@.tokens,
            match r {
                Ok(group) => spec_parse_kind_group(old(self)@.tokens, old(self)@.index) == Ok::<
                    (KindGroup, int),
                    DiagnosticSeverity,
                >((group, final(self)@.index)),
                Err(d) => spec_parse_kind_group(old(self)@.tokens, old(self)@.index) matches Err(s)
                    && s == d.severity,
            },
    {
        let is_reference = self.is(Token::SymbolAmpersand);
        if is_reference {
            self.skip();
        }
        let is_mutable = self.is(Token::KeywordMut);
        if is_mutable {
            self.skip();
        }
        match self.parse_kind() {
            Ok(kind) => Ok(KindGroup { kind, is_reference, is_mutable }),
            Err(d) => Err(d),
        }
    }

    /// A `name : kind-group` formal parameter.
    pub fn parse_parameter(&mut self) -> (r: Result<Parameter, Diagnostic>)
        ensures
            final(self)@.tokens == old(self)@.tokens,
            match r {
                Ok(p) => spec_parse_parameter(old(self)@.tokens, old(self)@.index) == Ok::<
                    (ParameterView, int),
                    DiagnosticSeverity,
                >(((p.0@, p.1), final(self)@.index)),
                Err(d) => spec_parse_parameter(old(self)@.tokens, old(self)@.index) matches Err(s)
                    && s == d.severity,
            },
    {
        let name = match self.parse_name() {
            Ok(name) => name,
            Err(d) => {
                return Err(d);
            },
        };
        match self.skip_past(Token::SymbolColon) {
            Ok(_) => {},
            Err(d) => {
                return Err(d);
            },
        }
        match self.parse_kind_group() {
            Ok(kind_group) => Ok((name, kind_group)),
            Err(d) => Err(d),
        }
    }

    /// A full function signature: name, parenthesized comma-separated
    /// parameters with an optional trailing variadic marker, the `~`
    /// return-type introducer and the return kind group.
    #[verifier::loop_isolation(false)]
    pub fn parse_prototype(&mut self) -> (r: Result<Prototype, Diagnostic>)
        ensures
            final(self)@.tokens == old(self)@.tokens,
            match r {
                Ok(p) => spec_parse_prototype(old(self)@.tokens, old(self)@.index) == Ok::<
                    (PrototypeView, int),
                    DiagnosticSeverity,
                >((p@, final(self)@.index)),
                Err(d) => spec_parse_prototype(old(self)@.tokens, old(self)@.index) matches Err(s)
                    && s == d.severity,
            },
    {
        let ghost t = self@.tokens;
        let name = match self.parse_name() {
            Ok(name) => name,
            Err(d) => {
                return Err(d);
            },
        };
        match self.skip_past(Token::SymbolParenthesesL) {
            Ok(_) => {},
            Err(d) => {
                return Err(d);
            },
        }
        let ghost params_start = self@.index;
        let mut parameters: Vec<Parameter> = Vec::new();
        let mut is_variadic: bool = false;
        let mut params_done: bool = false;
        while !params_done && !self.is(Token::SymbolParenthesesR) && !self.is_eof()
            invariant
                self@.tokens == t,
                if params_done {
                    spec_parse_params(t, params_start) == Ok::<
                        (Seq<ParameterView>, bool, int),
                        DiagnosticSeverity,
                    >((view_parameters(parameters@), is_variadic, self@.index))
                } else {
                    !is_variadic && spec_params_prepend(
                        view_parameters(parameters@),
                        spec_parse_params(t, self@.index),
                    ) == spec_parse_params(t, params_start)
                },
            decreases t.len() - self@.index,
        {
            let ghost cursor = self@.index;
            let ghost collected = view_parameters(parameters@);
            if self.is(Token::SymbolVariadic) {
                self.skip();
                is_variadic = true;
                params_done = true;
            } else {
                let p = match self.parse_parameter() {
                    Ok(p) => p,
                    Err(d) => {
                        return Err(d);
                    },
                };
                proof {
                    lemma_spec_parse_parameter_advances(t, cursor);
                }
                let ghost pv = (p.0@, p.1);
                parameters.push(p);
                proof {
                    assert(view_parameters(parameters@) =~= collected + seq![pv]);
                }
                if self.is(Token::SymbolComma) {
                    self.skip();
                    proof {
                        match spec_parse_params(t, self@.index) {
                            Ok((qs, variadic, k)) => {
                                assert((collected + seq![pv]) + qs =~= collected + (seq![pv]
                                    + qs));
                            },
                            Err(_) => {},
                        }
                    }
                } else {
                    params_done = true;
                }
            }
        }
        proof {
            if !params_done {
                assert(spec_parse_params(t, self@.index) == Ok::<
                    (Seq<ParameterView>, bool, int),
                    DiagnosticSeverity,
                >((Seq::<ParameterView>::empty(), false, self@.index)));
            }
            assert(spec_parse_params(t, params_start) == Ok::<
                (Seq<ParameterView>, bool, int),
                DiagnosticSeverity,
            >((view_parameters(parameters@), is_variadic, self@.index)));
        }
        match self.skip_past(Token::SymbolParenthesesR) {
            Ok(_) => {},
            Err(d) => {
                return Err(d);
            },
        }
        match self.skip_past(Token::SymbolTilde) {
            Ok(_) => {},
            Err(d) => {
                return Err(d);
            },
        }
        let return_kind_group = match self.parse_kind_group() {
            Ok(group) => group,
            Err(d) => {
                return Err(d);
            },
        };
        Ok(Prototype { name, parameters, is_variadic, return_kind_group })
    }

    /// One boolean literal token.
    pub fn parse_bool_literal(&mut self) -> (r: Result<BoolLiteral, Diagnostic>)
        ensures
            final(self)@.tokens == old(self)@.tokens,
            match r {
                Ok(lit) => spec_parse_bool_literal(old(self)@.tokens, old(self)@.index) == Ok::<
                    (BoolLiteral, int),
                    DiagnosticSeverity,
                >((lit, final(self)@.index)),
                Err(d) => spec_parse_bool_literal(old(self)@.tokens, old(self)@.index) matches Err(
                    s,
                ) && s == d.severity,
            },
    {
        if self.index >= self.tokens.len() {
            return Err(
                Diagnostic {
                    message: String::from_str("unexpected end of input"),
                    severity: DiagnosticSeverity::Error,
                },
            );
        }
        let value = match &self.tokens[self.index] {
            Token::LiteralBool(value) => *value,
            _ => {
                return Err(
                    Diagnostic {
                        message: String::from_str("expected a literal"),
                        severity: DiagnosticSeverity::Error,
                    },
                );
            },
        };
        self.skip();
        Ok(BoolLiteral { value })
    }

    /// Dispatch on the lead token to the matching literal parse; only
    /// boolean literals are in scope.
    pub fn parse_literal(&mut self) -> (r: Result<AnyLiteralNode, Diagnostic>)
        ensures
            final(self)@.tokens == old(self)@.tokens,
            match r {
                Ok(lit) => spec_parse_literal(old(self)@.tokens, old(self)@.index) == Ok::<
                    (AnyLiteralNode, int),
                    DiagnosticSeverity,
                >((lit, final(self)@.index)),
                Err(d) => spec_parse_literal(old(self)@.tokens, old(self)@.index) matches Err(s)
                    && s == d.severity,
            },
    {
        match self.parse_bool_literal() {
            Ok(lit) => Ok(AnyLiteralNode::BoolLiteral(lit)),
            Err(d) => Err(d),
        }
    }

    /// `return`, an optional literal return value, and the closing
    /// semicolon.
    pub fn parse_return_stmt(&mut self) -> (r: Result<ReturnStmt, Diagnostic>)
        ensures
            final(self)@.tokens == old(self)@.tokens,
            match r {
                Ok(stmt) => spec_parse_return_stmt(old(self)@.tokens, old(self)@.index) == Ok::<
                    (ReturnStmt, int),
                    DiagnosticSeverity,
                >((stmt, final(self)@.index)),
                Err(d) => spec_parse_return_stmt(old(self)@.tokens, old(self)@.index) matches Err(
                    s,
                ) && s == d.severity,
            },
    {
        match self.skip_past(Token::KeywordReturn) {
            Ok(_) => {},
            Err(d) => {
                return Err(d);
            },
        }
        let value = if self.is(Token::SymbolSemiColon) {
            None
        } else {
            match self.parse_literal() {
                Ok(lit) => Some(lit),
                Err(d) => {
                    return Err(d);
                },
            }
        };
        match self.skip_past(Token::SymbolSemiColon) {
            Ok(_) => Ok(ReturnStmt { value }),
            Err(d) => Err(d),
        }
    }

    /// A brace-delimited statement list; only `return` statements are
    /// in scope, any other lead token is rejected.
    #[verifier::loop_isolation(false)]
    pub fn parse_block(&mut self) -> (r: Result<Block, Diagnostic>)
        ensures
            final(self)@.tokens == old(self)@.tokens,
            match r {
                Ok(block) => spec_parse_block(old(self)@.tokens, old(self)@.index) == Ok::<
                    (crate::block::BlockView, int),
                    DiagnosticSeverity,
                >((block@, final(self)@.index)),
                Err(d) => spec_parse_block(old(self)@.tokens, old(self)@.index) matches Err(s)
                    && s == d.severity,
            },
    {
        let ghost t = self@.tokens;
        match self.skip_past(Token::SymbolBraceL) {
            Ok(_) => {},
            Err(d) => {
                return Err(d);
            },
        }
        let ghost stmts_start = self@.index;
        let mut statements: Vec<AnyStatementNode> = Vec::new();
        while !self.is(Token::SymbolBraceR) && !self.is_eof()
            invariant
                self@.tokens == t,
                spec_stmts_prepend(statements@, spec_parse_stmts(t, self@.index))
                    == spec_parse_stmts(t, stmts_start),
            decreases t.len() - self@.index,
        {
            let ghost cursor = self@.index;
            let ghost collected = statements@;
            if self.index >= self.tokens.len() {
                return Err(
                    Diagnostic {
                        message: String::from_str("unexpected end of input"),
                        severity: DiagnosticSeverity::Error,
                    },
                );
            }
            if self.is(Token::KeywordReturn) {
                let stmt = match self.parse_return_stmt() {
                    Ok(stmt) => stmt,
                    Err(d) => {
                        return Err(d);
                    },
                };
                proof {
                    lemma_spec_parse_return_stmt_advances(t, cursor);
                }
                statements.push(AnyStatementNode::ReturnStmt(stmt));
                proof {
                    assert(statements@ =~= collected + seq![
                        AnyStatementNode::ReturnStmt(stmt),
                    ]);
                    match spec_parse_stmts(t, self@.index) {
                        Ok((rest, k)) => {
                            assert((collected + seq![AnyStatementNode::ReturnStmt(stmt)]) + rest
                                =~= collected + (seq![AnyStatementNode::ReturnStmt(stmt)] + rest));
                        },
                        Err(_) => {},
                    }
                }
            } else {
                let message = String::from_str("unexpected token `").concat(
                    token_debug_string(&self.tokens[self.index]).as_str(),
                ).concat("`, expected statements");
                return Err(Diagnostic { message, severity: DiagnosticSeverity::Error });
            }
        }
        match self.skip_past(Token::SymbolBraceR) {
            Ok(_) => Ok(Block { statements }),
            Err(d) => Err(d),
        }
    }

    /// An optional `pub` marker, `fn`, a prototype and a body block.
    pub fn parse_function(&mut self) -> (r: Result<Function, Diagnostic>)
        ensures
            final(self)@.tokens == old(self)@.tokens,
            match r {
                Ok(function) => spec_parse_function(old(self)@.tokens, old(self)@.index) == Ok::<
                    (crate::function::FunctionView, int),
                    DiagnosticSeverity,
                >((function@, final(self)@.index)),
                Err(d) => spec_parse_function(old(self)@.tokens, old(self)@.index) matches Err(s)
                    && s == d.severity,
            },
    {
        let is_public = self.is(Token::KeywordPub);
        if is_public {
            self.skip();
        }
        match self.skip_past(Token::KeywordFn) {
            Ok(_) => {},
            Err(d) => {
                return Err(d);
            },
        }
        let prototype = match self.parse_prototype() {
            Ok(prototype) => prototype,
            Err(d) => {
                return Err(d);
            },
        };
        let body = match self.parse_block() {
            Ok(body) => body,
            Err(d) => {
                return Err(d);
            },
        };
        Ok(Function { is_public, prototype, body })
    }

    /// `extern`, a prototype and the closing semicolon.
    pub fn parse_external(&mut self) -> (r: Result<External, Diagnostic>)
        ensures
            final(self)@.tokens == old(self)@.tokens,
            match r {
                Ok(external) => spec_parse_external(old(self)@.tokens, old(self)@.index) == Ok::<
                    (crate::external::ExternalView, int),
                    DiagnosticSeverity,
                >((external@, final(self)@.index)),
                Err(d) => spec_parse_external(old(self)@.tokens, old(self)@.index) matches Err(s)
                    && s == d.severity,
            },
    {
        match self.skip_past(Token::KeywordExtern) {
            Ok(_) => {},
            Err(d) => {
                return Err(d);
            },
        }
        let prototype = match self.parse_prototype() {
            Ok(prototype) => prototype,
            Err(d) => {
                return Err(d);
            },
        };
        match self.skip_past(Token::SymbolSemiColon) {
            Ok(_) => Ok(External { prototype }),
            Err(d) => Err(d),
        }
    }

    /// `namespace`, a name, and a brace-delimited list of top-level
    /// declarations entered into the symbol table in source order. A
    /// second declaration under an already present name is rejected
    /// with an `Error` diagnostic.
    #[verifier::loop_isolation(false)]
    #[verifier::rlimit(50)]
    pub fn parse_namespace(&mut self) -> (r: Result<Namespace, Diagnostic>)
        ensures
            final(self)@.tokens == old(self)@.tokens,
            match r {
                Ok(namespace) => spec_parse_namespace(old(self)@.tokens, old(self)@.index) == Ok::<
                    (crate::namespace::NamespaceView, int),
                    DiagnosticSeverity,
                >((namespace@, final(self)@.index)),
                Err(d) => spec_parse_namespace(old(self)@.tokens, old(self)@.index) matches Err(s)
                    && s == d.severity,
            },
    {
        let ghost t = self@.tokens;
        match self.skip_past(Token::KeywordNamespace) {
            Ok(_) => {},
            Err(d) => {
                return Err(d);
            },
        }
        let name = match self.parse_name() {
            Ok(name) => name,
            Err(d) => {
                return Err(d);
            },
        };
        match self.skip_past(Token::SymbolBraceL) {
            Ok(_) => {},
            Err(d) => {
                return Err(d);
            },
        }
        let ghost body_start = self@.index;
        let mut namespace = Namespace::new(name);
        let ghost namespace_name = namespace@.name;
        while !self.is(Token::SymbolBraceR) && !self.is_eof()
            invariant
                self@.tokens == t,
                namespace@.name == namespace_name,
                spec_parse_top_levels(t, self@.index, namespace@.symbol_table)
                    == spec_parse_top_levels(t, body_start, Seq::<TableEntryView>::empty()),
            decreases t.len() - self@.index,
        {
            let ghost cursor = self@.index;
            if self.index >= self.tokens.len() {
                return Err(
                    Diagnostic {
                        message: String::from_str("unexpected end of input"),
                        severity: DiagnosticSeverity::Error,
                    },
                );
            }
            let top_level_node = if self.is(Token::KeywordFn) || self.is(Token::KeywordPub) {
                match self.parse_function() {
                    Ok(function) => TopLevelNode::Function(function),
                    Err(d) => {
                        return Err(d);
                    },
                }
            } else if self.is(Token::KeywordExtern) {
                match self.parse_external() {
                    Ok(external) => TopLevelNode::External(external),
                    Err(d) => {
                        return Err(d);
                    },
                }
            } else {
                let message = String::from_str("unexpected token: `").concat(
                    token_debug_string(&self.tokens[self.index]).as_str(),
                ).concat("`");
                return Err(Diagnostic { message, severity: DiagnosticSeverity::Error });
            };
            proof {
                lemma_spec_parse_function_advances(t, cursor);
                lemma_spec_parse_external_advances(t, cursor);
            }
            let node_name = find_top_level_node_name(&top_level_node);
            if namespace.contains_name(&node_name) {
                let message = String::from_str("duplicate top-level name `").concat(
                    node_name.as_str(),
                ).concat("`");
                return Err(Diagnostic { message, severity: DiagnosticSeverity::Error });
            }
            let ghost table_before = namespace@.symbol_table;
            namespace.symbol_table.push((node_name, top_level_node));
            proof {
                assert(namespace@.symbol_table =~= table_before.push(
                    (namespace.symbol_table@.last().0@, namespace.symbol_table@.last().1@),
                ));
            }
        }
        match self.skip_past(Token::SymbolBraceR) {
            Ok(_) => Ok(namespace),
            Err(d) => Err(d),
        }
    }
}

} // verus!
