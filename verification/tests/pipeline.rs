use minifront::ast::{Expr, Literal};
use minifront::diagnostic::{Diagnostic, DiagnosticSeverity};
use minifront::emitter::emit_namespace;
use minifront::int_kind::{IntKind, IntSize};
use minifront::interner::Interner;
use minifront::lexer::Lexer;
use minifront::lowering_pass::LoweringPass;
use minifront::node::{AnyKindNode, Node};
use minifront::parser::Parser;
use minifront::pass::{Pass, PassResult};
use minifront::pass_manager::PassManager;
use minifront::token::{get_keyword_or_type_token, Token};
use minifront::void_kind::VoidKind;

fn lex_all(source: &str) -> Vec<Token> {
    let mut lexer = Lexer::new(source.chars().collect());
    let mut tokens = Vec::new();
    while let Some(token) = lexer.next() {
        tokens.push(token);
    }
    tokens
}

#[test]
fn skip_past_advances_or_reports() {
    let mut parser = Parser::new(vec![Token::KeywordFn, Token::KeywordReturn]);

    assert!(parser.skip_past(Token::KeywordFn).is_ok());
    assert_eq!(1, parser.index);

    let mismatch = parser.skip_past(Token::KeywordFn);
    match mismatch {
        Err(diagnostic) => assert_eq!(DiagnosticSeverity::Error, diagnostic.severity),
        Ok(_) => panic!("a mismatched token must be rejected"),
    }
    assert_eq!(1, parser.index);
}

#[test]
fn peek_looks_one_token_ahead() {
    let parser = Parser::new(vec![Token::KeywordFn, Token::KeywordReturn]);

    assert_eq!(Some(Token::KeywordReturn), parser.peek());
    assert_eq!(true, parser.peek_is(Token::KeywordReturn));
    assert_eq!(false, parser.peek_is(Token::KeywordFn));

    let at_end = Parser::new(vec![Token::KeywordFn]);
    assert_eq!(None, at_end.peek());
}

#[test]
fn parse_name_rejects_keyword() {
    let mut parser = Parser::new(vec![Token::KeywordFn]);

    match parser.parse_name() {
        Err(diagnostic) => assert_eq!(DiagnosticSeverity::Internal, diagnostic.severity),
        Ok(_) => panic!("a keyword is not a name"),
    }
}

#[test]
fn parse_int_kind_rejects_unknown_name() {
    let mut parser = Parser::new(vec![Token::Identifier(String::from("i9"))]);

    match parser.parse_int_kind() {
        Err(diagnostic) => assert_eq!(DiagnosticSeverity::Error, diagnostic.severity),
        Ok(_) => panic!("i9 is not an integer type name"),
    }
}

#[test]
fn parse_kind_group_markers() {
    let mut parser = Parser::new(vec![
        Token::SymbolAmpersand,
        Token::KeywordMut,
        Token::TypeInt32,
    ]);

    let group = parser.parse_kind_group().unwrap();

    assert_eq!(true, group.is_reference);
    assert_eq!(true, group.is_mutable);
    assert_eq!(AnyKindNode::IntKind(IntKind { size: IntSize::Signed32 }), group.kind);
}

#[test]
fn parse_external_named_foo() {
    let mut parser = Parser::new(vec![
        Token::KeywordExtern,
        Token::Identifier(String::from("foo")),
        Token::SymbolParenthesesL,
        Token::SymbolParenthesesR,
        Token::SymbolTilde,
        Token::TypeVoid,
        Token::SymbolSemiColon,
    ]);

    let external = parser.parse_external().unwrap();

    assert_eq!(String::from("foo"), external.prototype.name);
    assert_eq!(false, external.prototype.is_variadic);
}

#[test]
fn parse_namespace_empty_symbol_table() {
    let mut parser = Parser::new(vec![
        Token::KeywordNamespace,
        Token::Identifier(String::from("test")),
        Token::SymbolBraceL,
        Token::SymbolBraceR,
    ]);

    let namespace = parser.parse_namespace().unwrap();

    assert_eq!(String::from("test"), namespace.name);
    assert!(namespace.symbol_table.is_empty());
}

#[test]
fn parse_namespace_rejects_duplicate_names() {
    let mut tokens = vec![
        Token::KeywordNamespace,
        Token::Identifier(String::from("test")),
        Token::SymbolBraceL,
    ];
    for _ in 0..2 {
        tokens.push(Token::KeywordExtern);
        tokens.push(Token::Identifier(String::from("foo")));
        tokens.push(Token::SymbolParenthesesL);
        tokens.push(Token::SymbolParenthesesR);
        tokens.push(Token::SymbolTilde);
        tokens.push(Token::TypeVoid);
        tokens.push(Token::SymbolSemiColon);
    }
    tokens.push(Token::SymbolBraceR);
    let mut parser = Parser::new(tokens);

    match parser.parse_namespace() {
        Err(diagnostic) => assert_eq!(DiagnosticSeverity::Error, diagnostic.severity),
        Ok(_) => panic!("a duplicate top-level name must be rejected"),
    }
}

#[test]
fn skip_past_at_final_token_stays_in_place() {
    let mut parser = Parser::new(vec![Token::KeywordFn]);

    assert!(parser.skip_past(Token::KeywordFn).is_ok());
    assert_eq!(0, parser.index);
}

#[test]
fn visit_block_without_function_is_internal() {
    let mut lowering_pass = LoweringPass::new();
    let source = "{ return ; }";
    let block = Parser::new(lex_all(source)).parse_block().unwrap();

    match lowering_pass.visit_block(&block) {
        Err(diagnostic) => assert_eq!(DiagnosticSeverity::Internal, diagnostic.severity),
        Ok(_) => panic!("a block outside a function must be rejected"),
    }
}

#[test]
fn lowering_materializes_bool_literal() {
    let source = "namespace demo { fn flag ( ) ~ i8 { return true ; } }";
    let namespace = Parser::new(lex_all(source)).parse_namespace().unwrap();

    let mut lowering_pass = LoweringPass::new();
    let result = lowering_pass.visit_namespace(&namespace);

    assert!(result.is_ok());
    assert_eq!(1, lowering_pass.value_map.len());
    assert_eq!(1, lowering_pass.type_map.len());
}

#[test]
fn visit_or_retrieve_type_memoizes() {
    let mut lowering_pass = LoweringPass::new();
    let kind = AnyKindNode::IntKind(IntKind { size: IntSize::Signed32 });

    let first = lowering_pass.visit_or_retrieve_type(&kind).unwrap();
    let actions_after_first = lowering_pass.actions.len();
    let second = lowering_pass.visit_or_retrieve_type(&kind).unwrap();

    assert_eq!(first, second);
    assert_eq!(1, lowering_pass.type_map.len());
    assert_eq!(actions_after_first, lowering_pass.actions.len());
}

struct TogglePass {
    pub fails: bool,
    pub visited: bool,
}

impl Pass for TogglePass {
    fn register(&self, _pass_manager: &PassManager<Self>) -> bool {
        true
    }

    fn get_diagnostics(&self) -> Vec<Diagnostic> {
        vec![]
    }

    fn visit(&mut self, _node: &Node) -> PassResult {
        self.visited = true;
        if self.fails {
            Err(Diagnostic {
                message: String::from("toggle pass failure"),
                severity: DiagnosticSeverity::Error,
            })
        } else {
            Ok(())
        }
    }
}

#[test]
fn run_keeps_going_after_a_failing_pass() {
    let mut pass_manager = PassManager::new();
    pass_manager.add_pass(TogglePass { fails: false, visited: false });
    pass_manager.add_pass(TogglePass { fails: true, visited: false });
    pass_manager.add_pass(TogglePass { fails: false, visited: false });

    let diagnostics = pass_manager.run(&Node::VoidKind(VoidKind {}));

    assert_eq!(1, diagnostics.len());
    assert_eq!(String::from("toggle pass failure"), diagnostics[0].message);
    assert!(pass_manager.passes[0].visited);
    assert!(pass_manager.passes[1].visited);
    assert!(pass_manager.passes[2].visited);
}

#[test]
fn namespace_emit_reparse_round_trip() {
    let tokens = vec![
        Token::KeywordNamespace,
        Token::Identifier(String::from("m")),
        Token::SymbolBraceL,
        Token::KeywordExtern,
        Token::Identifier(String::from("write")),
        Token::SymbolParenthesesL,
        Token::Identifier(String::from("fd")),
        Token::SymbolColon,
        Token::TypeInt32,
        Token::SymbolComma,
        Token::SymbolVariadic,
        Token::SymbolParenthesesR,
        Token::SymbolTilde,
        Token::Identifier(String::from("i64")),
        Token::SymbolSemiColon,
        Token::KeywordPub,
        Token::KeywordFn,
        Token::Identifier(String::from("main")),
        Token::SymbolParenthesesL,
        Token::SymbolParenthesesR,
        Token::SymbolTilde,
        Token::Identifier(String::from("i8")),
        Token::SymbolBraceL,
        Token::KeywordReturn,
        Token::SymbolSemiColon,
        Token::SymbolBraceR,
        Token::SymbolBraceR,
    ];
    let namespace = Parser::new(tokens.clone()).parse_namespace().unwrap();

    let emitted = emit_namespace(&namespace);
    assert_eq!(tokens, emitted);

    let reparsed = Parser::new(emitted).parse_namespace().unwrap();
    assert_eq!(namespace, reparsed);
}

#[test]
fn emit_empty_namespace() {
    let mut parser = Parser::new(vec![
        Token::KeywordNamespace,
        Token::Identifier(String::from("test")),
        Token::SymbolBraceL,
        Token::SymbolBraceR,
    ]);
    let namespace = parser.parse_namespace().unwrap();

    assert_eq!(
        vec![
            Token::KeywordNamespace,
            Token::Identifier(String::from("test")),
            Token::SymbolBraceL,
            Token::SymbolBraceR,
        ],
        emit_namespace(&namespace)
    );
}

#[test]
fn expression_round_trip() {
    let mut parser = Parser::new(lex_all("1 / 4 + (2 - 3) * 2"));

    let expected = Expr::BinOp(
        Box::new(Expr::BinOp(
            Box::new(Expr::Literal(Literal::Integer(1))),
            String::from("/"),
            Box::new(Expr::Literal(Literal::Integer(4))),
        )),
        String::from("+"),
        Box::new(Expr::BinOp(
            Box::new(Expr::BinOp(
                Box::new(Expr::Literal(Literal::Integer(2))),
                String::from("-"),
                Box::new(Expr::Literal(Literal::Integer(3))),
            )),
            String::from("*"),
            Box::new(Expr::Literal(Literal::Integer(2))),
        )),
    );

    assert_eq!(expected, parser.parse_expr().unwrap());
}

#[test]
fn expression_rejects_oversized_literal() {
    let mut parser = Parser::new(lex_all("99999999999"));

    match parser.parse_expr() {
        Err(diagnostic) => assert_eq!(DiagnosticSeverity::Error, diagnostic.severity),
        Ok(_) => panic!("an out-of-range literal must be rejected"),
    }
}

#[test]
fn lex_and_parse_namespace() {
    let source = "namespace demo { pub fn main ( ) ~ void { return ; } \
                  extern write ( fd : i32 , ... ) ~ i64 ; }";
    let namespace = Parser::new(lex_all(source)).parse_namespace().unwrap();

    assert_eq!(String::from("demo"), namespace.name);
    assert_eq!(2, namespace.symbol_table.len());
    assert_eq!(String::from("main"), namespace.symbol_table[0].0);
    assert_eq!(String::from("write"), namespace.symbol_table[1].0);
}

#[test]
fn lexer_operator_clusters() {
    assert_eq!(vec![Token::SymbolArrow], lex_all("->"));
    assert_eq!(vec![Token::SymbolColon], lex_all(":"));
    assert_eq!(vec![Token::SymbolEqual], lex_all("="));
    assert_eq!(vec![Token::SymbolVariadic], lex_all("..."));
    assert_eq!(vec![Token::Operator(String::from("=="))], lex_all("=="));
}

#[test]
fn lexer_string_and_char_literals() {
    assert_eq!(vec![Token::LiteralString(String::from("hi"))], lex_all("\"hi\""));
    assert_eq!(Vec::<Token>::new(), lex_all("\"hi"));
    assert_eq!(vec![Token::LiteralChar('x')], lex_all("'x'"));
    assert_eq!(Vec::<Token>::new(), lex_all("'xy'"));
}

#[test]
fn keyword_table_lookup() {
    assert_eq!(Ok(Token::KeywordPub), get_keyword_or_type_token("pub").map_err(|_| ()));
    assert_eq!(Ok(Token::LiteralBool(true)), get_keyword_or_type_token("true").map_err(|_| ()));

    match get_keyword_or_type_token("frobnicate") {
        Err(diagnostic) => assert_eq!(DiagnosticSeverity::Error, diagnostic.severity),
        Ok(_) => panic!("an ordinary identifier is not a keyword"),
    }
}

#[test]
fn interner_reuses_handles() {
    let mut interner = Interner::new();

    let first = interner.intern("alpha");
    let second = interner.intern("beta");
    let third = interner.intern("alpha");

    assert_eq!(first, third);
    assert_ne!(first, second);
    assert_eq!(2, interner.strings.len());
    assert_eq!("alpha", interner.get_str(first));
    assert_eq!("beta", interner.get_str(second));
}

struct CountingPass {
    pub visits: usize,
}

impl Pass for CountingPass {
    fn register(&self, _pass_manager: &PassManager<Self>) -> bool {
        true
    }

    fn get_diagnostics(&self) -> Vec<Diagnostic> {
        vec![]
    }

    fn visit(&mut self, _node: &Node) -> PassResult {
        self.visits += 1;
        Ok(())
    }
}

#[test]
fn visit_children_walks_each_declaration() {
    let source = "namespace demo { fn first ( ) ~ void { } fn second ( ) ~ void { } }";
    let namespace = Parser::new(lex_all(source)).parse_namespace().unwrap();

    let mut pass = CountingPass { visits: 0 };
    let result = minifront::pass::visit_children(&mut pass, &Node::Namespace(namespace));

    assert!(result.is_ok());
    assert_eq!(2, pass.visits);
}

#[test]
fn lowering_run_produces_actions() {
    let source = "namespace demo { pub fn main ( ) ~ void { return ; } }";
    let namespace = Parser::new(lex_all(source)).parse_namespace().unwrap();

    let mut pass_manager = PassManager::new();
    pass_manager.add_pass(LoweringPass::new());
    let diagnostics = pass_manager.run(&Node::Namespace(namespace));

    assert!(diagnostics.is_empty());
    let pass = &pass_manager.passes[0];
    assert_eq!(1, pass.type_map.len());
    assert!(!pass.actions.is_empty());
}
