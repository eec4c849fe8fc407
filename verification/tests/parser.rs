use minifront::int_kind::IntSize;
use minifront::parser::Parser;
use minifront::token::Token;

#[test]
fn parser_proper_initial_values() {
    let parser = Parser::new(vec![]);

    assert_eq!(0, parser.index);
}

#[test]
fn parser_is() {
    let parser = Parser::new(vec![Token::KeywordFn]);

    assert_eq!(true, parser.is(Token::KeywordFn));
}

#[test]
fn parser_is_empty() {
    let parser = Parser::new(vec![]);

    assert_eq!(false, parser.is(Token::KeywordFn));
}

#[test]
fn parser_skip() {
    let mut parser = Parser::new(vec![Token::KeywordFn, Token::KeywordFn]);

    parser.skip();
    assert_eq!(1, parser.index);
}

#[test]
fn parser_skip_out_of_bounds() {
    let mut parser = Parser::new(vec![Token::KeywordFn]);

    parser.skip();
    assert_eq!(0, parser.index);
}

#[test]
fn parser_is_eof() {
    let mut parser = Parser::new(vec![]);

    assert_eq!(true, parser.is_eof());
    parser.tokens.push(Token::KeywordFn);
    assert_eq!(true, parser.is_eof());
    parser.tokens.push(Token::KeywordFn);
    assert_eq!(false, parser.is_eof());
    parser.skip();
    assert_eq!(true, parser.is_eof());
}

#[test]
fn parser_parse_name() {
    let mut parser = Parser::new(vec![Token::Identifier(String::from("foo"))]);
    let name = parser.parse_name();

    assert_eq!(true, name.is_ok());
    assert_eq!(String::from("foo"), name.ok().unwrap());
}

#[test]
fn parser_parse_block() {
    let mut parser = Parser::new(vec![Token::SymbolBraceL, Token::SymbolBraceR]);
    let block = parser.parse_block();

    assert_eq!(true, block.is_ok());
}

#[test]
fn parser_parse_int_kind() {
    let mut parser = Parser::new(vec![Token::Identifier(String::from("i8"))]);
    let int_kind = parser.parse_int_kind();

    assert_eq!(true, int_kind.is_ok());
    assert_eq!(int_kind.ok().unwrap().size, IntSize::Signed8);
}

#[test]
fn parse_void_kind() {
    let mut parser = Parser::new(vec![Token::TypeVoid]);
    let void_kind = parser.parse_void_kind();

    assert_eq!(true, void_kind.is_ok());
}

#[test]
fn parser_parse_namespace() {
    let mut parser = Parser::new(vec![
        Token::KeywordNamespace,
        Token::Identifier(String::from("test")),
        Token::SymbolBraceL,
        Token::SymbolBraceR,
    ]);

    let namespace = parser.parse_namespace();

    assert_eq!(true, namespace.is_ok());
    assert_eq!(String::from("test"), namespace.unwrap().name);
}

#[test]
fn parse_external() {
    let mut parser = Parser::new(vec![
        Token::KeywordExtern,
        Token::Identifier(String::from("test")),
        Token::SymbolParenthesesL,
        Token::SymbolParenthesesR,
        Token::SymbolTilde,
        Token::TypeVoid,
        Token::SymbolSemiColon,
    ]);

    let external = parser.parse_external();

    assert_eq!(true, external.is_ok());

    let external_prototype = &external.unwrap().prototype;

    assert_eq!(String::from("test"), external_prototype.name);
    assert_eq!(false, external_prototype.is_variadic);
}
