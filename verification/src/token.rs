use vstd::prelude::*;
use vstd::string::StringExecFns;
use crate::diagnostic::{Diagnostic, DiagnosticSeverity};

verus! {

/// A lexical token: a literal payload (identifier text, integer digits,
/// boolean, string, character, operator text), a keyword or type marker,
/// or a structural symbol marker.
#[derive(Debug)]
pub enum Token {
    Identifier(String),
    Integer(Vec<char>),
    LiteralBool(bool),
    LiteralString(String),
    LiteralChar(char),
    Operator(String),
    KeywordPub,
    KeywordFn,
    KeywordExtern,
    KeywordNamespace,
    KeywordReturn,
    KeywordMut,
    TypeVoid,
    TypeInt32,
    SymbolBraceL,
    SymbolBraceR,
    SymbolParenthesesL,
    SymbolParenthesesR,
    SymbolBracketL,
    SymbolBracketR,
    SymbolTilde,
    SymbolSemiColon,
    SymbolColon,
    SymbolEqual,
    SymbolAmpersand,
    SymbolComma,
    SymbolVariadic,
    SymbolArrow,
}

/// Mathematical image of a `Token`: the same tags, with text payloads
/// as character sequences.
pub enum TokenView {
    Identifier(Seq<char>),
    Integer(Seq<char>),
    LiteralBool(bool),
    LiteralString(Seq<char>),
    LiteralChar(char),
    Operator(Seq<char>),
    KeywordPub,
    KeywordFn,
    KeywordExtern,
    KeywordNamespace,
    KeywordReturn,
    KeywordMut,
    TypeVoid,
    TypeInt32,
    SymbolBraceL,
    SymbolBraceR,
    SymbolParenthesesL,
    SymbolParenthesesR,
    SymbolBracketL,
    SymbolBracketR,
    SymbolTilde,
    SymbolSemiColon,
    SymbolColon,
    SymbolEqual,
    SymbolAmpersand,
    SymbolComma,
    SymbolVariadic,
    SymbolArrow,
}

impl View for Token {
    type V = TokenView;

    open spec fn view(&self) -> TokenView {
        match self {
            Token::Identifier(s) => TokenView::Identifier(s@),
            Token::Integer(v) => TokenView::Integer(v@),
            Token::LiteralBool(b) => TokenView::LiteralBool(*b),
            Token::LiteralString(s) => TokenView::LiteralString(s@),
            Token::LiteralChar(c) => TokenView::LiteralChar(*c),
            Token::Operator(s) => TokenView::Operator(s@),
            Token::KeywordPub => TokenView::KeywordPub,
            Token::KeywordFn => TokenView::KeywordFn,
            Token::KeywordExtern => TokenView::KeywordExtern,
            Token::KeywordNamespace => TokenView::KeywordNamespace,
            Token::KeywordReturn => TokenView::KeywordReturn,
            Token::KeywordMut => TokenView::KeywordMut,
            Token::TypeVoid => TokenView::TypeVoid,
            Token::TypeInt32 => TokenView::TypeInt32,
            Token::SymbolBraceL => TokenView::SymbolBraceL,
            Token::SymbolBraceR => TokenView::SymbolBraceR,
            Token::SymbolParenthesesL => TokenView::SymbolParenthesesL,
            Token::SymbolParenthesesR => TokenView::SymbolParenthesesR,
            Token::SymbolBracketL => TokenView::SymbolBracketL,
            Token::SymbolBracketR => TokenView::SymbolBracketR,
            Token::SymbolTilde => TokenView::SymbolTilde,
            Token::SymbolSemiColon => TokenView::SymbolSemiColon,
            Token::SymbolColon => TokenView::SymbolColon,
            Token::SymbolEqual => TokenView::SymbolEqual,
            Token::SymbolAmpersand => TokenView::SymbolAmpersand,
            Token::SymbolComma => TokenView::SymbolComma,
            Token::SymbolVariadic => TokenView::SymbolVariadic,
            Token::SymbolArrow => TokenView::SymbolArrow,
        }
    }
}

/// Compare two character vectors for element-wise equality.
pub fn chars_eq(a: &Vec<char>, b: &Vec<char>) -> (r: bool)
    ensures
        r == (a@ == b@),
{
    if a.len() != b.len() {
        return false;
    }
    let mut i: usize = 0;
    while i < a.len()
        invariant
            i <= a.len(),
            a@.len() == b@.len(),
            forall|j: int| 0 <= j < i ==> a@[j] == b@[j],
        decreases a.len() - i,
    {
        if a[i] != b[i] {
            return false;
        }
        i += 1;
    }
    proof {
        assert(a@ =~= b@);
    }
    true
}

/// Copy a character vector.
pub fn clone_chars(v: &Vec<char>) -> (r: Vec<char>)
    ensures
        r@ == v@,
{
    let mut r: Vec<char> = Vec::new();
    let mut i: usize = 0;
    while i < v.len()
        invariant
            i <= v.len(),
            r@ == v@.subrange(0, i as int),
        decreases v.len() - i,
    {
        r.push(v[i]);
        i += 1;
    }
    proof {
        assert(r@ =~= v@);
    }
    r
}

/// Relies on std's `FromIterator` for `String`: collecting characters
/// yields the string of exactly those characters, in order.
#[verifier::external_body]
pub fn chars_to_string(chars: &Vec<char>) -> (r: String)
    ensures
        r@ == chars@,
{
    chars.iter().collect()
}

/// Compare two string slices for equality of their character sequences.
pub fn str_eq(a: &str, b: &str) -> (r: bool)
    ensures
        r == (a@ == b@),
{
    let sa = String::from_str(a);
    let sb = String::from_str(b);
    sa == sb
}

/// Structural comparison of two tokens.
pub fn token_eq(a: &Token, b: &Token) -> (r: bool)
    ensures
        r == (a@ == b@),
{
    match (a, b) {
        (Token::Identifier(x), Token::Identifier(y)) => *x == *y,
        (Token::Integer(x), Token::Integer(y)) => chars_eq(x, y),
        (Token::LiteralBool(x), Token::LiteralBool(y)) => *x == *y,
        (Token::LiteralString(x), Token::LiteralString(y)) => *x == *y,
        (Token::LiteralChar(x), Token::LiteralChar(y)) => *x == *y,
        (Token::Operator(x), Token::Operator(y)) => *x == *y,
        (Token::KeywordPub, Token::KeywordPub) => true,
        (Token::KeywordFn, Token::KeywordFn) => true,
        (Token::KeywordExtern, Token::KeywordExtern) => true,
        (Token::KeywordNamespace, Token::KeywordNamespace) => true,
        (Token::KeywordReturn, Token::KeywordReturn) => true,
        (Token::KeywordMut, Token::KeywordMut) => true,
        (Token::TypeVoid, Token::TypeVoid) => true,
        (Token::TypeInt32, Token::TypeInt32) => true,
        (Token::SymbolBraceL, Token::SymbolBraceL) => true,
        (Token::SymbolBraceR, Token::SymbolBraceR) => true,
        (Token::SymbolParenthesesL, Token::SymbolParenthesesL) => true,
        (Token::SymbolParenthesesR, Token::SymbolParenthesesR) => true,
        (Token::SymbolBracketL, Token::SymbolBracketL) => true,
        (Token::SymbolBracketR, Token::SymbolBracketR) => true,
        (Token::SymbolTilde, Token::SymbolTilde) => true,
        (Token::SymbolSemiColon, Token::SymbolSemiColon) => true,
        (Token::SymbolColon, Token::SymbolColon) => true,
        (Token::SymbolEqual, Token::SymbolEqual) => true,
        (Token::SymbolAmpersand, Token::SymbolAmpersand) => true,
        (Token::SymbolComma, Token::SymbolComma) => true,
        (Token::SymbolVariadic, Token::SymbolVariadic) => true,
        (Token::SymbolArrow, Token::SymbolArrow) => true,
        _ => false,
    }
}

impl Clone for Token {
    fn clone(&self) -> (r: Token)
        ensures
            r@ == self@,
    {
        match self {
            Token::Identifier(s) => Token::Identifier(s.clone()),
            Token::Integer(v) => Token::Integer(clone_chars(v)),
            Token::LiteralBool(b) => Token::LiteralBool(*b),
            Token::LiteralString(s) => Token::LiteralString(s.clone()),
            Token::LiteralChar(c) => Token::LiteralChar(*c),
            Token::Operator(s) => Token::Operator(s.clone()),
            Token::KeywordPub => Token::KeywordPub,
            Token::KeywordFn => Token::KeywordFn,
            Token::KeywordExtern => Token::KeywordExtern,
            Token::KeywordNamespace => Token::KeywordNamespace,
            Token::KeywordReturn => Token::KeywordReturn,
            Token::KeywordMut => Token::KeywordMut,
            Token::TypeVoid => Token::TypeVoid,
            Token::TypeInt32 => Token::TypeInt32,
            Token::SymbolBraceL => Token::SymbolBraceL,
            Token::SymbolBraceR => Token::SymbolBraceR,
            Token::SymbolParenthesesL => Token::SymbolParenthesesL,
            Token::SymbolParenthesesR => Token::SymbolParenthesesR,
            Token::SymbolBracketL => Token::SymbolBracketL,
            Token::SymbolBracketR => Token::SymbolBracketR,
            Token::SymbolTilde => Token::SymbolTilde,
            Token::SymbolSemiColon => Token::SymbolSemiColon,
            Token::SymbolColon => Token::SymbolColon,
            Token::SymbolEqual => Token::SymbolEqual,
            Token::SymbolAmpersand => Token::SymbolAmpersand,
            Token::SymbolComma => Token::SymbolComma,
            Token::SymbolVariadic => Token::SymbolVariadic,
            Token::SymbolArrow => Token::SymbolArrow,
        }
    }
}

impl PartialEq for Token {
    fn eq(&self, other: &Token) -> (r: bool) {
        token_eq(self, other)
    }
}

impl vstd::std_specs::cmp::PartialEqSpecImpl for Token {
    open spec fn obeys_eq_spec() -> bool {
        true
    }

    open spec fn eq_spec(&self, other: &Token) -> bool {
        self@ == other@
    }
}

/// Relies on std's formatting machinery with the derived `Debug` impl
/// of `Token`, to quote a token inside diagnostic text.
#[verifier::external_body]
pub(crate) fn token_debug_string(t: &Token) -> (r: String) {
    format!("{:?}", t)
}

/// The keyword and type table: the token a reserved identifier text
/// stands for, or `None` when the text is an ordinary identifier.
pub open spec fn spec_keyword_or_type_token(s: Seq<char>) -> Option<TokenView> {
    if s == "pub"@ {
        Some(TokenView::KeywordPub)
    } else if s == "fn"@ {
        Some(TokenView::KeywordFn)
    } else if s == "extern"@ {
        Some(TokenView::KeywordExtern)
    } else if s == "void"@ {
        Some(TokenView::TypeVoid)
    } else if s == "i32"@ {
        Some(TokenView::TypeInt32)
    } else if s == "namespace"@ {
        Some(TokenView::KeywordNamespace)
    } else if s == "return"@ {
        Some(TokenView::KeywordReturn)
    } else if s == "true"@ {
        Some(TokenView::LiteralBool(true))
    } else if s == "false"@ {
        Some(TokenView::LiteralBool(false))
    } else if s == "mut"@ {
        Some(TokenView::KeywordMut)
    } else if s == "..."@ {
        Some(TokenView::SymbolVariadic)
    } else if s == "->"@ {
        Some(TokenView::SymbolArrow)
    } else {
        None
    }
}

/// Look a reserved identifier text up in the keyword/type table; any
/// other text is reported with an `Error` diagnostic so that the caller
/// can fall back to a generic identifier token.
pub fn get_keyword_or_type_token(identifier_str: &str) -> (r: Result<Token, Diagnostic>)
    ensures
        match r {
            Ok(t) => spec_keyword_or_type_token(identifier_str@) == Some(t@),
            Err(d) => spec_keyword_or_type_token(identifier_str@) is None
                && d.severity == DiagnosticSeverity::Error,
        },
{
    if str_eq(identifier_str, "pub") {
        Ok(Token::KeywordPub)
    } else if str_eq(identifier_str, "fn") {
        Ok(Token::KeywordFn)
    } else if str_eq(identifier_str, "extern") {
        Ok(Token::KeywordExtern)
    } else if str_eq(identifier_str, "void") {
        Ok(Token::TypeVoid)
    } else if str_eq(identifier_str, "i32") {
        Ok(Token::TypeInt32)
    } else if str_eq(identifier_str, "namespace") {
        Ok(Token::KeywordNamespace)
    } else if str_eq(identifier_str, "return") {
        Ok(Token::KeywordReturn)
    } else if str_eq(identifier_str, "true") {
        Ok(Token::LiteralBool(true))
    } else if str_eq(identifier_str, "false") {
        Ok(Token::LiteralBool(false))
    } else if str_eq(identifier_str, "mut") {
        Ok(Token::KeywordMut)
    } else if str_eq(identifier_str, "...") {
        Ok(Token::SymbolVariadic)
    } else if str_eq(identifier_str, "->") {
        Ok(Token::SymbolArrow)
    } else {
        Err(Diagnostic {
            message: String::from_str("identifier `")
                .concat(identifier_str)
                .concat("` is not a keyword"),
            severity: DiagnosticSeverity::Error,
        })
    }
}

} // verus!
