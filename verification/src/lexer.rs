use vstd::prelude::*;
use crate::token::{
    chars_to_string, spec_keyword_or_type_token, str_eq, Token, TokenView,
};

verus! {

/// Whether a character is a letter or an underscore, the characters an
/// identifier may start with and contain.
pub open spec fn spec_is_letter(character: char) -> bool {
    ('a' <= character && character <= 'z') || ('A' <= character && character <= 'Z') || character
        == '_'
}

/// Whether a character is a decimal digit.
pub open spec fn spec_is_digit(character: char) -> bool {
    '0' <= character && character <= '9'
}

/// Whether a character belongs to the operator class, whose runs are
/// clustered greedily into one token.
pub open spec fn spec_is_operator_char(character: char) -> bool {
    character == '+' || character == '-' || character == '*' || character == '/' || character
        == '.' || character == '$' || character == ':' || character == '=' || character == '<'
        || character == '>' || character == '|' || character == '&' || character == '!'
}

/// Whether a character is blank space between tokens.
pub open spec fn spec_is_whitespace_char(character: char) -> bool {
    character == ' ' || character == '\t' || character == '\n' || character == '\r'
}

/// The first position at or after `i` that does not hold whitespace.
pub open spec fn spec_skip_ws(input: Seq<char>, i: int) -> int
    decreases input.len() - i,
{
    if 0 <= i < input.len() && spec_is_whitespace_char(input[i]) {
        spec_skip_ws(input, i + 1)
    } else {
        i
    }
}

/// The first position at or after `i` that does not hold an
/// identifier character: a letter, an underscore or a digit.
pub open spec fn spec_scan_word(input: Seq<char>, i: int) -> int
    decreases input.len() - i,
{
    if 0 <= i < input.len() && (spec_is_letter(input[i]) || spec_is_digit(input[i])) {
        spec_scan_word(input, i + 1)
    } else {
        i
    }
}

/// The first position at or after `i` that does not hold a digit.
pub open spec fn spec_scan_digits(input: Seq<char>, i: int) -> int
    decreases input.len() - i,
{
    if 0 <= i < input.len() && spec_is_digit(input[i]) {
        spec_scan_digits(input, i + 1)
    } else {
        i
    }
}

/// The first position at or after `i` that does not hold an
/// operator-class character.
pub open spec fn spec_scan_operators(input: Seq<char>, i: int) -> int
    decreases input.len() - i,
{
    if 0 <= i < input.len() && spec_is_operator_char(input[i]) {
        spec_scan_operators(input, i + 1)
    } else {
        i
    }
}

/// The position of the closing double quote at or after `i`, or the
/// end of the input if the string literal never closes.
pub open spec fn spec_scan_string(input: Seq<char>, i: int) -> int
    decreases input.len() - i,
{
    if 0 <= i < input.len() {
        if input[i] == '"' {
            i
        } else {
            spec_scan_string(input, i + 1)
        }
    } else {
        i
    }
}

/// The token an operator cluster stands for: the single-character
/// colon, assignment and ampersand clusters and the variadic and
/// arrow markers have dedicated tokens, every other cluster is a
/// generic operator token.
pub open spec fn spec_operator_token(text: Seq<char>) -> TokenView {
    if text == ":"@ {
        TokenView::SymbolColon
    } else if text == "="@ {
        TokenView::SymbolEqual
    } else if text == "&"@ {
        TokenView::SymbolAmpersand
    } else if text == "..."@ {
        TokenView::SymbolVariadic
    } else if text == "->"@ {
        TokenView::SymbolArrow
    } else {
        TokenView::Operator(text)
    }
}

/// The next token of the input beginning at position `i`, with the
/// position one past it, after whitespace; `None` at the end of the
/// input, on an unrecognized character, and on an unterminated string
/// or character literal.
pub open spec fn spec_next_token(input: Seq<char>, i: int) -> Option<(TokenView, int)> {
    let j = spec_skip_ws(input, i);
    if j >= input.len() {
        None
    } else {
        let c = input[j];
        if spec_is_operator_char(c) {
            let k = spec_scan_operators(input, j);
            Some((spec_operator_token(input.subrange(j, k)), k))
        } else if spec_is_digit(c) {
            let k = spec_scan_digits(input, j);
            Some((TokenView::Integer(input.subrange(j, k)), k))
        } else if spec_is_letter(c) {
            let k = spec_scan_word(input, j);
            let text = input.subrange(j, k);
            match spec_keyword_or_type_token(text) {
                Some(tok) => Some((tok, k)),
                None => Some((TokenView::Identifier(text), k)),
            }
        } else if c == '"' {
            let k = spec_scan_string(input, j + 1);
            if k < input.len() {
                Some((TokenView::LiteralString(input.subrange(j + 1, k)), k + 1))
            } else {
                None
            }
        } else if c == '\'' {
            if j + 2 < input.len() && input[j + 2] == '\'' {
                Some((TokenView::LiteralChar(input[j + 1]), j + 3))
            } else {
                None
            }
        } else if c == '{' {
            Some((TokenView::SymbolBraceL, j + 1))
        } else if c == '}' {
            Some((TokenView::SymbolBraceR, j + 1))
        } else if c == '(' {
            Some((TokenView::SymbolParenthesesL, j + 1))
        } else if c == ')' {
            Some((TokenView::SymbolParenthesesR, j + 1))
        } else if c == '[' {
            Some((TokenView::SymbolBracketL, j + 1))
        } else if c == ']' {
            Some((TokenView::SymbolBracketR, j + 1))
        } else if c == ',' {
            Some((TokenView::SymbolComma, j + 1))
        } else if c == ';' {
            Some((TokenView::SymbolSemiColon, j + 1))
        } else if c == '~' {
            Some((TokenView::SymbolTilde, j + 1))
        } else {
            None
        }
    }
}

/// Whether a character is a letter or an underscore.
pub fn is_letter(character: char) -> (r: bool)
    ensures
        r == spec_is_letter(character),
{
    'a' <= character && character <= 'z' || 'A' <= character && character <= 'Z' || character
        == '_'
}

/// Whether a character is a decimal digit.
pub fn is_digit(character: char) -> (r: bool)
    ensures
        r == spec_is_digit(character),
{
    '0' <= character && character <= '9'
}

/// Whether a character belongs to the operator class.
fn is_operator_char(character: char) -> (r: bool)
    ensures
        r == spec_is_operator_char(character),
{
    character == '+' || character == '-' || character == '*' || character == '/' || character
        == '.' || character == '$' || character == ':' || character == '=' || character == '<'
        || character == '>' || character == '|' || character == '&' || character == '!'
}

/// Whether a character is blank space between tokens.
fn is_whitespace_char(character: char) -> (r: bool)
    ensures
        r == spec_is_whitespace_char(character),
{
    character == ' ' || character == '\t' || character == '\n' || character == '\r'
}

/// The characters of `v` from `start` up to `end`.
fn copy_range(v: &Vec<char>, start: usize, end: usize) -> (r: Vec<char>)
    requires
        start <= end <= v@.len(),
    ensures
        r@ == v@.subrange(start as int, end as int),
{
    let mut r: Vec<char> = Vec::new();
    let mut i: usize = start;
    while i < end
        invariant
            start <= i <= end <= v@.len(),
            r@ == v@.subrange(start as int, i as int),
        decreases end - i,
    {
        r.push(v[i]);
        proof {
            assert(r@ =~= v@.subrange(start as int, i + 1));
        }
        i += 1;
    }
    r
}

/// Turns character input into tokens, one at a time. The cursor pair
/// (`index`, `read_index`) and the cached `current_char` follow the
/// stepping discipline of `read_char`.
#[derive(Debug)]
pub struct Lexer {
    pub input: Vec<char>,
    pub index: usize,
    pub read_index: usize,
    pub current_char: Option<char>,
}

impl Lexer {
    /// The cursor discipline: `current_char` caches the character
    /// under `index`, and `read_index` is at `index` (freshly
    /// constructed) or one past it (after a `read_char`).
    pub open spec fn wf(self) -> bool {
        &&& self.current_char == (if (self.index as int) < self.input@.len() {
            Some(self.input@[self.index as int])
        } else {
            None::<char>
        })
        &&& (self.read_index == self.index || self.read_index as int == self.index as int + 1)
    }

    /// A lexer over `input`, with the cursor at the first character.
    pub fn new(input: Vec<char>) -> (r: Lexer)
        ensures
            r.input@ == input@,
            r.index == 0,
            r.read_index == 0,
            r.current_char == (if input@.len() > 0 {
                Some(input@[0])
            } else {
                None::<char>
            }),
            r.wf(),
    {
        let current_char = if input.len() == 0 {
            None
        } else {
            Some(input[0])
        };
        Self { input, index: 0, read_index: 0, current_char }
    }

    /// Step the cursor: `index` catches up to `read_index`,
    /// `read_index` moves one further, and `current_char` caches the
    /// character now under `index`.
    pub fn read_char(&mut self)
        requires
            old(self).read_index < usize::MAX,
        ensures
            final(self).input@ == old(self).input@,
            final(self).index == old(self).read_index,
            final(self).read_index as int == old(self).read_index as int + 1,
            final(self).current_char == (if (old(self).read_index as int) < old(
                self,
            ).input@.len() {
                Some(old(self).input@[old(self).read_index as int])
            } else {
                None::<char>
            }),
    {
        if self.read_index >= self.input.len() {
            self.current_char = None;
        } else {
            self.current_char = Some(self.input[self.read_index]);
        }
        self.index = self.read_index;
        self.read_index = self.read_index + 1;
    }

    /// Whether the character under the cursor is whitespace; false at
    /// the end of the input.
    pub fn is_whitespace(&mut self) -> (r: bool)
        ensures
            *final(self) == *old(self),
            r == (match old(self).current_char {
                Some(c) => spec_is_whitespace_char(c),
                None => false,
            }),
    {
        match self.current_char {
            Some(c) => is_whitespace_char(c),
            None => false,
        }
    }

    /// Whether the cursor sits at the last character of the input.
    pub fn is_eof(&self) -> (r: bool)
        ensures
            r == (self.input@.len() == 0 || self.index as int == self.input@.len() - 1),
    {
        self.input.len() == 0 || self.index == self.input.len() - 1
    }

    /// Produce the next token, skipping whitespace first. The end of
    /// the input, an unrecognized character, and an unterminated
    /// string or character literal all yield `None`; once the input is
    /// exhausted every further call yields `None`.
    #[verifier::loop_isolation(false)]
    pub fn next(&mut self) -> (r: Option<Token>)
        requires
            old(self).wf(),
            old(self).input@.len() < usize::MAX,
        ensures
            final(self).input@ == old(self).input@,
            final(self).wf(),
            match r {
                Some(tok) => spec_next_token(old(self).input@, old(self).index as int) matches Some(
                    p,
                ) && p.0 == tok@ && p.1 == final(self).index as int,
                None => spec_next_token(old(self).input@, old(self).index as int) is None,
            },
    {
        let ghost input = self.input@;
        let ghost i0 = self.index as int;
        if self.current_char.is_none() {
            return None;
        }
        if self.read_index == self.index {
            self.read_char();
        }
        while self.current_char.is_some() && is_whitespace_char(self.current_char.unwrap())
            invariant
                self.input@ == input,
                self.wf(),
                self.read_index as int == self.index as int + 1,
                spec_skip_ws(input, i0) == spec_skip_ws(input, self.index as int),
            decreases input.len() - self.index,
        {
            self.read_char();
        }
        let ghost j = self.index as int;
        proof {
            assert(spec_skip_ws(input, j) == j);
        }
        let c = match self.current_char {
            Some(c) => c,
            None => {
                return None;
            },
        };
        if is_operator_char(c) {
            let start = self.index;
            while self.index < self.input.len() && is_operator_char(self.current_char.unwrap())
                invariant
                    self.input@ == input,
                    self.wf(),
                    self.read_index as int == self.index as int + 1,
                    start as int <= self.index as int <= input.len(),
                    spec_scan_operators(input, j) == spec_scan_operators(input, self.index as int),
                decreases input.len() - self.index,
            {
                self.read_char();
            }
            let k = self.index;
            proof {
                assert(spec_scan_operators(input, k as int) == k as int);
            }
            let cluster = copy_range(&self.input, start, k);
            let text = chars_to_string(&cluster);
            if str_eq(text.as_str(), ":") {
                Some(Token::SymbolColon)
            } else if str_eq(text.as_str(), "=") {
                Some(Token::SymbolEqual)
            } else if str_eq(text.as_str(), "&") {
                Some(Token::SymbolAmpersand)
            } else if str_eq(text.as_str(), "...") {
                Some(Token::SymbolVariadic)
            } else if str_eq(text.as_str(), "->") {
                Some(Token::SymbolArrow)
            } else {
                Some(Token::Operator(text))
            }
        } else if is_digit(c) {
            let start = self.index;
            while self.index < self.input.len() && is_digit(self.current_char.unwrap())
                invariant
                    self.input@ == input,
                    self.wf(),
                    self.read_index as int == self.index as int + 1,
                    start as int <= self.index as int <= input.len(),
                    spec_scan_digits(input, j) == spec_scan_digits(input, self.index as int),
                decreases input.len() - self.index,
            {
                self.read_char();
            }
            let k = self.index;
            proof {
                assert(spec_scan_digits(input, k as int) == k as int);
            }
            Some(Token::Integer(copy_range(&self.input, start, k)))
        } else if is_letter(c) {
            let start = self.index;
            while self.index < self.input.len() && (is_letter(self.current_char.unwrap())
                || is_digit(self.current_char.unwrap()))
                invariant
                    self.input@ == input,
                    self.wf(),
                    self.read_index as int == self.index as int + 1,
                    start as int <= self.index as int <= input.len(),
                    spec_scan_word(input, j) == spec_scan_word(input, self.index as int),
                decreases input.len() - self.index,
            {
                self.read_char();
            }
            let k = self.index;
            proof {
                assert(spec_scan_word(input, k as int) == k as int);
            }
            let word = copy_range(&self.input, start, k);
            let text = chars_to_string(&word);
            match crate::token::get_keyword_or_type_token(text.as_str()) {
                Ok(keyword_token) => Some(keyword_token),
                Err(_) => Some(Token::Identifier(text)),
            }
        } else if c == '"' {
            let start = self.index;
            self.read_char();
            while self.index < self.input.len() && self.current_char.unwrap() != '"'
                invariant
                    self.input@ == input,
                    self.wf(),
                    self.read_index as int == self.index as int + 1,
                    j + 1 <= self.index as int <= input.len(),
                    spec_scan_string(input, j + 1) == spec_scan_string(input, self.index as int),
                decreases input.len() - self.index,
            {
                self.read_char();
            }
            let k = self.index;
            proof {
                assert(spec_scan_string(input, k as int) == k as int);
            }
            if k >= self.input.len() {
                return None;
            }
            let content = copy_range(&self.input, start + 1, k);
            self.read_char();
            Some(Token::LiteralString(chars_to_string(&content)))
        } else if c == '\'' {
            self.read_char();
            let value = match self.current_char {
                Some(v) => v,
                None => {
                    return None;
                },
            };
            self.read_char();
            match self.current_char {
                Some(q) => {
                    if q == '\'' {
                        self.read_char();
                        Some(Token::LiteralChar(value))
                    } else {
                        None
                    }
                },
                None => None,
            }
        } else if c == '{' {
            self.read_char();
            Some(Token::SymbolBraceL)
        } else if c == '}' {
            self.read_char();
            Some(Token::SymbolBraceR)
        } else if c == '(' {
            self.read_char();
            Some(Token::SymbolParenthesesL)
        } else if c == ')' {
            self.read_char();
            Some(Token::SymbolParenthesesR)
        } else if c == '[' {
            self.read_char();
            Some(Token::SymbolBracketL)
        } else if c == ']' {
            self.read_char();
            Some(Token::SymbolBracketR)
        } else if c == ',' {
            self.read_char();
            Some(Token::SymbolComma)
        } else if c == ';' {
            self.read_char();
            Some(Token::SymbolSemiColon)
        } else if c == '~' {
            self.read_char();
            Some(Token::SymbolTilde)
        } else {
            None
        }
    }
}

} // verus!
