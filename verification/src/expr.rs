use vstd::prelude::*;
use vstd::string::StringExecFns;
use crate::ast::{Expr, Literal};
use crate::diagnostic::{Diagnostic, DiagnosticSeverity};
use crate::grammar::{spec_skip, spec_skip_past, TokenSeq};
use crate::lexer::{is_digit, spec_is_digit};
use crate::parser::Parser;
use crate::token::{str_eq, Token, TokenView};

verus! {

/// Mathematical image of the expressions the parser produces: the
/// identifier, integer-literal and binary-operator subset. Any other
/// expression form abstracts to `Opaque`; the parser never returns
/// one.
pub enum ExprSpec {
    Identifier(Seq<char>),
    Integer(int),
    BinOp(Box<ExprSpec>, Seq<char>, Box<ExprSpec>),
    Opaque,
}

/// The abstraction of an executable expression.
pub open spec fn abs_expr(e: Expr<String>) -> ExprSpec
    decreases e,
{
    match e {
        Expr::Identifier(name) => ExprSpec::Identifier(name@),
        Expr::Literal(lit) => match lit {
            Literal::Integer(value) => ExprSpec::Integer(value as int),
            _ => ExprSpec::Opaque,
        },
        Expr::BinOp(lhs, op, rhs) => ExprSpec::BinOp(
            Box::new(abs_expr(*lhs)),
            op@,
            Box::new(abs_expr(*rhs)),
        ),
        _ => ExprSpec::Opaque,
    }
}

/// The binding strength of a binary operator: the multiplicative
/// class binds tightest, the additive and comparison class loosest;
/// unknown operators fall into their own bucket so that they never
/// fold ambiguously.
pub open spec fn spec_precedence(op: Seq<char>) -> int {
    if op == "*"@ || op == "/"@ || op == "%"@ {
        3
    } else if op == "+"@ || op == "-"@ || op == "=="@ || op == "/="@ || op == "<"@ || op == ">"@
        || op == "<="@ || op == ">="@ {
        1
    } else {
        9
    }
}

/// The numeric value of a digit character.
pub open spec fn spec_digit_value(c: char) -> int {
    c as int - '0' as int
}

/// Whether every character of `s` is a decimal digit.
pub open spec fn spec_all_digits(s: Seq<char>) -> bool {
    forall|k: int| 0 <= k < s.len() ==> spec_is_digit(#[trigger] s[k])
}

/// The integer a digit string denotes.
pub open spec fn spec_digits_value(s: Seq<char>) -> int
    decreases s.len(),
{
    if s.len() == 0 {
        0
    } else {
        spec_digits_value(s.drop_last()) * 10 + spec_digit_value(s.last())
    }
}

proof fn lemma_digits_value_nonneg(s: Seq<char>)
    requires
        spec_all_digits(s),
    ensures
        spec_digits_value(s) >= 0,
    decreases s.len(),
{
    if s.len() > 0 {
        assert(spec_is_digit(s[s.len() - 1]));
        lemma_digits_value_nonneg(s.drop_last());
    }
}

proof fn lemma_digits_prefix_exceeds(s: Seq<char>, i: int)
    requires
        spec_all_digits(s),
        0 <= i <= s.len(),
        spec_digits_value(s.subrange(0, i)) > i32::MAX as int,
    ensures
        spec_digits_value(s) > i32::MAX as int,
    decreases s.len() - i,
{
    if i == s.len() {
        assert(s.subrange(0, i) =~= s);
    } else {
        assert(s.subrange(0, i + 1).drop_last() =~= s.subrange(0, i));
        assert(s.subrange(0, i + 1).last() == s[i]);
        assert(spec_is_digit(s[i]));
        lemma_digits_prefix_exceeds(s, i + 1);
    }
}

/// A primary expression: an identifier, an integer literal, or a
/// parenthesized sub-expression.
pub open spec fn sp_parse_primary(t: TokenSeq, i: int) -> Result<
    (ExprSpec, int),
    DiagnosticSeverity,
>
    decreases t.len() - i, 0int,
{
    if i >= t.len() {
        Err(DiagnosticSeverity::Error)
    } else {
        match t[i] {
            TokenView::Identifier(name) => Ok((ExprSpec::Identifier(name), spec_skip(t, i))),
            TokenView::Integer(digits) => {
                if !spec_all_digits(digits) || spec_digits_value(digits) > i32::MAX as int {
                    Err(DiagnosticSeverity::Error)
                } else {
                    Ok((ExprSpec::Integer(spec_digits_value(digits)), spec_skip(t, i)))
                }
            },
            TokenView::SymbolParenthesesL => {
                if i + 1 >= t.len() {
                    Err(DiagnosticSeverity::Error)
                } else {
                    match sp_parse_expr(t, i + 1, 0) {
                        Ok((e, j)) => match spec_skip_past(
                            t,
                            j,
                            TokenView::SymbolParenthesesR,
                        ) {
                            Ok(k) => Ok((e, k)),
                            Err(s) => Err(s),
                        },
                        Err(s) => Err(s),
                    }
                }
            },
            _ => Err(DiagnosticSeverity::Error),
        }
    }
}

/// A full expression at a minimum binding strength: a primary
/// expression, then the precedence-climbing operator fold.
pub open spec fn sp_parse_expr(t: TokenSeq, i: int, min_precedence: int) -> Result<
    (ExprSpec, int),
    DiagnosticSeverity,
>
    decreases t.len() - i, 2int,
{
    match sp_parse_primary(t, i) {
        Ok((lhs, j)) => {
            // a primary never moves the cursor backward nor past the
            // end; the bound keeps the recursion well founded
            let j1 = if j < i || j > t.len() {
                i
            } else {
                j
            };
            sp_parse_bin(t, j1, lhs, min_precedence)
        },
        Err(s) => Err(s),
    }
}

/// The precedence-climbing fold: while the cursor holds an operator
/// binding at least as strongly as the minimum, consume it, parse the
/// right-hand side at one more than the operator's own strength (so
/// that ties associate to the left), and fold.
pub open spec fn sp_parse_bin(t: TokenSeq, i: int, lhs: ExprSpec, min_precedence: int) -> Result<
    (ExprSpec, int),
    DiagnosticSeverity,
>
    decreases t.len() - i, 1int,
{
    if i < 0 || i >= t.len() {
        Ok((lhs, i))
    } else {
        match t[i] {
            TokenView::Operator(op) => {
                let prec = spec_precedence(op);
                if prec < min_precedence {
                    Ok((lhs, i))
                } else if i + 1 >= t.len() {
                    // the operator ends the input: its right-hand side
                    // is missing
                    Err(DiagnosticSeverity::Error)
                } else {
                    match sp_parse_expr(t, i + 1, prec + 1) {
                        Ok((rhs, k)) => {
                            // a sub-expression always consumes at least
                            // its primary; the bound keeps the
                            // recursion well founded
                            let k1 = if k < i + 1 || k > t.len() {
                                i + 1
                            } else {
                                k
                            };
                            sp_parse_bin(
                                t,
                                k1,
                                ExprSpec::BinOp(Box::new(lhs), op, Box::new(rhs)),
                                min_precedence,
                            )
                        },
                        Err(s) => Err(s),
                    }
                }
            },
            _ => Ok((lhs, i)),
        }
    }
}

pub proof fn lemma_sp_parse_primary_bounds(t: TokenSeq, i: int)
    ensures
        sp_parse_primary(t, i) matches Ok(r) ==> i <= r.1 < t.len(),
    decreases t.len() - i, 0int,
{
    if i < t.len() {
        match t[i] {
            TokenView::SymbolParenthesesL => {
                if i + 1 < t.len() {
                    lemma_sp_parse_expr_bounds(t, i + 1, 0);
                }
            },
            _ => {},
        }
    }
}

pub proof fn lemma_sp_parse_expr_bounds(t: TokenSeq, i: int, min_precedence: int)
    ensures
        sp_parse_expr(t, i, min_precedence) matches Ok(r) ==> i <= r.1 < t.len(),
    decreases t.len() - i, 2int,
{
    lemma_sp_parse_primary_bounds(t, i);
    match sp_parse_primary(t, i) {
        Ok((lhs, j)) => {
            let j1 = if j < i || j > t.len() {
                i
            } else {
                j
            };
            lemma_sp_parse_bin_bounds(t, j1, lhs, min_precedence);
        },
        Err(_) => {},
    }
}

pub proof fn lemma_sp_parse_bin_bounds(t: TokenSeq, i: int, lhs: ExprSpec, min_precedence: int)
    ensures
        0 <= i < t.len() ==> (sp_parse_bin(t, i, lhs, min_precedence) matches Ok(r) ==> i <= r.1
            < t.len()),
    decreases t.len() - i, 1int,
{
    if 0 <= i < t.len() {
        match t[i] {
            TokenView::Operator(op) => {
                let prec = spec_precedence(op);
                if prec >= min_precedence && i + 1 < t.len() {
                    lemma_sp_parse_expr_bounds(t, i + 1, prec + 1);
                    match sp_parse_expr(t, i + 1, prec + 1) {
                        Ok((rhs, k)) => {
                            let k1 = if k < i + 1 || k > t.len() {
                                i + 1
                            } else {
                                k
                            };
                            lemma_sp_parse_bin_bounds(
                                t,
                                k1,
                                ExprSpec::BinOp(Box::new(lhs), op, Box::new(rhs)),
                                min_precedence,
                            );
                        },
                        Err(_) => {},
                    }
                }
            },
            _ => {},
        }
    }
}

/// Read an integer literal's digits into a value; a non-digit
/// character or a value beyond the target range is rejected.
pub fn digits_to_i32(digits: &Vec<char>) -> (r: Result<i32, Diagnostic>)
    ensures
        match r {
            Ok(v) => spec_all_digits(digits@) && spec_digits_value(digits@) <= i32::MAX as int
                && v as int == spec_digits_value(digits@),
            Err(d) => (!spec_all_digits(digits@) || spec_digits_value(digits@) > i32::MAX as int)
                && d.severity == DiagnosticSeverity::Error,
        },
{
    let mut value: i32 = 0;
    let mut i: usize = 0;
    proof {
        assert(digits@.subrange(0, 0).len() == 0);
    }
    while i < digits.len()
        invariant
            i <= digits@.len(),
            forall|j: int| 0 <= j < i ==> spec_is_digit(#[trigger] digits@[j]),
            0 <= value,
            value as int == spec_digits_value(digits@.subrange(0, i as int)),
        decreases digits@.len() - i,
    {
        let c = digits[i];
        if !is_digit(c) {
            return Err(
                Diagnostic {
                    message: String::from_str("invalid integer literal"),
                    severity: DiagnosticSeverity::Error,
                },
            );
        }
        let d = (c as u32) - ('0' as u32);
        let next: i64 = (value as i64) * 10 + (d as i64);
        proof {
            assert(digits@.subrange(0, i + 1).drop_last() =~= digits@.subrange(0, i as int));
            assert(digits@.subrange(0, i + 1).last() == digits@[i as int]);
        }
        if next > (i32::MAX as i64) {
            proof {
                if spec_all_digits(digits@) {
                    lemma_digits_prefix_exceeds(digits@, i + 1);
                }
            }
            return Err(
                Diagnostic {
                    message: String::from_str("integer literal out of range"),
                    severity: DiagnosticSeverity::Error,
                },
            );
        }
        value = next as i32;
        i += 1;
    }
    proof {
        assert(digits@.subrange(0, digits@.len() as int) =~= digits@);
    }
    Ok(value)
}

/// The binding strength of an operator's text.
fn precedence_of(op: &str) -> (r: u32)
    ensures
        r as int == spec_precedence(op@),
        r <= 9,
{
    if str_eq(op, "*") || str_eq(op, "/") || str_eq(op, "%") {
        3
    } else if str_eq(op, "+") || str_eq(op, "-") || str_eq(op, "==") || str_eq(op, "/=") || str_eq(
        op,
        "<",
    ) || str_eq(op, ">") || str_eq(op, "<=") || str_eq(op, ">=") {
        1
    } else {
        9
    }
}

impl Parser {
    /// A primary expression: an identifier, an integer literal, or a
    /// parenthesized sub-expression.
    pub fn parse_primary_expr(&mut self) -> (r: Result<Expr<String>, Diagnostic>)
        ensures
            final(self)@.tokens == old(self)@.tokens,
            match r {
                Ok(e) => sp_parse_primary(old(self)@.tokens, old(self)@.index) == Ok::<
                    (ExprSpec, int),
                    DiagnosticSeverity,
                >((abs_expr(e), final(self)@.index)),
                Err(d) => sp_parse_primary(old(self)@.tokens, old(self)@.index) matches Err(s)
                    && s == d.severity,
            },
        decreases self.tokens@.len() - self.index, 0int,
    {
        if self.index >= self.tokens.len() {
            return Err(
                Diagnostic {
                    message: String::from_str("unexpected end of input"),
                    severity: DiagnosticSeverity::Error,
                },
            );
        }
        let name_opt = match &self.tokens[self.index] {
            Token::Identifier(name) => Some(name.clone()),
            _ => None,
        };
        if let Some(name) = name_opt {
            self.skip();
            return Ok(Expr::Identifier(name));
        }
        let digits_opt = match &self.tokens[self.index] {
            Token::Integer(ds) => Some(crate::token::clone_chars(ds)),
            _ => None,
        };
        if let Some(ds) = digits_opt {
            let value = match digits_to_i32(&ds) {
                Ok(v) => v,
                Err(d) => {
                    return Err(d);
                },
            };
            self.skip();
            return Ok(Expr::Literal(Literal::Integer(value)));
        }
        if self.is(Token::SymbolParenthesesL) {
            if self.index + 1 >= self.tokens.len() {
                return Err(
                    Diagnostic {
                        message: String::from_str("unexpected end of input"),
                        severity: DiagnosticSeverity::Error,
                    },
                );
            }
            self.skip();
            let e = match self.parse_expr_min(0) {
                Ok(e) => e,
                Err(d) => {
                    return Err(d);
                },
            };
            return match self.skip_past(Token::SymbolParenthesesR) {
                Ok(_) => Ok(e),
                Err(d) => Err(d),
            };
        }
        Err(
            Diagnostic {
                message: String::from_str("expected an expression"),
                severity: DiagnosticSeverity::Error,
            },
        )
    }

    /// A full expression whose operators all bind at least as strongly
    /// as `min_precedence`.
    #[verifier::loop_isolation(false)]
    fn parse_expr_min(&mut self, min_precedence: u32) -> (r: Result<Expr<String>, Diagnostic>)
        ensures
            final(self)@.tokens == old(self)@.tokens,
            match r {
                Ok(e) => sp_parse_expr(
                    old(self)@.tokens,
                    old(self)@.index,
                    min_precedence as int,
                ) == Ok::<(ExprSpec, int), DiagnosticSeverity>((abs_expr(e), final(self)@.index)),
                Err(d) => sp_parse_expr(
                    old(self)@.tokens,
                    old(self)@.index,
                    min_precedence as int,
                ) matches Err(s) && s == d.severity,
            },
        decreases self.tokens@.len() - self.index, 2int,
    {
        let ghost t = self@.tokens;
        let ghost i0 = self@.index;
        let mut lhs = match self.parse_primary_expr() {
            Ok(e) => e,
            Err(d) => {
                return Err(d);
            },
        };
        proof {
            lemma_sp_parse_primary_bounds(t, i0);
        }
        let ghost j1 = self@.index;
        let ghost abs0 = abs_expr(lhs);
        let mut done: bool = false;
        while !done
            invariant
                self@.tokens == t,
                i0 <= self@.index,
                if done {
                    sp_parse_bin(t, j1, abs0, min_precedence as int) == Ok::<
                        (ExprSpec, int),
                        DiagnosticSeverity,
                    >((abs_expr(lhs), self@.index))
                } else {
                    sp_parse_bin(t, self@.index, abs_expr(lhs), min_precedence as int)
                        == sp_parse_bin(t, j1, abs0, min_precedence as int)
                },
            decreases t.len() - self@.index, (if done {
                0int
            } else {
                1int
            }),
        {
            let ghost cursor = self@.index;
            if self.index >= self.tokens.len() {
                done = true;
            } else {
                let maybe_op = match &self.tokens[self.index] {
                    Token::Operator(op) => Some(op.clone()),
                    _ => None,
                };
                match maybe_op {
                    None => {
                        done = true;
                    },
                    Some(op_text) => {
                        let prec = precedence_of(op_text.as_str());
                        if prec < min_precedence {
                            done = true;
                        } else if self.index + 1 >= self.tokens.len() {
                            return Err(
                                Diagnostic {
                                    message: String::from_str("unexpected end of input"),
                                    severity: DiagnosticSeverity::Error,
                                },
                            );
                        } else {
                            self.skip();
                            let rhs = match self.parse_expr_min(prec + 1) {
                                Ok(e) => e,
                                Err(d) => {
                                    return Err(d);
                                },
                            };
                            proof {
                                lemma_sp_parse_expr_bounds(t, cursor + 1, prec as int + 1);
                            }
                            lhs = Expr::BinOp(Box::new(lhs), op_text, Box::new(rhs));
                        }
                    },
                }
            }
        }
        Ok(lhs)
    }

    /// A full expression under the stated precedence table.
    pub fn parse_expr(&mut self) -> (r: Result<Expr<String>, Diagnostic>)
        ensures
            final(self)@.tokens == old(self)@.tokens,
            match r {
                Ok(e) => sp_parse_expr(old(self)@.tokens, old(self)@.index, 0) == Ok::<
                    (ExprSpec, int),
                    DiagnosticSeverity,
                >((abs_expr(e), final(self)@.index)),
                Err(d) => sp_parse_expr(old(self)@.tokens, old(self)@.index, 0) matches Err(s)
                    && s == d.severity,
            },
    {
        self.parse_expr_min(0)
    }
}

} // verus!
