use vstd::prelude::*;
use crate::interner::InternedStr;

verus! {

/// A type in the generic expression language: a named type or a
/// function type over argument and result types.
#[derive(Eq, PartialEq, Debug)]
pub enum Type<Id> {
    Type(Id),
    FunctionType(Vec<Type<Id>>, Box<Type<Id>>),
}

/// A literal value of the expression language; only integers and
/// interned strings are in scope.
#[derive(PartialEq, Eq, Debug)]
pub enum Literal {
    Integer(i32),
    Str(InternedStr),
}

/// A pattern of a match alternative.
#[derive(PartialEq, Eq, Debug)]
pub enum Pattern<Id> {
    Constructor(Id, Vec<Id>),
    IdentifierPattern(Id),
}

/// One alternative of a match expression.
#[derive(PartialEq, Eq, Debug)]
pub struct Alternative<Id> {
    pub pattern: Pattern<Id>,
    pub expression: Expr<Id>,
}

/// An expression; the identifier, literal and binary-operator subset
/// is what the parser produces.
#[derive(PartialEq, Eq, Debug)]
pub enum Expr<Id> {
    Identifier(Id),
    Literal(Literal),
    Call(Id, Vec<Expr<Id>>),
    IfElse(Box<Expr<Id>>, Box<Expr<Id>>, Box<Expr<Id>>),
    Match(Box<Expr<Id>>, Vec<Alternative<Id>>),
    Block(Vec<Expr<Id>>),
    BinOp(Box<Expr<Id>>, Id, Box<Expr<Id>>),
    Let(Id, Box<Expr<Id>>),
}

/// A named, typed field.
#[derive(PartialEq, Eq, Debug)]
pub struct Field<Id> {
    pub name: Id,
    pub typ: Type<Id>,
}

/// A function of the expression language.
#[derive(PartialEq, Eq, Debug)]
pub struct Function<Id> {
    pub name: Id,
    pub arguments: Vec<Field<Id>>,
    pub expression: Expr<Id>,
}

/// A record type of the expression language.
#[derive(PartialEq, Eq, Debug)]
pub struct Struct<Id> {
    pub fields: Vec<Field<Id>>,
}

} // verus!
