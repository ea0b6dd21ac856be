//! The abstract syntax tree for the language: programs, classes, features,
//! and typed expression nodes, as produced by an upstream parser.

use vstd::prelude::*;

verus! {

/// A whole program: a list of class declarations.
#[derive(Debug, PartialEq)]
pub struct Program {
    pub classes: Vec<Class>,
}

/// A class declaration: a name, an optional parent name (absent means the
/// class implicitly inherits from the root class), and an ordered feature list.
#[derive(Debug, PartialEq)]
pub struct Class {
    pub name: String,
    pub inherits: Option<String>,
    pub feature_list: Vec<Feature>,
}

/// A class member: either an attribute or a method
/// (name, parameters, declared return type, body).
#[derive(Debug, PartialEq)]
pub enum Feature {
    Attribute(VarDecl),
    Method(String, Vec<ArgDecl>, String, TypedExpr),
}

/// A variable declaration: identifier, declared type, optional initializer.
#[derive(Debug, PartialEq)]
pub struct VarDecl {
    pub oid: String,
    pub tid: String,
    pub expr: Option<TypedExpr>,
}

/// A method parameter declaration; order is significant.
#[derive(Debug, Clone, PartialEq)]
pub struct ArgDecl {
    pub id: String,
    pub tid: String,
}

/// One branch of a `case` expression: binder, declared type, branch body.
#[derive(Debug, PartialEq)]
pub struct CaseBranch {
    pub id: String,
    pub tid: String,
    pub expr: TypedExpr,
}

/// An expression node.
#[derive(Debug, PartialEq)]
pub enum Expr {
    Identifier(String),
    Bool(bool),
    Int(i32),
    Str(String),
    New(String),
    Block(Vec<TypedExpr>),
    Case(Box<TypedExpr>, Vec<CaseBranch>),
    Paren(Box<TypedExpr>),
    Let(Vec<(String, String, Option<TypedExpr>)>, Box<TypedExpr>),
    Comparison { lhs: Box<TypedExpr>, op: ComparisonOperator, rhs: Box<TypedExpr> },
    Math { lhs: Box<TypedExpr>, op: MathOperator, rhs: Box<TypedExpr> },
    UnaryOperation { op: UnaryOperator, s: Box<TypedExpr> },
    Assignment(String, Box<TypedExpr>),
    Conditional { test: Box<TypedExpr>, then: Box<TypedExpr>, orelse: Box<TypedExpr> },
    While { test: Box<TypedExpr>, body: Box<TypedExpr> },
    Isvoid(Box<TypedExpr>),
    Dispatch {
        target: Option<Box<TypedExpr>>,
        targettype: Option<String>,
        id: String,
        exprs: Vec<TypedExpr>,
    },
}

#[derive(Debug, Clone, PartialEq)]
pub enum ComparisonOperator {
    Lt,
    Le,
    Equal,
}

#[derive(Debug, Clone, PartialEq)]
pub enum MathOperator {
    Add,
    Subtract,
    Mul,
    Div,
}

#[derive(Debug, Clone, PartialEq)]
pub enum UnaryOperator {
    Neg,
    Not,
}

/// An expression together with its 1-based source line and a slot for an
/// inferred static type (left unset by the parser; the type checker computes
/// types as values and does not write them back).
#[derive(Debug, PartialEq)]
pub struct TypedExpr {
    pub expr: Expr,
    pub static_type: Option<String>,
    pub line: usize,
}

impl TypedExpr {
    pub fn new(expr: Expr, line: usize) -> (r: Self)
        ensures
            r.expr == expr,
            r.static_type is None,
            r.line == line,
    {
        TypedExpr { expr, static_type: None, line }
    }
}

impl Program {
    pub fn new(classes: Vec<Class>) -> (r: Self)
        ensures
            r.classes == classes,
    {
        Program { classes }
    }
}

impl Class {
    pub fn new(name: String, inherits: Option<String>, feature_list: Vec<Feature>) -> (r: Self)
        ensures
            r.name == name,
            r.inherits == inherits,
            r.feature_list == feature_list,
    {
        Class { name, inherits, feature_list }
    }
}

impl Feature {
    pub fn new_attribute(oid: String, tid: String, init: Option<TypedExpr>) -> (r: Self)
        ensures
            r == Feature::Attribute(VarDecl { oid, tid, expr: init }),
    {
        Feature::Attribute(VarDecl { oid, tid, expr: init })
    }

    pub fn new_method(name: String, args: Vec<ArgDecl>, return_type: String, body: TypedExpr) -> (r:
        Self)
        ensures
            r == Feature::Method(name, args, return_type, body),
    {
        Feature::Method(name, args, return_type, body)
    }
}

impl VarDecl {
    pub fn new(oid: String, tid: String, expr: Option<TypedExpr>) -> (r: Self)
        ensures
            r == (VarDecl { oid, tid, expr }),
    {
        VarDecl { oid, tid, expr }
    }
}

impl ArgDecl {
    pub fn new(id: String, tid: String) -> (r: Self)
        ensures
            r == (ArgDecl { id, tid }),
    {
        ArgDecl { id, tid }
    }
}

impl CaseBranch {
    pub fn new(id: String, tid: String, expr: TypedExpr) -> (r: Self)
        ensures
            r == (CaseBranch { id, tid, expr }),
    {
        CaseBranch { id, tid, expr }
    }
}

} // verus!
