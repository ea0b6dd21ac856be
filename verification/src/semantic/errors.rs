//! The closed taxonomy of semantic diagnostics, and its mathematical view.

use vstd::prelude::*;

verus! {

/// A semantic diagnostic. All kinds are collected, never thrown: a violation
/// does not abort the surrounding analysis.
#[derive(Debug, PartialEq)]
pub enum SemanticError {
    DuplicateClass { class: String },
    InheritanceCycle { cycle: Vec<String> },
    UndefinedParent { class: String, parent: String },
    InheritBasicType { class: String, parent: String },
    DuplicateAttribute { class: String, attr: String },
    DuplicateMethod { class: String, method: String },
    MethodOverrideMismatch {
        class: String,
        method: String,
        parent: String,
        expected: Vec<String>,
        found: Vec<String>,
    },
    UndefinedClass { tname: String, line: usize },
    UndefinedVariable { name: String, line: usize },
    TypeMismatch { expected: String, found: String, line: usize },
    ArgumentCountMismatch { method: String, expected: usize, found: usize, line: usize },
    DispatchOnVoid { line: usize },
    CaseOnVoid { line: usize },
    NoBranchInCase { expr_type: String, line: usize },
}

/// The mathematical value of a diagnostic: every name as a sequence of
/// characters. Contracts and the specification of each phase speak of these.
pub enum ErrorV {
    DuplicateClass { class: Seq<char> },
    InheritanceCycle { cycle: Seq<Seq<char>> },
    UndefinedParent { class: Seq<char>, parent: Seq<char> },
    InheritBasicType { class: Seq<char>, parent: Seq<char> },
    DuplicateAttribute { class: Seq<char>, attr: Seq<char> },
    DuplicateMethod { class: Seq<char>, method: Seq<char> },
    MethodOverrideMismatch {
        class: Seq<char>,
        method: Seq<char>,
        parent: Seq<char>,
        expected: Seq<Seq<char>>,
        found: Seq<Seq<char>>,
    },
    UndefinedClass { tname: Seq<char>, line: nat },
    UndefinedVariable { name: Seq<char>, line: nat },
    TypeMismatch { expected: Seq<char>, found: Seq<char>, line: nat },
    ArgumentCountMismatch { method: Seq<char>, expected: nat, found: nat, line: nat },
    DispatchOnVoid { line: nat },
    CaseOnVoid { line: nat },
    NoBranchInCase { expr_type: Seq<char>, line: nat },
}

/// The views of a sequence of owned strings.
pub open spec fn strs_view(v: Seq<String>) -> Seq<Seq<char>> {
    v.map_values(|s: String| s@)
}

impl View for SemanticError {
    type V = ErrorV;

    open spec fn view(&self) -> ErrorV {
        match self {
            SemanticError::DuplicateClass { class } => ErrorV::DuplicateClass { class: class@ },
            SemanticError::InheritanceCycle { cycle } => ErrorV::InheritanceCycle {
                cycle: strs_view(cycle@),
            },
            SemanticError::UndefinedParent { class, parent } => ErrorV::UndefinedParent {
                class: class@,
                parent: parent@,
            },
            SemanticError::InheritBasicType { class, parent } => ErrorV::InheritBasicType {
                class: class@,
                parent: parent@,
            },
            SemanticError::DuplicateAttribute { class, attr } => ErrorV::DuplicateAttribute {
                class: class@,
                attr: attr@,
            },
            SemanticError::DuplicateMethod { class, method } => ErrorV::DuplicateMethod {
                class: class@,
                method: method@,
            },
            SemanticError::MethodOverrideMismatch { class, method, parent, expected, found } => ErrorV::MethodOverrideMismatch {
                class: class@,
                method: method@,
                parent: parent@,
                expected: strs_view(expected@),
                found: strs_view(found@),
            },
            SemanticError::UndefinedClass { tname, line } => ErrorV::UndefinedClass {
                tname: tname@,
                line: line as nat,
            },
            SemanticError::UndefinedVariable { name, line } => ErrorV::UndefinedVariable {
                name: name@,
                line: line as nat,
            },
            SemanticError::TypeMismatch { expected, found, line } => ErrorV::TypeMismatch {
                expected: expected@,
                found: found@,
                line: line as nat,
            },
            SemanticError::ArgumentCountMismatch { method, expected, found, line } => ErrorV::ArgumentCountMismatch {
                method: method@,
                expected: expected as nat,
                found: found as nat,
                line: line as nat,
            },
            SemanticError::DispatchOnVoid { line } => ErrorV::DispatchOnVoid { line: line as nat },
            SemanticError::CaseOnVoid { line } => ErrorV::CaseOnVoid { line: line as nat },
            SemanticError::NoBranchInCase { expr_type, line } => ErrorV::NoBranchInCase {
                expr_type: expr_type@,
                line: line as nat,
            },
        }
    }
}

} // verus!
