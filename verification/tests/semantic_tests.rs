//! Tests of the semantic analysis phases: class table construction,
//! inheritance validation, symbol and override checking, and expression
//! type inference.

use cool_rs::ast::{ArgDecl, Class, Expr, Feature, TypedExpr};
use cool_rs::builtins::builtin_classes;
use cool_rs::semantic::analyzer::check_inheritance;
use cool_rs::semantic::class_table::build_class_table;
use cool_rs::semantic::collector::ErrorCollector;
use cool_rs::semantic::errors::SemanticError;
use cool_rs::semantic::symbols::check_class_features;
use cool_rs::semantic::type_checker::{check_expressions, is_subtype};

fn te(expr: Expr, line: usize) -> TypedExpr {
    TypedExpr::new(expr, line)
}

fn cls(name: &str, parent: Option<&str>, features: Vec<Feature>) -> Class {
    Class::new(name.to_string(), parent.map(|p| p.to_string()), features)
}

fn method(name: &str, args: Vec<(&str, &str)>, ret: &str, body: TypedExpr) -> Feature {
    Feature::new_method(
        name.to_string(),
        args.into_iter().map(|(id, tid)| ArgDecl::new(id.to_string(), tid.to_string())).collect(),
        ret.to_string(),
        body,
    )
}

fn attribute(name: &str, tid: &str, init: Option<TypedExpr>) -> Feature {
    Feature::new_attribute(name.to_string(), tid.to_string(), init)
}

#[test]
fn duplicate_class_reported_once() {
    let classes = vec![cls("Foo", None, vec![]), cls("Foo", None, vec![])];
    let mut ec = ErrorCollector::default();
    check_inheritance(&classes, &mut ec);
    assert_eq!(ec.errors, vec![SemanticError::DuplicateClass { class: "Foo".to_string() }]);
}

#[test]
fn illegal_base_type_reported() {
    let classes = vec![cls("A", Some("Int"), vec![])];
    let mut ec = ErrorCollector::default();
    check_inheritance(&classes, &mut ec);
    // The illegal base is reported even though `Int` is not even declared
    // here; the dangling parent is its own, separate finding.
    assert_eq!(
        ec.errors,
        vec![
            SemanticError::InheritBasicType { class: "A".to_string(), parent: "Int".to_string() },
            SemanticError::UndefinedParent { class: "A".to_string(), parent: "Int".to_string() },
        ]
    );
}

#[test]
fn undefined_parent_reported() {
    let classes = vec![cls("A", Some("Missing"), vec![])];
    let mut ec = ErrorCollector::default();
    check_inheritance(&classes, &mut ec);
    assert_eq!(
        ec.errors,
        vec![SemanticError::UndefinedParent {
            class: "A".to_string(),
            parent: "Missing".to_string(),
        }]
    );
}

#[test]
fn inheritance_cycle_reported_per_participant() {
    let classes = vec![cls("A", Some("B"), vec![]), cls("B", Some("A"), vec![])];
    let mut ec = ErrorCollector::default();
    check_inheritance(&classes, &mut ec);
    // Each participating class reports the cycle once, and each reported
    // path starts and ends at its own starting class.
    assert_eq!(
        ec.errors,
        vec![
            SemanticError::InheritanceCycle {
                cycle: vec!["A".to_string(), "B".to_string(), "A".to_string()],
            },
            SemanticError::InheritanceCycle {
                cycle: vec!["B".to_string(), "A".to_string(), "B".to_string()],
            },
        ]
    );
}

#[test]
fn self_inheritance_cycle_reported() {
    let classes = vec![cls("A", Some("A"), vec![])];
    let mut ec = ErrorCollector::default();
    check_inheritance(&classes, &mut ec);
    assert_eq!(
        ec.errors,
        vec![SemanticError::InheritanceCycle { cycle: vec!["A".to_string(), "A".to_string()] }]
    );
}

#[test]
fn root_self_loop_is_not_a_cycle() {
    let mut classes = builtin_classes();
    classes.push(cls("Main", Some("IO"), vec![]));
    let mut ec = ErrorCollector::default();
    check_inheritance(&classes, &mut ec);
    assert_eq!(ec.errors, vec![]);
    assert!(!ec.has_errors());
}

#[test]
fn class_table_entries() {
    let classes = vec![cls("A", Some("B"), vec![attribute("x", "Int", None)])];
    let table = build_class_table(&classes);
    assert_eq!(table.len(), 2);
    assert_eq!(table[0].name, "A");
    assert_eq!(table[0].parent, "B");
    assert_eq!(table[0].attributes, vec![("x".to_string(), "Int".to_string())]);
    // The root class is synthesized, as its own parent, when not declared.
    assert_eq!(table[1].name, "Object");
    assert_eq!(table[1].parent, "Object");
}

#[test]
fn class_table_first_declaration_wins() {
    let classes = vec![
        cls("A", Some("B"), vec![attribute("x", "Int", None)]),
        cls("A", Some("C"), vec![attribute("y", "Int", None)]),
    ];
    let table = build_class_table(&classes);
    assert_eq!(table.len(), 2);
    assert_eq!(table[0].name, "A");
    assert_eq!(table[0].parent, "B");
    assert_eq!(
        table[0].attributes,
        vec![("x".to_string(), "Int".to_string()), ("y".to_string(), "Int".to_string())]
    );
}

#[test]
fn duplicate_symbols_reported() {
    let classes = vec![cls(
        "A",
        None,
        vec![
            attribute("x", "Int", None),
            attribute("x", "String", None),
            method("m", vec![], "Int", te(Expr::Int(0), 1)),
            method("m", vec![], "Int", te(Expr::Int(0), 2)),
        ],
    )];
    let mut ec = ErrorCollector::default();
    check_class_features(&classes, &mut ec);
    assert_eq!(
        ec.errors,
        vec![
            SemanticError::DuplicateAttribute { class: "A".to_string(), attr: "x".to_string() },
            SemanticError::DuplicateMethod { class: "A".to_string(), method: "m".to_string() },
        ]
    );
}

#[test]
fn override_mismatch_reported() {
    let classes = vec![
        cls("B", None, vec![method("foo", vec![("x", "Int")], "Int", te(Expr::Int(0), 1))]),
        cls(
            "A",
            Some("B"),
            vec![method("foo", vec![("x", "String")], "Int", te(Expr::Int(0), 2))],
        ),
    ];
    let mut ec = ErrorCollector::default();
    check_class_features(&classes, &mut ec);
    assert_eq!(
        ec.errors,
        vec![SemanticError::MethodOverrideMismatch {
            class: "A".to_string(),
            method: "foo".to_string(),
            parent: "B".to_string(),
            expected: vec!["Int".to_string()],
            found: vec!["String".to_string()],
        }]
    );
}

#[test]
fn matching_override_not_reported() {
    let classes = vec![
        cls("B", None, vec![method("foo", vec![("x", "Int")], "Int", te(Expr::Int(0), 1))]),
        cls("A", Some("B"), vec![method("foo", vec![("y", "Int")], "Int", te(Expr::Int(1), 2))]),
    ];
    let mut ec = ErrorCollector::default();
    check_class_features(&classes, &mut ec);
    assert_eq!(ec.errors, vec![]);
}

#[test]
fn attribute_initializer_mismatch() {
    let mut classes = builtin_classes();
    classes.push(cls(
        "A",
        None,
        vec![attribute("x", "Int", Some(te(Expr::Str("hello".to_string()), 3)))],
    ));
    let mut ec = ErrorCollector::default();
    check_expressions(&classes, &mut ec);
    assert_eq!(
        ec.errors,
        vec![SemanticError::TypeMismatch {
            expected: "Int".to_string(),
            found: "String".to_string(),
            line: 3,
        }]
    );
}

#[test]
fn conditional_and_case_join_asymmetry() {
    // C and D dangle from an undefined parent, so neither is comparable
    // with anything, not even the root type.
    let mut classes = builtin_classes();
    classes.push(cls("C", Some("Missing"), vec![]));
    classes.push(cls("D", Some("Missing"), vec![]));
    classes.push(cls(
        "A",
        None,
        vec![
            method(
                "m1",
                vec![],
                "Object",
                te(
                    Expr::Conditional {
                        test: Box::new(te(Expr::Bool(true), 5)),
                        then: Box::new(te(Expr::New("C".to_string()), 5)),
                        orelse: Box::new(te(Expr::New("D".to_string()), 5)),
                    },
                    5,
                ),
            ),
            method(
                "m2",
                vec![],
                "Object",
                te(
                    Expr::Case(
                        Box::new(te(Expr::Int(1), 7)),
                        vec![cool_rs::ast::CaseBranch::new(
                            "x".to_string(),
                            "C".to_string(),
                            te(Expr::New("C".to_string()), 8),
                        )],
                    ),
                    7,
                ),
            ),
        ],
    ));
    let mut ec = ErrorCollector::default();
    check_expressions(&classes, &mut ec);
    // The conditional's incomparable branches report a mismatch and the
    // conditional falls back to the root type; the case's branch join, in
    // the same situation, silently resets to the root type and reports
    // nothing.
    assert_eq!(
        ec.errors,
        vec![SemanticError::TypeMismatch {
            expected: "C".to_string(),
            found: "D".to_string(),
            line: 5,
        }]
    );
}

#[test]
fn dispatch_arity_mismatch_uses_nearest_declaration() {
    let mut classes = builtin_classes();
    classes.push(cls(
        "B",
        None,
        vec![method("foo", vec![("x", "Int"), ("y", "Int")], "Int", te(Expr::Int(0), 1))],
    ));
    classes.push(cls(
        "A",
        Some("B"),
        vec![method(
            "m",
            vec![],
            "Object",
            te(
                Expr::Dispatch {
                    target: Some(Box::new(te(Expr::Identifier("self".to_string()), 9))),
                    targettype: None,
                    id: "foo".to_string(),
                    exprs: vec![te(Expr::Int(1), 9)],
                },
                9,
            ),
        )],
    ));
    let mut ec = ErrorCollector::default();
    check_expressions(&classes, &mut ec);
    assert_eq!(
        ec.errors,
        vec![SemanticError::ArgumentCountMismatch {
            method: "foo".to_string(),
            expected: 2,
            found: 1,
            line: 9,
        }]
    );
}

#[test]
fn undefined_variable_and_class_reported() {
    let mut classes = builtin_classes();
    classes.push(cls(
        "A",
        None,
        vec![method(
            "m",
            vec![],
            "Object",
            te(
                Expr::Block(vec![
                    te(Expr::Identifier("nope".to_string()), 2),
                    te(Expr::New("Ghost2".to_string()), 3),
                ]),
                2,
            ),
        )],
    ));
    let mut ec = ErrorCollector::default();
    check_expressions(&classes, &mut ec);
    assert_eq!(
        ec.errors,
        vec![
            SemanticError::UndefinedVariable { name: "nope".to_string(), line: 2 },
            SemanticError::UndefinedClass { tname: "Ghost2".to_string(), line: 3 },
        ]
    );
}

#[test]
fn subtype_is_reflexive_and_walks_parents() {
    let mut classes = builtin_classes();
    classes.push(cls("B", None, vec![]));
    classes.push(cls("A", Some("B"), vec![]));
    let table = build_class_table(&classes);
    assert!(is_subtype("A", "A", &table));
    assert!(is_subtype("Object", "Object", &table));
    assert!(is_subtype("A", "B", &table));
    assert!(is_subtype("A", "Object", &table));
    assert!(is_subtype("Int", "Object", &table));
    assert!(!is_subtype("Object", "A", &table));
    assert!(!is_subtype("B", "A", &table));
}

#[test]
fn well_formed_program_passes_all_phases() {
    let mut classes = builtin_classes();
    classes.push(cls(
        "Main",
        Some("IO"),
        vec![
            attribute("count", "Int", Some(te(Expr::Int(0), 2))),
            method(
                "main",
                vec![],
                "Int",
                te(
                    Expr::Math {
                        lhs: Box::new(te(Expr::Int(1), 4)),
                        op: cool_rs::ast::MathOperator::Add,
                        rhs: Box::new(te(Expr::Identifier("count".to_string()), 4)),
                    },
                    4,
                ),
            ),
        ],
    ));
    let mut ec = ErrorCollector::default();
    check_inheritance(&classes, &mut ec);
    assert!(!ec.has_errors());
    check_class_features(&classes, &mut ec);
    assert!(!ec.has_errors());
    check_expressions(&classes, &mut ec);
    assert!(!ec.has_errors());
}

#[test]
fn builtin_classes_shape() {
    let builtins = builtin_classes();
    let names: Vec<String> = builtins.iter().map(|c| c.name.clone()).collect();
    assert_eq!(
        names,
        vec![
            "Object".to_string(),
            "IO".to_string(),
            "String".to_string(),
            "Int".to_string(),
            "Bool".to_string(),
        ]
    );
    assert_eq!(builtins[0].inherits, None);
    for c in &builtins[1..] {
        assert_eq!(c.inherits, Some("Object".to_string()));
    }
    assert_eq!(builtins[1].feature_list.len(), 4);
    assert_eq!(builtins[3].feature_list.len(), 0);
}

#[test]
fn error_collector_accumulates() {
    let mut ec = ErrorCollector::default();
    assert!(!ec.has_errors());
    ec.add(SemanticError::DispatchOnVoid { line: 1 });
    ec.add(SemanticError::CaseOnVoid { line: 2 });
    assert!(ec.has_errors());
    assert_eq!(
        ec.errors,
        vec![
            SemanticError::DispatchOnVoid { line: 1 },
            SemanticError::CaseOnVoid { line: 2 },
        ]
    );
}

#[test]
fn static_dispatch_resolves_in_named_class() {
    let mut classes = builtin_classes();
    classes.push(cls(
        "B",
        None,
        vec![method("foo", vec![("x", "Int")], "String", te(Expr::Str("ok".to_string()), 1))],
    ));
    classes.push(cls(
        "A",
        Some("B"),
        vec![method(
            "m",
            vec![],
            "String",
            te(
                Expr::Dispatch {
                    target: Some(Box::new(te(Expr::New("A".to_string()), 5))),
                    targettype: Some("B".to_string()),
                    id: "foo".to_string(),
                    exprs: vec![te(Expr::Str("oops".to_string()), 5)],
                },
                5,
            ),
        )],
    ));
    let mut ec = ErrorCollector::default();
    check_expressions(&classes, &mut ec);
    // The call resolves through the explicit static type `B`; the argument
    // is not a subtype of the declared `Int` parameter.
    assert_eq!(
        ec.errors,
        vec![SemanticError::TypeMismatch {
            expected: "Int".to_string(),
            found: "String".to_string(),
            line: 5,
        }]
    );
}

#[test]
fn let_binding_scopes_and_checks_initializers() {
    let mut classes = builtin_classes();
    classes.push(cls(
        "A",
        None,
        vec![method(
            "m",
            vec![],
            "Int",
            te(
                Expr::Let(
                    vec![(
                        "x".to_string(),
                        "Int".to_string(),
                        Some(te(Expr::Str("bad".to_string()), 2)),
                    )],
                    Box::new(te(Expr::Identifier("x".to_string()), 3)),
                ),
                2,
            ),
        )],
    ));
    let mut ec = ErrorCollector::default();
    check_expressions(&classes, &mut ec);
    // The initializer mismatch is reported; the body still sees the binding
    // at its declared type, so the method's return type is satisfied.
    assert_eq!(
        ec.errors,
        vec![SemanticError::TypeMismatch {
            expected: "Int".to_string(),
            found: "String".to_string(),
            line: 2,
        }]
    );
}

#[test]
fn inheritance_errors_come_in_phase_order() {
    let classes = vec![cls("Foo", None, vec![]), cls("Foo", Some("Int"), vec![])];
    let mut ec = ErrorCollector::default();
    check_inheritance(&classes, &mut ec);
    // All duplicate-class findings precede all illegal-base findings; the
    // second declaration's parent map entry lost to the first, so no
    // undefined-parent or cycle finding follows.
    assert_eq!(
        ec.errors,
        vec![
            SemanticError::DuplicateClass { class: "Foo".to_string() },
            SemanticError::InheritBasicType { class: "Foo".to_string(), parent: "Int".to_string() },
        ]
    );
}

#[test]
fn while_and_comparison_mismatches() {
    let mut classes = builtin_classes();
    classes.push(cls(
        "A",
        None,
        vec![method(
            "m",
            vec![],
            "Object",
            te(
                Expr::While {
                    test: Box::new(te(
                        Expr::Comparison {
                            lhs: Box::new(te(Expr::Int(1), 4)),
                            op: cool_rs::ast::ComparisonOperator::Lt,
                            rhs: Box::new(te(Expr::Str("two".to_string()), 4)),
                        },
                        4,
                    )),
                    body: Box::new(te(Expr::Int(0), 5)),
                },
                4,
            ),
        )],
    ));
    let mut ec = ErrorCollector::default();
    check_expressions(&classes, &mut ec);
    // The comparison's operands must match exactly; the comparison itself
    // still types as boolean, so the loop guard raises nothing further.
    assert_eq!(
        ec.errors,
        vec![SemanticError::TypeMismatch {
            expected: "Int".to_string(),
            found: "String".to_string(),
            line: 4,
        }]
    );
}
