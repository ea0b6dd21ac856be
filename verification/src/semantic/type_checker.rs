//! The type checker: expression-level type inference under a scope
//! environment, nominal subtyping along the parent chain, branch joins, and
//! static method dispatch resolution.

use vstd::prelude::*;

use crate::ast::{ArgDecl, CaseBranch, Class, Expr, Feature, TypedExpr, UnaryOperator};
use crate::semantic::class_table::{
    build_class_table, find_class, pairs_view, table_contains, table_lookup, table_of, tview,
    ClassInfo, ClassInfoV,
};
use crate::semantic::collector::ErrorCollector;
use crate::semantic::errors::{strs_view, ErrorV, SemanticError};
use crate::semantic::class_table::sigs_view;
use crate::semantic::symbols::{find_sig, first_sig, is_builtin_name};
use crate::sequtil::{lemma_add_empty, lemma_push_concat};
use crate::strutil::{clone_strs, str_eq, string_eq};

verus! {

broadcast use vstd::seq::group_seq_axioms;

/// One step of the upward subtype walk from `cur` toward `sup`: follow
/// parent links until the parent matches, the root self-loop is reached, or
/// the chain leaves the table. The bound only cuts off chains that revisit a
/// class, which never halt; walks on a validated hierarchy end long before it.
pub open spec fn subtype_walk(
    t: Seq<ClassInfoV>,
    cur: Seq<char>,
    sup: Seq<char>,
    fuel: nat,
) -> bool
    decreases fuel,
{
    if fuel == 0 {
        false
    } else {
        match table_lookup(t, cur) {
            None => false,
            Some(info) => if info.parent == sup {
                true
            } else if info.parent == cur {
                false
            } else {
                subtype_walk(t, info.parent, sup, (fuel - 1) as nat)
            },
        }
    }
}

/// Nominal subtyping: reflexive, and otherwise the upward walk from `sub`
/// must reach a class whose parent is `sup` before the root's self-loop.
pub open spec fn is_subtype_spec(sub: Seq<char>, sup: Seq<char>, t: Seq<ClassInfoV>) -> bool {
    sub == sup || subtype_walk(t, sub, sup, t.len() + 1)
}

/// Walk the inheritance chain to decide whether `sub` is a subtype of `sup`.
pub fn is_subtype(sub: &str, sup: &str, class_table: &Vec<ClassInfo>) -> (r: bool)
    ensures
        r == is_subtype_spec(sub@, sup@, tview(class_table@)),
{
    let ghost tv = tview(class_table@);
    let ghost fuel = tv.len() + 1;
    if str_eq(sub, sup) {
        return true;
    }
    let mut cur: String = String::from_str(sub);
    let mut rem: usize = class_table.len();
    let mut res = false;
    let mut done = false;
    while !done
        invariant
            tv == tview(class_table@),
            fuel == tv.len() + 1,
            rem <= tv.len(),
            !done ==> res == false,
            !done ==> subtype_walk(tv, sub@, sup@, fuel) == subtype_walk(tv, cur@, sup@,
                rem as nat + 1),
            done ==> res == subtype_walk(tv, sub@, sup@, fuel),
        decreases (if done { 0int } else { 1int }) + rem,
    {
        match find_class(class_table, cur.as_str()) {
            None => {
                done = true;
            },
            Some(ci) => {
                let parent = class_table[ci].parent.clone();
                if str_eq(parent.as_str(), sup) {
                    res = true;
                    done = true;
                } else if string_eq(&parent, &cur) {
                    done = true;
                } else if rem == 0 {
                    proof {
                        assert(subtype_walk(tv, parent@, sup@, 0nat) == false);
                    }
                    done = true;
                } else {
                    cur = parent;
                    rem -= 1;
                }
            },
        }
    }
    res
}

/// The scope environment: identifier bindings in insertion order; the last
/// binding of a name wins, so an inner binding shadows an outer one.
pub open spec fn env_lookup(env: Seq<(Seq<char>, Seq<char>)>, x: Seq<char>) -> Option<Seq<char>>
    decreases env.len(),
{
    if env.len() == 0 {
        None
    } else if env.last().0 == x {
        Some(env.last().1)
    } else {
        env_lookup(env.drop_last(), x)
    }
}

proof fn lemma_env_lookup_at(env: Seq<(Seq<char>, Seq<char>)>, x: Seq<char>, i: int)
    requires
        0 <= i < env.len(),
        env[i].0 == x,
        forall|j: int| i < j < env.len() ==> (#[trigger] env[j]).0 != x,
    ensures
        env_lookup(env, x) == Some(env[i].1),
    decreases env.len(),
{
    if i < env.len() - 1 {
        assert(env.drop_last()[i] == env[i]);
        lemma_env_lookup_at(env.drop_last(), x, i);
    }
}

proof fn lemma_env_lookup_none(env: Seq<(Seq<char>, Seq<char>)>, x: Seq<char>)
    requires
        forall|j: int| 0 <= j < env.len() ==> (#[trigger] env[j]).0 != x,
    ensures
        env_lookup(env, x) is None,
    decreases env.len(),
{
    if env.len() > 0 {
        lemma_env_lookup_none(env.drop_last(), x);
    }
}

/// The latest binding of `x` in the environment, cloned.
fn env_get(env: &Vec<(String, String)>, x: &str) -> (r: Option<String>)
    ensures
        match r {
            Some(ty) => env_lookup(pairs_view(env@), x@) == Some(ty@),
            None => env_lookup(pairs_view(env@), x@) is None,
        },
{
    let ghost ev = pairs_view(env@);
    let mut i: usize = env.len();
    while i > 0
        invariant
            i <= env.len(),
            ev == pairs_view(env@),
            forall|j: int| i <= j < env.len() ==> (#[trigger] ev[j]).0 != x@,
        decreases i,
    {
        i = i - 1;
        if str_eq(env[i].0.as_str(), x) {
            proof {
                assert(ev[i as int].0 == x@);
                lemma_env_lookup_at(ev, x@, i as int);
            }
            return Some(env[i].1.clone());
        }
        proof {
            assert(ev[i as int].0 != x@);
        }
    }
    proof {
        lemma_env_lookup_none(ev, x@);
    }
    None
}

/// Clone a scope environment, pair by pair.
fn clone_env(env: &Vec<(String, String)>) -> (r: Vec<(String, String)>)
    ensures
        pairs_view(r@) == pairs_view(env@),
{
    let mut r: Vec<(String, String)> = Vec::new();
    let mut i: usize = 0;
    while i < env.len()
        invariant
            i <= env.len(),
            pairs_view(r@) == pairs_view(env@).take(i as int),
        decreases env.len() - i,
    {
        r.push((env[i].0.clone(), env[i].1.clone()));
        proof {
            let ev = pairs_view(env@);
            assert(ev.take(i as int + 1) =~= ev.take(i as int).push(ev[i as int]));
            assert(pairs_view(r@) =~= ev.take(i as int).push(ev[i as int]));
        }
        i += 1;
    }
    proof {
        assert(pairs_view(env@).take(env@.len() as int) =~= pairs_view(env@));
    }
    r
}


/// Resolve a method name from `cur` upward through single parent links: the
/// first class in the chain that declares the name is used, whatever its
/// arity; the walk stops at the root's self-loop or a missing entry. The
/// bound only cuts off chains that revisit a class, which never halt.
pub open spec fn resolve_walk(
    t: Seq<ClassInfoV>,
    cur: Seq<char>,
    id: Seq<char>,
    fuel: nat,
) -> Option<(Seq<char>, Seq<char>, Seq<Seq<char>>)>
    decreases fuel,
{
    if fuel == 0 {
        None
    } else {
        match table_lookup(t, cur) {
            None => None,
            Some(ci) => match first_sig(ci.methods, id) {
                Some(m) => Some(m),
                None => if ci.parent == cur {
                    None
                } else {
                    resolve_walk(t, ci.parent, id, (fuel - 1) as nat)
                },
            },
        }
    }
}

/// The per-argument mismatch diagnostics of a resolved call: each actual
/// type must be a subtype of the corresponding declared parameter type,
/// reported independently per argument.
pub open spec fn arg_check_errs(
    atys: Seq<Seq<char>>,
    ptys: Seq<Seq<char>>,
    t: Seq<ClassInfoV>,
    line: nat,
    k: int,
) -> Seq<ErrorV>
    decreases k,
{
    if k <= 0 {
        Seq::empty()
    } else {
        arg_check_errs(atys, ptys, t, line, k - 1) + if !is_subtype_spec(atys[k - 1], ptys[k - 1],
            t) {
            seq![ErrorV::TypeMismatch { expected: ptys[k - 1], found: atys[k - 1], line }]
        } else {
            Seq::empty()
        }
    }
}

/// The static type of an expression under a scope environment, together
/// with the diagnostics its checking reports, in reporting order. Inference
/// never aborts: each violation falls back to a conservative type, almost
/// always the root type, so sibling expressions still surface their own
/// errors.
pub open spec fn infer(
    e: TypedExpr,
    cls: Seq<char>,
    env: Seq<(Seq<char>, Seq<char>)>,
    t: Seq<ClassInfoV>,
) -> (Seq<char>, Seq<ErrorV>)
    decreases e,
{
    match e.expr {
        Expr::Identifier(name) => match env_lookup(env, name@) {
            Some(ty) => (ty, Seq::empty()),
            None => (
                "Object"@,
                seq![ErrorV::UndefinedVariable { name: name@, line: e.line as nat }],
            ),
        },
        Expr::Int(_) => ("Int"@, Seq::empty()),
        Expr::Bool(_) => ("Bool"@, Seq::empty()),
        Expr::Str(_) => ("String"@, Seq::empty()),
        Expr::New(tn) => if !table_contains(t, tn@) {
            ("Object"@, seq![ErrorV::UndefinedClass { tname: tn@, line: e.line as nat }])
        } else {
            (tn@, Seq::empty())
        },
        Expr::Assignment(var, rhs) => {
            let r = infer(*rhs, cls, env, t);
            match env_lookup(env, var@) {
                Some(vt) => (
                    vt,
                    r.1 + if !is_subtype_spec(r.0, vt, t) {
                        seq![ErrorV::TypeMismatch { expected: vt, found: r.0, line: e.line as nat }]
                    } else {
                        Seq::empty()
                    },
                ),
                None => (
                    r.0,
                    r.1 + seq![ErrorV::UndefinedVariable { name: var@, line: e.line as nat }],
                ),
            }
        },
        Expr::Math { lhs, op: _, rhs } => {
            let l = infer(*lhs, cls, env, t);
            let r = infer(*rhs, cls, env, t);
            (
                "Int"@,
                l.1 + r.1 + (if l.0 != "Int"@ {
                    seq![ErrorV::TypeMismatch {
                        expected: "Int"@,
                        found: l.0,
                        line: lhs.line as nat,
                    }]
                } else {
                    Seq::empty()
                }) + (if r.0 != "Int"@ {
                    seq![ErrorV::TypeMismatch {
                        expected: "Int"@,
                        found: r.0,
                        line: rhs.line as nat,
                    }]
                } else {
                    Seq::empty()
                }),
            )
        },
        Expr::Comparison { lhs, op: _, rhs } => {
            let l = infer(*lhs, cls, env, t);
            let r = infer(*rhs, cls, env, t);
            (
                "Bool"@,
                l.1 + r.1 + if l.0 != r.0 {
                    seq![ErrorV::TypeMismatch { expected: l.0, found: r.0, line: e.line as nat }]
                } else {
                    Seq::empty()
                },
            )
        },
        Expr::UnaryOperation { op, s } => {
            let sr = infer(*s, cls, env, t);
            match op {
                UnaryOperator::Neg => (
                    "Int"@,
                    sr.1 + if sr.0 != "Int"@ {
                        seq![ErrorV::TypeMismatch {
                            expected: "Int"@,
                            found: sr.0,
                            line: s.line as nat,
                        }]
                    } else {
                        Seq::empty()
                    },
                ),
                UnaryOperator::Not => (
                    "Bool"@,
                    sr.1 + if sr.0 != "Bool"@ {
                        seq![ErrorV::TypeMismatch {
                            expected: "Bool"@,
                            found: sr.0,
                            line: s.line as nat,
                        }]
                    } else {
                        Seq::empty()
                    },
                ),
            }
        },
        Expr::Conditional { test, then, orelse } => {
            let tr = infer(*test, cls, env, t);
            let e1 = tr.1 + if tr.0 != "Bool"@ {
                seq![ErrorV::TypeMismatch {
                    expected: "Bool"@,
                    found: tr.0,
                    line: test.line as nat,
                }]
            } else {
                Seq::empty()
            };
            let t2 = infer(*then, cls, env, t);
            let t3 = infer(*orelse, cls, env, t);
            let errs = e1 + t2.1 + t3.1 + if !is_subtype_spec(t3.0, t2.0, t) && !is_subtype_spec(
                t2.0,
                t3.0,
                t,
            ) {
                seq![ErrorV::TypeMismatch { expected: t2.0, found: t3.0, line: e.line as nat }]
            } else {
                Seq::empty()
            };
            let ty = if is_subtype_spec(t2.0, t3.0, t) {
                t3.0
            } else if is_subtype_spec(t3.0, t2.0, t) {
                t2.0
            } else {
                "Object"@
            };
            (ty, errs)
        },
        Expr::While { test, body } => {
            let tr = infer(*test, cls, env, t);
            let br = infer(*body, cls, env, t);
            (
                "Object"@,
                tr.1 + (if tr.0 != "Bool"@ {
                    seq![ErrorV::TypeMismatch {
                        expected: "Bool"@,
                        found: tr.0,
                        line: test.line as nat,
                    }]
                } else {
                    Seq::empty()
                }) + br.1,
            )
        },
        Expr::Isvoid(inner) => {
            let r = infer(*inner, cls, env, t);
            ("Bool"@, r.1)
        },
        Expr::Block(es) => {
            let r = infer_seq(es@, cls, env, t);
            (
                if r.0.len() == 0 {
                    "Object"@
                } else {
                    r.0.last()
                },
                r.1,
            )
        },
        Expr::Let(binds, body) => {
            let le = infer_let(binds@, cls, env, t);
            let br = infer(*body, cls, le.0, t);
            (br.0, le.1 + br.1)
        },
        Expr::Case(scrut, branches) => {
            let sr = infer(*scrut, cls, env, t);
            let e1 = sr.1 + if sr.0 == "Object"@ {
                seq![ErrorV::CaseOnVoid { line: scrut.line as nat }]
            } else {
                Seq::empty()
            };
            let cr = infer_case(branches@, cls, env, t, "Object"@);
            (cr.0, e1 + cr.1)
        },
        Expr::Paren(inner) => infer(*inner, cls, env, t),
        Expr::Dispatch { target, targettype, id, exprs } => {
            let ar = infer_seq(exprs@, cls, env, t);
            let lk = dispatch_lookup(targettype, target, cls, env, t, e.line as nat);
            let e1 = ar.1 + lk.1;
            match resolve_walk(t, lk.0, id@, t.len() + 1) {
                None => (
                    "Object"@,
                    e1 + seq![ErrorV::ArgumentCountMismatch {
                        method: id@,
                        expected: 0,
                        found: ar.0.len(),
                        line: e.line as nat,
                    }],
                ),
                Some(m) => if m.2.len() == ar.0.len() {
                    (m.1, e1 + arg_check_errs(ar.0, m.2, t, e.line as nat, ar.0.len() as int))
                } else {
                    (
                        "Object"@,
                        e1 + seq![ErrorV::ArgumentCountMismatch {
                            method: id@,
                            expected: m.2.len(),
                            found: ar.0.len(),
                            line: e.line as nat,
                        }],
                    )
                },
            }
        },
    }
}

/// The class a dispatch resolves its method in: the explicit static target
/// type if given (validated to exist, defaulting to the root type), else the
/// inferred type of an explicit target expression, else the current class.
pub open spec fn dispatch_lookup(
    targettype: Option<String>,
    target: Option<Box<TypedExpr>>,
    cls: Seq<char>,
    env: Seq<(Seq<char>, Seq<char>)>,
    t: Seq<ClassInfoV>,
    line: nat,
) -> (Seq<char>, Seq<ErrorV>)
    decreases target,
{
    match targettype {
        Some(tc) => if !table_contains(t, tc@) {
            ("Object"@, seq![ErrorV::UndefinedClass { tname: tc@, line }])
        } else {
            (tc@, Seq::empty())
        },
        None => match target {
            Some(te) => infer(*te, cls, env, t),
            None => (cls, Seq::empty()),
        },
    }
}

/// The types and diagnostics of a list of expressions, checked left to
/// right in one environment.
pub open spec fn infer_seq(
    es: Seq<TypedExpr>,
    cls: Seq<char>,
    env: Seq<(Seq<char>, Seq<char>)>,
    t: Seq<ClassInfoV>,
) -> (Seq<Seq<char>>, Seq<ErrorV>)
    decreases es,
{
    if es.len() == 0 {
        (Seq::empty(), Seq::empty())
    } else {
        let h = infer(es[0], cls, env, t);
        let r = infer_seq(es.drop_first(), cls, env, t);
        (seq![h.0] + r.0, h.1 + r.1)
    }
}

/// Process let bindings left to right: each binding's initializer is
/// checked against the declared type under the environment built so far —
/// before the binding itself is added — then the binding becomes visible to
/// later bindings and to the body. Returns the extended environment.
pub open spec fn infer_let(
    binds: Seq<(String, String, Option<TypedExpr>)>,
    cls: Seq<char>,
    env: Seq<(Seq<char>, Seq<char>)>,
    t: Seq<ClassInfoV>,
) -> (Seq<(Seq<char>, Seq<char>)>, Seq<ErrorV>)
    decreases binds,
{
    if binds.len() == 0 {
        (env, Seq::empty())
    } else {
        let b = binds[0];
        let errs0 = match b.2 {
            Some(init) => {
                let r = infer(init, cls, env, t);
                r.1 + if !is_subtype_spec(r.0, b.1@, t) {
                    seq![ErrorV::TypeMismatch {
                        expected: b.1@,
                        found: r.0,
                        line: init.line as nat,
                    }]
                } else {
                    Seq::empty()
                }
            },
            None => Seq::empty(),
        };
        let rest = infer_let(binds.drop_first(), cls, env.push((b.0@, b.1@)), t);
        (rest.0, errs0 + rest.1)
    }
}

/// Check case branches left to right. Each branch's declared type must be a
/// table entry; the branch binder is visible only in its own branch. The
/// running result absorbs subtype branches, is replaced by supertype
/// branches, and silently resets to the root type on an incomparable pair.
pub open spec fn infer_case(
    branches: Seq<CaseBranch>,
    cls: Seq<char>,
    env: Seq<(Seq<char>, Seq<char>)>,
    t: Seq<ClassInfoV>,
    running: Seq<char>,
) -> (Seq<char>, Seq<ErrorV>)
    decreases branches,
{
    if branches.len() == 0 {
        (running, Seq::empty())
    } else {
        let br = branches[0];
        let e0 = if !table_contains(t, br.tid@) {
            seq![ErrorV::UndefinedClass { tname: br.tid@, line: br.expr.line as nat }]
        } else {
            Seq::empty()
        };
        let r = infer(br.expr, cls, env.push((br.id@, br.tid@)), t);
        let next = if is_subtype_spec(r.0, running, t) {
            running
        } else if is_subtype_spec(running, r.0, t) {
            r.0
        } else {
            "Object"@
        };
        let rest = infer_case(branches.drop_first(), cls, env, t, next);
        (rest.0, e0 + r.1 + rest.1)
    }
}

/// Walk a class's attributes in feature order: each initializer is checked
/// against the declared attribute type under the environment built so far,
/// then the attribute is bound, visible to later initializers and to every
/// method body. Returns the accumulated environment.
pub open spec fn attr_walk(
    fs: Seq<Feature>,
    cls: Seq<char>,
    env: Seq<(Seq<char>, Seq<char>)>,
    t: Seq<ClassInfoV>,
) -> (Seq<(Seq<char>, Seq<char>)>, Seq<ErrorV>)
    decreases fs,
{
    if fs.len() == 0 {
        (env, Seq::empty())
    } else {
        match fs[0] {
            Feature::Attribute(vd) => {
                let errs0 = match vd.expr {
                    Some(init) => {
                        let r = infer(init, cls, env, t);
                        r.1 + if !is_subtype_spec(r.0, vd.tid@, t) {
                            seq![ErrorV::TypeMismatch {
                                expected: vd.tid@,
                                found: r.0,
                                line: init.line as nat,
                            }]
                        } else {
                            Seq::empty()
                        }
                    },
                    None => Seq::empty(),
                };
                let rest = attr_walk(fs.drop_first(), cls, env.push((vd.oid@, vd.tid@)), t);
                (rest.0, errs0 + rest.1)
            },
            Feature::Method(_, _, _, _) => attr_walk(fs.drop_first(), cls, env, t),
        }
    }
}

/// The environment of a method body: the class environment extended with
/// the parameters in order, so parameters shadow same-named attributes.
pub open spec fn args_env(
    env: Seq<(Seq<char>, Seq<char>)>,
    args: Seq<ArgDecl>,
) -> Seq<(Seq<char>, Seq<char>)> {
    env + args.map_values(|a: ArgDecl| (a.id@, a.tid@))
}

/// Walk a class's methods in feature order: each body is inferred under the
/// class environment extended with the parameters, and must be a subtype of
/// the declared return type.
pub open spec fn method_walk(
    fs: Seq<Feature>,
    cls: Seq<char>,
    env: Seq<(Seq<char>, Seq<char>)>,
    t: Seq<ClassInfoV>,
) -> Seq<ErrorV>
    decreases fs,
{
    if fs.len() == 0 {
        Seq::empty()
    } else {
        match fs[0] {
            Feature::Attribute(_) => method_walk(fs.drop_first(), cls, env, t),
            Feature::Method(_, args, ret, body) => {
                let r = infer(body, cls, args_env(env, args@), t);
                (r.1 + if !is_subtype_spec(r.0, ret@, t) {
                    seq![ErrorV::TypeMismatch {
                        expected: ret@,
                        found: r.0,
                        line: body.line as nat,
                    }]
                } else {
                    Seq::empty()
                }) + method_walk(fs.drop_first(), cls, env, t)
            },
        }
    }
}

/// Everything the type checker reports for one class: attribute
/// initializers first, then method bodies, under an environment seeded with
/// the self reference bound to the class's own name.
pub open spec fn class_expr_errs(c: Class, t: Seq<ClassInfoV>) -> Seq<ErrorV> {
    let env0 = seq![("self"@, c.name@)];
    let aw = attr_walk(c.feature_list@, c.name@, env0, t);
    aw.1 + method_walk(c.feature_list@, c.name@, aw.0, t)
}

/// The type-checking diagnostics of the first `k` classes, builtins skipped.
pub open spec fn expr_errors_upto(cs: Seq<Class>, t: Seq<ClassInfoV>, k: int) -> Seq<ErrorV>
    decreases k,
{
    if k <= 0 {
        Seq::empty()
    } else {
        expr_errors_upto(cs, t, k - 1) + if is_builtin_name(cs[k - 1].name@) {
            Seq::empty()
        } else {
            class_expr_errs(cs[k - 1], t)
        }
    }
}

/// Everything the type checker reports for a class list.
pub open spec fn expr_errors(cs: Seq<Class>) -> Seq<ErrorV> {
    expr_errors_upto(cs, table_of(cs), cs.len() as int)
}

/// Whether a class name is one of the bootstrapped builtin classes.
fn is_builtin_class(name: &str) -> (r: bool)
    ensures
        r == is_builtin_name(name@),
{
    str_eq(name, "Object") || str_eq(name, "IO") || str_eq(name, "String") || str_eq(name, "Int")
        || str_eq(name, "Bool")
}

/// Resolve a method by walking the inheritance chain upward from `start`.
fn resolve_method(class_table: &Vec<ClassInfo>, start: &str, id: &str) -> (r: Option<
    (String, Vec<String>),
>)
    ensures
        ({
            let m = resolve_walk(tview(class_table@), start@, id@, tview(class_table@).len() + 1);
            match r {
                Some(p) => m is Some && m->Some_0.1 == p.0@ && m->Some_0.2 == strs_view(p.1@),
                None => m is None,
            }
        }),
{
    let ghost tv = tview(class_table@);
    let mut cur: String = String::from_str(start);
    let mut rem: usize = class_table.len();
    let mut res: Option<(String, Vec<String>)> = None;
    let mut done = false;
    while !done
        invariant
            tv == tview(class_table@),
            rem <= tv.len(),
            !done ==> res is None,
            !done ==> resolve_walk(tv, start@, id@, tv.len() + 1) == resolve_walk(tv, cur@, id@,
                rem as nat + 1),
            done ==> ({
                let m = resolve_walk(tv, start@, id@, tv.len() + 1);
                match res {
                    Some(p) => m is Some && m->Some_0.1 == p.0@ && m->Some_0.2 == strs_view(p.1@),
                    None => m is None,
                }
            }),
        decreases (if done { 0int } else { 1int }) + rem,
    {
        match find_class(class_table, cur.as_str()) {
            None => {
                done = true;
            },
            Some(ci) => {
                match find_sig(&class_table[ci].methods, id) {
                    Some(si) => {
                        proof {
                            assert(table_lookup(tv, cur@)->Some_0.methods == sigs_view(
                                class_table@[ci as int].methods@));
                        }
                        res = Some(
                            (
                                class_table[ci].methods[si].1.clone(),
                                clone_strs(&class_table[ci].methods[si].2),
                            ),
                        );
                        done = true;
                    },
                    None => {
                        let parent = class_table[ci].parent.clone();
                        if string_eq(&parent, &cur) {
                            done = true;
                        } else if rem == 0 {
                            proof {
                                assert(resolve_walk(tv, parent@, id@, 0nat) is None);
                            }
                            done = true;
                        } else {
                            cur = parent;
                            rem -= 1;
                        }
                    },
                }
            },
        }
    }
    res
}

/// Infer the static type of one expression under a scope environment,
/// reporting every diagnostic of its subtree, in order, to the error sink.
#[verifier::loop_isolation(false)]
#[verifier::rlimit(100)]
fn infer_expr_type(
    expr: &TypedExpr,
    current_class: &str,
    env: &Vec<(String, String)>,
    class_table: &Vec<ClassInfo>,
    ec: &mut ErrorCollector,
) -> (r: String)
    ensures
        ({
            let res = infer(*expr, current_class@, pairs_view(env@), tview(class_table@));
            r@ == res.0 && final(ec)@ == old(ec)@ + res.1
        }),
    decreases *expr,
{
    let ghost cc = current_class@;
    let ghost envv = pairs_view(env@);
    let ghost tv = tview(class_table@);
    let ghost res = infer(*expr, cc, envv, tv);
    let ghost e0 = old(ec)@;
    match &expr.expr {
        Expr::Identifier(name) => {
            match env_get(env, name.as_str()) {
                Some(ty) => {
                    proof {
                        assert(ec@ =~= e0 + res.1);
                    }
                    ty
                },
                None => {
                    ec.add(SemanticError::UndefinedVariable { name: name.clone(), line: expr.line });
                    proof {
                        assert(ec@ =~= e0 + res.1);
                    }
                    String::from_str("Object")
                },
            }
        },
        Expr::Int(_) => {
            proof {
                assert(ec@ =~= e0 + res.1);
            }
            String::from_str("Int")
        },
        Expr::Bool(_) => {
            proof {
                assert(ec@ =~= e0 + res.1);
            }
            String::from_str("Bool")
        },
        Expr::Str(_) => {
            proof {
                assert(ec@ =~= e0 + res.1);
            }
            String::from_str("String")
        },
        Expr::New(tn) => {
            match find_class(class_table, tn.as_str()) {
                None => {
                    ec.add(SemanticError::UndefinedClass { tname: tn.clone(), line: expr.line });
                    proof {
                        assert(ec@ =~= e0 + res.1);
                    }
                    String::from_str("Object")
                },
                Some(i) => {
                    proof {
                        assert(tview(class_table@)[i as int].name == tn@);
                        assert(table_contains(tv, tn@));
                        assert(ec@ =~= e0 + res.1);
                    }
                    tn.clone()
                },
            }
        },
        Expr::Assignment(var, rhs) => {
            let rty = infer_expr_type(&**rhs, current_class, env, class_table, ec);
            match env_get(env, var.as_str()) {
                Some(vt) => {
                    if !is_subtype(rty.as_str(), vt.as_str(), class_table) {
                        ec.add(SemanticError::TypeMismatch {
                            expected: vt.clone(),
                            found: rty.clone(),
                            line: expr.line,
                        });
                    }
                    proof {
                        assert(ec@ =~= e0 + res.1);
                    }
                    vt
                },
                None => {
                    ec.add(SemanticError::UndefinedVariable { name: var.clone(), line: expr.line });
                    proof {
                        assert(ec@ =~= e0 + res.1);
                    }
                    rty
                },
            }
        },
        Expr::Math { lhs, op: _, rhs } => {
            let lt = infer_expr_type(&**lhs, current_class, env, class_table, ec);
            let rt = infer_expr_type(&**rhs, current_class, env, class_table, ec);
            if !str_eq(lt.as_str(), "Int") {
                ec.add(SemanticError::TypeMismatch {
                    expected: String::from_str("Int"),
                    found: lt.clone(),
                    line: lhs.line,
                });
            }
            if !str_eq(rt.as_str(), "Int") {
                ec.add(SemanticError::TypeMismatch {
                    expected: String::from_str("Int"),
                    found: rt.clone(),
                    line: rhs.line,
                });
            }
            proof {
                assert(ec@ =~= e0 + res.1);
            }
            String::from_str("Int")
        },
        Expr::Comparison { lhs, op: _, rhs } => {
            let lt = infer_expr_type(&**lhs, current_class, env, class_table, ec);
            let rt = infer_expr_type(&**rhs, current_class, env, class_table, ec);
            if !string_eq(&lt, &rt) {
                ec.add(SemanticError::TypeMismatch {
                    expected: lt.clone(),
                    found: rt.clone(),
                    line: expr.line,
                });
            }
            proof {
                assert(ec@ =~= e0 + res.1);
            }
            String::from_str("Bool")
        },
        Expr::UnaryOperation { op, s } => {
            let st = infer_expr_type(&**s, current_class, env, class_table, ec);
            match op {
                UnaryOperator::Neg => {
                    if !str_eq(st.as_str(), "Int") {
                        ec.add(SemanticError::TypeMismatch {
                            expected: String::from_str("Int"),
                            found: st.clone(),
                            line: s.line,
                        });
                    }
                    proof {
                        assert(ec@ =~= e0 + res.1);
                    }
                    String::from_str("Int")
                },
                UnaryOperator::Not => {
                    if !str_eq(st.as_str(), "Bool") {
                        ec.add(SemanticError::TypeMismatch {
                            expected: String::from_str("Bool"),
                            found: st.clone(),
                            line: s.line,
                        });
                    }
                    proof {
                        assert(ec@ =~= e0 + res.1);
                    }
                    String::from_str("Bool")
                },
            }
        },
        Expr::Conditional { test, then, orelse } => {
            let tt = infer_expr_type(&**test, current_class, env, class_table, ec);
            if !str_eq(tt.as_str(), "Bool") {
                ec.add(SemanticError::TypeMismatch {
                    expected: String::from_str("Bool"),
                    found: tt.clone(),
                    line: test.line,
                });
            }
            let t2 = infer_expr_type(&**then, current_class, env, class_table, ec);
            let t3 = infer_expr_type(&**orelse, current_class, env, class_table, ec);
            let sub32 = is_subtype(t3.as_str(), t2.as_str(), class_table);
            let sub23 = is_subtype(t2.as_str(), t3.as_str(), class_table);
            if !sub32 && !sub23 {
                ec.add(SemanticError::TypeMismatch {
                    expected: t2.clone(),
                    found: t3.clone(),
                    line: expr.line,
                });
            }
            proof {
                assert(ec@ =~= e0 + res.1);
            }
            if sub23 {
                t3
            } else if sub32 {
                t2
            } else {
                String::from_str("Object")
            }
        },
        Expr::While { test, body } => {
            let tt = infer_expr_type(&**test, current_class, env, class_table, ec);
            if !str_eq(tt.as_str(), "Bool") {
                ec.add(SemanticError::TypeMismatch {
                    expected: String::from_str("Bool"),
                    found: tt.clone(),
                    line: test.line,
                });
            }
            let _bt = infer_expr_type(&**body, current_class, env, class_table, ec);
            proof {
                assert(ec@ =~= e0 + res.1);
            }
            String::from_str("Object")
        },
        Expr::Isvoid(inner) => {
            let _it = infer_expr_type(&**inner, current_class, env, class_table, ec);
            proof {
                assert(ec@ =~= e0 + res.1);
            }
            String::from_str("Bool")
        },
        Expr::Block(es) => {
            let ghost iseq = infer_seq(es@, cc, envv, tv);
            let mut last = String::from_str("Object");
            let ghost mut pre: Seq<Seq<char>> = Seq::empty();
            proof {
                assert(es@.skip(0) =~= es@);
                assert(Seq::<Seq<char>>::empty() + iseq.0 =~= iseq.0);
            }
            let mut i: usize = 0;
            while i < es.len()
                invariant
                    i <= es.len(),
                    cc == current_class@,
                    envv == pairs_view(env@),
                    tv == tview(class_table@),
                    iseq == infer_seq(es@, cc, envv, tv),
                    iseq.0 == pre + infer_seq(es@.skip(i as int), cc, envv, tv).0,
                    e0 + iseq.1 == ec@ + infer_seq(es@.skip(i as int), cc, envv, tv).1,
                    last@ == (if pre.len() == 0 { "Object"@ } else { pre.last() }),
                decreases es.len() - i,
            {
                let ghost sk = es@.skip(i as int);
                let ghost ecpre = ec@;
                proof {
                    assert(sk[0] == es@[i as int]);
                    assert(sk.drop_first() =~= es@.skip(i as int + 1));
                }
                last = infer_expr_type(&es[i], current_class, env, class_table, ec);
                proof {
                    let h = infer(es@[i as int], cc, envv, tv);
                    let rest = infer_seq(es@.skip(i as int + 1), cc, envv, tv);
                    assert(pre + (seq![h.0] + rest.0) =~= (pre + seq![h.0]) + rest.0);
                    assert(e0 + iseq.1 =~= (ecpre + h.1) + rest.1);
                    pre = pre + seq![h.0];
                }
                i += 1;
            }
            proof {
                assert(es@.skip(es@.len() as int) =~= Seq::<TypedExpr>::empty());
                assert(iseq.0 =~= pre);
                assert(ec@ =~= e0 + res.1);
            }
            last
        },
        Expr::Let(binds, body) => {
            let ghost il = infer_let(binds@, cc, envv, tv);
            let mut new_env = clone_env(env);
            proof {
                assert(binds@.skip(0) =~= binds@);
            }
            let mut i: usize = 0;
            while i < binds.len()
                invariant
                    i <= binds.len(),
                    cc == current_class@,
                    envv == pairs_view(env@),
                    tv == tview(class_table@),
                    il == infer_let(binds@, cc, envv, tv),
                    il.0 == infer_let(binds@.skip(i as int), cc, pairs_view(new_env@), tv).0,
                    e0 + il.1 == ec@ + infer_let(binds@.skip(i as int), cc, pairs_view(new_env@),
                        tv).1,
                decreases binds.len() - i,
            {
                let ghost sk = binds@.skip(i as int);
                let ghost ecpre = ec@;
                let ghost epre = pairs_view(new_env@);
                proof {
                    assert(sk[0] == binds@[i as int]);
                    assert(sk.drop_first() =~= binds@.skip(i as int + 1));
                }
                match &binds[i].2 {
                    Some(init) => {
                        let fty = infer_expr_type(init, current_class, &new_env, class_table, ec);
                        if !is_subtype(fty.as_str(), binds[i].1.as_str(), class_table) {
                            ec.add(SemanticError::TypeMismatch {
                                expected: binds[i].1.clone(),
                                found: fty,
                                line: init.line,
                            });
                        }
                    },
                    None => {},
                }
                new_env.push((binds[i].0.clone(), binds[i].1.clone()));
                proof {
                    assert(pairs_view(new_env@) =~= epre.push(
                        (binds@[i as int].0@, binds@[i as int].1@)));
                    let rest = infer_let(binds@.skip(i as int + 1), cc, pairs_view(new_env@), tv);
                    assert(e0 + il.1 =~= ec@ + rest.1);
                }
                i += 1;
            }
            proof {
                assert(binds@.skip(binds@.len() as int) =~= Seq::<(String, String, Option<
                    TypedExpr,
                >)>::empty());
            }
            let bty = infer_expr_type(&**body, current_class, &new_env, class_table, ec);
            proof {
                assert(ec@ =~= e0 + res.1);
            }
            bty
        },
        Expr::Case(scrut, branches) => {
            let sty = infer_expr_type(&**scrut, current_class, env, class_table, ec);
            if str_eq(sty.as_str(), "Object") {
                ec.add(SemanticError::CaseOnVoid { line: scrut.line });
            }
            let ghost emid = ec@;
            let ghost icase = infer_case(branches@, cc, envv, tv, "Object"@);
            let mut result_type = String::from_str("Object");
            proof {
                assert(branches@.skip(0) =~= branches@);
            }
            let mut i: usize = 0;
            while i < branches.len()
                invariant
                    i <= branches.len(),
                    cc == current_class@,
                    envv == pairs_view(env@),
                    tv == tview(class_table@),
                    icase == infer_case(branches@, cc, envv, tv, "Object"@),
                    icase.0 == infer_case(branches@.skip(i as int), cc, envv, tv, result_type@).0,
                    emid + icase.1 == ec@ + infer_case(branches@.skip(i as int), cc, envv, tv,
                        result_type@).1,
                decreases branches.len() - i,
            {
                let ghost sk = branches@.skip(i as int);
                let ghost ecpre = ec@;
                let ghost runpre = result_type@;
                proof {
                    assert(sk[0] == branches@[i as int]);
                    assert(sk.drop_first() =~= branches@.skip(i as int + 1));
                }
                match find_class(class_table, branches[i].tid.as_str()) {
                    None => {
                        ec.add(SemanticError::UndefinedClass {
                            tname: branches[i].tid.clone(),
                            line: branches[i].expr.line,
                        });
                    },
                    Some(ti) => {
                        proof {
                            assert(tview(class_table@)[ti as int].name == branches@[i as int].tid@);
                            assert(table_contains(tv, branches@[i as int].tid@));
                        }
                    },
                }
                let mut branch_env = clone_env(env);
                branch_env.push((branches[i].id.clone(), branches[i].tid.clone()));
                proof {
                    assert(pairs_view(branch_env@) =~= envv.push(
                        (branches@[i as int].id@, branches@[i as int].tid@)));
                }
                let bty = infer_expr_type(&branches[i].expr, current_class, &branch_env,
                    class_table, ec);
                if is_subtype(bty.as_str(), result_type.as_str(), class_table) {
                } else if is_subtype(result_type.as_str(), bty.as_str(), class_table) {
                    result_type = bty;
                } else {
                    result_type = String::from_str("Object");
                }
                proof {
                    let rest = infer_case(branches@.skip(i as int + 1), cc, envv, tv,
                        result_type@);
                    assert(emid + icase.1 =~= ec@ + rest.1);
                }
                i += 1;
            }
            proof {
                assert(branches@.skip(branches@.len() as int) =~= Seq::<CaseBranch>::empty());
                assert(ec@ =~= e0 + res.1);
            }
            result_type
        },
        Expr::Paren(inner) => {
            let r = infer_expr_type(&**inner, current_class, env, class_table, ec);
            r
        },
        Expr::Dispatch { target, targettype, id, exprs } => {
            let ghost iseq = infer_seq(exprs@, cc, envv, tv);
            let mut arg_types: Vec<String> = Vec::new();
            proof {
                assert(exprs@.skip(0) =~= exprs@);
                assert(strs_view(arg_types@) =~= Seq::<Seq<char>>::empty());
                assert(Seq::<Seq<char>>::empty() + iseq.0 =~= iseq.0);
            }
            let mut i: usize = 0;
            while i < exprs.len()
                invariant
                    i <= exprs.len(),
                    cc == current_class@,
                    envv == pairs_view(env@),
                    tv == tview(class_table@),
                    iseq == infer_seq(exprs@, cc, envv, tv),
                    iseq.0 == strs_view(arg_types@) + infer_seq(exprs@.skip(i as int), cc, envv,
                        tv).0,
                    e0 + iseq.1 == ec@ + infer_seq(exprs@.skip(i as int), cc, envv, tv).1,
                decreases exprs.len() - i,
            {
                let ghost sk = exprs@.skip(i as int);
                let ghost ecpre = ec@;
                let ghost tpre = strs_view(arg_types@);
                proof {
                    assert(sk[0] == exprs@[i as int]);
                    assert(sk.drop_first() =~= exprs@.skip(i as int + 1));
                }
                let aty = infer_expr_type(&exprs[i], current_class, env, class_table, ec);
                arg_types.push(aty);
                proof {
                    let h = infer(exprs@[i as int], cc, envv, tv);
                    let rest = infer_seq(exprs@.skip(i as int + 1), cc, envv, tv);
                    assert(strs_view(arg_types@) =~= tpre.push(h.0));
                    assert(tpre + (seq![h.0] + rest.0) =~= strs_view(arg_types@) + rest.0);
                    assert(e0 + iseq.1 =~= (ecpre + h.1) + rest.1);
                }
                i += 1;
            }
            proof {
                assert(exprs@.skip(exprs@.len() as int) =~= Seq::<TypedExpr>::empty());
                assert(iseq.0 =~= strs_view(arg_types@));
            }
            let ghost lk = dispatch_lookup(*targettype, *target, cc, envv, tv, expr.line as nat);
            let lookup_class: String = match targettype {
                Some(tc) => {
                    match find_class(class_table, tc.as_str()) {
                        None => {
                            ec.add(SemanticError::UndefinedClass {
                                tname: tc.clone(),
                                line: expr.line,
                            });
                            String::from_str("Object")
                        },
                        Some(ti) => {
                            proof {
                                assert(tview(class_table@)[ti as int].name == tc@);
                                assert(table_contains(tv, tc@));
                            }
                            tc.clone()
                        },
                    }
                },
                None => {
                    match target {
                        Some(te) => infer_expr_type(&**te, current_class, env, class_table, ec),
                        None => String::from_str(current_class),
                    }
                },
            };
            proof {
                assert(lookup_class@ == lk.0);
                assert(ec@ =~= e0 + (iseq.1 + lk.1));
            }
            let ghost emid = ec@;
            match resolve_method(class_table, lookup_class.as_str(), id.as_str()) {
                None => {
                    ec.add(SemanticError::ArgumentCountMismatch {
                        method: id.clone(),
                        expected: 0,
                        found: arg_types.len(),
                        line: expr.line,
                    });
                    proof {
                        assert(ec@ =~= e0 + res.1);
                    }
                    String::from_str("Object")
                },
                Some(found) => {
                    let (ret_ty, params) = found;
                    let ghost m = resolve_walk(tv, lk.0, id@, tv.len() + 1)->Some_0;
                    if params.len() == arg_types.len() {
                        let mut idx: usize = 0;
                        while idx < arg_types.len()
                            invariant
                                idx <= arg_types.len(),
                                arg_types.len() == params.len(),
                                tv == tview(class_table@),
                                ec@ == emid + arg_check_errs(strs_view(arg_types@), strs_view(
                                    params@), tv, expr.line as nat, idx as int),
                            decreases arg_types.len() - idx,
                        {
                            let ghost apre = arg_check_errs(strs_view(arg_types@), strs_view(
                                params@), tv, expr.line as nat, idx as int);
                            if !is_subtype(arg_types[idx].as_str(), params[idx].as_str(),
                                class_table) {
                                ec.add(SemanticError::TypeMismatch {
                                    expected: params[idx].clone(),
                                    found: arg_types[idx].clone(),
                                    line: expr.line,
                                });
                                proof {
                                    lemma_push_concat(emid, apre, ErrorV::TypeMismatch {
                                        expected: strs_view(params@)[idx as int],
                                        found: strs_view(arg_types@)[idx as int],
                                        line: expr.line as nat,
                                    });
                                }
                            } else {
                                proof {
                                    lemma_add_empty(apre);
                                }
                            }
                            idx += 1;
                        }
                        proof {
                            assert(ec@ =~= e0 + res.1);
                        }
                        ret_ty
                    } else {
                        ec.add(SemanticError::ArgumentCountMismatch {
                            method: id.clone(),
                            expected: params.len(),
                            found: arg_types.len(),
                            line: expr.line,
                        });
                        proof {
                            assert(ec@ =~= e0 + res.1);
                        }
                        String::from_str("Object")
                    }
                },
            }
        },
    }
}

/// Type-check every user-declared class: each attribute initializer against
/// its declared type, then each method body against its declared return
/// type, under an environment seeded with the self reference and grown with
/// the class's attributes, reporting all diagnostics to the error sink.
#[verifier::loop_isolation(false)]
#[verifier::rlimit(100)]
pub fn check_expressions(classes: &Vec<Class>, ec: &mut ErrorCollector)
    ensures
        final(ec)@ == old(ec)@ + expr_errors(classes@),
{
    let ghost cs = classes@;
    let ghost e0 = old(ec)@;
    let table = build_class_table(classes);
    let ghost tv = table_of(cs);
    let n = classes.len();
    proof {
        assert(ec@ =~= e0 + expr_errors_upto(cs, tv, 0));
    }
    let mut i: usize = 0;
    while i < n
        invariant
            n == classes.len(),
            i <= n,
            cs == classes@,
            tview(table@) == table_of(cs),
            tv == table_of(cs),
            ec@ == e0 + expr_errors_upto(cs, tv, i as int),
        decreases n - i,
    {
        if !is_builtin_class(classes[i].name.as_str()) {
            let ghost ecls = ec@;
            let cls_name = classes[i].name.clone();
            let fs = &classes[i].feature_list;
            let mut env: Vec<(String, String)> = Vec::new();
            env.push((String::from_str("self"), classes[i].name.clone()));
            proof {
                assert(pairs_view(env@) =~= seq![("self"@, cs[i as int].name@)]);
            }
            let ghost env0v = pairs_view(env@);
            let ghost aw = attr_walk(fs@, cs[i as int].name@, env0v, tv);
            proof {
                assert(fs@.skip(0) =~= fs@);
            }

            // Attribute initializers, building the class environment.
            let mut j: usize = 0;
            while j < fs.len()
                invariant
                    j <= fs.len(),
                    cs == classes@,
                    i < classes.len(),
                    fs@ == cs[i as int].feature_list@,
                    cls_name@ == cs[i as int].name@,
                    tview(table@) == table_of(cs),
                    tv == table_of(cs),
                    aw == attr_walk(fs@, cs[i as int].name@, env0v, tv),
                    aw.0 == attr_walk(fs@.skip(j as int), cs[i as int].name@, pairs_view(env@),
                        tv).0,
                    ecls + aw.1 == ec@ + attr_walk(fs@.skip(j as int), cs[i as int].name@,
                        pairs_view(env@), tv).1,
                decreases fs.len() - j,
            {
                let ghost sk = fs@.skip(j as int);
                let ghost ecpre = ec@;
                let ghost epre = pairs_view(env@);
                proof {
                    assert(sk[0] == fs@[j as int]);
                    assert(sk.drop_first() =~= fs@.skip(j as int + 1));
                }
                match &fs[j] {
                    Feature::Attribute(vd) => {
                        match &vd.expr {
                            Some(init) => {
                                let fty = infer_expr_type(init, cls_name.as_str(), &env, &table,
                                    ec);
                                if !is_subtype(fty.as_str(), vd.tid.as_str(), &table) {
                                    ec.add(SemanticError::TypeMismatch {
                                        expected: vd.tid.clone(),
                                        found: fty,
                                        line: init.line,
                                    });
                                }
                            },
                            None => {},
                        }
                        env.push((vd.oid.clone(), vd.tid.clone()));
                        proof {
                            assert(pairs_view(env@) =~= epre.push(
                                (fs@[j as int]->Attribute_0.oid@, fs@[j as int]->Attribute_0.tid@)));
                            let rest = attr_walk(fs@.skip(j as int + 1), cs[i as int].name@,
                                pairs_view(env@), tv);
                            assert(ecls + aw.1 =~= ec@ + rest.1);
                        }
                    },
                    Feature::Method(_, _, _, _) => {},
                }
                j += 1;
            }
            proof {
                assert(fs@.skip(fs@.len() as int) =~= Seq::<Feature>::empty());
            }
            let ghost envfv = pairs_view(env@);
            let ghost eattrs = ec@;
            let ghost mw = method_walk(fs@, cs[i as int].name@, envfv, tv);
            proof {
                assert(fs@.skip(0) =~= fs@);
            }

            // Method bodies, each under the class environment plus its
            // parameters.
            let mut j: usize = 0;
            while j < fs.len()
                invariant
                    j <= fs.len(),
                    cs == classes@,
                    i < classes.len(),
                    fs@ == cs[i as int].feature_list@,
                    cls_name@ == cs[i as int].name@,
                    tview(table@) == table_of(cs),
                    tv == table_of(cs),
                    envfv == pairs_view(env@),
                    mw == method_walk(fs@, cs[i as int].name@, envfv, tv),
                    eattrs + mw == ec@ + method_walk(fs@.skip(j as int), cs[i as int].name@, envfv,
                        tv),
                decreases fs.len() - j,
            {
                let ghost sk = fs@.skip(j as int);
                let ghost ecpre = ec@;
                proof {
                    assert(sk[0] == fs@[j as int]);
                    assert(sk.drop_first() =~= fs@.skip(j as int + 1));
                }
                match &fs[j] {
                    Feature::Attribute(_) => {},
                    Feature::Method(_, args, ret, body) => {
                        let mut method_env = clone_env(&env);
                        let mut a: usize = 0;
                        while a < args.len()
                            invariant
                                a <= args.len(),
                                envfv == pairs_view(env@),
                                pairs_view(method_env@) == envfv + args@.map_values(
                                    |ad: ArgDecl| (ad.id@, ad.tid@)).take(a as int),
                            decreases args.len() - a,
                        {
                            let ghost mpre = pairs_view(method_env@);
                            method_env.push((args[a].id.clone(), args[a].tid.clone()));
                            proof {
                                let am = args@.map_values(|ad: ArgDecl| (ad.id@, ad.tid@));
                                assert(pairs_view(method_env@) =~= mpre.push(am[a as int]));
                                assert(envfv + am.take(a as int + 1) =~= (envfv + am.take(
                                    a as int)).push(am[a as int]));
                            }
                            a += 1;
                        }
                        proof {
                            let am = args@.map_values(|ad: ArgDecl| (ad.id@, ad.tid@));
                            assert(am.take(args@.len() as int) =~= am);
                            assert(pairs_view(method_env@) =~= args_env(envfv, args@));
                        }
                        let fty = infer_expr_type(body, cls_name.as_str(), &method_env, &table,
                            ec);
                        if !is_subtype(fty.as_str(), ret.as_str(), &table) {
                            ec.add(SemanticError::TypeMismatch {
                                expected: ret.clone(),
                                found: fty,
                                line: body.line,
                            });
                        }
                        proof {
                            let rest = method_walk(fs@.skip(j as int + 1), cs[i as int].name@,
                                envfv, tv);
                            assert(eattrs + mw =~= ec@ + rest);
                        }
                    },
                }
                j += 1;
            }
            proof {
                assert(fs@.skip(fs@.len() as int) =~= Seq::<Feature>::empty());
                assert(ec@ =~= e0 + expr_errors_upto(cs, tv, i as int + 1));
            }
        } else {
            proof {
                lemma_add_empty(expr_errors_upto(cs, tv, i as int));
            }
        }
        i += 1;
    }
}

} // verus!


