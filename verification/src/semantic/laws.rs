//! Properties of the analysis phases, stated and proved against the
//! specifications that the phase contracts use.

use vstd::prelude::*;

use crate::ast::{Class, Expr, TypedExpr};
use crate::semantic::analyzer::{
    basic_errs, cycle_err_for, cycle_errs, declared, dup_errs, inheritance_errors,
    is_basic_parent, pmap_entries, undef_errs,
};
use crate::semantic::class_table::{method_sigs, names_contain, parent_of, table_lookup, table_of, with_root, ClassInfoV};
use crate::semantic::errors::ErrorV;
use crate::semantic::symbols::{
    first_sig, is_builtin_name, override_errs, override_errs_class, symbol_dup_errs,
    symbols_errors,
};
use crate::semantic::type_checker::{dispatch_lookup, infer, infer_case, infer_seq, is_subtype_spec, resolve_walk};

verus! {

broadcast use vstd::seq::group_seq_axioms;

/// How many duplicate-class diagnostics a report holds.
pub open spec fn count_dup_class(errs: Seq<ErrorV>) -> int
    decreases errs.len(),
{
    if errs.len() == 0 {
        0
    } else {
        (if errs[0] is DuplicateClass {
            1int
        } else {
            0int
        }) + count_dup_class(errs.drop_first())
    }
}

proof fn lemma_count_dup_empty()
    ensures
        count_dup_class(Seq::<ErrorV>::empty()) == 0,
{
}

proof fn lemma_count_dup_single(x: ErrorV)
    ensures
        count_dup_class(seq![x]) == (if x is DuplicateClass {
            1int
        } else {
            0int
        }),
{
    assert(seq![x].drop_first() =~= Seq::<ErrorV>::empty());
    lemma_count_dup_empty();
}

proof fn lemma_count_dup_add(a: Seq<ErrorV>, b: Seq<ErrorV>)
    ensures
        count_dup_class(a + b) == count_dup_class(a) + count_dup_class(b),
    decreases a.len(),
{
    if a.len() == 0 {
        assert(a + b =~= b);
    } else {
        assert((a + b).drop_first() =~= a.drop_first() + b);
        lemma_count_dup_add(a.drop_first(), b);
    }
}

proof fn lemma_basic_no_dup(cs: Seq<Class>, k: int)
    ensures
        count_dup_class(basic_errs(cs, k)) == 0,
    decreases k,
{
    if k > 0 {
        lemma_basic_no_dup(cs, k - 1);
        if is_basic_parent(parent_of(cs[k - 1])) {
            let x = ErrorV::InheritBasicType {
                class: cs[k - 1].name@,
                parent: parent_of(cs[k - 1]),
            };
            lemma_count_dup_single(x);
            lemma_count_dup_add(basic_errs(cs, k - 1), seq![x]);
        } else {
            lemma_count_dup_empty();
            lemma_count_dup_add(basic_errs(cs, k - 1), Seq::empty());
        }
    }
}

proof fn lemma_undef_no_dup(cs: Seq<Class>, pm: Seq<(Seq<char>, Seq<char>)>, k: int)
    ensures
        count_dup_class(undef_errs(cs, pm, k)) == 0,
    decreases k,
{
    if k > 0 {
        lemma_undef_no_dup(cs, pm, k - 1);
        if pm[k - 1].1 != "Object"@ && !crate::semantic::analyzer::declared(cs, pm[k - 1].1) {
            let x = ErrorV::UndefinedParent { class: pm[k - 1].0, parent: pm[k - 1].1 };
            lemma_count_dup_single(x);
            lemma_count_dup_add(undef_errs(cs, pm, k - 1), seq![x]);
        } else {
            lemma_count_dup_empty();
            lemma_count_dup_add(undef_errs(cs, pm, k - 1), Seq::empty());
        }
    }
}

proof fn lemma_cycle_no_dup(cs: Seq<Class>, pm: Seq<(Seq<char>, Seq<char>)>, k: int)
    ensures
        count_dup_class(cycle_errs(cs, pm, k)) == 0,
    decreases k,
{
    if k > 0 {
        lemma_cycle_no_dup(cs, pm, k - 1);
        lemma_count_dup_add(cycle_errs(cs, pm, k - 1), cycle_err_for(pm, cs[k - 1].name@));
        let ce = cycle_err_for(pm, cs[k - 1].name@);
        lemma_count_dup_empty();
        if cs[k - 1].name@ != "Object"@ {
            match crate::semantic::analyzer::floyd(pm, cs[k - 1].name@, cs[k - 1].name@,
                crate::semantic::analyzer::floyd_fuel(pm.len())) {
                None => {},
                Some(meet) => {
                    let x = ErrorV::InheritanceCycle {
                        cycle: crate::semantic::analyzer::cycle_path(pm, meet),
                    };
                    lemma_count_dup_single(x);
                    assert(ce =~= seq![x]);
                },
            }
        }
    }
}

/// Declaring the same class name twice reports exactly one duplicate-class
/// diagnostic: for any two classes with equal names, the inheritance
/// validator's report holds one and only one error of that kind.
pub proof fn lemma_duplicate_class_reported_once(c1: Class, c2: Class)
    requires
        c1.name@ == c2.name@,
    ensures
        count_dup_class(inheritance_errors(seq![c1, c2])) == 1,
{
    let cs = seq![c1, c2];
    let d2 = dup_errs(cs, 2);
    let d1 = dup_errs(cs, 1);
    assert(cs[0].name@ == cs[1].name@);
    assert(dup_errs(cs, 0) == Seq::<ErrorV>::empty());
    assert(d1 =~= Seq::<ErrorV>::empty() + Seq::<ErrorV>::empty());
    assert(d2 =~= d1 + seq![ErrorV::DuplicateClass { class: cs[1].name@ }]);
    lemma_count_dup_empty();
    lemma_count_dup_single(ErrorV::DuplicateClass { class: cs[1].name@ });
    lemma_count_dup_add(d1, seq![ErrorV::DuplicateClass { class: cs[1].name@ }]);
    assert(count_dup_class(d1) == 0);
    assert(count_dup_class(d2) == 1);
    let pm = with_root(pmap_entries(cs, 2));
    lemma_basic_no_dup(cs, 2);
    lemma_undef_no_dup(cs, pm, pm.len() as int);
    lemma_cycle_no_dup(cs, pm, 2);
    lemma_count_dup_add(d2, basic_errs(cs, 2));
    lemma_count_dup_add(d2 + basic_errs(cs, 2), undef_errs(cs, pm, pm.len() as int));
    lemma_count_dup_add(d2 + basic_errs(cs, 2) + undef_errs(cs, pm, pm.len() as int), cycle_errs(
        cs, pm, 2));
}

proof fn lemma_contains_concat_left<A>(a: Seq<A>, b: Seq<A>, x: A)
    requires
        a.contains(x),
    ensures
        (a + b).contains(x),
{
    let i = choose|i: int| 0 <= i < a.len() && a[i] == x;
    assert((a + b)[i] == x);
}

proof fn lemma_contains_concat_right<A>(a: Seq<A>, b: Seq<A>, x: A)
    requires
        b.contains(x),
    ensures
        (a + b).contains(x),
{
    let i = choose|i: int| 0 <= i < b.len() && b[i] == x;
    assert((a + b)[a.len() + i] == x);
}

proof fn lemma_basic_err_at(cs: Seq<Class>, i: int, k: int)
    requires
        0 <= i < k <= cs.len(),
        is_basic_parent(parent_of(cs[i])),
    ensures
        basic_errs(cs, k).contains(ErrorV::InheritBasicType {
            class: cs[i].name@,
            parent: parent_of(cs[i]),
        }),
    decreases k,
{
    let e = ErrorV::InheritBasicType { class: cs[i].name@, parent: parent_of(cs[i]) };
    if k - 1 == i {
        assert(seq![e][0] == e);
        lemma_contains_concat_right(basic_errs(cs, k - 1), seq![e], e);
    } else {
        lemma_basic_err_at(cs, i, k - 1);
        if is_basic_parent(parent_of(cs[k - 1])) {
            lemma_contains_concat_left(basic_errs(cs, k - 1), seq![ErrorV::InheritBasicType {
                class: cs[k - 1].name@,
                parent: parent_of(cs[k - 1]),
            }], e);
        } else {
            assert(basic_errs(cs, k) =~= basic_errs(cs, k - 1) + Seq::<ErrorV>::empty());
            lemma_contains_concat_left(basic_errs(cs, k - 1), Seq::empty(), e);
        }
    }
}

/// A class declaring a sealed leaf type or the self-type marker as its
/// parent is always reported with an illegal-base-type diagnostic, whatever
/// else the class list contains and whether or not that parent class is
/// itself well formed.
pub proof fn lemma_illegal_base_reported(cs: Seq<Class>, i: int)
    requires
        0 <= i < cs.len(),
        is_basic_parent(parent_of(cs[i])),
    ensures
        inheritance_errors(cs).contains(ErrorV::InheritBasicType {
            class: cs[i].name@,
            parent: parent_of(cs[i]),
        }),
{
    let e = ErrorV::InheritBasicType { class: cs[i].name@, parent: parent_of(cs[i]) };
    let pm = with_root(pmap_entries(cs, cs.len() as int));
    lemma_basic_err_at(cs, i, cs.len() as int);
    lemma_contains_concat_right(dup_errs(cs, cs.len() as int), basic_errs(cs, cs.len() as int), e);
    lemma_contains_concat_left(dup_errs(cs, cs.len() as int) + basic_errs(cs, cs.len() as int),
        undef_errs(cs, pm, pm.len() as int), e);
    lemma_contains_concat_left(dup_errs(cs, cs.len() as int) + basic_errs(cs, cs.len() as int)
        + undef_errs(cs, pm, pm.len() as int), cycle_errs(cs, pm, cs.len() as int), e);
}

proof fn lemma_override_err_at(
    c: Class,
    pname: Seq<char>,
    pms: Seq<(Seq<char>, Seq<char>, Seq<Seq<char>>)>,
    i: int,
    k: int,
)
    requires
        0 <= i < k,
        k <= method_sigs(c.feature_list@, c.feature_list@.len() as int).len(),
        ({
            let cms = method_sigs(c.feature_list@, c.feature_list@.len() as int);
            &&& (forall|j: int| 0 <= j < i ==> (#[trigger] cms[j]).0 != cms[i].0)
            &&& first_sig(pms, cms[i].0) is Some
            &&& {
                let ps = first_sig(pms, cms[i].0)->Some_0;
                ps.1 != cms[i].1 || ps.2 != cms[i].2
            }
        }),
    ensures
        ({
            let cms = method_sigs(c.feature_list@, c.feature_list@.len() as int);
            let ps = first_sig(pms, cms[i].0)->Some_0;
            override_errs_class(c, pname, pms, k).contains(ErrorV::MethodOverrideMismatch {
                class: c.name@,
                method: cms[i].0,
                parent: pname,
                expected: ps.2,
                found: cms[i].2,
            })
        }),
    decreases k,
{
    let cms = method_sigs(c.feature_list@, c.feature_list@.len() as int);
    let ps = first_sig(pms, cms[i].0)->Some_0;
    let e = ErrorV::MethodOverrideMismatch {
        class: c.name@,
        method: cms[i].0,
        parent: pname,
        expected: ps.2,
        found: cms[i].2,
    };
    if k - 1 == i {
        assert(seq![e][0] == e);
        lemma_contains_concat_right(override_errs_class(c, pname, pms, k - 1), seq![e], e);
    } else {
        lemma_override_err_at(c, pname, pms, i, k - 1);
        let tail = override_errs_class(c, pname, pms, k).subrange(
            override_errs_class(c, pname, pms, k - 1).len() as int,
            override_errs_class(c, pname, pms, k).len() as int,
        );
        lemma_contains_concat_left(override_errs_class(c, pname, pms, k - 1),
            override_errs_class(c, pname, pms, k).skip(
                override_errs_class(c, pname, pms, k - 1).len() as int), e);
        assert(override_errs_class(c, pname, pms, k - 1) + override_errs_class(c, pname, pms,
            k).skip(override_errs_class(c, pname, pms, k - 1).len() as int) =~= override_errs_class(
            c, pname, pms, k));
    }
}

proof fn lemma_override_errs_step(cs: Seq<Class>, t: Seq<ClassInfoV>, i: int, k: int, x: ErrorV)
    requires
        0 <= i < k <= cs.len(),
        !is_builtin_name(cs[i].name@),
        cs[i].inherits is Some,
        table_lookup(t, cs[i].inherits->Some_0@) is Some,
        override_errs_class(cs[i], cs[i].inherits->Some_0@, table_lookup(t,
            cs[i].inherits->Some_0@)->Some_0.methods, method_sigs(cs[i].feature_list@,
            cs[i].feature_list@.len() as int).len() as int).contains(x),
    ensures
        override_errs(cs, t, k).contains(x),
    decreases k,
{
    if k - 1 == i {
        lemma_contains_concat_right(override_errs(cs, t, k - 1), override_errs_class(cs[i],
            cs[i].inherits->Some_0@, table_lookup(t, cs[i].inherits->Some_0@)->Some_0.methods,
            method_sigs(cs[i].feature_list@, cs[i].feature_list@.len() as int).len() as int), x);
    } else {
        lemma_override_errs_step(cs, t, i, k - 1, x);
        lemma_contains_concat_left(override_errs(cs, t, k - 1), override_errs(cs, t, k).skip(
            override_errs(cs, t, k - 1).len() as int), x);
        assert(override_errs(cs, t, k - 1) + override_errs(cs, t, k).skip(override_errs(cs, t, k
            - 1).len() as int) =~= override_errs(cs, t, k));
    }
}

/// An override whose signature differs from the parent's is always
/// reported: for any user class with an explicit parent found in the table,
/// if the first occurrence of one of its method names also stands in the
/// parent's signatures with a different return type or parameter type list,
/// the symbol checker's report carries a mismatch naming the method, the
/// class, the parent, and both full parameter type lists — the parent's as
/// expected, the class's own as found.
pub proof fn lemma_override_mismatch_reported(cs: Seq<Class>, i: int, mi: int)
    requires
        0 <= i < cs.len(),
        !is_builtin_name(cs[i].name@),
        cs[i].inherits is Some,
        table_lookup(table_of(cs), cs[i].inherits->Some_0@) is Some,
        ({
            let cms = method_sigs(cs[i].feature_list@, cs[i].feature_list@.len() as int);
            let pms = table_lookup(table_of(cs), cs[i].inherits->Some_0@)->Some_0.methods;
            &&& 0 <= mi < cms.len()
            &&& (forall|j: int| 0 <= j < mi ==> (#[trigger] cms[j]).0 != cms[mi].0)
            &&& first_sig(pms, cms[mi].0) is Some
            &&& {
                let ps = first_sig(pms, cms[mi].0)->Some_0;
                ps.1 != cms[mi].1 || ps.2 != cms[mi].2
            }
        }),
    ensures
        ({
            let cms = method_sigs(cs[i].feature_list@, cs[i].feature_list@.len() as int);
            let pms = table_lookup(table_of(cs), cs[i].inherits->Some_0@)->Some_0.methods;
            let ps = first_sig(pms, cms[mi].0)->Some_0;
            symbols_errors(cs).contains(ErrorV::MethodOverrideMismatch {
                class: cs[i].name@,
                method: cms[mi].0,
                parent: cs[i].inherits->Some_0@,
                expected: ps.2,
                found: cms[mi].2,
            })
        }),
{
    let t = table_of(cs);
    let cms = method_sigs(cs[i].feature_list@, cs[i].feature_list@.len() as int);
    let pms = table_lookup(t, cs[i].inherits->Some_0@)->Some_0.methods;
    let ps = first_sig(pms, cms[mi].0)->Some_0;
    let e = ErrorV::MethodOverrideMismatch {
        class: cs[i].name@,
        method: cms[mi].0,
        parent: cs[i].inherits->Some_0@,
        expected: ps.2,
        found: cms[mi].2,
    };
    lemma_override_err_at(cs[i], cs[i].inherits->Some_0@, pms, mi, cms.len() as int);
    lemma_override_errs_step(cs, t, i, cs.len() as int, e);
    lemma_contains_concat_right(symbol_dup_errs(cs, cs.len() as int), override_errs(cs, t,
        cs.len() as int), e);
}

/// The conditional's branch join raises a mismatch on incomparable branch
/// types and the conditional falls back to the root type: when neither
/// branch type is a subtype of the other, the expression's type is the root
/// type and a mismatch naming the then-branch type as expected and the
/// else-branch type as found, at the conditional's line, is reported.
pub proof fn lemma_conditional_join_incomparable(
    e: TypedExpr,
    test: Box<TypedExpr>,
    then: Box<TypedExpr>,
    orelse: Box<TypedExpr>,
    cls: Seq<char>,
    env: Seq<(Seq<char>, Seq<char>)>,
    t: Seq<ClassInfoV>,
)
    requires
        e.expr == (Expr::Conditional { test, then, orelse }),
        !is_subtype_spec(infer(*orelse, cls, env, t).0, infer(*then, cls, env, t).0, t),
        !is_subtype_spec(infer(*then, cls, env, t).0, infer(*orelse, cls, env, t).0, t),
    ensures
        infer(e, cls, env, t).0 == "Object"@,
        infer(e, cls, env, t).1.contains(ErrorV::TypeMismatch {
            expected: infer(*then, cls, env, t).0,
            found: infer(*orelse, cls, env, t).0,
            line: e.line as nat,
        }),
{
    let tr = infer(*test, cls, env, t);
    let t2 = infer(*then, cls, env, t);
    let t3 = infer(*orelse, cls, env, t);
    let e1 = tr.1 + if tr.0 != "Bool"@ {
        seq![ErrorV::TypeMismatch { expected: "Bool"@, found: tr.0, line: test.line as nat }]
    } else {
        Seq::empty()
    };
    let x = ErrorV::TypeMismatch { expected: t2.0, found: t3.0, line: e.line as nat };
    assert(infer(e, cls, env, t).1 == e1 + t2.1 + t3.1 + seq![x]);
    assert(seq![x][0] == x);
    lemma_contains_concat_right(e1 + t2.1 + t3.1, seq![x], x);
}

/// The case branch join, by contrast, reports nothing on an incomparable
/// pair: the running result silently resets to the root type, and the only
/// diagnostics of the step are the branch's own.
pub proof fn lemma_case_join_incomparable(
    branches: Seq<crate::ast::CaseBranch>,
    cls: Seq<char>,
    env: Seq<(Seq<char>, Seq<char>)>,
    t: Seq<ClassInfoV>,
    running: Seq<char>,
)
    requires
        branches.len() > 0,
        !is_subtype_spec(infer(branches[0].expr, cls, env.push((branches[0].id@,
            branches[0].tid@)), t).0, running, t),
        !is_subtype_spec(running, infer(branches[0].expr, cls, env.push((branches[0].id@,
            branches[0].tid@)), t).0, t),
    ensures
        infer_case(branches, cls, env, t, running).0 == infer_case(branches.drop_first(), cls, env,
            t, "Object"@).0,
        infer_case(branches, cls, env, t, running).1 == (if !crate::semantic::class_table::table_contains(
            t,
            branches[0].tid@,
        ) {
            seq![ErrorV::UndefinedClass {
                tname: branches[0].tid@,
                line: branches[0].expr.line as nat,
            }]
        } else {
            Seq::empty()
        }) + infer(branches[0].expr, cls, env.push((branches[0].id@, branches[0].tid@)), t).1
            + infer_case(branches.drop_first(), cls, env, t, "Object"@).1,
{
}

/// Dispatching with the wrong number of arguments reports an
/// argument-count mismatch whose expected count is the nearest
/// declaration's arity: method resolution stops at the first class in the
/// chain, from the lookup class upward, that declares the name, and that
/// declaration's parameter count is what the diagnostic carries. The
/// dispatch then falls back to the root type.
pub proof fn lemma_dispatch_arity_mismatch(
    e: TypedExpr,
    target: Option<Box<TypedExpr>>,
    targettype: Option<String>,
    id: String,
    exprs: Vec<TypedExpr>,
    cls: Seq<char>,
    env: Seq<(Seq<char>, Seq<char>)>,
    t: Seq<ClassInfoV>,
)
    requires
        e.expr == (Expr::Dispatch { target, targettype, id, exprs }),
        ({
            let lk = dispatch_lookup(targettype, target, cls, env, t, e.line as nat);
            let m = resolve_walk(t, lk.0, id@, t.len() + 1);
            m is Some && m->Some_0.2.len() != infer_seq(exprs@, cls, env, t).0.len()
        }),
    ensures
        infer(e, cls, env, t).0 == "Object"@,
        infer(e, cls, env, t).1.contains(ErrorV::ArgumentCountMismatch {
            method: id@,
            expected: resolve_walk(t, dispatch_lookup(targettype, target, cls, env, t,
                e.line as nat).0, id@, t.len() + 1)->Some_0.2.len(),
            found: infer_seq(exprs@, cls, env, t).0.len(),
            line: e.line as nat,
        }),
{
    let ar = infer_seq(exprs@, cls, env, t);
    let lk = dispatch_lookup(targettype, target, cls, env, t, e.line as nat);
    let m = resolve_walk(t, lk.0, id@, t.len() + 1)->Some_0;
    let x = ErrorV::ArgumentCountMismatch {
        method: id@,
        expected: m.2.len(),
        found: ar.0.len(),
        line: e.line as nat,
    };
    assert(infer(e, cls, env, t).1 == (ar.1 + lk.1) + seq![x]);
    assert(seq![x][0] == x);
    lemma_contains_concat_right(ar.1 + lk.1, seq![x], x);
}

/// Subtyping is reflexive: every type, declared or not, is a subtype of
/// itself, and in particular the root class is a subtype of itself through
/// its terminating self-loop, with no unbounded walk.
pub proof fn lemma_subtype_reflexive(n: Seq<char>, t: Seq<ClassInfoV>)
    ensures
        is_subtype_spec(n, n, t),
{
}


/// `k`-fold application of the parent map: the class reached after `k`
/// upward hops, or nothing once the chain runs off the map.
pub open spec fn iterate(
    pm: Seq<(Seq<char>, Seq<char>)>,
    n: Seq<char>,
    k: nat,
) -> Option<Seq<char>>
    decreases k,
{
    if k == 0 {
        Some(n)
    } else {
        match crate::semantic::class_table::assoc_lookup(pm, n) {
            None => None,
            Some(p) => iterate(pm, p, (k - 1) as nat),
        }
    }
}

proof fn lemma_iterate_add(pm: Seq<(Seq<char>, Seq<char>)>, n: Seq<char>, s: nat, t: nat)
    ensures
        iterate(pm, n, (s + t) as nat) == (match iterate(pm, n, s) {
            None => None::<Seq<char>>,
            Some(m) => iterate(pm, m, t),
        }),
    decreases s,
{
    if s > 0 {
        match crate::semantic::class_table::assoc_lookup(pm, n) {
            None => {},
            Some(p) => {
                lemma_iterate_add(pm, p, (s - 1) as nat, t);
            },
        }
    }
}

proof fn lemma_iterate_prefix(pm: Seq<(Seq<char>, Seq<char>)>, n: Seq<char>, j: nat, k: nat)
    requires
        j <= k,
        iterate(pm, n, k) is Some,
    ensures
        iterate(pm, n, j) is Some,
{
    lemma_iterate_add(pm, n, j, (k - j) as nat);
}

proof fn lemma_iterate_multiple(pm: Seq<(Seq<char>, Seq<char>)>, x: Seq<char>, lam: nat, q: nat)
    requires
        iterate(pm, x, lam) == Some(x),
    ensures
        iterate(pm, x, (q * lam) as nat) == Some(x),
    decreases q,
{
    if q == 0 {
        assert(q * lam == 0) by (nonlinear_arith)
            requires
                q == 0,
        ;
    } else {
        lemma_iterate_multiple(pm, x, lam, (q - 1) as nat);
        assert(q * lam == (q - 1) * lam + lam) by (nonlinear_arith);
        lemma_iterate_add(pm, x, ((q - 1) * lam) as nat, lam);
    }
}

proof fn lemma_iterate_defined(pm: Seq<(Seq<char>, Seq<char>)>, x: Seq<char>, lam: nat, k: nat)
    requires
        lam >= 1,
        iterate(pm, x, lam) == Some(x),
    ensures
        iterate(pm, x, k) is Some,
{
    lemma_iterate_multiple(pm, x, lam, k);
    assert(k <= k * lam) by (nonlinear_arith)
        requires
            lam >= 1,
    ;
    lemma_iterate_prefix(pm, x, k, (k * lam) as nat);
}

proof fn lemma_period_from_equal(
    pm: Seq<(Seq<char>, Seq<char>)>,
    x: Seq<char>,
    lam: nat,
    a: nat,
    d: nat,
)
    requires
        lam >= 1,
        iterate(pm, x, lam) == Some(x),
        d >= 1,
        iterate(pm, x, a) == iterate(pm, x, (a + d) as nat),
    ensures
        iterate(pm, x, d) == Some(x),
{
    let nl = (a * lam) as nat;
    assert(a <= a * lam) by (nonlinear_arith)
        requires
            lam >= 1,
    ;
    lemma_iterate_multiple(pm, x, lam, a);
    // Reaching a whole number of loops from position a + d equals reaching
    // it from position a, so the walk from the loop start by d more hops
    // lands back on the start.
    lemma_iterate_defined(pm, x, lam, a);
    let va = iterate(pm, x, a)->Some_0;
    lemma_iterate_add(pm, x, a, (nl - a) as nat);
    lemma_iterate_add(pm, x, (a + d) as nat, (nl - a) as nat);
    assert((a + d) + (nl - a) == nl + d);
    lemma_iterate_add(pm, x, nl, d);
}


proof fn lemma_object_absorbing(pm: Seq<(Seq<char>, Seq<char>)>, t: nat)
    requires
        crate::semantic::class_table::assoc_lookup(pm, "Object"@) == Some("Object"@),
    ensures
        iterate(pm, "Object"@, t) == Some("Object"@),
    decreases t,
{
    if t > 0 {
        lemma_object_absorbing(pm, (t - 1) as nat);
    }
}

proof fn lemma_iterate_not_object(
    pm: Seq<(Seq<char>, Seq<char>)>,
    x: Seq<char>,
    lam: nat,
    k: nat,
)
    requires
        lam >= 1,
        iterate(pm, x, lam) == Some(x),
        x != "Object"@,
        crate::semantic::class_table::assoc_lookup(pm, "Object"@) == Some("Object"@),
    ensures
        iterate(pm, x, k)->Some_0 != "Object"@,
{
    lemma_iterate_defined(pm, x, lam, k);
    if iterate(pm, x, k) == Some("Object"@) {
        let nl = (k * lam) as nat;
        assert(k <= k * lam) by (nonlinear_arith)
            requires
                lam >= 1,
        ;
        lemma_iterate_multiple(pm, x, lam, k);
        lemma_iterate_add(pm, x, k, (nl - k) as nat);
        lemma_object_absorbing(pm, (nl - k) as nat);
    }
}

proof fn lemma_least_period(pm: Seq<(Seq<char>, Seq<char>)>, x: Seq<char>, p0: nat)
    requires
        p0 >= 1,
        iterate(pm, x, p0) == Some(x),
    ensures
        exists|lam: nat|
            1 <= lam <= p0 && #[trigger] iterate(pm, x, lam) == Some(x) && (forall|r: nat|
                1 <= r < lam ==> #[trigger] iterate(pm, x, r) != Some(x)),
    decreases p0,
{
    if exists|r: nat| 1 <= r < p0 && #[trigger] iterate(pm, x, r) == Some(x) {
        let r = choose|r: nat| 1 <= r < p0 && #[trigger] iterate(pm, x, r) == Some(x);
        lemma_least_period(pm, x, r);
        let lam = choose|lam: nat|
            1 <= lam <= r && #[trigger] iterate(pm, x, lam) == Some(x) && (forall|s: nat|
                1 <= s < lam ==> #[trigger] iterate(pm, x, s) != Some(x));
        assert(1 <= lam <= p0 && iterate(pm, x, lam) == Some(x) && (forall|s: nat|
            1 <= s < lam ==> #[trigger] iterate(pm, x, s) != Some(x)));
    } else {
        assert(1 <= p0 <= p0 && iterate(pm, x, p0) == Some(x) && (forall|s: nat|
            1 <= s < p0 ==> #[trigger] iterate(pm, x, s) != Some(x)));
    }
}

proof fn lemma_injective_below(
    pm: Seq<(Seq<char>, Seq<char>)>,
    x: Seq<char>,
    lam: nat,
    r1: nat,
    r2: nat,
)
    requires
        lam >= 1,
        iterate(pm, x, lam) == Some(x),
        forall|r: nat| 1 <= r < lam ==> #[trigger] iterate(pm, x, r) != Some(x),
        r1 < r2 < lam,
    ensures
        iterate(pm, x, r1) != iterate(pm, x, r2),
{
    if iterate(pm, x, r1) == iterate(pm, x, r2) {
        lemma_period_from_equal(pm, x, lam, r1, (r2 - r1) as nat);
        assert(iterate(pm, x, (r2 - r1) as nat) == Some(x));
    }
}

proof fn lemma_lookup_some_names_contain(pm: Seq<(Seq<char>, Seq<char>)>, n: Seq<char>)
    requires
        crate::semantic::class_table::assoc_lookup(pm, n) is Some,
    ensures
        names_contain(pm, n),
    decreases pm.len(),
{
    if pm.len() > 0 {
        if pm[0].0 == n {
            assert(names_contain(pm, n));
        } else {
            lemma_lookup_some_names_contain(pm.drop_first(), n);
            let i = choose|i: int|
                0 <= i < pm.drop_first().len() && pm.drop_first()[i].0 == n;
            assert(pm[i + 1].0 == n);
        }
    }
}

proof fn lemma_cycle_length_bounded(pm: Seq<(Seq<char>, Seq<char>)>, x: Seq<char>, lam: nat)
    requires
        lam >= 1,
        iterate(pm, x, lam) == Some(x),
        forall|r: nat| 1 <= r < lam ==> #[trigger] iterate(pm, x, r) != Some(x),
    ensures
        lam <= pm.len(),
{
    broadcast use vstd::seq_lib::seq_to_set_is_finite;

    let vals = Seq::new(lam, |r: int| iterate(pm, x, r as nat)->Some_0);
    let ks = pm.map_values(|e: (Seq<char>, Seq<char>)| e.0);
    assert forall|r1: int, r2: int| 0 <= r1 < r2 < lam implies vals[r1] != vals[r2] by {
        lemma_iterate_defined(pm, x, lam, r1 as nat);
        lemma_iterate_defined(pm, x, lam, r2 as nat);
        lemma_injective_below(pm, x, lam, r1 as nat, r2 as nat);
    }
    assert(vals.no_duplicates());
    assert forall|v: Seq<char>| vals.to_set().contains(v) implies ks.to_set().contains(v) by {
        let r = choose|r: int| 0 <= r < vals.len() && vals[r] == v;
        lemma_iterate_defined(pm, x, lam, r as nat);
        lemma_iterate_defined(pm, x, lam, (r + 1) as nat);
        lemma_iterate_add(pm, x, r as nat, 1);
        assert(crate::semantic::class_table::assoc_lookup(pm, v) is Some);
        lemma_lookup_some_names_contain(pm, v);
        let i = choose|i: int| 0 <= i < pm.len() && pm[i].0 == v;
        assert(ks[i] == v);
        assert(ks.contains(v));
    }
    vals.unique_seq_to_set();
    ks.lemma_cardinality_of_set();
    vstd::set_lib::lemma_len_subset(vals.to_set(), ks.to_set());
}


proof fn lemma_iterate_one(pm: Seq<(Seq<char>, Seq<char>)>, m: Seq<char>)
    ensures
        iterate(pm, m, 1) == crate::semantic::class_table::assoc_lookup(pm, m),
{
    match crate::semantic::class_table::assoc_lookup(pm, m) {
        None => {},
        Some(p) => {
            assert(iterate(pm, p, 0) == Some(p));
        },
    }
}

proof fn lemma_floyd_finds(
    pm: Seq<(Seq<char>, Seq<char>)>,
    x: Seq<char>,
    lam: nat,
    k: nat,
    fuel: nat,
)
    requires
        lam >= 1,
        iterate(pm, x, lam) == Some(x),
        forall|r: nat| 1 <= r < lam ==> #[trigger] iterate(pm, x, r) != Some(x),
        x != "Object"@,
        crate::semantic::class_table::assoc_lookup(pm, "Object"@) == Some("Object"@),
        k < lam,
        fuel >= lam - k,
    ensures
        crate::semantic::analyzer::floyd(pm, iterate(pm, x, k)->Some_0, iterate(pm, x, (2 * k) as nat)->Some_0, fuel)
            == Some(x),
    decreases lam - k,
{
    let tor = iterate(pm, x, k)->Some_0;
    let hare = iterate(pm, x, (2 * k) as nat)->Some_0;
    lemma_iterate_defined(pm, x, lam, k);
    lemma_iterate_defined(pm, x, lam, (2 * k) as nat);
    lemma_iterate_defined(pm, x, lam, (k + 1) as nat);
    lemma_iterate_defined(pm, x, lam, (2 * k + 1) as nat);
    lemma_iterate_defined(pm, x, lam, (2 * k + 2) as nat);
    // One hop from the tortoise, two from the hare.
    lemma_iterate_add(pm, x, k, 1);
    lemma_iterate_add(pm, x, (2 * k) as nat, 1);
    lemma_iterate_add(pm, x, (2 * k + 1) as nat, 1);
    let t2 = iterate(pm, x, (k + 1) as nat)->Some_0;
    let h1 = iterate(pm, x, (2 * k + 1) as nat)->Some_0;
    let h2 = iterate(pm, x, (2 * k + 2) as nat)->Some_0;
    lemma_iterate_one(pm, tor);
    lemma_iterate_one(pm, hare);
    lemma_iterate_one(pm, h1);
    assert(crate::semantic::class_table::assoc_lookup(pm, tor) == Some(t2));
    assert(crate::semantic::class_table::assoc_lookup(pm, hare) == Some(h1));
    assert(crate::semantic::class_table::assoc_lookup(pm, h1) == Some(h2));
    lemma_iterate_not_object(pm, x, lam, (k + 1) as nat);
    lemma_iterate_not_object(pm, x, lam, (2 * k + 2) as nat);
    if k + 1 == lam {
        // The pointers meet exactly one lap in: both stand on the start.
        lemma_iterate_multiple(pm, x, lam, 2);
        assert(2 * k + 2 == 2 * lam);
        assert(t2 == x);
        assert(h2 == x);
    } else {
        // No meeting yet: a meeting here would make k + 1 a shorter period.
        if t2 == h2 {
            lemma_period_from_equal(pm, x, lam, (k + 1) as nat, (k + 1) as nat);
            assert(iterate(pm, x, (k + 1) as nat) == Some(x));
        }
        lemma_floyd_finds(pm, x, lam, (k + 1) as nat, (fuel - 1) as nat);
        assert(2 * (k + 1) == 2 * k + 2);
    }
}

proof fn lemma_pmap_keys(cs: Seq<Class>, k: int)
    requires
        k <= cs.len(),
    ensures
        forall|i: int|
            0 <= i < pmap_entries(cs, k).len() ==> (#[trigger] pmap_entries(cs, k)[i]).0
                != "Object"@ && declared(cs, pmap_entries(cs, k)[i].0),
    decreases k,
{
    if k > 0 {
        lemma_pmap_keys(cs, k - 1);
        let t = pmap_entries(cs, k - 1);
        let t2 = pmap_entries(cs, k);
        if !(cs[k - 1].name@ == "Object"@ || names_contain(t, cs[k - 1].name@)) {
            assert(declared(cs, cs[k - 1].name@)) by {
                assert(0 <= k - 1 < cs.len() && (#[trigger] cs[k - 1]).name@ == cs[k - 1].name@);
            }
            assert forall|i: int| 0 <= i < t2.len() implies (#[trigger] t2[i]).0 != "Object"@
                && declared(cs, t2[i].0) by {
                if i < t.len() {
                    assert(t2[i] == t[i]);
                } else {
                    assert(t2[i] == (cs[k - 1].name@, parent_of(cs[k - 1])));
                }
            }
        }
    }
}

proof fn lemma_lookup_append_miss(
    t: Seq<(Seq<char>, Seq<char>)>,
    e: (Seq<char>, Seq<char>),
    n: Seq<char>,
)
    requires
        forall|i: int| 0 <= i < t.len() ==> (#[trigger] t[i]).0 != n,
        e.0 == n,
    ensures
        crate::semantic::class_table::assoc_lookup(t.push(e), n) == Some(e.1),
    decreases t.len(),
{
    if t.len() == 0 {
        assert(t.push(e)[0] == e);
    } else {
        assert(t.push(e).drop_first() =~= t.drop_first().push(e));
        lemma_lookup_append_miss(t.drop_first(), e, n);
    }
}

/// The parent map the validator walks: every class but the root mapped to
/// its resolved parent, first declaration winning, and the root's
/// self-loop appended.
pub open spec fn full_pmap(cs: Seq<Class>) -> Seq<(Seq<char>, Seq<char>)> {
    with_root(pmap_entries(cs, cs.len() as int))
}

proof fn lemma_object_self_loop(cs: Seq<Class>)
    ensures
        crate::semantic::class_table::assoc_lookup(full_pmap(cs), "Object"@) == Some("Object"@),
        full_pmap(cs).len() == pmap_entries(cs, cs.len() as int).len() + 1,
        forall|i: int|
            0 <= i < full_pmap(cs).len() ==> ((#[trigger] full_pmap(cs)[i]).0 == "Object"@
                || declared(cs, full_pmap(cs)[i].0)),
{
    let t = pmap_entries(cs, cs.len() as int);
    lemma_pmap_keys(cs, cs.len() as int);
    assert(!names_contain(t, "Object"@));
    lemma_lookup_append_miss(t, ("Object"@, "Object"@), "Object"@);
    assert forall|i: int|
        0 <= i < full_pmap(cs).len() implies ((#[trigger] full_pmap(cs)[i]).0 == "Object"@
        || declared(cs, full_pmap(cs)[i].0)) by {
        if i < t.len() {
            assert(full_pmap(cs)[i] == t[i]);
        }
    }
}


proof fn lemma_pmap_len(cs: Seq<Class>, k: int)
    requires
        k >= 0,
    ensures
        pmap_entries(cs, k).len() <= k,
    decreases k,
{
    if k > 0 {
        lemma_pmap_len(cs, k - 1);
    }
}

proof fn lemma_cycle_err_located(
    cs: Seq<Class>,
    pm: Seq<(Seq<char>, Seq<char>)>,
    j: int,
    k: int,
    x: ErrorV,
)
    requires
        0 <= j < k <= cs.len(),
        cycle_err_for(pm, cs[j].name@).contains(x),
    ensures
        cycle_errs(cs, pm, k).contains(x),
    decreases k,
{
    if k - 1 == j {
        lemma_contains_concat_right(cycle_errs(cs, pm, k - 1), cycle_err_for(pm, cs[j].name@), x);
    } else {
        lemma_cycle_err_located(cs, pm, j, k - 1, x);
        lemma_contains_concat_left(cycle_errs(cs, pm, k - 1), cycle_err_for(pm,
            cs[k - 1].name@), x);
    }
}

/// Whenever a class's parent chain — with a missing parent declaration
/// defaulting to the root and the root mapped to itself — revisits a
/// non-root class, the validator reports an inheritance-cycle error whose
/// path starts and ends at that revisited class; in particular at the first
/// class the chain revisits. The bound on the class count only keeps the
/// revisit inside the walk's iteration budget; it holds of any class list
/// that fits in memory.
pub proof fn lemma_cycle_reported(cs: Seq<Class>, i: int, x: Seq<char>, a: nat, b: nat)
    requires
        cs.len() < 0xFFFF_FFFF,
        0 <= i < cs.len(),
        a < b,
        x != "Object"@,
        iterate(full_pmap(cs), cs[i].name@, a) == Some(x),
        iterate(full_pmap(cs), cs[i].name@, b) == Some(x),
    ensures
        exists|p: Seq<Seq<char>>|
            inheritance_errors(cs).contains(ErrorV::InheritanceCycle { cycle: p }) && p.len() >= 2
                && (#[trigger] p[0]) == x && p.last() == x,
{
    let pm = full_pmap(cs);
    lemma_object_self_loop(cs);
    lemma_pmap_keys(cs, cs.len() as int);

    // The revisited class sits on a genuine cycle: the stretch of chain
    // between its two visits loops back to it.
    lemma_iterate_add(pm, cs[i].name@, a, (b - a) as nat);
    let p0 = (b - a) as nat;
    assert(iterate(pm, x, p0) == Some(x));
    lemma_least_period(pm, x, p0);
    let lam = choose|lam: nat|
        1 <= lam <= p0 && #[trigger] iterate(pm, x, lam) == Some(x) && (forall|r: nat|
            1 <= r < lam ==> #[trigger] iterate(pm, x, r) != Some(x));

    // The cycle fits inside the parent map, so the walk's budget covers it.
    lemma_cycle_length_bounded(pm, x, lam);
    lemma_pmap_len(cs, cs.len() as int);
    assert(pm.len() <= cs.len() + 1);
    let fuel = crate::semantic::analyzer::floyd_fuel(pm.len());
    assert(fuel >= pm.len() + 1) by (nonlinear_arith)
        requires
            fuel == (if pm.len() >= 0xFFFF_FFFF {
                u128::MAX as nat
            } else {
                (pm.len() + 1) * (pm.len() + 1) + 1
            }),
            pm.len() <= 0xFFFF_FFFF,
    ;

    // The two-pointer search from the revisited class itself meets back at
    // that class.
    lemma_floyd_finds(pm, x, lam, 0, fuel);
    assert(iterate(pm, x, 0) == Some(x));
    assert(crate::semantic::analyzer::floyd(pm, x, x, fuel) == Some(x));

    // The revisited class is a declared one: it has an outgoing edge in the
    // parent map and is not the root.
    lemma_iterate_defined(pm, x, lam, 1);
    lemma_iterate_one(pm, x);
    lemma_lookup_some_names_contain(pm, x);
    let ki = choose|ki: int| 0 <= ki < pm.len() && pm[ki].0 == x;
    assert(declared(cs, x));
    let j = choose|j: int| 0 <= j < cs.len() && (#[trigger] cs[j]).name@ == x;

    // That class's own search reports the cycle, and the reported path is
    // the walk from the meeting point, closed by repeating it.
    let path = crate::semantic::analyzer::cycle_path(pm, x);
    let e = ErrorV::InheritanceCycle { cycle: path };
    assert(cycle_err_for(pm, cs[j].name@) == seq![e]);
    assert(seq![e][0] == e);
    lemma_cycle_err_located(cs, pm, j, cs.len() as int, e);
    lemma_contains_concat_right(dup_errs(cs, cs.len() as int) + basic_errs(cs, cs.len() as int)
        + undef_errs(cs, pm, pm.len() as int), cycle_errs(cs, pm, cs.len() as int), e);
    assert(path[0] == x) by {
        assert(crate::semantic::analyzer::cycle_walk(pm, x, x, pm.len() + 1)[0] == x);
    }
    assert(path.last() == x);
    assert(path.len() >= 2);
    assert(inheritance_errors(cs).contains(e));
}

} // verus!
