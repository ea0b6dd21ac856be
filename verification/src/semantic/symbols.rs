//! The symbol and override checker: duplicate attribute and method names
//! within a class, and exact-signature checking of method overrides against
//! the parent class.

use vstd::prelude::*;

use crate::ast::{Class, Feature};
use crate::semantic::class_table::{
    build_class_table, class_method_sigs, find_class, sig_view, sigs_view, table_lookup, table_of,
    tview, ClassInfoV,
};
use crate::semantic::collector::ErrorCollector;
use crate::semantic::errors::{ErrorV, SemanticError};
use crate::sequtil::{lemma_add_assoc, lemma_add_empty, lemma_push_concat};
use crate::strutil::{clone_strs, str_eq, string_eq, vec_str_eq};

verus! {

broadcast use vstd::seq::group_seq_axioms;

/// The five bootstrapped classes; their feature lists are fixed upstream and
/// are not re-checked here.
pub open spec fn is_builtin_name(n: Seq<char>) -> bool {
    n == "Object"@ || n == "IO"@ || n == "String"@ || n == "Int"@ || n == "Bool"@
}

/// Whether one of the first `k` features is an attribute named `n`.
pub open spec fn attr_seen(fs: Seq<Feature>, k: int, n: Seq<char>) -> bool {
    exists|j: int| 0 <= j < k && (#[trigger] fs[j]) is Attribute && fs[j]->Attribute_0.oid@ == n
}

/// Whether one of the first `k` features is a method named `n`.
pub open spec fn method_seen(fs: Seq<Feature>, k: int, n: Seq<char>) -> bool {
    exists|j: int| 0 <= j < k && (#[trigger] fs[j]) is Method && fs[j]->Method_0@ == n
}

/// The duplicate-attribute and duplicate-method diagnostics of one class's
/// first `k` features, in feature order: a name repeat reports the first time
/// it repeats, and the later declaration is otherwise ignored.
pub open spec fn symbol_dup_errs_class(c: Class, k: int) -> Seq<ErrorV>
    decreases k,
{
    if k <= 0 {
        Seq::empty()
    } else {
        symbol_dup_errs_class(c, k - 1) + match c.feature_list[k - 1] {
            Feature::Attribute(vd) => if attr_seen(c.feature_list@, k - 1, vd.oid@) {
                seq![ErrorV::DuplicateAttribute { class: c.name@, attr: vd.oid@ }]
            } else {
                Seq::empty()
            },
            Feature::Method(name, _, _, _) => if method_seen(c.feature_list@, k - 1, name@) {
                seq![ErrorV::DuplicateMethod { class: c.name@, method: name@ }]
            } else {
                Seq::empty()
            },
        }
    }
}

/// The duplicate-symbol diagnostics of the first `k` classes, builtins
/// skipped.
pub open spec fn symbol_dup_errs(cs: Seq<Class>, k: int) -> Seq<ErrorV>
    decreases k,
{
    if k <= 0 {
        Seq::empty()
    } else {
        symbol_dup_errs(cs, k - 1) + if is_builtin_name(cs[k - 1].name@) {
            Seq::empty()
        } else {
            symbol_dup_errs_class(cs[k - 1], cs[k - 1].feature_list@.len() as int)
        }
    }
}

/// The first method signature named `n` in a signature list.
pub open spec fn first_sig(
    ms: Seq<(Seq<char>, Seq<char>, Seq<Seq<char>>)>,
    n: Seq<char>,
) -> Option<(Seq<char>, Seq<char>, Seq<Seq<char>>)>
    decreases ms.len(),
{
    if ms.len() == 0 {
        None
    } else if ms[0].0 == n {
        Some(ms[0])
    } else {
        first_sig(ms.drop_first(), n)
    }
}

pub proof fn lemma_first_sig_at(ms: Seq<(Seq<char>, Seq<char>, Seq<Seq<char>>)>, n: Seq<char>, i: int)
    requires
        0 <= i < ms.len(),
        ms[i].0 == n,
        forall|j: int| 0 <= j < i ==> (#[trigger] ms[j]).0 != n,
    ensures
        first_sig(ms, n) == Some(ms[i]),
    decreases i,
{
    if i == 0 {
    } else {
        lemma_first_sig_at(ms.drop_first(), n, i - 1);
    }
}

pub proof fn lemma_first_sig_none(ms: Seq<(Seq<char>, Seq<char>, Seq<Seq<char>>)>, n: Seq<char>)
    requires
        forall|j: int| 0 <= j < ms.len() ==> (#[trigger] ms[j]).0 != n,
    ensures
        first_sig(ms, n) is None,
    decreases ms.len(),
{
    if ms.len() > 0 {
        lemma_first_sig_none(ms.drop_first(), n);
    }
}

/// The override diagnostics of one class against its parent's signature
/// list, over the class's first `k` own method signatures: the first
/// occurrence of each method name is compared, and a parent method of the
/// same name must match exactly in return type and parameter type list.
pub open spec fn override_errs_class(
    c: Class,
    pname: Seq<char>,
    pms: Seq<(Seq<char>, Seq<char>, Seq<Seq<char>>)>,
    k: int,
) -> Seq<ErrorV>
    decreases k,
{
    let cms = crate::semantic::class_table::method_sigs(c.feature_list@,
        c.feature_list@.len() as int);
    if k <= 0 {
        Seq::empty()
    } else {
        override_errs_class(c, pname, pms, k - 1) + if exists|j: int|
            0 <= j < k - 1 && (#[trigger] cms[j]).0 == cms[k - 1].0 {
            Seq::empty()
        } else {
            match first_sig(pms, cms[k - 1].0) {
                None => Seq::empty(),
                Some(ps) => if ps.1 != cms[k - 1].1 || ps.2 != cms[k - 1].2 {
                    seq![ErrorV::MethodOverrideMismatch {
                        class: c.name@,
                        method: cms[k - 1].0,
                        parent: pname,
                        expected: ps.2,
                        found: cms[k - 1].2,
                    }]
                } else {
                    Seq::empty()
                },
            }
        }
    }
}

/// The override diagnostics of the first `k` classes: only user classes with
/// an explicit parent found in the table are compared.
pub open spec fn override_errs(cs: Seq<Class>, t: Seq<ClassInfoV>, k: int) -> Seq<ErrorV>
    decreases k,
{
    if k <= 0 {
        Seq::empty()
    } else {
        override_errs(cs, t, k - 1) + if is_builtin_name(cs[k - 1].name@) {
            Seq::empty()
        } else {
            match cs[k - 1].inherits {
                None => Seq::empty(),
                Some(p) => match table_lookup(t, p@) {
                    None => Seq::empty(),
                    Some(pinfo) => override_errs_class(cs[k - 1], p@, pinfo.methods,
                        crate::semantic::class_table::method_sigs(cs[k - 1].feature_list@,
                        cs[k - 1].feature_list@.len() as int).len() as int),
                },
            }
        }
    }
}

/// Everything the symbol and override checker reports, in order: duplicate
/// symbols per class, then override mismatches per class.
pub open spec fn symbols_errors(cs: Seq<Class>) -> Seq<ErrorV> {
    symbol_dup_errs(cs, cs.len() as int) + override_errs(cs, table_of(cs), cs.len() as int)
}

/// Whether a class name is one of the bootstrapped builtin classes.
fn is_builtin_class(name: &str) -> (r: bool)
    ensures
        r == is_builtin_name(name@),
{
    str_eq(name, "Object") || str_eq(name, "IO") || str_eq(name, "String") || str_eq(name, "Int")
        || str_eq(name, "Bool")
}

/// Whether an attribute named `n` stands among the first `k` features.
fn attr_seen_exec(fs: &Vec<Feature>, k: usize, n: &str) -> (r: bool)
    requires
        k <= fs.len(),
    ensures
        r == attr_seen(fs@, k as int, n@),
{
    let mut j: usize = 0;
    while j < k
        invariant
            j <= k <= fs.len(),
            forall|l: int|
                0 <= l < j ==> !((#[trigger] fs@[l]) is Attribute && fs@[l]->Attribute_0.oid@
                    == n@),
        decreases k - j,
    {
        match &fs[j] {
            Feature::Attribute(vd) => {
                if str_eq(vd.oid.as_str(), n) {
                    return true;
                }
            },
            Feature::Method(_, _, _, _) => {},
        }
        j += 1;
    }
    false
}

/// Whether a method named `n` stands among the first `k` features.
fn method_seen_exec(fs: &Vec<Feature>, k: usize, n: &str) -> (r: bool)
    requires
        k <= fs.len(),
    ensures
        r == method_seen(fs@, k as int, n@),
{
    let mut j: usize = 0;
    while j < k
        invariant
            j <= k <= fs.len(),
            forall|l: int|
                0 <= l < j ==> !((#[trigger] fs@[l]) is Method && fs@[l]->Method_0@ == n@),
        decreases k - j,
    {
        match &fs[j] {
            Feature::Attribute(_) => {},
            Feature::Method(name, _, _, _) => {
                if str_eq(name.as_str(), n) {
                    return true;
                }
            },
        }
        j += 1;
    }
    false
}

/// The index of the first signature named `n` in a signature list.
pub(crate) fn find_sig(ms: &Vec<(String, String, Vec<String>)>, n: &str) -> (r: Option<usize>)
    ensures
        match r {
            Some(i) => i < ms.len() && first_sig(sigs_view(ms@), n@) == Some(
                sig_view(ms@[i as int]),
            ),
            None => first_sig(sigs_view(ms@), n@) is None,
        },
{
    let mut i: usize = 0;
    while i < ms.len()
        invariant
            i <= ms.len(),
            forall|j: int| 0 <= j < i ==> (#[trigger] ms@[j]).0@ != n@,
        decreases ms.len() - i,
    {
        if str_eq(ms[i].0.as_str(), n) {
            proof {
                let sv = sigs_view(ms@);
                assert(forall|j: int| 0 <= j < i ==> (#[trigger] sv[j]).0 != n@);
                lemma_first_sig_at(sv, n@, i as int);
            }
            return Some(i);
        }
        i += 1;
    }
    proof {
        let sv = sigs_view(ms@);
        assert(forall|j: int| 0 <= j < sv.len() ==> (#[trigger] sv[j]).0 == ms@[j].0@);
        lemma_first_sig_none(sv, n@);
    }
    None
}

/// Check every user-declared class's own feature list for duplicate
/// attribute and method names, then check each override against the parent's
/// exact signature, reporting all findings to the error sink.
pub fn check_class_features(classes: &Vec<Class>, ec: &mut ErrorCollector)
    ensures
        final(ec)@ == old(ec)@ + symbols_errors(classes@),
{
    let ghost cs = classes@;
    let ghost e0 = old(ec)@;
    let n = classes.len();
    let table = build_class_table(classes);

    // Duplicate attribute and method names, class by class.
    let mut i: usize = 0;
    while i < n
        invariant
            n == classes.len(),
            i <= n,
            cs == classes@,
            ec@ == e0 + symbol_dup_errs(cs, i as int),
        decreases n - i,
    {
        if !is_builtin_class(classes[i].name.as_str()) {
            let fs = &classes[i].feature_list;
            let mut j: usize = 0;
            while j < fs.len()
                invariant
                    j <= fs.len(),
                    i < classes.len(),
                    cs == classes@,
                    fs@ == cs[i as int].feature_list@,
                    ec@ == e0 + symbol_dup_errs(cs, i as int) + symbol_dup_errs_class(
                        cs[i as int], j as int),
                decreases fs.len() - j,
            {
                match &fs[j] {
                    Feature::Attribute(vd) => {
                        if attr_seen_exec(fs, j, vd.oid.as_str()) {
                            ec.add(SemanticError::DuplicateAttribute {
                                class: classes[i].name.clone(),
                                attr: vd.oid.clone(),
                            });
                            proof {
                                lemma_push_concat(e0 + symbol_dup_errs(cs, i as int),
                                    symbol_dup_errs_class(cs[i as int], j as int),
                                    ErrorV::DuplicateAttribute {
                                    class: cs[i as int].name@,
                                    attr: fs@[j as int]->Attribute_0.oid@,
                                });
                            }
                        } else {
                            proof {
                                lemma_add_empty(symbol_dup_errs_class(cs[i as int], j as int));
                            }
                        }
                    },
                    Feature::Method(name, _, _, _) => {
                        if method_seen_exec(fs, j, name.as_str()) {
                            ec.add(SemanticError::DuplicateMethod {
                                class: classes[i].name.clone(),
                                method: name.clone(),
                            });
                            proof {
                                lemma_push_concat(e0 + symbol_dup_errs(cs, i as int),
                                    symbol_dup_errs_class(cs[i as int], j as int),
                                    ErrorV::DuplicateMethod {
                                    class: cs[i as int].name@,
                                    method: fs@[j as int]->Method_0@,
                                });
                            }
                        } else {
                            proof {
                                lemma_add_empty(symbol_dup_errs_class(cs[i as int], j as int));
                            }
                        }
                    },
                }
                j += 1;
            }
            proof {
                lemma_add_assoc(e0, symbol_dup_errs(cs, i as int), symbol_dup_errs_class(
                    cs[i as int], cs[i as int].feature_list@.len() as int));
            }
        } else {
            proof {
                lemma_add_empty(symbol_dup_errs(cs, i as int));
            }
        }
        i += 1;
    }
    let ghost sds = symbol_dup_errs(cs, cs.len() as int);

    // Override compatibility against the parent's signatures.
    let mut i: usize = 0;
    while i < n
        invariant
            n == classes.len(),
            i <= n,
            cs == classes@,
            tview(table@) == table_of(cs),
            ec@ == e0 + sds + override_errs(cs, table_of(cs), i as int),
            sds == symbol_dup_errs(cs, cs.len() as int),
        decreases n - i,
    {
        let ghost t = table_of(cs);
        let mut handled = false;
        if !is_builtin_class(classes[i].name.as_str()) {
            if let Some(p) = &classes[i].inherits {
                match find_class(&table, p.as_str()) {
                    None => {},
                    Some(pidx) => {
                        handled = true;
                        let cms = class_method_sigs(&classes[i]);
                        let ghost cmsv = crate::semantic::class_table::method_sigs(
                            cs[i as int].feature_list@, cs[i as int].feature_list@.len() as int);
                        let ghost pinfo = table_lookup(t, p@)->Some_0;
                        proof {
                            assert(pinfo.methods == sigs_view(table@[pidx as int].methods@));
                        }
                        let mut k: usize = 0;
                        while k < cms.len()
                            invariant
                                k <= cms.len(),
                                cs == classes@,
                                i < classes.len(),
                                cmsv == sigs_view(cms@),
                                cmsv == crate::semantic::class_table::method_sigs(
                                    cs[i as int].feature_list@,
                                    cs[i as int].feature_list@.len() as int),
                                tview(table@) == table_of(cs),
                                t == table_of(cs),
                                pidx < table.len(),
                                cs[i as int].inherits == Some(*p),
                                table_lookup(t, p@) == Some(table@[pidx as int]@),
                                pinfo == table_lookup(t, p@)->Some_0,
                                pinfo.methods == sigs_view(table@[pidx as int].methods@),
                                ec@ == e0 + sds + override_errs(cs, t, i as int)
                                    + override_errs_class(cs[i as int], p@, pinfo.methods,
                                    k as int),
                            decreases cms.len() - k,
                        {
                            // Only the first occurrence of each name is compared.
                            let mut repeated = false;
                            let mut j: usize = 0;
                            while j < k
                                invariant
                                    j <= k < cms.len(),
                                    cmsv == sigs_view(cms@),
                                    repeated == exists|l: int|
                                        0 <= l < j && (#[trigger] cmsv[l]).0 == cmsv[k as int].0,
                                decreases k - j,
                            {
                                proof {
                                    assert(cmsv[j as int] == sig_view(cms@[j as int]));
                                    assert(cmsv[k as int] == sig_view(cms@[k as int]));
                                }
                                if !repeated && string_eq(&cms[j].0, &cms[k].0) {
                                    repeated = true;
                                }
                                j += 1;
                            }
                            if repeated {
                                proof {
                                    lemma_add_empty(override_errs_class(cs[i as int], p@,
                                        pinfo.methods, k as int));
                                }
                            } else {
                                match find_sig(&table[pidx].methods, cms[k].0.as_str()) {
                                    None => {
                                        proof {
                                            lemma_add_empty(override_errs_class(cs[i as int], p@,
                                                pinfo.methods, k as int));
                                        }
                                    },
                                    Some(si) => {
                                        let ret_ok = string_eq(&table[pidx].methods[si].1,
                                            &cms[k].1);
                                        let params_ok = vec_str_eq(&table[pidx].methods[si].2,
                                            &cms[k].2);
                                        if !ret_ok || !params_ok {
                                            ec.add(SemanticError::MethodOverrideMismatch {
                                                class: classes[i].name.clone(),
                                                method: cms[k].0.clone(),
                                                parent: p.clone(),
                                                expected: clone_strs(&table[pidx].methods[si].2),
                                                found: clone_strs(&cms[k].2),
                                            });
                                            proof {
                                                let ps = first_sig(pinfo.methods,
                                                    cmsv[k as int].0)->Some_0;
                                                lemma_push_concat(e0 + sds + override_errs(cs, t,
                                                    i as int), override_errs_class(cs[i as int],
                                                    p@, pinfo.methods, k as int),
                                                    ErrorV::MethodOverrideMismatch {
                                                    class: cs[i as int].name@,
                                                    method: cmsv[k as int].0,
                                                    parent: p@,
                                                    expected: ps.2,
                                                    found: cmsv[k as int].2,
                                                });
                                            }
                                        } else {
                                            proof {
                                                lemma_add_empty(override_errs_class(cs[i as int],
                                                    p@, pinfo.methods, k as int));
                                            }
                                        }
                                    },
                                }
                            }
                            k += 1;
                        }
                        proof {
                            lemma_add_assoc(e0 + sds, override_errs(cs, t, i as int),
                                override_errs_class(cs[i as int], p@, pinfo.methods,
                                cmsv.len() as int));
                        }
                    },
                }
            }
        }
        if !handled {
            proof {
                lemma_add_empty(override_errs(cs, table_of(cs), i as int));
            }
        }
        i += 1;
    }
    proof {
        assert(e0 + sds + override_errs(cs, table_of(cs), cs.len() as int) =~= e0 + symbols_errors(
            cs));
    }
}

} // verus!
