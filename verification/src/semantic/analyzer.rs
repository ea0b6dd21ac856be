//! The inheritance-graph validator: duplicate class names, forbidden base
//! types, undefined parents, and genuine inheritance cycles (excluding the
//! root class's terminating self-loop), each reported to the error sink.

use vstd::prelude::*;

use crate::ast::Class;
use crate::semantic::class_table::{
    assoc_contains, assoc_get, assoc_lookup, names_contain, pairs_view, parent_of, with_root,
};
use crate::semantic::collector::ErrorCollector;
use crate::semantic::errors::{strs_view, ErrorV, SemanticError};
use crate::sequtil::{lemma_add_empty, lemma_push_concat};
use crate::strutil::{str_eq, string_eq};

verus! {

broadcast use vstd::seq::group_seq_axioms;

/// The duplicate-class diagnostics of the first `k` classes: every repeat of
/// an already-seen name, after the first occurrence, reports once.
pub open spec fn dup_errs(cs: Seq<Class>, k: int) -> Seq<ErrorV>
    decreases k,
{
    if k <= 0 {
        Seq::empty()
    } else {
        dup_errs(cs, k - 1) + if exists|j: int| 0 <= j < k - 1 && (#[trigger] cs[j]).name@ == cs[k - 1].name@ {
            seq![ErrorV::DuplicateClass { class: cs[k - 1].name@ }]
        } else {
            Seq::empty()
        }
    }
}

/// The sealed leaf types and the dynamic self-type marker: naming one as a
/// parent is illegal.
pub open spec fn is_basic_parent(p: Seq<char>) -> bool {
    p == "Int"@ || p == "String"@ || p == "Bool"@ || p == "SELF_TYPE"@
}

/// The illegal-base-type diagnostics of the first `k` classes.
pub open spec fn basic_errs(cs: Seq<Class>, k: int) -> Seq<ErrorV>
    decreases k,
{
    if k <= 0 {
        Seq::empty()
    } else {
        basic_errs(cs, k - 1) + if is_basic_parent(parent_of(cs[k - 1])) {
            seq![ErrorV::InheritBasicType { class: cs[k - 1].name@, parent: parent_of(cs[k - 1]) }]
        } else {
            Seq::empty()
        }
    }
}

/// The parent map of the first `k` classes: every class but the root maps to
/// its resolved parent, the first declaration of a repeated name wins.
pub open spec fn pmap_entries(cs: Seq<Class>, k: int) -> Seq<(Seq<char>, Seq<char>)>
    decreases k,
{
    if k <= 0 {
        Seq::empty()
    } else {
        let t = pmap_entries(cs, k - 1);
        if cs[k - 1].name@ == "Object"@ || names_contain(t, cs[k - 1].name@) {
            t
        } else {
            t.push((cs[k - 1].name@, parent_of(cs[k - 1])))
        }
    }
}

/// Whether some class in the list declares the name `n`.
pub open spec fn declared(cs: Seq<Class>, n: Seq<char>) -> bool {
    exists|i: int| 0 <= i < cs.len() && (#[trigger] cs[i]).name@ == n
}

/// The undefined-parent diagnostics over the first `k` parent-map entries:
/// a parent other than the root class that no class declares.
pub open spec fn undef_errs(cs: Seq<Class>, pm: Seq<(Seq<char>, Seq<char>)>, k: int) -> Seq<ErrorV>
    decreases k,
{
    if k <= 0 {
        Seq::empty()
    } else {
        undef_errs(cs, pm, k - 1) + if pm[k - 1].1 != "Object"@ && !declared(cs, pm[k - 1].1) {
            seq![ErrorV::UndefinedParent { class: pm[k - 1].0, parent: pm[k - 1].1 }]
        } else {
            Seq::empty()
        }
    }
}

/// An iteration bound for the two-pointer walk. The walk's state is the
/// (tortoise, hare) pair, and its transition is deterministic, so a walk that
/// has not halted after more iterations than there are distinct pairs never
/// halts; the bound is beyond that count, so cutting the walk off there does
/// not change its outcome. The branch only guards machine arithmetic.
pub open spec fn floyd_fuel(n: nat) -> nat {
    if n >= 0xFFFF_FFFF {
        u128::MAX as nat
    } else {
        (n + 1) * (n + 1) + 1
    }
}

/// One two-pointer cycle search, exactly as the validator runs it: the
/// tortoise advances one parent hop per round and the hare two; a missing
/// parent or a landing on the root ends the search with no cycle; a meeting
/// point other than the root is a genuine cycle and is returned.
pub open spec fn floyd(
    pm: Seq<(Seq<char>, Seq<char>)>,
    tortoise: Seq<char>,
    hare: Seq<char>,
    fuel: nat,
) -> Option<Seq<char>>
    decreases fuel,
{
    if fuel == 0 {
        None
    } else {
        match assoc_lookup(pm, tortoise) {
            None => None,
            Some(t2) => match assoc_lookup(pm, hare) {
                None => None,
                Some(h1) => match assoc_lookup(pm, h1) {
                    None => None,
                    Some(h2) => if t2 == h2 {
                        if t2 == "Object"@ {
                            None
                        } else {
                            Some(t2)
                        }
                    } else if t2 == "Object"@ || h2 == "Object"@ {
                        None
                    } else {
                        floyd(pm, t2, h2, (fuel - 1) as nat)
                    },
                },
            },
        }
    }
}

/// The names visited walking parent links from `cur` until the walk returns
/// to `meet`, runs off the map, or exhausts its bound; `cur` included.
pub open spec fn cycle_walk(
    pm: Seq<(Seq<char>, Seq<char>)>,
    cur: Seq<char>,
    meet: Seq<char>,
    fuel: nat,
) -> Seq<Seq<char>>
    decreases fuel,
{
    seq![cur] + if fuel == 0 {
        Seq::empty()
    } else {
        match assoc_lookup(pm, cur) {
            None => Seq::empty(),
            Some(p) => if p == meet {
                Seq::empty()
            } else {
                cycle_walk(pm, p, meet, (fuel - 1) as nat)
            },
        }
    }
}

/// The reported cycle: the walk around the cycle from the meeting point,
/// closed by repeating the meeting point.
pub open spec fn cycle_path(pm: Seq<(Seq<char>, Seq<char>)>, meet: Seq<char>) -> Seq<Seq<char>> {
    cycle_walk(pm, meet, meet, pm.len() + 1) + seq![meet]
}

/// The cycle diagnostics contributed by one starting class.
pub open spec fn cycle_err_for(pm: Seq<(Seq<char>, Seq<char>)>, n: Seq<char>) -> Seq<ErrorV> {
    if n == "Object"@ {
        Seq::empty()
    } else {
        match floyd(pm, n, n, floyd_fuel(pm.len())) {
            None => Seq::empty(),
            Some(meet) => seq![ErrorV::InheritanceCycle { cycle: cycle_path(pm, meet) }],
        }
    }
}

/// The cycle diagnostics of the first `k` classes, in class order.
pub open spec fn cycle_errs(cs: Seq<Class>, pm: Seq<(Seq<char>, Seq<char>)>, k: int) -> Seq<ErrorV>
    decreases k,
{
    if k <= 0 {
        Seq::empty()
    } else {
        cycle_errs(cs, pm, k - 1) + cycle_err_for(pm, cs[k - 1].name@)
    }
}

/// Everything the inheritance-graph validator reports, in order: duplicate
/// classes, illegal base types, undefined parents, then cycles.
pub open spec fn inheritance_errors(cs: Seq<Class>) -> Seq<ErrorV> {
    let pm = with_root(pmap_entries(cs, cs.len() as int));
    dup_errs(cs, cs.len() as int) + basic_errs(cs, cs.len() as int) + undef_errs(cs, pm,
        pm.len() as int) + cycle_errs(cs, pm, cs.len() as int)
}

/// Whether an earlier class already declares the name of class `i`.
fn name_seen_before(classes: &Vec<Class>, i: usize) -> (r: bool)
    requires
        i < classes.len(),
    ensures
        r == exists|j: int| 0 <= j < i && (#[trigger] classes@[j]).name@ == classes@[i as int].name@,
{
    let mut j: usize = 0;
    while j < i
        invariant
            j <= i,
            i < classes.len(),
            forall|l: int| 0 <= l < j ==> classes@[l].name@ != classes@[i as int].name@,
        decreases i - j,
    {
        if string_eq(&classes[j].name, &classes[i].name) {
            return true;
        }
        j += 1;
    }
    false
}

/// Whether some class declares the name `n`.
fn is_declared(classes: &Vec<Class>, n: &str) -> (r: bool)
    ensures
        r == declared(classes@, n@),
{
    let mut j: usize = 0;
    while j < classes.len()
        invariant
            j <= classes.len(),
            forall|l: int| 0 <= l < j ==> classes@[l].name@ != n@,
        decreases classes.len() - j,
    {
        if str_eq(classes[j].name.as_str(), n) {
            return true;
        }
        j += 1;
    }
    false
}

/// Whether a parent name is a sealed leaf type or the self-type marker.
fn is_basic(p: &str) -> (r: bool)
    ensures
        r == is_basic_parent(p@),
{
    str_eq(p, "Int") || str_eq(p, "String") || str_eq(p, "Bool") || str_eq(p, "SELF_TYPE")
}

/// The parent name a class declaration resolves to.
fn resolved_parent(c: &Class) -> (r: String)
    ensures
        r@ == parent_of(*c),
{
    match &c.inherits {
        Some(p) => p.clone(),
        None => String::from_str("Object"),
    }
}

/// The iteration bound of the two-pointer walk, as a machine integer.
fn floyd_fuel_exec(n: usize) -> (r: u128)
    ensures
        r as nat == floyd_fuel(n as nat),
{
    if n >= 0xFFFF_FFFF {
        u128::MAX
    } else {
        let m: u128 = n as u128 + 1;
        proof {
            assert(m * m <= 0x1_0000_0000u128 * 0x1_0000_0000u128) by (nonlinear_arith)
                requires
                    1 <= m <= 0x1_0000_0000u128,
            ;
        }
        m * m + 1
    }
}

/// Run the two-pointer cycle search from one starting class.
fn floyd_run(pm: &Vec<(String, String)>, start: &String) -> (r: Option<String>)
    ensures
        match r {
            Some(m) => floyd(pairs_view(pm@), start@, start@, floyd_fuel(pm@.len() as nat)) == Some(
                m@,
            ),
            None => floyd(pairs_view(pm@), start@, start@, floyd_fuel(pm@.len() as nat)) is None,
        },
{
    let ghost pmv = pairs_view(pm@);
    let ghost fuel_spec = floyd_fuel(pm@.len() as nat);
    let fuel: u128 = floyd_fuel_exec(pm.len());
    let mut tortoise: String = start.clone();
    let mut hare: String = start.clone();
    let mut k: u128 = 0;
    let mut res: Option<String> = None;
    let mut done = false;
    while !done
        invariant
            pmv == pairs_view(pm@),
            fuel as nat == fuel_spec,
            fuel_spec == floyd_fuel(pm@.len() as nat),
            k <= fuel,
            !done ==> res is None,
            !done ==> floyd(pmv, start@, start@, fuel_spec) == floyd(pmv, tortoise@, hare@, (fuel
                - k) as nat),
            done ==> match res {
                Some(m) => floyd(pmv, start@, start@, fuel_spec) == Some(m@),
                None => floyd(pmv, start@, start@, fuel_spec) is None,
            },
        decreases (if done { 0u128 } else { 1u128 }) + fuel - k,
    {
        if k == fuel {
            done = true;
        } else {
            match assoc_get(pm, tortoise.as_str()) {
                None => {
                    done = true;
                },
                Some(t2) => {
                    match assoc_get(pm, hare.as_str()) {
                        None => {
                            done = true;
                        },
                        Some(h1) => {
                            match assoc_get(pm, h1.as_str()) {
                                None => {
                                    done = true;
                                },
                                Some(h2) => {
                                    tortoise = t2;
                                    hare = h2;
                                    if string_eq(&tortoise, &hare) {
                                        if !str_eq(tortoise.as_str(), "Object") {
                                            res = Some(tortoise.clone());
                                        }
                                        done = true;
                                    } else if str_eq(tortoise.as_str(), "Object") || str_eq(
                                        hare.as_str(),
                                        "Object",
                                    ) {
                                        done = true;
                                    } else {
                                        k = k + 1;
                                    }
                                },
                            }
                        },
                    }
                },
            }
        }
    }
    res
}

/// Rebuild the ordered list of class names making up a found cycle, from the
/// meeting point around the cycle and back.
fn rebuild_cycle(pm: &Vec<(String, String)>, meet: &String) -> (r: Vec<String>)
    ensures
        strs_view(r@) == cycle_path(pairs_view(pm@), meet@),
{
    let ghost pmv = pairs_view(pm@);
    let mut cycle: Vec<String> = Vec::new();
    let mut cur: String = meet.clone();
    let mut f: u128 = pm.len() as u128 + 1;
    let mut done = false;
    while !done
        invariant
            pmv == pairs_view(pm@),
            cycle_walk(pmv, meet@, meet@, pm@.len() + 1) == strs_view(cycle@) + (if done {
                Seq::<Seq<char>>::empty()
            } else {
                cycle_walk(pmv, cur@, meet@, f as nat)
            }),
        decreases (if done { 0u128 } else { 1u128 }) + f,
    {
        let ghost pre = strs_view(cycle@);
        let ghost fpre = f as nat;
        cycle.push(cur.clone());
        proof {
            assert(strs_view(cycle@) =~= pre.push(cur@));
            lemma_push_concat(pre, Seq::<Seq<char>>::empty(), cur@);
        }
        if f == 0 {
            done = true;
            proof {
                assert(cycle_walk(pmv, cur@, meet@, 0) =~= seq![cur@]);
                assert(pre + cycle_walk(pmv, cur@, meet@, 0) =~= strs_view(cycle@));
            }
        } else {
            match assoc_get(pm, cur.as_str()) {
                None => {
                    done = true;
                    proof {
                        assert(cycle_walk(pmv, cur@, meet@, fpre) =~= seq![cur@]);
                        assert(pre + cycle_walk(pmv, cur@, meet@, fpre) =~= strs_view(cycle@));
                    }
                },
                Some(p) => {
                    if string_eq(&p, meet) {
                        done = true;
                        proof {
                            assert(cycle_walk(pmv, cur@, meet@, fpre) =~= seq![cur@]);
                            assert(pre + cycle_walk(pmv, cur@, meet@, fpre) =~= strs_view(cycle@));
                        }
                    } else {
                        let ghost curpre = cur@;
                        cur = p;
                        f = f - 1;
                        proof {
                            assert(cycle_walk(pmv, curpre, meet@, fpre) =~= seq![curpre]
                                + cycle_walk(pmv, cur@, meet@, f as nat));
                            assert(pre + (seq![curpre] + cycle_walk(pmv, cur@, meet@, f as nat))
                                =~= strs_view(cycle@) + cycle_walk(pmv, cur@, meet@, f as nat));
                        }
                    }
                },
            }
        }
    }
    let ghost pre = strs_view(cycle@);
    cycle.push(meet.clone());
    proof {
        assert(strs_view(cycle@) =~= pre.push(meet@));
        lemma_push_concat(pre, Seq::<Seq<char>>::empty(), meet@);
        assert(strs_view(cycle@) =~= cycle_path(pmv, meet@));
    }
    cycle
}

/// Validate the inheritance graph of a class list, reporting every duplicate
/// class name, every illegal base type, every undefined parent, and every
/// genuine inheritance cycle, in that order, to the error sink. Nothing stops
/// at the first finding; the root class's self-loop is never itself a cycle.
pub fn check_inheritance(classes: &Vec<Class>, ec: &mut ErrorCollector)
    ensures
        final(ec)@ == old(ec)@ + inheritance_errors(classes@),
{
    let ghost cs = classes@;
    let ghost e0 = old(ec)@;
    let n = classes.len();

    // Duplicate class names.
    let mut i: usize = 0;
    while i < n
        invariant
            n == classes.len(),
            i <= n,
            cs == classes@,
            ec@ == e0 + dup_errs(cs, i as int),
        decreases n - i,
    {
        if name_seen_before(classes, i) {
            let ghost pre = ec@;
            ec.add(SemanticError::DuplicateClass { class: classes[i].name.clone() });
            proof {
                lemma_push_concat(e0, dup_errs(cs, i as int), ErrorV::DuplicateClass {
                    class: cs[i as int].name@,
                });
            }
        } else {
            proof {
                lemma_add_empty(dup_errs(cs, i as int));
            }
        }
        i += 1;
    }
    let ghost dups = dup_errs(cs, cs.len() as int);

    // Illegal base types.
    let mut i: usize = 0;
    while i < n
        invariant
            n == classes.len(),
            i <= n,
            cs == classes@,
            ec@ == e0 + dups + basic_errs(cs, i as int),
            dups == dup_errs(cs, cs.len() as int),
        decreases n - i,
    {
        let parent = resolved_parent(&classes[i]);
        if is_basic(parent.as_str()) {
            ec.add(SemanticError::InheritBasicType { class: classes[i].name.clone(), parent });
            proof {
                lemma_push_concat(e0 + dups, basic_errs(cs, i as int), ErrorV::InheritBasicType {
                    class: cs[i as int].name@,
                    parent: parent_of(cs[i as int]),
                });
            }
        } else {
            proof {
                lemma_add_empty(basic_errs(cs, i as int));
            }
        }
        i += 1;
    }
    let ghost basics = basic_errs(cs, cs.len() as int);

    // The parent map: every class but the root maps to its resolved parent.
    let mut pm: Vec<(String, String)> = Vec::new();
    let mut i: usize = 0;
    while i < n
        invariant
            n == classes.len(),
            i <= n,
            cs == classes@,
            pairs_view(pm@) == pmap_entries(cs, i as int),
        decreases n - i,
    {
        if !str_eq(classes[i].name.as_str(), "Object") && !assoc_contains(
            &pm,
            classes[i].name.as_str(),
        ) {
            let parent = resolved_parent(&classes[i]);
            pm.push((classes[i].name.clone(), parent));
            proof {
                assert(pairs_view(pm@) =~= pmap_entries(cs, i as int + 1));
            }
        } else {
            proof {
                assert(pairs_view(pm@) =~= pmap_entries(cs, i as int + 1));
            }
        }
        i += 1;
    }
    if !assoc_contains(&pm, "Object") {
        pm.push((String::from_str("Object"), String::from_str("Object")));
        proof {
            assert(pairs_view(pm@) =~= with_root(pmap_entries(cs, cs.len() as int)));
        }
    }
    let ghost pmv = pairs_view(pm@);
    proof {
        assert(pmv == with_root(pmap_entries(cs, cs.len() as int)));
    }

    // Undefined parents, in parent-map order.
    let mut k: usize = 0;
    while k < pm.len()
        invariant
            cs == classes@,
            k <= pm.len(),
            pmv == pairs_view(pm@),
            ec@ == e0 + dups + basics + undef_errs(cs, pmv, k as int),
            dups == dup_errs(cs, cs.len() as int),
            basics == basic_errs(cs, cs.len() as int),
        decreases pm.len() - k,
    {
        if !str_eq(pm[k].1.as_str(), "Object") && !is_declared(classes, pm[k].1.as_str()) {
            ec.add(SemanticError::UndefinedParent {
                class: pm[k].0.clone(),
                parent: pm[k].1.clone(),
            });
            proof {
                lemma_push_concat(e0 + dups + basics, undef_errs(cs, pmv, k as int),
                    ErrorV::UndefinedParent { class: pmv[k as int].0, parent: pmv[k as int].1 });
            }
        } else {
            proof {
                lemma_add_empty(undef_errs(cs, pmv, k as int));
            }
        }
        k += 1;
    }
    let ghost undefs = undef_errs(cs, pmv, pmv.len() as int);

    // Genuine inheritance cycles, one search per non-root class.
    let mut i: usize = 0;
    while i < n
        invariant
            n == classes.len(),
            i <= n,
            cs == classes@,
            pmv == pairs_view(pm@),
            ec@ == e0 + dups + basics + undefs + cycle_errs(cs, pmv, i as int),
            dups == dup_errs(cs, cs.len() as int),
            basics == basic_errs(cs, cs.len() as int),
            undefs == undef_errs(cs, pmv, pmv.len() as int),
        decreases n - i,
    {
        if !str_eq(classes[i].name.as_str(), "Object") {
            match floyd_run(&pm, &classes[i].name) {
                None => {
                    proof {
                        lemma_add_empty(cycle_errs(cs, pmv, i as int));
                        assert(cycle_errs(cs, pmv, i as int + 1) == cycle_errs(cs, pmv, i as int)
                            + cycle_err_for(pmv, cs[i as int].name@));
                    }
                },
                Some(meet) => {
                    let path = rebuild_cycle(&pm, &meet);
                    ec.add(SemanticError::InheritanceCycle { cycle: path });
                    proof {
                        lemma_push_concat(e0 + dups + basics + undefs, cycle_errs(cs, pmv,
                            i as int), ErrorV::InheritanceCycle {
                            cycle: cycle_path(pmv, meet@),
                        });
                    }
                },
            }
        } else {
            proof {
                lemma_add_empty(cycle_errs(cs, pmv, i as int));
            }
        }
        i += 1;
    }
    proof {
        assert(e0 + dups + basics + undefs + cycle_errs(cs, pmv, cs.len() as int) =~= e0
            + inheritance_errors(cs));
    }
}

} // verus!
