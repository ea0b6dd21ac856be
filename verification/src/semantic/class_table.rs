//! The per-phase class lookup table: a mapping from class name to declared
//! parent, attribute signatures and method signatures, built fresh from the
//! class list by every phase that needs it.

use vstd::prelude::*;

use crate::ast::{ArgDecl, Class, Feature};
use crate::semantic::errors::strs_view;
use crate::strutil::str_eq;

verus! {

broadcast use vstd::seq::group_seq_axioms;

/// One entry of the class table: the class's resolved parent name and its
/// own (not inherited) attribute and method signatures.
/// An attribute signature is (name, type); a method signature is
/// (name, return type, parameter types in order).
#[derive(Debug)]
pub struct ClassInfo {
    pub name: String,
    pub parent: String,
    pub attributes: Vec<(String, String)>,
    pub methods: Vec<(String, String, Vec<String>)>,
}

/// The mathematical value of a table entry.
#[verifier::ext_equal]
pub struct ClassInfoV {
    pub name: Seq<char>,
    pub parent: Seq<char>,
    pub attributes: Seq<(Seq<char>, Seq<char>)>,
    pub methods: Seq<(Seq<char>, Seq<char>, Seq<Seq<char>>)>,
}

pub open spec fn attr_view(p: (String, String)) -> (Seq<char>, Seq<char>) {
    (p.0@, p.1@)
}

/// The views of an association list of owned strings.
pub open spec fn pairs_view(s: Seq<(String, String)>) -> Seq<(Seq<char>, Seq<char>)> {
    s.map_values(|p: (String, String)| attr_view(p))
}

pub open spec fn sig_view(m: (String, String, Vec<String>)) -> (Seq<char>, Seq<char>, Seq<
    Seq<char>,
>) {
    (m.0@, m.1@, strs_view(m.2@))
}

/// The views of a list of method signatures.
pub open spec fn sigs_view(s: Seq<(String, String, Vec<String>)>) -> Seq<
    (Seq<char>, Seq<char>, Seq<Seq<char>>),
> {
    s.map_values(|m: (String, String, Vec<String>)| sig_view(m))
}

impl View for ClassInfo {
    type V = ClassInfoV;

    open spec fn view(&self) -> ClassInfoV {
        ClassInfoV {
            name: self.name@,
            parent: self.parent@,
            attributes: pairs_view(self.attributes@),
            methods: sigs_view(self.methods@),
        }
    }
}

/// The view of a whole table.
pub open spec fn tview(t: Seq<ClassInfo>) -> Seq<ClassInfoV> {
    t.map_values(|ci: ClassInfo| ci@)
}

/// The parent name a class declaration resolves to: the declared one, or the
/// root class when no parent is declared.
pub open spec fn parent_of(c: Class) -> Seq<char> {
    match c.inherits {
        Some(p) => p@,
        None => "Object"@,
    }
}

/// Whether an association list of (name, value) pairs holds a binding for `n`.
pub open spec fn names_contain(t: Seq<(Seq<char>, Seq<char>)>, n: Seq<char>) -> bool {
    exists|i: int| 0 <= i < t.len() && t[i].0 == n
}

/// The first binding for `n` in an association list.
pub open spec fn assoc_lookup(t: Seq<(Seq<char>, Seq<char>)>, n: Seq<char>) -> Option<Seq<char>>
    decreases t.len(),
{
    if t.len() == 0 {
        None
    } else if t[0].0 == n {
        Some(t[0].1)
    } else {
        assoc_lookup(t.drop_first(), n)
    }
}

/// The (name, parent) entries of the first `k` classes, one per distinct
/// class name, in order of first occurrence: the first declaration of a
/// repeated name wins.
pub open spec fn base_entries(cs: Seq<Class>, k: int) -> Seq<(Seq<char>, Seq<char>)>
    decreases k,
{
    if k <= 0 {
        Seq::empty()
    } else {
        let t = base_entries(cs, k - 1);
        if names_contain(t, cs[k - 1].name@) {
            t
        } else {
            t.push((cs[k - 1].name@, parent_of(cs[k - 1])))
        }
    }
}

/// The root class entry, mapped to itself, is appended when absent, so that
/// every upward walk has a terminating self-loop to land on.
pub open spec fn with_root(t: Seq<(Seq<char>, Seq<char>)>) -> Seq<(Seq<char>, Seq<char>)> {
    if names_contain(t, "Object"@) {
        t
    } else {
        t.push(("Object"@, "Object"@))
    }
}

/// The attribute signatures declared by the first `k` features, in order.
pub open spec fn attr_sigs(fs: Seq<Feature>, k: int) -> Seq<(Seq<char>, Seq<char>)>
    decreases k,
{
    if k <= 0 {
        Seq::empty()
    } else {
        let t = attr_sigs(fs, k - 1);
        match fs[k - 1] {
            Feature::Attribute(vd) => t.push((vd.oid@, vd.tid@)),
            Feature::Method(_, _, _, _) => t,
        }
    }
}

/// The declared parameter types of a method, in order.
pub open spec fn arg_types(args: Seq<ArgDecl>) -> Seq<Seq<char>> {
    args.map_values(|a: ArgDecl| a.tid@)
}

/// The method signatures declared by the first `k` features, in order.
pub open spec fn method_sigs(fs: Seq<Feature>, k: int) -> Seq<(Seq<char>, Seq<char>, Seq<Seq<char>>)>
    decreases k,
{
    if k <= 0 {
        Seq::empty()
    } else {
        let t = method_sigs(fs, k - 1);
        match fs[k - 1] {
            Feature::Attribute(_) => t,
            Feature::Method(name, args, ret, _) => t.push((name@, ret@, arg_types(args@))),
        }
    }
}

/// All attribute signatures contributed to name `n` by the first `k` classes:
/// every class whose name is `n` appends its own attributes in order.
pub open spec fn gathered_attrs(cs: Seq<Class>, n: Seq<char>, k: int) -> Seq<(Seq<char>, Seq<char>)>
    decreases k,
{
    if k <= 0 {
        Seq::empty()
    } else {
        gathered_attrs(cs, n, k - 1) + if cs[k - 1].name@ == n {
            attr_sigs(cs[k - 1].feature_list@, cs[k - 1].feature_list@.len() as int)
        } else {
            Seq::empty()
        }
    }
}

/// All method signatures contributed to name `n` by the first `k` classes.
pub open spec fn gathered_methods(cs: Seq<Class>, n: Seq<char>, k: int) -> Seq<
    (Seq<char>, Seq<char>, Seq<Seq<char>>),
>
    decreases k,
{
    if k <= 0 {
        Seq::empty()
    } else {
        gathered_methods(cs, n, k - 1) + if cs[k - 1].name@ == n {
            method_sigs(cs[k - 1].feature_list@, cs[k - 1].feature_list@.len() as int)
        } else {
            Seq::empty()
        }
    }
}

/// The full table entry for one (name, parent) pair.
pub open spec fn entry_info(cs: Seq<Class>, e: (Seq<char>, Seq<char>)) -> ClassInfoV {
    ClassInfoV {
        name: e.0,
        parent: e.1,
        attributes: gathered_attrs(cs, e.0, cs.len() as int),
        methods: gathered_methods(cs, e.0, cs.len() as int),
    }
}

/// The class table of a class list: one entry per distinct class name in
/// order of first occurrence, the root class synthesized last when it is not
/// declared, and each entry carrying the features of every declaration of
/// that name.
pub open spec fn table_of(cs: Seq<Class>) -> Seq<ClassInfoV> {
    with_root(base_entries(cs, cs.len() as int)).map_values(
        |e: (Seq<char>, Seq<char>)| entry_info(cs, e),
    )
}

/// Whether the table holds an entry named `n`.
pub open spec fn table_contains(t: Seq<ClassInfoV>, n: Seq<char>) -> bool {
    exists|i: int| 0 <= i < t.len() && t[i].name == n
}

/// The first table entry named `n`.
pub open spec fn table_lookup(t: Seq<ClassInfoV>, n: Seq<char>) -> Option<ClassInfoV>
    decreases t.len(),
{
    if t.len() == 0 {
        None
    } else if t[0].name == n {
        Some(t[0])
    } else {
        table_lookup(t.drop_first(), n)
    }
}

/// A lookup that finds an entry finds the first one; a lookup that finds none
/// means no entry has that name.
pub proof fn lemma_table_lookup_at(t: Seq<ClassInfoV>, n: Seq<char>, i: int)
    requires
        0 <= i < t.len(),
        t[i].name == n,
        forall|j: int| 0 <= j < i ==> t[j].name != n,
    ensures
        table_lookup(t, n) == Some(t[i]),
    decreases i,
{
    if i == 0 {
    } else {
        lemma_table_lookup_at(t.drop_first(), n, i - 1);
    }
}

pub proof fn lemma_table_lookup_none(t: Seq<ClassInfoV>, n: Seq<char>)
    requires
        forall|j: int| 0 <= j < t.len() ==> t[j].name != n,
    ensures
        table_lookup(t, n) is None,
    decreases t.len(),
{
    if t.len() > 0 {
        lemma_table_lookup_none(t.drop_first(), n);
    }
}

/// Find the index of the first table entry with the given class name.
pub fn find_class(t: &Vec<ClassInfo>, n: &str) -> (r: Option<usize>)
    ensures
        match r {
            Some(i) => i < t.len() && t@[i as int]@.name == n@ && table_lookup(tview(t@), n@)
                == Some(t@[i as int]@),
            None => !table_contains(tview(t@), n@) && table_lookup(tview(t@), n@) is None,
        },
{
    let mut i: usize = 0;
    while i < t.len()
        invariant
            i <= t.len(),
            forall|j: int| 0 <= j < i ==> tview(t@)[j].name != n@,
        decreases t.len() - i,
    {
        if str_eq(t[i].name.as_str(), n) {
            proof {
                lemma_table_lookup_at(tview(t@), n@, i as int);
            }
            return Some(i);
        }
        i += 1;
    }
    proof {
        lemma_table_lookup_none(tview(t@), n@);
    }
    None
}

/// Whether an association list of owned strings binds `n` (first match).
pub fn assoc_contains(v: &Vec<(String, String)>, n: &str) -> (r: bool)
    ensures
        r == names_contain(pairs_view(v@), n@),
{
    let mut i: usize = 0;
    while i < v.len()
        invariant
            i <= v.len(),
            forall|j: int| 0 <= j < i ==> (#[trigger] v@[j]).0@ != n@,
        decreases v.len() - i,
    {
        if str_eq(v[i].0.as_str(), n) {
            proof {
                let pv = pairs_view(v@);
                assert(pv[i as int].0 == n@);
            }
            return true;
        }
        i += 1;
    }
    proof {
        let pv = pairs_view(v@);
        assert(forall|j: int| 0 <= j < pv.len() ==> (#[trigger] pv[j]).0 == v@[j].0@);
    }
    false
}

/// The first value an association list binds `n` to, cloned.
pub fn assoc_get(v: &Vec<(String, String)>, n: &str) -> (r: Option<String>)
    ensures
        match r {
            Some(p) => assoc_lookup(pairs_view(v@), n@) == Some(
                p@,
            ),
            None => assoc_lookup(pairs_view(v@), n@) is None,
        },
{
    let mut i: usize = 0;
    while i < v.len()
        invariant
            i <= v.len(),
            forall|j: int| 0 <= j < i ==> (#[trigger] v@[j]).0@ != n@,
        decreases v.len() - i,
    {
        if str_eq(v[i].0.as_str(), n) {
            proof {
                let pv = pairs_view(v@);
                assert(forall|j: int| 0 <= j < i ==> (#[trigger] pv[j]).0 != n@);
                lemma_assoc_lookup_at(pv, n@, i as int);
            }
            return Some(v[i].1.clone());
        }
        i += 1;
    }
    proof {
        let pv = pairs_view(v@);
        assert(forall|j: int| 0 <= j < pv.len() ==> (#[trigger] pv[j]).0 == v@[j].0@);
        lemma_assoc_lookup_none(pv, n@);
    }
    None
}

pub proof fn lemma_assoc_lookup_at(t: Seq<(Seq<char>, Seq<char>)>, n: Seq<char>, i: int)
    requires
        0 <= i < t.len(),
        t[i].0 == n,
        forall|j: int| 0 <= j < i ==> t[j].0 != n,
    ensures
        assoc_lookup(t, n) == Some(t[i].1),
    decreases i,
{
    if i == 0 {
    } else {
        lemma_assoc_lookup_at(t.drop_first(), n, i - 1);
    }
}

pub proof fn lemma_assoc_lookup_none(t: Seq<(Seq<char>, Seq<char>)>, n: Seq<char>)
    requires
        forall|j: int| 0 <= j < t.len() ==> t[j].0 != n,
    ensures
        assoc_lookup(t, n) is None,
    decreases t.len(),
{
    if t.len() > 0 {
        lemma_assoc_lookup_none(t.drop_first(), n);
    }
}

/// Collect the attribute signatures of every class named `n`.
fn gather_attrs(classes: &Vec<Class>, n: &str) -> (r: Vec<(String, String)>)
    ensures
        pairs_view(r@) == gathered_attrs(classes@, n@,
            classes@.len() as int),
{
    let mut r: Vec<(String, String)> = Vec::new();
    let mut i: usize = 0;
    while i < classes.len()
        invariant
            i <= classes.len(),
            pairs_view(r@) == gathered_attrs(classes@, n@,
                i as int),
        decreases classes.len() - i,
    {
        if str_eq(classes[i].name.as_str(), n) {
            let fs = &classes[i].feature_list;
            let mut j: usize = 0;
            while j < fs.len()
                invariant
                    j <= fs.len(),
                    pairs_view(r@) == gathered_attrs(classes@,
                        n@, i as int) + attr_sigs(fs@, j as int),
                    classes@[i as int].name@ == n@,
                    i < classes@.len(),
                    fs@ == classes@[i as int].feature_list@,
                decreases fs.len() - j,
            {
                match &fs[j] {
                    Feature::Attribute(vd) => {
                        r.push((vd.oid.clone(), vd.tid.clone()));
                        proof {
                            let a = gathered_attrs(classes@, n@, i as int);
                            let b = attr_sigs(fs@, j as int);
                            let x = (vd.oid@, vd.tid@);
                            assert(a + b.push(x) =~= (a + b).push(x));
                            assert(pairs_view(r@) =~= (a
                                + b).push(x));
                            assert(pairs_view(r@) == a
                                + attr_sigs(fs@, j as int + 1));
                        }
                    },
                    Feature::Method(_, _, _, _) => {},
                }
                j += 1;
            }
            proof {
                assert(gathered_attrs(classes@, n@, i as int + 1) =~= gathered_attrs(classes@, n@,
                    i as int) + attr_sigs(fs@, fs@.len() as int));
            }
        } else {
            proof {
                assert(gathered_attrs(classes@, n@, i as int + 1) =~= gathered_attrs(classes@, n@,
                    i as int));
            }
        }
        i += 1;
    }
    r
}

/// Collect the method signatures of every class named `n`.
fn gather_methods(classes: &Vec<Class>, n: &str) -> (r: Vec<(String, String, Vec<String>)>)
    ensures
        sigs_view(r@) == gathered_methods(classes@,
            n@, classes@.len() as int),
{
    let mut r: Vec<(String, String, Vec<String>)> = Vec::new();
    let mut i: usize = 0;
    while i < classes.len()
        invariant
            i <= classes.len(),
            sigs_view(r@) == gathered_methods(
                classes@, n@, i as int),
        decreases classes.len() - i,
    {
        if str_eq(classes[i].name.as_str(), n) {
            let fs = &classes[i].feature_list;
            let mut j: usize = 0;
            while j < fs.len()
                invariant
                    j <= fs.len(),
                    sigs_view(r@)
                        == gathered_methods(classes@, n@, i as int) + method_sigs(fs@, j as int),
                    classes@[i as int].name@ == n@,
                    i < classes@.len(),
                    fs@ == classes@[i as int].feature_list@,
                decreases fs.len() - j,
            {
                match &fs[j] {
                    Feature::Attribute(_) => {},
                    Feature::Method(name, args, ret, _) => {
                        let mut params: Vec<String> = Vec::new();
                        let mut a: usize = 0;
                        while a < args.len()
                            invariant
                                a <= args.len(),
                                strs_view(params@) == arg_types(args@).take(a as int),
                            decreases args.len() - a,
                        {
                            params.push(args[a].tid.clone());
                            proof {
                                assert(arg_types(args@).take(a as int + 1) =~= arg_types(
                                    args@).take(a as int).push(arg_types(args@)[a as int]));
                                assert(strs_view(params@) =~= arg_types(args@).take(a as int + 1));
                            }
                            a += 1;
                        }
                        proof {
                            assert(arg_types(args@).take(args@.len() as int) =~= arg_types(args@));
                        }
                        r.push((name.clone(), ret.clone(), params));
                        proof {
                            let a = gathered_methods(classes@, n@, i as int);
                            let b = method_sigs(fs@, j as int);
                            let x = (name@, ret@, arg_types(args@));
                            assert(a + b.push(x) =~= (a + b).push(x));
                            assert(sigs_view(r@)
                                =~= (a + b).push(x));
                            assert(sigs_view(r@)
                                == a + method_sigs(fs@, j as int + 1));
                        }
                    },
                }
                j += 1;
            }
            proof {
                assert(gathered_methods(classes@, n@, i as int + 1) =~= gathered_methods(classes@,
                    n@, i as int) + method_sigs(fs@, fs@.len() as int));
            }
        } else {
            proof {
                assert(gathered_methods(classes@, n@, i as int + 1) =~= gathered_methods(classes@,
                    n@, i as int));
            }
        }
        i += 1;
    }
    r
}

/// The method signatures a single class declares, in feature order.
pub fn class_method_sigs(c: &Class) -> (r: Vec<(String, String, Vec<String>)>)
    ensures
        sigs_view(r@) == method_sigs(c.feature_list@, c.feature_list@.len() as int),
{
    let fs = &c.feature_list;
    let mut r: Vec<(String, String, Vec<String>)> = Vec::new();
    let mut j: usize = 0;
    while j < fs.len()
        invariant
            j <= fs.len(),
            fs@ == c.feature_list@,
            sigs_view(r@) == method_sigs(fs@, j as int),
        decreases fs.len() - j,
    {
        match &fs[j] {
            Feature::Attribute(_) => {},
            Feature::Method(name, args, ret, _) => {
                let mut params: Vec<String> = Vec::new();
                let mut a: usize = 0;
                while a < args.len()
                    invariant
                        a <= args.len(),
                        strs_view(params@) == arg_types(args@).take(a as int),
                    decreases args.len() - a,
                {
                    params.push(args[a].tid.clone());
                    proof {
                        assert(arg_types(args@).take(a as int + 1) =~= arg_types(args@).take(
                            a as int).push(arg_types(args@)[a as int]));
                        assert(strs_view(params@) =~= arg_types(args@).take(a as int + 1));
                    }
                    a += 1;
                }
                proof {
                    assert(arg_types(args@).take(args@.len() as int) =~= arg_types(args@));
                }
                r.push((name.clone(), ret.clone(), params));
                proof {
                    assert(sigs_view(r@) =~= method_sigs(fs@, j as int).push(
                        (name@, ret@, arg_types(args@))));
                }
            },
        }
        j += 1;
    }
    r
}

/// Build the class table of a class list.
///
/// Every declared class gets an entry holding its resolved parent (the root
/// class when none is declared) and its own attribute and method signatures;
/// when a name is declared more than once the first declaration's parent wins
/// and every declaration's features are gathered. The root class is
/// synthesized, as its own parent, when the program does not declare it.
/// No error checking happens here; later phases report malformed references.
pub fn build_class_table(classes: &Vec<Class>) -> (t: Vec<ClassInfo>)
    ensures
        tview(t@) == table_of(classes@),
{
    let ghost cs = classes@;
    // Pass 1: one (name, parent) entry per distinct class name.
    let mut base: Vec<(String, String)> = Vec::new();
    let mut i: usize = 0;
    while i < classes.len()
        invariant
            i <= classes.len(),
            pairs_view(base@) == base_entries(cs, i as int),
            cs == classes@,
        decreases classes.len() - i,
    {
        if !assoc_contains(&base, classes[i].name.as_str()) {
            let parent = match &classes[i].inherits {
                Some(p) => p.clone(),
                None => String::from_str("Object"),
            };
            base.push((classes[i].name.clone(), parent));
            proof {
                assert(pairs_view(base@) =~= base_entries(cs,
                    i as int + 1));
            }
        }
        i += 1;
    }
    if !assoc_contains(&base, "Object") {
        base.push((String::from_str("Object"), String::from_str("Object")));
        proof {
            assert(pairs_view(base@) =~= with_root(base_entries(
                cs, cs.len() as int)));
        }
    }
    let ghost bv = pairs_view(base@);
    proof {
        assert(bv == with_root(base_entries(cs, cs.len() as int)));
    }
    // Pass 2: fill each entry with the gathered signatures.
    let mut t: Vec<ClassInfo> = Vec::new();
    let mut i: usize = 0;
    while i < base.len()
        invariant
            i <= base.len(),
            bv == pairs_view(base@),
            tview(t@) == bv.map_values(|e: (Seq<char>, Seq<char>)| entry_info(cs, e)).take(i as int),
            cs == classes@,
        decreases base.len() - i,
    {
        let name = base[i].0.clone();
        let parent = base[i].1.clone();
        let attributes = gather_attrs(classes, name.as_str());
        let methods = gather_methods(classes, name.as_str());
        t.push(ClassInfo { name, parent, attributes, methods });
        proof {
            let m = bv.map_values(|e: (Seq<char>, Seq<char>)| entry_info(cs, e));
            assert(m.take(i as int + 1) =~= m.take(i as int).push(m[i as int]));
            assert(tview(t@) =~= m.take(i as int).push(m[i as int]));
        }
        i += 1;
    }
    proof {
        assert(tview(t@) =~= table_of(cs));
    }
    t
}

} // verus!
