//! The bootstrapped root classes: the root class itself, an I/O capability
//! class, and the three sealed leaf types, with their fixed method
//! signatures. A program's own declaration of one of these names replaces
//! the bootstrapped one; the driver filters before prepending.

use vstd::prelude::*;

use crate::ast::{ArgDecl, Class, Expr, Feature, TypedExpr};

verus! {

/// Whether a feature is a method with the given name, parameter list
/// (identifier and type views, in order) and return type.
pub open spec fn is_method_sig(
    f: Feature,
    name: Seq<char>,
    params: Seq<(Seq<char>, Seq<char>)>,
    ret: Seq<char>,
) -> bool {
    &&& f is Method
    &&& f->Method_0@ == name
    &&& f->Method_1@.map_values(|a: ArgDecl| (a.id@, a.tid@)) == params
    &&& f->Method_2@ == ret
}

/// The fixed shape of the bootstrapped class list: the root class with its
/// reflection methods, the I/O class with its read and write methods, the
/// string type with its length, concatenation and substring methods, and
/// the two scalar leaf types with no members of their own.
pub open spec fn builtin_classes_spec(r: Seq<Class>) -> bool {
    &&& r.len() == 5
    &&& r[0].name@ == "Object"@
    &&& r[0].inherits is None
    &&& r[0].feature_list@.len() == 2
    &&& is_method_sig(r[0].feature_list@[0], "abort"@, seq![], "Object"@)
    &&& is_method_sig(r[0].feature_list@[1], "type_name"@, seq![], "String"@)
    &&& r[1].name@ == "IO"@
    &&& r[1].inherits matches Some(p) && p@ == "Object"@
    &&& r[1].feature_list@.len() == 4
    &&& is_method_sig(r[1].feature_list@[0], "out_string"@, seq![("str"@, "String"@)], "IO"@)
    &&& is_method_sig(r[1].feature_list@[1], "out_int"@, seq![("i"@, "Int"@)], "IO"@)
    &&& is_method_sig(r[1].feature_list@[2], "in_string"@, seq![], "String"@)
    &&& is_method_sig(r[1].feature_list@[3], "in_int"@, seq![], "Int"@)
    &&& r[2].name@ == "String"@
    &&& r[2].inherits matches Some(p) && p@ == "Object"@
    &&& r[2].feature_list@.len() == 3
    &&& is_method_sig(r[2].feature_list@[0], "length"@, seq![], "Int"@)
    &&& is_method_sig(r[2].feature_list@[1], "concat"@, seq![("s"@, "String"@)], "String"@)
    &&& is_method_sig(r[2].feature_list@[2], "substr"@, seq![("i"@, "Int"@), ("l"@, "Int"@)],
        "String"@)
    &&& r[3].name@ == "Int"@
    &&& r[3].inherits matches Some(p) && p@ == "Object"@
    &&& r[3].feature_list@.len() == 0
    &&& r[4].name@ == "Bool"@
    &&& r[4].inherits matches Some(p) && p@ == "Object"@
    &&& r[4].feature_list@.len() == 0
}

/// Build the five bootstrapped classes, each method with a placeholder body
/// at line zero; the bodies are never themselves analyzed, since every
/// phase skips the builtin class names.
pub fn builtin_classes() -> (r: Vec<Class>)
    ensures
        builtin_classes_spec(r@),
{
    let mut result: Vec<Class> = Vec::new();

    let mut obj_features: Vec<Feature> = Vec::new();
    obj_features.push(
        Feature::Method(
            String::from_str("abort"),
            Vec::new(),
            String::from_str("Object"),
            TypedExpr::new(Expr::Identifier(String::from_str("abort")), 0),
        ),
    );
    obj_features.push(
        Feature::Method(
            String::from_str("type_name"),
            Vec::new(),
            String::from_str("String"),
            TypedExpr::new(Expr::Str(String::from_str("Object")), 0),
        ),
    );
    result.push(Class { name: String::from_str("Object"), inherits: None, feature_list: obj_features });

    let mut io_features: Vec<Feature> = Vec::new();
    let mut out_string_args: Vec<ArgDecl> = Vec::new();
    out_string_args.push(ArgDecl { id: String::from_str("str"), tid: String::from_str("String") });
    io_features.push(
        Feature::Method(
            String::from_str("out_string"),
            out_string_args,
            String::from_str("IO"),
            TypedExpr::new(Expr::Identifier(String::from_str("self")), 0),
        ),
    );
    let mut out_int_args: Vec<ArgDecl> = Vec::new();
    out_int_args.push(ArgDecl { id: String::from_str("i"), tid: String::from_str("Int") });
    io_features.push(
        Feature::Method(
            String::from_str("out_int"),
            out_int_args,
            String::from_str("IO"),
            TypedExpr::new(Expr::Identifier(String::from_str("self")), 0),
        ),
    );
    io_features.push(
        Feature::Method(
            String::from_str("in_string"),
            Vec::new(),
            String::from_str("String"),
            TypedExpr::new(Expr::Str(String::from_str("")), 0),
        ),
    );
    io_features.push(
        Feature::Method(
            String::from_str("in_int"),
            Vec::new(),
            String::from_str("Int"),
            TypedExpr::new(Expr::Int(0), 0),
        ),
    );
    result.push(
        Class {
            name: String::from_str("IO"),
            inherits: Some(String::from_str("Object")),
            feature_list: io_features,
        },
    );

    let mut str_features: Vec<Feature> = Vec::new();
    str_features.push(
        Feature::Method(
            String::from_str("length"),
            Vec::new(),
            String::from_str("Int"),
            TypedExpr::new(Expr::Int(0), 0),
        ),
    );
    let mut concat_args: Vec<ArgDecl> = Vec::new();
    concat_args.push(ArgDecl { id: String::from_str("s"), tid: String::from_str("String") });
    str_features.push(
        Feature::Method(
            String::from_str("concat"),
            concat_args,
            String::from_str("String"),
            TypedExpr::new(Expr::Identifier(String::from_str("self")), 0),
        ),
    );
    let mut substr_args: Vec<ArgDecl> = Vec::new();
    substr_args.push(ArgDecl { id: String::from_str("i"), tid: String::from_str("Int") });
    substr_args.push(ArgDecl { id: String::from_str("l"), tid: String::from_str("Int") });
    str_features.push(
        Feature::Method(
            String::from_str("substr"),
            substr_args,
            String::from_str("String"),
            TypedExpr::new(Expr::Identifier(String::from_str("self")), 0),
        ),
    );
    result.push(
        Class {
            name: String::from_str("String"),
            inherits: Some(String::from_str("Object")),
            feature_list: str_features,
        },
    );

    result.push(
        Class {
            name: String::from_str("Int"),
            inherits: Some(String::from_str("Object")),
            feature_list: Vec::new(),
        },
    );
    result.push(
        Class {
            name: String::from_str("Bool"),
            inherits: Some(String::from_str("Object")),
            feature_list: Vec::new(),
        },
    );
    proof {
        assert(builtin_classes_spec(result@)) by {
            assert(result@[1].feature_list@[0]->Method_1@.map_values(
                |a: ArgDecl| (a.id@, a.tid@)) =~= seq![("str"@, "String"@)]);
            assert(result@[1].feature_list@[1]->Method_1@.map_values(
                |a: ArgDecl| (a.id@, a.tid@)) =~= seq![("i"@, "Int"@)]);
            assert(result@[2].feature_list@[1]->Method_1@.map_values(
                |a: ArgDecl| (a.id@, a.tid@)) =~= seq![("s"@, "String"@)]);
            assert(result@[2].feature_list@[2]->Method_1@.map_values(
                |a: ArgDecl| (a.id@, a.tid@)) =~= seq![("i"@, "Int"@), ("l"@, "Int"@)]);
            assert(result@[0].feature_list@[0]->Method_1@.map_values(
                |a: ArgDecl| (a.id@, a.tid@)) =~= Seq::<(Seq<char>, Seq<char>)>::empty());
            assert(result@[0].feature_list@[1]->Method_1@.map_values(
                |a: ArgDecl| (a.id@, a.tid@)) =~= Seq::<(Seq<char>, Seq<char>)>::empty());
            assert(result@[1].feature_list@[2]->Method_1@.map_values(
                |a: ArgDecl| (a.id@, a.tid@)) =~= Seq::<(Seq<char>, Seq<char>)>::empty());
            assert(result@[1].feature_list@[3]->Method_1@.map_values(
                |a: ArgDecl| (a.id@, a.tid@)) =~= Seq::<(Seq<char>, Seq<char>)>::empty());
            assert(result@[2].feature_list@[0]->Method_1@.map_values(
                |a: ArgDecl| (a.id@, a.tid@)) =~= Seq::<(Seq<char>, Seq<char>)>::empty());
        }
    }
    result
}

} // verus!
