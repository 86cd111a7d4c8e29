//! Which nodes give the parameters of functions and the bases and fields of
//! classes.

use vstd::prelude::*;

use crate::lang;
use crate::laws::listing::{
    closed_by, lemma_picked_blocks, lemma_picked_kids, lemma_reported, reports,
    reports_kid_blocks, reports_kids,
};
use crate::laws::reported_functions::word_at;
use crate::lists::group_lists;
use crate::nodes::{first, first_from};
use crate::text::{begins, behind_all, words};
use crate::tree::{group_tree, Node};
use crate::walk::{found, last_found, picked, Picker};

verus! {

broadcast use {group_tree, group_lists};

/// Whether `r` reports the children of a node, where there is one, that `p` accepts:
/// one item for each of them, as `rel` says, in order, and nothing else.
pub open spec fn reports_list<'a, V>(
    list: Option<Node<'a>>,
    p: spec_fn(Node<'a>) -> bool,
    rel: spec_fn(V, Node<'a>) -> bool,
    r: Seq<V>,
) -> bool {
    match list {
        Some(l) => reports_kids(l, p, rel, r),
        None => r.len() == 0,
    }
}

/// The first child of a kind is a child of that kind, and none before it is.
pub proof fn first_children_come_first(n: Node<'_>, kind: &str, i: int)
    requires
        0 <= i,
    ensures
        first_from(n, kind, i) matches Some(c) ==> c.isa(kind) && exists|k: int|
            i <= k < n.arity() && #[trigger] n.kid(k) == c && forall|m: int|
                i <= m < k ==> !(#[trigger] n.kid(m)).isa(kind),
        first_from(n, kind, i) is None ==> forall|m: int|
            i <= m < n.arity() ==> !(#[trigger] n.kid(m)).isa(kind),
    decreases n.arity() - i,
{
    if i < n.arity() {
        first_children_come_first(n, kind, i + 1);
        if n.kid(i).isa(kind) {
            assert(n.kid(i) == first_from(n, kind, i)->0);
        } else if first_from(n, kind, i) is Some {
            let c = first_from(n, kind, i)->0;
            let k = choose|k: int|
                i + 1 <= k < n.arity() && #[trigger] n.kid(k) == c && forall|m: int|
                    i + 1 <= m < k ==> !(#[trigger] n.kid(m)).isa(kind);
            assert(n.kid(k) == c);
        }
    }
}

/// The text of a node.
pub open spec fn is_text<'a>() -> spec_fn(Seq<char>, Node<'a>) -> bool {
    |s: Seq<char>, c: Node<'a>| s == c.txt()
}

/// The name of a node.
pub open spec fn is_name<'a>() -> spec_fn(Seq<char>, Node<'a>) -> bool {
    |s: Seq<char>, c: Node<'a>| s == word_at(c, "name")
}

/// The text of the first identifier in a node, or of the node where it is one.
pub open spec fn is_identifier_in<'a>() -> spec_fn(Seq<char>, Node<'a>) -> bool {
    |s: Seq<char>, c: Node<'a>|
        s == match first(c, "identifier") {
            Some(id) => id.txt(),
            None => c.txt(),
        }
}

/// Parameters of Python that have a name.
pub open spec fn python_params<'a>() -> spec_fn(Node<'a>) -> bool {
    |c: Node<'a>| c.isa("identifier") || c.isa("list_splat_pattern") || c.isa("dictionary_splat_pattern") || ((c.isa("typed_parameter")
            || c.isa("default_parameter") || c.isa("typed_default_parameter")) && first(c, "identifier") is Some)
}

/// A parameter of Python: its name, with the stars that are before it.
pub open spec fn python_param<'a>() -> spec_fn(Seq<char>, Node<'a>) -> bool {
    |s: Seq<char>, c: Node<'a>| s == if c.isa("typed_parameter") || c.isa("default_parameter") || c.isa(
            "typed_default_parameter",
        ) {
            first(c, "identifier")->0.txt()
        } else {
            c.txt()
        }
}

/// The parameters of a Python function are listed each one time and in order.
pub proof fn python_params_are_listed<'a>(n: Node<'a>)
    ensures
        reports_list(n.at("parameters"), python_params(), python_param(), lang::python::params(n)),
{
    reveal_strlit("identifier");
    reveal_strlit("typed_parameter");
    reveal_strlit("default_parameter");
    reveal_strlit("typed_default_parameter");
    reveal_strlit("list_splat_pattern");
    reveal_strlit("dictionary_splat_pattern");
    assert("identifier"@.len() == 10);
    assert("typed_parameter"@.len() == 15);
    assert("default_parameter"@.len() == 17);
    assert("typed_default_parameter"@.len() == 23);
    assert("list_splat_pattern"@.len() == 18);
    assert("dictionary_splat_pattern"@.len() == 24);
    match n.at("parameters") {
        Some(list) => lemma_picked_kids(&lang::python::Params, list, python_params(), python_param()),
        None => {},
    }
}

/// Parameters of TypeScript declarations.
pub open spec fn ts_params<'a>() -> spec_fn(Node<'a>) -> bool {
    |c: Node<'a>| (c.isa("required_parameter") || c.isa("optional_parameter")) && c.at("pattern") is Some
}

/// A parameter of a TypeScript declaration.
pub open spec fn ts_param<'a>() -> spec_fn(Seq<char>, Node<'a>) -> bool {
    |s: Seq<char>, c: Node<'a>| s == word_at(c, "pattern")
}

/// The parameters of a TypeScript declaration are listed each one time and in order.
pub proof fn typescript_params_are_listed<'a>(n: Node<'a>)
    ensures
        reports_list(n.at("parameters"), ts_params(), ts_param(), lang::typescript::params(n)),
{
    match n.at("parameters") {
        Some(list) => lemma_picked_kids(&lang::typescript::Params { bare: false }, list, ts_params(), ts_param()),
        None => {},
    }
}

/// Parameters of TypeScript functions that are given to a name.
pub open spec fn ts_arrow_params<'a>() -> spec_fn(Node<'a>) -> bool {
    |c: Node<'a>| ts_params()(c) || c.isa("identifier")
}

/// A parameter of a TypeScript function that is given to a name.
pub open spec fn ts_arrow_param<'a>() -> spec_fn(Seq<char>, Node<'a>) -> bool {
    |s: Seq<char>, c: Node<'a>| s == if c.isa("identifier") {
            c.txt()
        } else {
            word_at(c, "pattern")
        }
}

/// The parameters of a TypeScript function that is given to a name are listed each
/// one time and in order. One without a list around it is listed too.
pub proof fn typescript_arrow_params_are_listed<'a>(n: Node<'a>)
    ensures
        match n.at("parameters") {
            Some(list) => reports_kids(
                list,
                ts_arrow_params(),
                ts_arrow_param(),
                lang::typescript::arrow_params(n),
            ),
            None => lang::typescript::arrow_params(n) == match n.at("parameter") {
                Some(c) => seq![c.txt()],
                None => Seq::empty(),
            },
        },
{
    reveal_strlit("identifier");
    reveal_strlit("required_parameter");
    reveal_strlit("optional_parameter");
    assert("identifier"@.len() == 10);
    assert("required_parameter"@.len() == 18);
    assert("optional_parameter"@.len() == 18);
    match n.at("parameters") {
        Some(list) => lemma_picked_kids(
            &lang::typescript::Params { bare: true },
            list,
            ts_arrow_params(),
            ts_arrow_param(),
        ),
        None => {},
    }
}

/// Declarations of parameters of Go.
pub open spec fn go_param_groups<'a>() -> spec_fn(Node<'a>) -> bool {
    |c: Node<'a>| c.isa("parameter_declaration")
}

/// Identifiers.
pub open spec fn identifiers<'a>() -> spec_fn(Node<'a>) -> bool {
    |c: Node<'a>| c.isa("identifier")
}

/// The names that a declaration of parameters of Go gives.
pub open spec fn go_param_group<'a>() -> spec_fn(Seq<Seq<char>>, Node<'a>) -> bool {
    |s: Seq<Seq<char>>, c: Node<'a>| if first(c, "identifier") is Some {
            reports_kids(c, identifiers(), is_text(), s)
        } else {
            match c.at("name") {
                Some(name) => s == seq![name.txt()],
                None => s.len() == 0,
            }
        }
}

/// The parameters of a Go function are listed each one time and in order, also where
/// several share a type.
pub proof fn go_params_are_listed<'a>(n: Node<'a>)
    ensures
        match n.at("parameters") {
            Some(list) => reports_kid_blocks(
                list,
                go_param_groups(),
                go_param_group(),
                lang::go::params(n),
            ),
            None => lang::go::params(n).len() == 0,
        },
{
    match n.at("parameters") {
        Some(list) => {
            let q = lang::go::Params;
            assert forall|i: int| 0 <= i < list.arity() && go_param_groups()(
                #[trigger] list.kid(i),
            ) implies go_param_group()(q.picks(list.kid(i)), list.kid(i)) by {
                lemma_picked_kids(&lang::go::Identifiers, list.kid(i), identifiers(), is_text());
            }
            lemma_picked_blocks(&q, list, go_param_groups(), go_param_group());
        },
        None => {},
    }
}

/// Parameters of Rust.
pub open spec fn rust_params<'a>() -> spec_fn(Node<'a>) -> bool {
    |c: Node<'a>| (c.isa("parameter") && c.at("pattern") is Some) || c.isa("self_parameter")
}

/// A parameter of Rust.
pub open spec fn rust_param<'a>() -> spec_fn(Seq<char>, Node<'a>) -> bool {
    |s: Seq<char>, c: Node<'a>| s == if c.isa("self_parameter") {
            c.txt()
        } else {
            word_at(c, "pattern")
        }
}

/// The parameters of a Rust function are listed each one time and in order.
pub proof fn rust_params_are_listed<'a>(n: Node<'a>)
    ensures
        reports_list(n.at("parameters"), rust_params(), rust_param(), lang::rust::params(n)),
{
    reveal_strlit("parameter");
    reveal_strlit("self_parameter");
    assert("parameter"@.len() == 9);
    assert("self_parameter"@.len() == 14);
    match n.at("parameters") {
        Some(list) => lemma_picked_kids(&lang::rust::Params, list, rust_params(), rust_param()),
        None => {},
    }
}

/// Parameters of Java.
pub open spec fn java_params<'a>() -> spec_fn(Node<'a>) -> bool {
    |c: Node<'a>| c.isa("formal_parameter") && c.at("name") is Some
}

/// The parameters of a Java method are listed each one time and in order.
pub proof fn java_params_are_listed<'a>(n: Node<'a>)
    ensures
        reports_list(n.at("parameters"), java_params(), is_name(), lang::java::params(n)),
{
    match n.at("parameters") {
        Some(list) => lemma_picked_kids(&lang::java::Params, list, java_params(), is_name()),
        None => {},
    }
}

/// Parameters of PHP.
pub open spec fn php_params<'a>() -> spec_fn(Node<'a>) -> bool {
    |c: Node<'a>| (c.isa("simple_parameter") || c.isa("variadic_parameter") || c.isa("property_promotion_parameter")) && c.at("name") is Some
}

/// The parameters of a PHP function are listed each one time and in order.
pub proof fn php_params_are_listed<'a>(n: Node<'a>)
    ensures
        reports_list(n.at("parameters"), php_params(), is_name(), lang::php::params(n)),
{
    match n.at("parameters") {
        Some(list) => lemma_picked_kids(&lang::php::Params, list, php_params(), is_name()),
        None => {},
    }
}

/// Parameters of Ruby that are listed as written.
pub open spec fn ruby_plain_params<'a>() -> spec_fn(Node<'a>) -> bool {
    |c: Node<'a>| c.isa("identifier") || c.isa("splat_parameter") || c.isa("hash_splat_parameter") || c.isa("block_parameter") || c.isa("destructured_parameter")
}

/// Parameters of Ruby.
pub open spec fn ruby_params<'a>() -> spec_fn(Node<'a>) -> bool {
    |c: Node<'a>| ruby_plain_params()(c) || ((c.isa("optional_parameter") || c.isa("keyword_parameter")) && c.at("name") is Some)
}

/// A parameter of Ruby.
pub open spec fn ruby_param<'a>() -> spec_fn(Seq<char>, Node<'a>) -> bool {
    |s: Seq<char>, c: Node<'a>| s == if ruby_plain_params()(c) {
            c.txt()
        } else {
            word_at(c, "name")
        }
}

/// The parameters of a Ruby method are listed each one time and in order.
pub proof fn ruby_params_are_listed<'a>(n: Node<'a>)
    ensures
        reports_list(n.at("parameters"), ruby_params(), ruby_param(), lang::ruby::params(n)),
{
    match n.at("parameters") {
        Some(list) => lemma_picked_kids(&lang::ruby::Params, list, ruby_params(), ruby_param()),
        None => {},
    }
}

/// Parameters of C# that have a name.
pub open spec fn csharp_params<'a>() -> spec_fn(Node<'a>) -> bool {
    |c: Node<'a>| c.isa("parameter") && (c.at("name") is Some || last_found(&lang::csharp::Identifier, c) is Some)
}

/// A parameter of C#.
pub open spec fn csharp_param<'a>() -> spec_fn(Seq<char>, Node<'a>) -> bool {
    |s: Seq<char>, c: Node<'a>| s == match c.at("name") {
            Some(name) => name.txt(),
            None => last_found(&lang::csharp::Identifier, c)->0.txt(),
        }
}

/// The parameters of a C# method are listed each one time and in order.
pub proof fn csharp_params_are_listed<'a>(n: Node<'a>)
    ensures
        reports_list(n.at("parameters"), csharp_params(), csharp_param(), lang::csharp::params(n)),
{
    match n.at("parameters") {
        Some(list) => lemma_picked_kids(&lang::csharp::Params, list, csharp_params(), csharp_param()),
        None => {},
    }
}

/// Parameters of Swift that have a name.
pub open spec fn swift_params<'a>() -> spec_fn(Node<'a>) -> bool {
    |c: Node<'a>| c.isa("parameter") && found(&lang::swift::Identifier, c) is Some
}

/// A parameter of Swift.
pub open spec fn swift_param<'a>() -> spec_fn(Seq<char>, Node<'a>) -> bool {
    |s: Seq<char>, c: Node<'a>| s == found(&lang::swift::Identifier, c)->0.txt()
}

/// The list of parameters of a Swift function.
pub open spec fn swift_list<'a>(n: Node<'a>) -> Option<Node<'a>> {
    match n.at("parameters") {
        Some(list) => Some(list),
        None => found(&lang::swift::ParamClause, n),
    }
}

/// The parameters of a Swift function are listed each one time and in order.
pub proof fn swift_params_are_listed<'a>(n: Node<'a>)
    ensures
        reports_list(swift_list(n), swift_params(), swift_param(), lang::swift::params(n)),
{
    match swift_list(n) {
        Some(list) => lemma_picked_kids(&lang::swift::Params, list, swift_params(), swift_param()),
        None => {},
    }
}

/// The name of a parameter of Kotlin.
pub open spec fn kotlin_param_name<'a>(c: Node<'a>) -> Option<Node<'a>> {
    match c.at("parameter") {
        Some(inner) if c.isa("function_value_parameter") => found(&lang::kotlin::Identifier, inner),
        _ => found(&lang::kotlin::Identifier, c),
    }
}

/// Parameters of Kotlin that have a name.
pub open spec fn kotlin_params<'a>() -> spec_fn(Node<'a>) -> bool {
    |c: Node<'a>| (c.isa("parameter") || c.isa("function_value_parameter")) && kotlin_param_name(c) is Some
}

/// A parameter of Kotlin.
pub open spec fn kotlin_param<'a>() -> spec_fn(Seq<char>, Node<'a>) -> bool {
    |s: Seq<char>, c: Node<'a>| s == kotlin_param_name(c)->0.txt()
}

/// The parameters of a Kotlin function are listed each one time and in order.
pub proof fn kotlin_params_are_listed<'a>(n: Node<'a>)
    ensures
        reports_list(first(n, "function_value_parameters"), kotlin_params(), kotlin_param(), lang::kotlin::params(n)),
{
    reveal_strlit("parameter");
    reveal_strlit("function_value_parameter");
    assert("parameter"@.len() == 9);
    assert("function_value_parameter"@.len() == 24);
    match first(n, "function_value_parameters") {
        Some(list) => lemma_picked_kids(&lang::kotlin::Params, list, kotlin_params(), kotlin_param()),
        None => {},
    }
}

/// Parameters of Lua.
pub open spec fn lua_params<'a>(luau: bool) -> spec_fn(Node<'a>) -> bool {
    |c: Node<'a>|
        c.isa("identifier") || c.isa("spread") || c.isa("vararg_expression") || (luau && c.isa(
            "parameter",
        ) && first(c, "identifier") is Some)
}

/// A parameter of Lua.
pub open spec fn lua_param<'a>() -> spec_fn(Seq<char>, Node<'a>) -> bool {
    |s: Seq<char>, c: Node<'a>|
        s == if c.isa("identifier") {
            c.txt()
        } else if c.isa("spread") || c.isa("vararg_expression") {
            "..."@
        } else {
            first(c, "identifier")->0.txt()
        }
}

/// The parameters of a Lua function are listed each one time and in order.
pub proof fn lua_params_are_listed<'a>(n: Node<'a>, luau: bool)
    ensures
        reports_list(n.at("parameters"), lua_params(luau), lua_param(), lang::lua::params(n, luau)),
{
    reveal_strlit("identifier");
    reveal_strlit("spread");
    reveal_strlit("vararg_expression");
    reveal_strlit("parameter");
    assert("identifier"@.len() == 10);
    assert("spread"@.len() == 6);
    assert("vararg_expression"@.len() == 17);
    assert("parameter"@.len() == 9);
    match n.at("parameters") {
        Some(list) => lemma_picked_kids(
            &lang::lua::Params { luau },
            list,
            lua_params(luau),
            lua_param(),
        ),
        None => {},
    }
}

/// Parameters of C that have a name.
pub open spec fn c_params<'a>() -> spec_fn(Node<'a>) -> bool {
    |c: Node<'a>|
        c.isa("parameter_declaration") && (c.at("declarator") matches Some(d)
            && lang::c::param_name(d).len() > 0)
}

/// A parameter of C.
pub open spec fn c_param<'a>() -> spec_fn(Seq<char>, Node<'a>) -> bool {
    |s: Seq<char>, c: Node<'a>| s == lang::c::param_name(c.at("declarator")->0)
}

/// The list of parameters of a function of C.
pub open spec fn c_list<'a>(n: Node<'a>) -> Option<Node<'a>> {
    match n.at("declarator") {
        Some(d) => {
            let f = if d.isa("function_declarator") {
                Some(d)
            } else if d.isa("pointer_declarator") {
                first(d, "function_declarator")
            } else {
                None
            };
            match f {
                Some(f) => f.at("parameters"),
                None => None,
            }
        },
        None => None,
    }
}

/// The parameters of a C or C++ function are listed each one time and in order.
pub proof fn c_params_are_listed<'a>(n: Node<'a>)
    ensures
        reports_list(c_list(n), c_params(), c_param(), lang::c::params(n)),
{
    match c_list(n) {
        Some(list) => lemma_picked_kids(&lang::c::Params, list, c_params(), c_param()),
        None => {},
    }
}

/// The name that a declarator of C gives is an identifier inside of its pointers and
/// arrays.
pub proof fn c_param_names_are_inside(d: Node<'_>)
    ensures
        d.isa("identifier") ==> lang::c::param_name(d) == d.txt(),
        d.isa("pointer_declarator") || d.isa("array_declarator") ==> (d.at(
            "declarator",
        ) matches Some(inner) ==> lang::c::param_name(d) == lang::c::param_name(inner)),
        !d.isa("pointer_declarator") && !d.isa("array_declarator") ==> lang::c::param_name(d)
            == d.txt(),
{
    reveal_strlit("identifier");
    reveal_strlit("pointer_declarator");
    reveal_strlit("array_declarator");
    assert("identifier"@.len() == 10);
    assert("pointer_declarator"@.len() == 18);
    assert("array_declarator"@.len() == 16);
}

/// The name of a function of C is that of its declarator, without the scope before it.
pub proof fn c_functions_are_named_by_their_declarators(n: Node<'_>, d: Node<'_>, name: Node<'_>)
    requires
        n.at("declarator") == Some(d),
        d.isa("function_declarator"),
        d.at("declarator") == Some(name),
    ensures
        name.isa("identifier") || name.isa("field_identifier") || name.isa("destructor_name")
            || name.isa("operator_name") ==> lang::c::function_name(n) == Some(name.txt()),
        name.isa("qualified_identifier") || name.isa("scoped_identifier") ==> (name.at(
            "name",
        ) matches Some(inner) ==> (inner.isa("identifier") ==> lang::c::function_name(n) == Some(
            inner.txt(),
        ))),
{
    reveal_strlit("identifier");
    reveal_strlit("field_identifier");
    reveal_strlit("destructor_name");
    reveal_strlit("operator_name");
    reveal_strlit("qualified_identifier");
    reveal_strlit("scoped_identifier");
    assert("identifier"@.len() == 10);
    assert("field_identifier"@.len() == 16);
    assert("destructor_name"@.len() == 15);
    assert("operator_name"@.len() == 13);
    assert("qualified_identifier"@.len() == 20);
    assert("scoped_identifier"@.len() == 17);
    reveal_with_fuel(lang::c::core_name, 3);
}

/// Parameters of OCaml that have a name.
pub open spec fn ocaml_params<'a>() -> spec_fn(Node<'a>) -> bool {
    |c: Node<'a>| c.isa("parameter") && lang::ocaml::param_name(c) is Some
}

/// A parameter of OCaml.
pub open spec fn ocaml_param<'a>() -> spec_fn(Seq<char>, Node<'a>) -> bool {
    |s: Seq<char>, c: Node<'a>| Some(s) == lang::ocaml::param_name(c)
}

/// The parameters of an OCaml function are listed each one time and in order.
pub proof fn ocaml_params_are_listed<'a>(n: Node<'a>)
    ensures
        reports_kids(n, ocaml_params(), ocaml_param(), picked(&lang::ocaml::Params, n)),
{
    lemma_picked_kids(&lang::ocaml::Params, n, ocaml_params(), ocaml_param());
}

/// A parameter of OCaml is named by its pattern, without the type.
pub proof fn ocaml_params_are_named_by_patterns(n: Node<'_>, pattern: Node<'_>)
    requires
        n.at("pattern") == Some(pattern),
    ensures
        !pattern.isa("typed_pattern") ==> lang::ocaml::param_name(n) == Some(pattern.txt()),
        pattern.isa("typed_pattern") ==> (pattern.at("pattern") matches Some(inner)
            ==> lang::ocaml::param_name(n) == Some(inner.txt())),
{
}

/// Parameters of Solidity.
pub open spec fn solidity_params<'a>() -> spec_fn(Node<'a>) -> bool {
    |c: Node<'a>| c.isa("parameter")
}

/// The parameters of a Solidity function are listed each one time and in order.
pub proof fn solidity_params_are_listed<'a>(n: Node<'a>)
    ensures
        reports_kids(n, solidity_params(), is_name(), picked(&lang::solidity::ParamNames, n)),
{
    lemma_picked_kids(&lang::solidity::ParamNames, n, solidity_params(), is_name());
}

/// Modifiers that a Solidity function invokes.
pub open spec fn solidity_invocations<'a>() -> spec_fn(Node<'a>) -> bool {
    |c: Node<'a>| c.isa("modifier_invocation") && first(c, "identifier") is Some
}

/// The modifiers that a Solidity function invokes are listed each one time and in
/// order.
pub proof fn solidity_invocations_are_listed<'a>(n: Node<'a>)
    ensures
        reports_kids(
            n,
            solidity_invocations(),
            is_identifier_in(),
            picked(&lang::solidity::Invocations, n),
        ),
{
    lemma_picked_kids(
        &lang::solidity::Invocations,
        n,
        solidity_invocations(),
        is_identifier_in(),
    );
}

/// Lists of parameters of Scala.
pub open spec fn scala_param_lists<'a>() -> spec_fn(Node<'a>) -> bool {
    |c: Node<'a>| c.isa("parameters") || c.isa("class_parameters")
}

/// Nodes of Scala below which no parameter is looked for.
pub open spec fn scala_param_leaves<'a>() -> spec_fn(Node<'a>) -> bool {
    |c: Node<'a>| c.isa("class_parameter") || c.isa("parameter") || !scala_param_lists()(c)
}

/// The node that names a parameter of Scala.
pub open spec fn scala_param_name<'a>(c: Node<'a>) -> Option<Node<'a>> {
    match c.at("name") {
        Some(name) => Some(name),
        None => first(c, "identifier"),
    }
}

/// Parameters of Scala that have a name.
pub open spec fn scala_params<'a>() -> spec_fn(Node<'a>) -> bool {
    |c: Node<'a>| (c.isa("class_parameter") || c.isa("parameter")) && scala_param_name(c) is Some
}

/// A parameter of Scala.
pub open spec fn scala_param<'a>() -> spec_fn(Seq<char>, Node<'a>) -> bool {
    |s: Seq<char>, c: Node<'a>| s == scala_param_name(c)->0.txt()
}

/// The parameters in a list of Scala.
pub open spec fn scala_param_list<'a>() -> spec_fn(Seq<Seq<char>>, Node<'a>) -> bool {
    |s: Seq<Seq<char>>, c: Node<'a>| reports(c, closed_by(scala_param_leaves()), scala_params(), scala_param(), s)
}

/// The parameters of a Scala function are listed each one time and in order, over all
/// of its lists.
pub proof fn scala_params_are_listed<'a>(n: Node<'a>)
    ensures
        reports_kid_blocks(
            n,
            scala_param_lists(),
            scala_param_list(),
            picked(&lang::scala::Params, n),
        ),
{
    let q = lang::scala::Params;
    assert forall|i: int| 0 <= i < n.arity() && scala_param_lists()(
        #[trigger] n.kid(i),
    ) implies scala_param_list()(q.picks(n.kid(i)), n.kid(i)) by {
        lemma_reported(
            &lang::scala::ListedParams,
            n.kid(i),
            scala_param_leaves(),
            scala_params(),
            scala_param(),
        );
    }
    lemma_picked_blocks(&q, n, scala_param_lists(), scala_param_list());
}

/// Parameters of Elixir: all but the punctuation, and matches without a name.
pub open spec fn elixir_params<'a>() -> spec_fn(Node<'a>) -> bool {
    |c: Node<'a>|
        if c.isa("identifier") {
            true
        } else if c.isa("binary_operator") {
            lang::elixir::bound_name(c) is Some
        } else if c.isa("unary_operator") || c.isa("tuple") || c.isa("map") || c.isa("list")
            || c.isa("sigil") || c.isa("string") || c.isa("atom") {
            true
        } else {
            !c.isa(",") && !c.isa("(") && !c.isa(")") && c.txt().len() > 0 && c.txt() != ","@
                && c.txt() != "("@ && c.txt() != ")"@
        }
}

/// A parameter of Elixir: as written, or the name that a match binds.
pub open spec fn elixir_param<'a>() -> spec_fn(Seq<char>, Node<'a>) -> bool {
    |s: Seq<char>, c: Node<'a>|
        if c.isa("binary_operator") {
            Some(s) == lang::elixir::bound_name(c)
        } else {
            s == c.txt()
        }
}

/// The parameters of a clause of Elixir are listed each one time and in order.
pub proof fn elixir_params_are_listed<'a>(n: Node<'a>)
    ensures
        if n.arity() > 1 && n.kid(1).isa("arguments") {
            reports_kids(n.kid(1), elixir_params(), elixir_param(), lang::elixir::clause_params(n))
        } else {
            lang::elixir::clause_params(n).len() == 0
        },
{
    reveal_strlit("identifier");
    reveal_strlit("binary_operator");
    assert("identifier"@.len() == 10);
    assert("binary_operator"@.len() == 15);
    if n.arity() > 1 {
        lemma_picked_kids(&lang::elixir::Params, n.kid(1), elixir_params(), elixir_param());
    }
}

/// Bases of a class of Python.
pub open spec fn python_bases<'a>() -> spec_fn(Node<'a>) -> bool {
    |c: Node<'a>| c.isa("identifier") || c.isa("attribute")
}

/// The bases of a Python class are listed each one time and in order.
pub proof fn python_bases_are_listed<'a>(n: Node<'a>)
    ensures
        reports_list(n.at("superclasses"), python_bases(), is_text(), lang::python::bases(n)),
{
    match n.at("superclasses") {
        Some(list) => lemma_picked_kids(&lang::python::Bases, list, python_bases(), is_text()),
        None => {},
    }
}

/// Clauses that give the bases of a class of C++.
pub open spec fn cpp_clauses<'a>() -> spec_fn(Node<'a>) -> bool {
    |c: Node<'a>| c.isa("base_class_clause")
}

/// Types in such a clause.
pub open spec fn cpp_base_types<'a>() -> spec_fn(Node<'a>) -> bool {
    |c: Node<'a>| c.isa("type_identifier") || c.isa("qualified_identifier") || c.isa("template_type")
}

/// The bases in a clause.
pub open spec fn cpp_clause<'a>() -> spec_fn(Seq<Seq<char>>, Node<'a>) -> bool {
    |s: Seq<Seq<char>>, c: Node<'a>| reports_kids(c, cpp_base_types(), is_text(), s)
}

/// The bases of a C++ class are listed each one time and in order.
pub proof fn cpp_bases_are_listed<'a>(n: Node<'a>)
    ensures
        reports_kid_blocks(n, cpp_clauses(), cpp_clause(), picked(&lang::c::Bases, n)),
{
    let q = lang::c::Bases;
    assert forall|i: int| 0 <= i < n.arity() && cpp_clauses()(#[trigger] n.kid(i)) implies cpp_clause()(
        q.picks(n.kid(i)),
        n.kid(i),
    ) by {
        lemma_picked_kids(&lang::c::ClauseTypes, n.kid(i), cpp_base_types(), is_text());
    }
    lemma_picked_blocks(&q, n, cpp_clauses(), cpp_clause());
}

/// Clauses that give the bases of a class of PHP.
pub open spec fn php_clauses<'a>() -> spec_fn(Node<'a>) -> bool {
    |c: Node<'a>| c.isa("base_clause") || c.isa("class_interface_clause")
}

/// Types in such a clause of PHP.
pub open spec fn php_base_types<'a>() -> spec_fn(Node<'a>) -> bool {
    |c: Node<'a>| c.isa("name") || c.isa("qualified_name") || c.isa("named_type")
}

/// The bases in a clause.
pub open spec fn php_clause<'a>() -> spec_fn(Seq<Seq<char>>, Node<'a>) -> bool {
    |s: Seq<Seq<char>>, c: Node<'a>| reports_kids(c, php_base_types(), is_text(), s)
}

/// The bases of a PHP class are listed each one time and in order.
pub proof fn php_bases_are_listed<'a>(n: Node<'a>)
    ensures
        reports_kid_blocks(n, php_clauses(), php_clause(), picked(&lang::php::Bases, n)),
{
    let q = lang::php::Bases;
    assert forall|i: int| 0 <= i < n.arity() && php_clauses()(#[trigger] n.kid(i)) implies php_clause()(
        q.picks(n.kid(i)),
        n.kid(i),
    ) by {
        lemma_picked_kids(&lang::php::ClauseTypes, n.kid(i), php_base_types(), is_text());
    }
    lemma_picked_blocks(&q, n, php_clauses(), php_clause());
}

/// Clauses that give the bases of a class of Scala.
pub open spec fn scala_clauses<'a>() -> spec_fn(Node<'a>) -> bool {
    |c: Node<'a>| c.isa("extends_clause")
}

/// Types in such a clause of Scala.
pub open spec fn scala_base_types<'a>() -> spec_fn(Node<'a>) -> bool {
    |c: Node<'a>| c.isa("type_identifier") || c.isa("generic_type") || c.isa("stable_type_identifier")
}

/// The bases in a clause.
pub open spec fn scala_clause<'a>() -> spec_fn(Seq<Seq<char>>, Node<'a>) -> bool {
    |s: Seq<Seq<char>>, c: Node<'a>| reports_kids(c, scala_base_types(), is_text(), s)
}

/// The bases of a Scala class are listed each one time and in order.
pub proof fn scala_bases_are_listed<'a>(n: Node<'a>)
    ensures
        reports_kid_blocks(n, scala_clauses(), scala_clause(), picked(&lang::scala::Bases, n)),
{
    let q = lang::scala::Bases;
    assert forall|i: int| 0 <= i < n.arity() && scala_clauses()(#[trigger] n.kid(i)) implies scala_clause()(
        q.picks(n.kid(i)),
        n.kid(i),
    ) by {
        lemma_picked_kids(&lang::scala::ClauseTypes, n.kid(i), scala_base_types(), is_text());
    }
    lemma_picked_blocks(&q, n, scala_clauses(), scala_clause());
}

/// Types in a list of bases of C#.
pub open spec fn csharp_base_types<'a>() -> spec_fn(Node<'a>) -> bool {
    |c: Node<'a>| c.isa("identifier") || c.isa("generic_name") || c.isa("qualified_name")
}

/// Lists of bases of C#.
pub open spec fn csharp_base_lists<'a>() -> spec_fn(Node<'a>) -> bool {
    |c: Node<'a>| c.isa("base_list")
}

/// The bases in a list of C#.
pub open spec fn csharp_base_list<'a>() -> spec_fn(Seq<Seq<char>>, Node<'a>) -> bool {
    |s: Seq<Seq<char>>, c: Node<'a>| reports_kids(c, csharp_base_types(), is_text(), s)
}

/// The bases of a C# class are listed each one time and in order.
pub proof fn csharp_bases_are_listed<'a>(n: Node<'a>)
    ensures
        match n.at("bases") {
            Some(list) => reports_kids(
                list,
                csharp_base_types(),
                is_text(),
                lang::csharp::bases(n),
            ),
            None => reports_kid_blocks(
                n,
                csharp_base_lists(),
                csharp_base_list(),
                lang::csharp::bases(n),
            ),
        },
{
    match n.at("bases") {
        Some(list) => lemma_picked_kids(
            &lang::csharp::BaseTypes,
            list,
            csharp_base_types(),
            is_text(),
        ),
        None => {
            let q = lang::csharp::BaseLists;
            assert forall|i: int| 0 <= i < n.arity() && csharp_base_lists()(
                #[trigger] n.kid(i),
            ) implies csharp_base_list()(q.picks(n.kid(i)), n.kid(i)) by {
                lemma_picked_kids(
                    &lang::csharp::BaseTypes,
                    n.kid(i),
                    csharp_base_types(),
                    is_text(),
                );
            }
            lemma_picked_blocks(&q, n, csharp_base_lists(), csharp_base_list());
        },
    }
}

/// The node that names a type of Java.
pub open spec fn java_type<'a>(c: Node<'a>) -> Option<Node<'a>> {
    if c.isa("type_identifier") || c.isa("scoped_type_identifier") {
        Some(c)
    } else if c.isa("generic_type") {
        found(&lang::java::PlainType, c)
    } else {
        None
    }
}

/// Types of Java.
pub open spec fn java_types<'a>() -> spec_fn(Node<'a>) -> bool {
    |c: Node<'a>| java_type(c) is Some
}

/// The name of a type of Java.
pub open spec fn is_java_type<'a>() -> spec_fn(Seq<char>, Node<'a>) -> bool {
    |s: Seq<char>, c: Node<'a>| s == java_type(c)->0.txt()
}

/// Types of Java, and lists of them.
pub open spec fn java_type_lists<'a>() -> spec_fn(Node<'a>) -> bool {
    |c: Node<'a>| c.isa("type_list") || java_types()(c)
}

/// The names of types of Java in a list, or of one of them.
pub open spec fn java_type_list<'a>() -> spec_fn(Seq<Seq<char>>, Node<'a>) -> bool {
    |s: Seq<Seq<char>>, c: Node<'a>|
        if c.isa("type_list") {
            reports_kids(c, java_types(), is_java_type(), s)
        } else {
            s.len() == 1 && is_java_type()(s[0], c)
        }
}

/// What an interface of Java extends.
pub open spec fn java_extended<'a>() -> spec_fn(Node<'a>) -> bool {
    |c: Node<'a>| c.isa("extends_interfaces")
}

/// The names of types that an interface of Java extends.
pub open spec fn java_extended_types<'a>() -> spec_fn(Seq<Seq<char>>, Node<'a>) -> bool {
    |s: Seq<Seq<char>>, c: Node<'a>|
        reports_kid_blocks(c, java_type_lists(), java_type_list(), s)
}

proof fn lemma_java_list<'a>(n: Node<'a>)
    ensures
        reports_kid_blocks(
            n,
            java_type_lists(),
            java_type_list(),
            picked(&lang::java::TypeList, n),
        ),
{
    let q = lang::java::TypeList;
    assert forall|i: int| 0 <= i < n.arity() && java_type_lists()(
        #[trigger] n.kid(i),
    ) implies java_type_list()(q.picks(n.kid(i)), n.kid(i)) by {
        lemma_java_kinds();
        lemma_picked_kids(&lang::java::TypeNames, n.kid(i), java_types(), is_java_type());
    }
    lemma_java_kinds();
    lemma_picked_blocks(&q, n, java_type_lists(), java_type_list());
}

proof fn lemma_java_kinds()
    ensures
        "type_identifier"@ != "generic_type"@,
        "scoped_type_identifier"@ != "generic_type"@,
        "scoped_type_identifier"@ != "type_identifier"@,
{
    reveal_strlit("type_identifier");
    reveal_strlit("generic_type");
    reveal_strlit("scoped_type_identifier");
    assert("type_identifier"@.len() == 15);
    assert("generic_type"@.len() == 12);
    assert("scoped_type_identifier"@.len() == 22);
}

/// Three lists, one behind the other.
pub open spec fn in_three(
    a: Seq<Seq<char>>,
    b: Seq<Seq<char>>,
    c: Seq<Seq<char>>,
) -> Seq<Seq<char>> {
    a + b + c
}

/// Whether `r` are the bases of a class of Java: what it extends, what it implements,
/// and what it extends as an interface, each one time and in order.
pub open spec fn are_java_bases(n: Node<'_>, r: Seq<Seq<char>>) -> bool {
    exists|a: Seq<Seq<char>>, b: Seq<Seq<char>>, c: Seq<Seq<char>>|
        reports_list(n.at("superclass"), java_types(), is_java_type(), a) && (match n.at(
            "interfaces",
        ) {
            Some(list) => reports_kid_blocks(list, java_type_lists(), java_type_list(), b),
            None => b.len() == 0,
        }) && reports_kid_blocks(n, java_extended(), java_extended_types(), c) && r == #[trigger] in_three(
            a,
            b,
            c,
        )
}

/// The bases of a Java class are listed each one time and in order.
pub proof fn java_bases_are_listed<'a>(n: Node<'a>)
    ensures
        are_java_bases(n, lang::java::bases(n)),
{
    lemma_java_kinds();
    let a = match n.at("superclass") {
        Some(c) => {
            lemma_picked_kids(&lang::java::TypeNames, c, java_types(), is_java_type());
            picked(&lang::java::TypeNames, c)
        },
        None => Seq::empty(),
    };
    let b = match n.at("interfaces") {
        Some(c) => {
            lemma_java_list(c);
            picked(&lang::java::TypeList, c)
        },
        None => Seq::empty(),
    };
    let q = lang::java::Extended;
    assert forall|i: int| 0 <= i < n.arity() && java_extended()(
        #[trigger] n.kid(i),
    ) implies java_extended_types()(q.picks(n.kid(i)), n.kid(i)) by {
        lemma_java_list(n.kid(i));
    }
    lemma_picked_blocks(&q, n, java_extended(), java_extended_types());
    assert(lang::java::bases(n) == in_three(a, b, picked(&q, n)));
}

/// Clauses of TypeScript that say what a class extends.
pub open spec fn ts_heritage<'a>() -> spec_fn(Node<'a>) -> bool {
    |c: Node<'a>|
        c.isa("class_heritage") && begins(c.txt(), "extends"@) && words(
            behind_all(c.txt(), "extends"@),
        ).len() > 0
}

/// The base that a clause of TypeScript gives: the word behind `extends`.
pub open spec fn ts_base<'a>() -> spec_fn(Seq<char>, Node<'a>) -> bool {
    |s: Seq<char>, c: Node<'a>| s == words(behind_all(c.txt(), "extends"@))[0]
}

/// The bases of a TypeScript class are listed each one time and in order.
pub proof fn typescript_bases_are_listed<'a>(n: Node<'a>)
    ensures
        reports_kids(n, ts_heritage(), ts_base(), picked(&lang::typescript::Bases, n)),
{
    lemma_picked_kids(&lang::typescript::Bases, n, ts_heritage(), ts_base());
}

/// Specifiers of Solidity that give a base.
pub open spec fn solidity_bases<'a>() -> spec_fn(Node<'a>) -> bool {
    |c: Node<'a>|
        c.isa("inheritance_specifier") && (c.at("ancestor") is Some || first(c, "user_defined_type")
            is Some)
}

/// The base that a specifier of Solidity gives.
pub open spec fn solidity_base<'a>() -> spec_fn(Seq<char>, Node<'a>) -> bool {
    |s: Seq<char>, c: Node<'a>|
        s == lang::solidity::named_type(
            match c.at("ancestor") {
                Some(t) => t,
                None => first(c, "user_defined_type")->0,
            },
        )
}

/// The bases of a Solidity contract are listed each one time and in order.
pub proof fn solidity_bases_are_listed<'a>(n: Node<'a>)
    ensures
        reports_kids(n, solidity_bases(), solidity_base(), picked(&lang::solidity::Bases, n)),
{
    lemma_picked_kids(&lang::solidity::Bases, n, solidity_bases(), solidity_base());
}

/// Clauses of Kotlin that give the bases of a class.
pub open spec fn kotlin_clauses<'a>() -> spec_fn(Node<'a>) -> bool {
    |c: Node<'a>| c.isa("delegation_specifiers")
}

/// Parts of such a clause that name a base.
pub open spec fn kotlin_specifiers<'a>() -> spec_fn(Node<'a>) -> bool {
    |c: Node<'a>| kotlin_base(c) is Some
}

/// The base that a part of a clause of Kotlin names.
pub open spec fn kotlin_base(c: Node<'_>) -> Option<Seq<char>> {
    if c.isa("delegation_specifier") {
        lang::kotlin::specified_base(c)
    } else if c.isa("user_type") || c.isa("constructor_invocation") {
        match first(c, "type_identifier") {
            Some(t) => Some(t.txt()),
            None => None,
        }
    } else {
        None
    }
}

/// A base that a part of a clause of Kotlin names.
pub open spec fn is_kotlin_base<'a>() -> spec_fn(Seq<char>, Node<'a>) -> bool {
    |s: Seq<char>, c: Node<'a>| kotlin_base(c) == Some(s)
}

/// The bases in a clause of Kotlin.
pub open spec fn kotlin_clause<'a>() -> spec_fn(Seq<Seq<char>>, Node<'a>) -> bool {
    |s: Seq<Seq<char>>, c: Node<'a>| reports_kids(c, kotlin_specifiers(), is_kotlin_base(), s)
}

/// The bases of a Kotlin class are listed each one time and in order.
pub proof fn kotlin_bases_are_listed<'a>(n: Node<'a>)
    ensures
        reports_kid_blocks(n, kotlin_clauses(), kotlin_clause(), picked(&lang::kotlin::Bases, n)),
{
    reveal_strlit("delegation_specifier");
    reveal_strlit("user_type");
    reveal_strlit("constructor_invocation");
    assert("delegation_specifier"@.len() == 20);
    assert("user_type"@.len() == 9);
    assert("constructor_invocation"@.len() == 22);
    let q = lang::kotlin::Bases;
    assert forall|i: int| 0 <= i < n.arity() && kotlin_clauses()(
        #[trigger] n.kid(i),
    ) implies kotlin_clause()(q.picks(n.kid(i)), n.kid(i)) by {
        lemma_picked_kids(
            &lang::kotlin::Specifiers,
            n.kid(i),
            kotlin_specifiers(),
            is_kotlin_base(),
        );
    }
    lemma_picked_blocks(&q, n, kotlin_clauses(), kotlin_clause());
}

/// Clauses of Swift that give the bases of a type.
pub open spec fn swift_clauses<'a>() -> spec_fn(Node<'a>) -> bool {
    |c: Node<'a>| c.isa("inheritance_clause") || c.isa("type_inheritance_clause")
}

/// Names of types of Swift.
pub open spec fn swift_types<'a>() -> spec_fn(Node<'a>) -> bool {
    |c: Node<'a>| c.isa("type_identifier") || c.isa("user_type") || c.isa("simple_identifier")
}

/// Parts of a clause of Swift that name bases.
pub open spec fn swift_specifiers<'a>() -> spec_fn(Node<'a>) -> bool {
    |c: Node<'a>|
        swift_types()(c) || c.isa("inheritance_specifier") || c.isa(
            "annotated_inheritance_specifier",
        )
}

/// The bases that a part of a clause of Swift names.
pub open spec fn swift_specifier<'a>() -> spec_fn(Seq<Seq<char>>, Node<'a>) -> bool {
    |s: Seq<Seq<char>>, c: Node<'a>|
        if swift_types()(c) {
            s == seq![c.txt()]
        } else {
            reports_kids(c, swift_types(), is_text(), s)
        }
}

/// The bases in a clause of Swift.
pub open spec fn swift_clause<'a>() -> spec_fn(Seq<Seq<char>>, Node<'a>) -> bool {
    |s: Seq<Seq<char>>, c: Node<'a>| reports_kid_blocks(c, swift_specifiers(), swift_specifier(), s)
}

proof fn lemma_swift_clause<'a>(n: Node<'a>)
    ensures
        swift_clause()(picked(&lang::swift::ClauseTypes, n), n),
{
    reveal_strlit("type_identifier");
    reveal_strlit("user_type");
    reveal_strlit("simple_identifier");
    reveal_strlit("inheritance_specifier");
    reveal_strlit("annotated_inheritance_specifier");
    assert("type_identifier"@.len() == 15);
    assert("user_type"@.len() == 9);
    assert("simple_identifier"@.len() == 17);
    assert("inheritance_specifier"@.len() == 21);
    assert("annotated_inheritance_specifier"@.len() == 31);
    let q = lang::swift::ClauseTypes;
    assert forall|i: int| 0 <= i < n.arity() && swift_specifiers()(
        #[trigger] n.kid(i),
    ) implies swift_specifier()(q.picks(n.kid(i)), n.kid(i)) by {
        lemma_picked_kids(&lang::swift::SpecifierTypes, n.kid(i), swift_types(), is_text());
    }
    lemma_picked_blocks(&q, n, swift_specifiers(), swift_specifier());
}

/// The bases of a Swift type are listed each one time and in order.
pub proof fn swift_bases_are_listed<'a>(n: Node<'a>)
    ensures
        reports_kid_blocks(n, swift_clauses(), swift_clause(), picked(&lang::swift::Bases, n)),
{
    let q = lang::swift::Bases;
    assert forall|i: int| 0 <= i < n.arity() && swift_clauses()(
        #[trigger] n.kid(i),
    ) implies swift_clause()(q.picks(n.kid(i)), n.kid(i)) by {
        lemma_swift_clause(n.kid(i));
    }
    lemma_picked_blocks(&q, n, swift_clauses(), swift_clause());
}

} // verus!
