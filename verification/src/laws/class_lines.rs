//! On which lines the classes of a file are reported, and their methods.

use vstd::prelude::*;

use crate::extract::classes_in;
use crate::grouping::{attached_all, class_from};
use crate::lang;
use crate::laws::classes::lemma_class_from;
use crate::laws::lines::{
    function_on_lines, lemma_java, lemma_place, lemma_python, lemma_solidity, lemma_typescript,
    lemma_value,
};
use crate::laws::lua::lemma_table_from;
use crate::lists::group_lists;
use crate::tree::{
    at_or_below, group_tree, is_sound, is_tree, lemma_at_below, lemma_below_transitive,
    lemma_kid_below, lemma_root_sound, line_count, source_lines, Node, SyntaxTree,
};
use crate::types::{Class, Field, Function, Language};
use crate::walk::{
    all_have, folded_upto, gathered, lemma_gathered, lemma_picked, picked, Picker, Walker,
};

verus! {

broadcast use {group_tree, group_lists};

/// Whether a class is reported on lines of a source text with `count` lines,
/// from `low` on, of which the first is not behind the last, and whether its
/// methods are reported on lines of that text.
pub open spec fn class_on_lines(low: int, count: nat) -> spec_fn(Class) -> bool {
    |c: Class|
        low <= c.line_number <= c.line_end <= count && all_have(
            c.methods,
            function_on_lines(count),
        )
}

proof fn lemma_java_classes<'a>(root: Node<'a>)
    requires
        is_sound(root),
    ensures
        all_have(gathered(&lang::java::Classes, root), class_on_lines(1, source_lines(root))),
{
    let w = lang::java::Classes;
    let p = class_on_lines(1, source_lines(root));
    assert forall|c: Node<'a>| at_or_below(root, c) implies all_have(#[trigger] w.yields(c), p) by {
        lemma_place(root, c);
        lemma_value(root, c, "body");
        if c.at("body") is Some {
            lemma_java(c.at("body")->0);
        }
    }
    lemma_gathered(&w, root, p);
}

proof fn lemma_python_classes<'a>(root: Node<'a>)
    requires
        is_sound(root),
    ensures
        all_have(gathered(&lang::python::Classes, root), class_on_lines(1, source_lines(root))),
{
    let w = lang::python::Classes;
    let p = class_on_lines(1, source_lines(root));
    assert forall|c: Node<'a>| at_or_below(root, c) implies all_have(#[trigger] w.yields(c), p) by {
        lemma_place(root, c);
        lemma_value(root, c, "body");
        if c.at("body") is Some {
            lemma_python(c.at("body")->0, true);
        }
        lemma_at_below(c, "definition");
        if c.at("definition") is Some {
            let d = c.at("definition")->0;
            lemma_below_transitive(root, c, d);
            lemma_place(root, d);
            lemma_value(root, d, "body");
            if d.at("body") is Some {
                lemma_python(d.at("body")->0, true);
            }
        }
    }
    lemma_gathered(&w, root, p);
}

proof fn lemma_typescript_classes<'a>(root: Node<'a>)
    requires
        is_sound(root),
    ensures
        all_have(gathered(&lang::typescript::Classes, root), class_on_lines(1, source_lines(root))),
{
    let w = lang::typescript::Classes;
    let p = class_on_lines(1, source_lines(root));
    assert forall|c: Node<'a>| at_or_below(root, c) implies all_have(#[trigger] w.yields(c), p) by {
        lemma_place(root, c);
        lemma_value(root, c, "body");
        if c.at("body") is Some {
            lemma_typescript(c.at("body")->0, true);
        }
    }
    lemma_gathered(&w, root, p);
}

proof fn lemma_solidity_classes<'a>(root: Node<'a>)
    requires
        is_sound(root),
    ensures
        all_have(gathered(&lang::solidity::Classes, root), class_on_lines(1, source_lines(root))),
{
    let w = lang::solidity::Classes;
    let p = class_on_lines(1, source_lines(root));
    assert forall|c: Node<'a>| at_or_below(root, c) implies all_have(#[trigger] w.yields(c), p) by {
        lemma_place(root, c);
        lemma_value(root, c, "body");
        if c.at("body") is Some {
            lemma_solidity(c.at("body")->0, true);
        }
    }
    lemma_gathered(&w, root, p);
}

proof fn lemma_csharp_methods<'a>(n: Node<'a>)
    requires
        is_sound(n),
    ensures
        all_have(picked(&lang::csharp::BodyMethods, n), function_on_lines(source_lines(n))),
{
    let q = lang::csharp::BodyMethods;
    let p = function_on_lines(source_lines(n));
    assert forall|d: Node<'a>| at_or_below(n, d) implies all_have(#[trigger] q.picks(d), p) by {
        lemma_place(n, d);
    }
    lemma_picked(&q, n, p);
}

proof fn lemma_csharp_classes<'a>(root: Node<'a>)
    requires
        is_sound(root),
    ensures
        all_have(gathered(&lang::csharp::Classes, root), class_on_lines(1, source_lines(root))),
{
    let w = lang::csharp::Classes;
    let p = class_on_lines(1, source_lines(root));
    assert forall|c: Node<'a>| at_or_below(root, c) implies all_have(#[trigger] w.yields(c), p) by {
        lemma_place(root, c);
        lemma_value(root, c, "body");
        if c.at("body") is Some {
            lemma_csharp_methods(c.at("body")->0);
        }
    }
    lemma_gathered(&w, root, p);
}

proof fn lemma_php_methods<'a>(n: Node<'a>)
    requires
        is_sound(n),
    ensures
        all_have(picked(&lang::php::BodyMethods, n), function_on_lines(source_lines(n))),
{
    let q = lang::php::BodyMethods;
    let p = function_on_lines(source_lines(n));
    assert forall|d: Node<'a>| at_or_below(n, d) implies all_have(#[trigger] q.picks(d), p) by {
        lemma_place(n, d);
    }
    lemma_picked(&q, n, p);
}

proof fn lemma_php_classes<'a>(root: Node<'a>)
    requires
        is_sound(root),
    ensures
        all_have(gathered(&lang::php::Classes, root), class_on_lines(1, source_lines(root))),
{
    let w = lang::php::Classes;
    let p = class_on_lines(1, source_lines(root));
    assert forall|c: Node<'a>| at_or_below(root, c) implies all_have(#[trigger] w.yields(c), p) by {
        lemma_place(root, c);
        lemma_value(root, c, "body");
        if c.at("body") is Some {
            lemma_php_methods(c.at("body")->0);
        }
    }
    lemma_gathered(&w, root, p);
}

proof fn lemma_ruby_methods<'a>(n: Node<'a>)
    requires
        is_sound(n),
    ensures
        all_have(gathered(&lang::ruby::BodyMethods, n), function_on_lines(source_lines(n))),
{
    let w = lang::ruby::BodyMethods;
    let p = function_on_lines(source_lines(n));
    assert forall|d: Node<'a>| at_or_below(n, d) implies all_have(#[trigger] w.yields(d), p) by {
        lemma_place(n, d);
    }
    lemma_gathered(&w, n, p);
}

proof fn lemma_ruby_classes<'a>(root: Node<'a>)
    requires
        is_sound(root),
    ensures
        all_have(gathered(&lang::ruby::Classes, root), class_on_lines(1, source_lines(root))),
{
    let w = lang::ruby::Classes;
    let p = class_on_lines(1, source_lines(root));
    assert forall|c: Node<'a>| at_or_below(root, c) implies all_have(#[trigger] w.yields(c), p) by {
        lemma_place(root, c);
        lemma_value(root, c, "body");
        if c.at("body") is Some {
            lemma_ruby_methods(c.at("body")->0);
        }
    }
    assert forall|c: Node<'a>| (#[trigger] w.enters(c)) matches Some(d) implies at_or_below(
        c,
        w.enters(c)->0,
    ) by {
        lemma_at_below(c, "body");
    }
    lemma_gathered(&w, root, p);
}

proof fn lemma_kotlin_body<'a>(n: Node<'a>)
    requires
        is_sound(n),
    ensures
        all_have(gathered(&lang::kotlin::BodyMethods, n), function_on_lines(source_lines(n))),
{
    let w = lang::kotlin::BodyMethods;
    let p = function_on_lines(source_lines(n));
    assert forall|d: Node<'a>| at_or_below(n, d) implies all_have(#[trigger] w.yields(d), p) by {
        lemma_place(n, d);
    }
    lemma_gathered(&w, n, p);
}

proof fn lemma_kotlin_methods<'a>(n: Node<'a>)
    requires
        is_sound(n),
    ensures
        all_have(picked(&lang::kotlin::Methods, n), function_on_lines(source_lines(n))),
{
    let q = lang::kotlin::Methods;
    let p = function_on_lines(source_lines(n));
    assert forall|d: Node<'a>| at_or_below(n, d) implies all_have(#[trigger] q.picks(d), p) by {
        lemma_place(n, d);
        lemma_kotlin_body(d);
    }
    lemma_picked(&q, n, p);
}

proof fn lemma_kotlin_classes<'a>(root: Node<'a>)
    requires
        is_sound(root),
    ensures
        all_have(gathered(&lang::kotlin::Classes, root), class_on_lines(1, source_lines(root))),
{
    let w = lang::kotlin::Classes;
    let p = class_on_lines(1, source_lines(root));
    assert forall|c: Node<'a>| at_or_below(root, c) implies all_have(#[trigger] w.yields(c), p) by {
        lemma_place(root, c);
        lemma_kotlin_methods(c);
    }
    lemma_gathered(&w, root, p);
}

proof fn lemma_scala_body<'a>(n: Node<'a>)
    requires
        is_sound(n),
    ensures
        all_have(picked(&lang::scala::BodyMethods, n), function_on_lines(source_lines(n))),
{
    let q = lang::scala::BodyMethods;
    let p = function_on_lines(source_lines(n));
    assert forall|d: Node<'a>| at_or_below(n, d) implies all_have(#[trigger] q.picks(d), p) by {
        lemma_place(n, d);
    }
    lemma_picked(&q, n, p);
}

proof fn lemma_scala_methods<'a>(n: Node<'a>)
    requires
        is_sound(n),
    ensures
        all_have(picked(&lang::scala::Methods, n), function_on_lines(source_lines(n))),
{
    let q = lang::scala::Methods;
    let p = function_on_lines(source_lines(n));
    assert forall|d: Node<'a>| at_or_below(n, d) implies all_have(#[trigger] q.picks(d), p) by {
        lemma_place(n, d);
        lemma_scala_body(d);
    }
    lemma_picked(&q, n, p);
}

proof fn lemma_scala_classes<'a>(root: Node<'a>)
    requires
        is_sound(root),
    ensures
        all_have(gathered(&lang::scala::Classes, root), class_on_lines(1, source_lines(root))),
{
    let w = lang::scala::Classes;
    let p = class_on_lines(1, source_lines(root));
    assert forall|c: Node<'a>| at_or_below(root, c) implies all_have(#[trigger] w.yields(c), p) by {
        lemma_place(root, c);
        lemma_scala_methods(c);
    }
    lemma_gathered(&w, root, p);
}

proof fn lemma_swift_body<'a>(n: Node<'a>)
    requires
        is_sound(n),
    ensures
        all_have(picked(&lang::swift::BodyMethods, n), function_on_lines(source_lines(n))),
{
    let q = lang::swift::BodyMethods;
    let p = function_on_lines(source_lines(n));
    assert forall|d: Node<'a>| at_or_below(n, d) implies all_have(#[trigger] q.picks(d), p) by {
        lemma_place(n, d);
    }
    lemma_picked(&q, n, p);
}

proof fn lemma_swift_methods<'a>(n: Node<'a>)
    requires
        is_sound(n),
    ensures
        all_have(picked(&lang::swift::Bodies, n), function_on_lines(source_lines(n))),
{
    let q = lang::swift::Bodies;
    let p = function_on_lines(source_lines(n));
    assert forall|d: Node<'a>| at_or_below(n, d) implies all_have(#[trigger] q.picks(d), p) by {
        lemma_place(n, d);
        lemma_swift_body(d);
    }
    lemma_picked(&q, n, p);
}

proof fn lemma_swift_classes<'a>(root: Node<'a>)
    requires
        is_sound(root),
    ensures
        all_have(gathered(&lang::swift::Classes, root), class_on_lines(1, source_lines(root))),
{
    let w = lang::swift::Classes;
    let p = class_on_lines(1, source_lines(root));
    assert forall|c: Node<'a>| at_or_below(root, c) implies all_have(#[trigger] w.yields(c), p) by {
        lemma_place(root, c);
        lemma_swift_methods(c);
        lemma_value(root, c, "body");
        if c.at("body") is Some {
            lemma_swift_body(c.at("body")->0);
        }
    }
    lemma_gathered(&w, root, p);
}

proof fn lemma_elixir_body<'a>(n: Node<'a>)
    requires
        is_sound(n),
    ensures
        all_have(gathered(&lang::elixir::BodyFunctions, n), function_on_lines(source_lines(n))),
{
    let w = lang::elixir::BodyFunctions;
    let p = function_on_lines(source_lines(n));
    assert forall|d: Node<'a>| at_or_below(n, d) implies all_have(#[trigger] w.yields(d), p) by {
        lemma_place(n, d);
    }
    lemma_gathered(&w, n, p);
}

proof fn lemma_elixir_methods<'a>(n: Node<'a>)
    requires
        is_sound(n),
    ensures
        all_have(picked(&lang::elixir::ModuleFunctions, n), function_on_lines(source_lines(n))),
{
    let q = lang::elixir::ModuleFunctions;
    let p = function_on_lines(source_lines(n));
    assert forall|d: Node<'a>| at_or_below(n, d) implies all_have(#[trigger] q.picks(d), p) by {
        lemma_place(n, d);
        lemma_elixir_body(d);
    }
    lemma_picked(&q, n, p);
}

proof fn lemma_elixir_classes<'a>(root: Node<'a>)
    requires
        is_sound(root),
    ensures
        all_have(gathered(&lang::elixir::Classes, root), class_on_lines(1, source_lines(root))),
{
    let w = lang::elixir::Classes;
    let p = class_on_lines(1, source_lines(root));
    assert forall|c: Node<'a>| at_or_below(root, c) implies all_have(#[trigger] w.yields(c), p) by {
        lemma_place(root, c);
        lemma_elixir_methods(c);
    }
    lemma_gathered(&w, root, p);
}

proof fn lemma_cpp_methods<'a>(s: (Seq<char>, Seq<Function>), n: Node<'a>, k: nat)
    requires
        is_sound(n),
        k <= n.arity(),
        s.1.len() == 0,
    ensures
        all_have(
            folded_upto(&lang::c::BodyMethods, s, n, k).1,
            function_on_lines(source_lines(n)),
        ),
    decreases k,
{
    if k > 0 {
        lemma_cpp_methods(s, n, (k - 1) as nat);
        lemma_kid_below(n, k - 1);
        lemma_place(n, n.kid(k - 1));
    }
}

proof fn lemma_cpp_body<'a>(specifier: Node<'a>, body: Node<'a>)
    requires
        is_sound(body),
    ensures
        all_have(
            lang::c::body_methods(specifier, body),
            function_on_lines(source_lines(body)),
        ),
{
    lemma_cpp_methods(
        (lang::c::default_access(specifier), Seq::empty()),
        body,
        body.arity(),
    );
}

proof fn lemma_cpp_classes<'a>(root: Node<'a>)
    requires
        is_sound(root),
    ensures
        all_have(gathered(&lang::c::CppClasses, root), class_on_lines(1, source_lines(root))),
{
    let w = lang::c::CppClasses;
    let p = class_on_lines(1, source_lines(root));
    assert forall|c: Node<'a>| at_or_below(root, c) implies all_have(#[trigger] w.yields(c), p) by {
        lemma_place(root, c);
        lemma_value(root, c, "body");
        if c.at("body") is Some {
            lemma_cpp_body(c, c.at("body")->0);
            if c.at("type") is Some {
                lemma_cpp_body(c.at("type")->0, c.at("body")->0);
            }
        }
    }
    assert forall|c: Node<'a>| (#[trigger] w.enters(c)) matches Some(d) implies at_or_below(
        c,
        w.enters(c)->0,
    ) by {
        lemma_at_below(c, "body");
    }
    lemma_gathered(&w, root, p);
}

proof fn lemma_rust_items<'a>(n: Node<'a>)
    requires
        is_sound(n),
    ensures
        all_have(picked(&lang::rust::TraitItems, n), function_on_lines(source_lines(n))),
{
    let q = lang::rust::TraitItems;
    let p = function_on_lines(source_lines(n));
    assert forall|d: Node<'a>| at_or_below(n, d) implies all_have(#[trigger] q.picks(d), p) by {
        lemma_place(n, d);
    }
    lemma_picked(&q, n, p);
}

proof fn lemma_rust_trait<'a>(n: Node<'a>)
    requires
        is_sound(n),
    ensures
        all_have(picked(&lang::rust::TraitMethods, n), function_on_lines(source_lines(n))),
{
    let q = lang::rust::TraitMethods;
    let p = function_on_lines(source_lines(n));
    assert forall|d: Node<'a>| at_or_below(n, d) implies all_have(#[trigger] q.picks(d), p) by {
        lemma_place(n, d);
        lemma_rust_items(d);
    }
    lemma_picked(&q, n, p);
}

proof fn lemma_rust_impl<'a>(n: Node<'a>, is_trait_impl: bool)
    requires
        is_sound(n),
    ensures
        all_have(picked(&lang::rust::ImplMethods { is_trait_impl }, n), function_on_lines(source_lines(n))),
{
    let q = lang::rust::ImplMethods { is_trait_impl };
    let p = function_on_lines(source_lines(n));
    assert forall|d: Node<'a>| at_or_below(n, d) implies all_have(#[trigger] q.picks(d), p) by {
        lemma_place(n, d);
    }
    lemma_picked(&q, n, p);
}

proof fn lemma_rust_types<'a>(root: Node<'a>)
    requires
        is_sound(root),
    ensures
        all_have(gathered(&lang::rust::Types, root), class_on_lines(1, source_lines(root))),
{
    let w = lang::rust::Types;
    let p = class_on_lines(1, source_lines(root));
    assert forall|c: Node<'a>| at_or_below(root, c) implies all_have(#[trigger] w.yields(c), p) by {
        lemma_place(root, c);
        lemma_rust_trait(c);
    }
    lemma_gathered(&w, root, p);
}

/// Whether the methods of a group are reported on lines of a source text.
spec fn group_on_lines(count: nat) -> spec_fn((Seq<char>, Seq<Function>)) -> bool {
    |g: (Seq<char>, Seq<Function>)| all_have(g.1, function_on_lines(count))
}

proof fn lemma_attached(
    classes: Seq<Class>,
    groups: Seq<(Seq<char>, Seq<Function>)>,
    create: bool,
    k: nat,
    low: int,
    count: nat,
)
    requires
        k <= groups.len(),
        all_have(classes, class_on_lines(low, count)),
        all_have(groups, group_on_lines(count)),
        create ==> low <= 0,
    ensures
        all_have(attached_all(classes, groups, create, k), class_on_lines(low, count)),
    decreases k,
{
    if k > 0 {
        lemma_attached(classes, groups, create, (k - 1) as nat, low, count);
        let before = attached_all(classes, groups, create, (k - 1) as nat);
        let after = attached_all(classes, groups, create, k);
        let (name, methods) = groups[k - 1];
        assert(group_on_lines(count)(groups[k - 1]));
        lemma_class_from(before, name, 0);
        assert forall|i: int| 0 <= i < after.len() implies class_on_lines(low, count)(
            #[trigger] after[i],
        ) by {
            if i < before.len() {
                assert(class_on_lines(low, count)(before[i]));
                if class_from(before, name, 0) == Some(i) {
                    assert(after[i].methods == before[i].methods + methods);
                }
            }
        }
    }
}

proof fn lemma_rust_classes<'a>(root: Node<'a>)
    requires
        is_sound(root),
    ensures
        all_have(lang::rust::classes(root), class_on_lines(1, source_lines(root))),
{
    let w = lang::rust::Impls;
    let count = source_lines(root);
    assert forall|c: Node<'a>| at_or_below(root, c) implies all_have(
        #[trigger] w.yields(c),
        group_on_lines(count),
    ) by {
        lemma_value(root, c, "body");
        if c.at("body") is Some {
            lemma_rust_impl(c.at("body")->0, c.at("trait") is Some);
        }
    }
    lemma_gathered(&w, root, group_on_lines(count));
    lemma_rust_types(root);
    let groups = gathered(&w, root);
    lemma_attached(gathered(&lang::rust::Types, root), groups, false, groups.len(), 1, count);
}

proof fn lemma_go_signatures<'a>(n: Node<'a>)
    requires
        is_sound(n),
    ensures
        all_have(gathered(&lang::go::Signatures, n), function_on_lines(source_lines(n))),
{
    let w = lang::go::Signatures;
    let p = function_on_lines(source_lines(n));
    assert forall|d: Node<'a>| at_or_below(n, d) implies all_have(#[trigger] w.yields(d), p) by {
        lemma_place(n, d);
    }
    lemma_gathered(&w, n, p);
}

proof fn lemma_go_types<'a>(root: Node<'a>)
    requires
        is_sound(root),
    ensures
        all_have(picked(&lang::go::Types, root), class_on_lines(0, source_lines(root))),
{
    let p = class_on_lines(0, source_lines(root));
    let q = lang::go::Types;
    assert forall|c: Node<'a>| at_or_below(root, c) implies all_have(#[trigger] q.picks(c), p) by {
        let specs = lang::go::TypeSpecs { declaration: c };
        assert forall|d: Node<'a>| at_or_below(c, d) implies all_have(
            #[trigger] specs.picks(d),
            p,
        ) by {
            lemma_below_transitive(root, c, d);
            lemma_place(root, d);
            lemma_value(root, d, "type");
            if d.at("type") is Some {
                lemma_go_signatures(d.at("type")->0);
            }
        }
        lemma_picked(&specs, c, p);
    }
    lemma_picked(&q, root, p);
}

proof fn lemma_go_classes<'a>(root: Node<'a>)
    requires
        is_sound(root),
    ensures
        all_have(lang::go::classes(root), class_on_lines(0, source_lines(root))),
{
    let w = lang::go::Methods;
    let count = source_lines(root);
    assert forall|c: Node<'a>| at_or_below(root, c) implies all_have(
        #[trigger] w.yields(c),
        group_on_lines(count),
    ) by {
        lemma_place(root, c);
    }
    lemma_gathered(&w, root, group_on_lines(count));
    lemma_go_types(root);
    let groups = gathered(&w, root);
    lemma_attached(picked(&lang::go::Types, root), groups, true, groups.len(), 0, count);
}

/// Whether a table, as far as it is known, stands on lines of a source text.
spec fn table_on_lines(count: nat) -> spec_fn(lang::lua::Table) -> bool {
    |t: lang::lua::Table|
        {
            &&& t.methods.len() > 0
            &&& all_have(t.methods, function_on_lines(count))
            &&& t.line_end <= count
            &&& t.anchor matches Some(line) ==> 1 <= line <= t.line_end
        }
}

/// Whether a method of a table stands on lines of a source text.
spec fn member_on_lines(count: nat) -> spec_fn((Seq<char>, Function, Seq<Field>)) -> bool {
    |m: (Seq<char>, Function, Seq<Field>)| function_on_lines(count)(m.1)
}

/// Whether what an assignment says of a table is of lines of a source text.
spec fn note_on_lines(count: nat) -> spec_fn(
    (Seq<char>, Option<u32>, u32, Option<Field>),
) -> bool {
    |m: (Seq<char>, Option<u32>, u32, Option<Field>)|
        m.2 <= count && (m.1 matches Some(line) ==> 1 <= line <= m.2)
}

proof fn lemma_lua_methods(
    methods: Seq<(Seq<char>, Function, Seq<Field>)>,
    k: nat,
    count: nat,
)
    requires
        k <= methods.len(),
        all_have(methods, member_on_lines(count)),
    ensures
        all_have(lang::lua::tables_with_methods(methods, k), table_on_lines(count)),
    decreases k,
{
    if k > 0 {
        lemma_lua_methods(methods, (k - 1) as nat, count);
        let before = lang::lua::tables_with_methods(methods, (k - 1) as nat);
        let after = lang::lua::tables_with_methods(methods, k);
        let (name, method, fields) = methods[k - 1];
        assert(member_on_lines(count)(methods[k - 1]));
        lemma_table_from(before, name, 0);
        assert forall|i: int| 0 <= i < after.len() implies table_on_lines(count)(
            #[trigger] after[i],
        ) by {
            if i < before.len() {
                assert(table_on_lines(count)(before[i]));
            }
        }
    }
}

proof fn lemma_lua_notes(
    tables: Seq<lang::lua::Table>,
    notes: Seq<(Seq<char>, Option<u32>, u32, Option<Field>)>,
    k: nat,
    count: nat,
)
    requires
        k <= notes.len(),
        all_have(tables, table_on_lines(count)),
        all_have(notes, note_on_lines(count)),
    ensures
        all_have(lang::lua::with_notes(tables, notes, k), table_on_lines(count)),
    decreases k,
{
    if k > 0 {
        lemma_lua_notes(tables, notes, (k - 1) as nat, count);
        let before = lang::lua::with_notes(tables, notes, (k - 1) as nat);
        let after = lang::lua::with_notes(tables, notes, k);
        assert(note_on_lines(count)(notes[k - 1]));
        lemma_table_from(before, notes[k - 1].0, 0);
        assert forall|i: int| 0 <= i < after.len() implies table_on_lines(count)(
            #[trigger] after[i],
        ) by {
            assert(table_on_lines(count)(before[i]));
        }
    }
}

proof fn lemma_lua_span(methods: Seq<Function>, k: nat, count: nat)
    requires
        0 < k <= methods.len(),
        all_have(methods, function_on_lines(count)),
    ensures
        1 <= lang::lua::first_line(methods, k) <= lang::lua::last_line(methods, k) <= count,
    decreases k,
{
    assert(function_on_lines(count)(methods[k - 1]));
    reveal_with_fuel(lang::lua::last_line, 2);
    if k > 1 {
        lemma_lua_span(methods, (k - 1) as nat, count);
    }
}

proof fn lemma_lua_classes<'a>(root: Node<'a>, luau: bool)
    requires
        is_sound(root),
    ensures
        all_have(lang::lua::classes(root, luau), class_on_lines(1, source_lines(root))),
{
    let count = source_lines(root);
    let m = lang::lua::Methods { luau };
    assert forall|c: Node<'a>| at_or_below(root, c) implies all_have(
        #[trigger] m.yields(c),
        member_on_lines(count),
    ) by {
        lemma_place(root, c);
    }
    lemma_gathered(&m, root, member_on_lines(count));
    let w = lang::lua::Notes;
    assert forall|c: Node<'a>| at_or_below(root, c) implies all_have(
        #[trigger] w.yields(c),
        note_on_lines(count),
    ) by {
        lemma_place(root, c);
        let q = lang::lua::LocalNotes { declaration: c };
        assert forall|d: Node<'a>| at_or_below(c, d) implies all_have(
            #[trigger] q.picks(d),
            note_on_lines(count),
        ) by {
            lemma_below_transitive(root, c, d);
            lemma_place(root, d);
        }
        lemma_picked(&q, c, note_on_lines(count));
    }
    lemma_gathered(&w, root, note_on_lines(count));
    let methods = gathered(&m, root);
    let notes = gathered(&w, root);
    lemma_lua_methods(methods, methods.len(), count);
    let tables = lang::lua::tables_with_methods(methods, methods.len());
    lemma_lua_notes(tables, notes, notes.len(), count);
    let all = lang::lua::tables(root, luau);
    let classes = lang::lua::classes(root, luau);
    assert forall|i: int| 0 <= i < classes.len() implies class_on_lines(1, count)(
        #[trigger] classes[i],
    ) by {
        assert(table_on_lines(count)(all[i]));
        lemma_lua_span(all[i].methods, all[i].methods.len(), count);
    }
}

/// Every class is reported on lines of the source, which are numbered from 1,
/// and so are its methods. Its first line is not behind its last. Only a type of
/// Go that the file does not declare may be reported on line 0.
pub proof fn classes_stand_on_lines_of_the_source(tree: &SyntaxTree, language: Language)
    requires
        is_tree(tree.text(), tree.nodes()),
    ensures
        all_have(
            classes_in(tree.root(), language),
            class_on_lines(
                if language == Language::Go {
                    0
                } else {
                    1
                },
                line_count(tree.text()),
            ),
        ),
{
    let root = tree.root();
    lemma_root_sound(tree);
    match language {
        Language::Python => lemma_python_classes(root),
        Language::TypeScript | Language::JavaScript => lemma_typescript_classes(root),
        Language::Go => lemma_go_classes(root),
        Language::Rust => lemma_rust_classes(root),
        Language::Java => lemma_java_classes(root),
        Language::C | Language::Ocaml => {},
        Language::Cpp => lemma_cpp_classes(root),
        Language::Ruby => lemma_ruby_classes(root),
        Language::Php => lemma_php_classes(root),
        Language::CSharp => lemma_csharp_classes(root),
        Language::Kotlin => lemma_kotlin_classes(root),
        Language::Scala => lemma_scala_classes(root),
        Language::Elixir => lemma_elixir_classes(root),
        Language::Lua => lemma_lua_classes(root, false),
        Language::Luau => lemma_lua_classes(root, true),
        Language::Swift => lemma_swift_classes(root),
        Language::Solidity => lemma_solidity_classes(root),
    }
}

} // verus!
