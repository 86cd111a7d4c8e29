//! By which of its children a node is named, and how children are found.

use vstd::prelude::*;

use crate::constants;
use crate::imports;
use crate::lang;
use crate::laws::reported_details::{is_first_kid, lemma_first, no_kid};
use crate::tree::{group_tree, lemma_parent_of_kid, Node};
use crate::walk::{found, last_found, last_upto, Test};

verus! {

broadcast use group_tree;

/// Whether `c` is the last child of `n` that `p` accepts.
pub open spec fn is_last_kid<'a>(n: Node<'a>, p: spec_fn(Node<'a>) -> bool, c: Node<'a>) -> bool {
    exists|i: int|
        0 <= i < n.arity() && #[trigger] n.kid(i) == c && p(c) && forall|m: int|
            i < m < n.arity() ==> !p(#[trigger] n.kid(m))
}

proof fn lemma_last_upto<'a, T: Test>(
    t: &T,
    n: Node<'a>,
    k: nat,
    p: spec_fn(Node<'a>) -> bool,
)
    requires
        k <= n.arity(),
        forall|c: Node<'a>| #[trigger] t.accepts(c) == p(c),
    ensures
        last_upto(t, n, k) matches Some(c) ==> exists|i: int|
            0 <= i < k && #[trigger] n.kid(i) == c && p(c) && forall|m: int|
                i < m < k ==> !p(#[trigger] n.kid(m)),
        last_upto(t, n, k) is None ==> forall|m: int| 0 <= m < k ==> !p(#[trigger] n.kid(m)),
    decreases k,
{
    if k > 0 {
        lemma_last_upto(t, n, (k - 1) as nat, p);
        assert(t.accepts(n.kid(k - 1)) == p(n.kid(k - 1)));
        if p(n.kid(k - 1)) {
            assert(forall|m: int| k - 1 < m < k ==> !p(#[trigger] n.kid(m)));
            assert(n.kid(k - 1) == last_upto(t, n, k)->0);
        } else if last_upto(t, n, (k - 1) as nat) is Some {
            let c = last_upto(t, n, (k - 1) as nat)->0;
            let i = choose|i: int|
                0 <= i < k - 1 && #[trigger] n.kid(i) == c && p(c) && forall|m: int|
                    i < m < k - 1 ==> !p(#[trigger] n.kid(m));
            assert(n.kid(i) == c);
        }
    }
}

proof fn lemma_last<'a, T: Test>(t: &T, n: Node<'a>, p: spec_fn(Node<'a>) -> bool)
    requires
        forall|c: Node<'a>| #[trigger] t.accepts(c) == p(c),
    ensures
        last_found(t, n) matches Some(c) ==> is_last_kid(n, p, c),
        last_found(t, n) is None ==> no_kid(n, p),
{
    lemma_last_upto(t, n, n.arity(), p);
}

/// The child that fills a field is the first one that does.
pub proof fn fields_are_filled_by_the_first_child(n: Node<'_>, name: &str)
    ensures
        n.at(name) matches Some(c) ==> is_first_filling(n, name@, c),
        n.at(name) is None ==> forall|m: int|
            0 <= m < n.arity() ==> (#[trigger] n.kid(m)).facts().field != Some(name@),
{
    lemma_filling(n, name@, 0);
}

/// Whether `c` is the first child of `n` that fills the field `name`.
pub open spec fn is_first_filling(n: Node<'_>, name: Seq<char>, c: Node<'_>) -> bool {
    exists|i: int|
        0 <= i < n.arity() && #[trigger] n.kid(i) == c && c.facts().field == Some(name)
            && forall|m: int| 0 <= m < i ==> (#[trigger] n.kid(m)).facts().field != Some(name)
}

proof fn lemma_filling(n: Node<'_>, name: Seq<char>, i: int)
    requires
        0 <= i,
        forall|m: int|
            0 <= m < i && m < n.arity() ==> (#[trigger] n.kid(m)).facts().field != Some(name),
    ensures
        n.field_from(name, i) matches Some(c) ==> is_first_filling(n, name, c),
        n.field_from(name, i) is None ==> forall|m: int|
            0 <= m < n.arity() ==> (#[trigger] n.kid(m)).facts().field != Some(name),
    decreases n.arity() - i,
{
    if i < n.arity() && n.kid(i).facts().field != Some(name) {
        lemma_filling(n, name, i + 1);
    }
}

/// The first named child is named, and none before it is.
pub proof fn first_named_children_come_first(n: Node<'_>, i: int)
    requires
        0 <= i,
        forall|m: int| 0 <= m < i && m < n.arity() ==> !(#[trigger] n.kid(m)).facts().named,
    ensures
        n.named_from(0, i) matches Some(c) ==> exists|k: int|
            0 <= k < n.arity() && #[trigger] n.kid(k) == c && c.facts().named && forall|m: int|
                0 <= m < k ==> !(#[trigger] n.kid(m)).facts().named,
        n.named_from(0, i) is None ==> forall|m: int|
            0 <= m < n.arity() ==> !(#[trigger] n.kid(m)).facts().named,
    decreases n.arity() - i,
{
    if i < n.arity() && !n.kid(i).facts().named {
        first_named_children_come_first(n, i + 1);
    }
}

/// The sibling before a child is the child before it.
pub proof fn siblings_stand_side_by_side(n: Node<'_>, i: int)
    requires
        0 <= i < n.arity(),
    ensures
        n.kid(i).up() == Some(n),
        i > 0 ==> n.kid(i).left() == Some(n.kid(i - 1)),
        i == 0 ==> n.kid(i).left() is None,
{
    lemma_parent_of_kid(n, i);
}

/// What [`kotlin_params_are_named_by_identifiers`] speaks of.
pub open spec fn for_kotlin_params_are_named_by_identifiers<'a>() -> spec_fn(Node<'a>) -> bool {
    |c: Node<'a>| c.isa("simple_identifier") || c.isa("identifier")
}

/// A parameter of Kotlin is named by its first identifier.
pub proof fn kotlin_params_are_named_by_identifiers<'a>(n: Node<'a>)
    ensures
        found(&lang::kotlin::Identifier, n) matches Some(c) ==> is_first_kid(n, for_kotlin_params_are_named_by_identifiers(), c),
        found(&lang::kotlin::Identifier, n) is None ==> no_kid(n, for_kotlin_params_are_named_by_identifiers()),
{
    lemma_first(&lang::kotlin::Identifier, n, for_kotlin_params_are_named_by_identifiers());
}

/// What [`kotlin_classes_are_named_by_identifiers`] speaks of.
pub open spec fn for_kotlin_classes_are_named_by_identifiers<'a>() -> spec_fn(Node<'a>) -> bool {
    |c: Node<'a>| c.isa("simple_identifier") || c.isa("type_identifier")
}

/// A class of Kotlin without a name field is named by its first identifier.
pub proof fn kotlin_classes_are_named_by_identifiers<'a>(n: Node<'a>)
    ensures
        found(&lang::kotlin::ClassName, n) matches Some(c) ==> is_first_kid(n, for_kotlin_classes_are_named_by_identifiers(), c),
        found(&lang::kotlin::ClassName, n) is None ==> no_kid(n, for_kotlin_classes_are_named_by_identifiers()),
{
    lemma_first(&lang::kotlin::ClassName, n, for_kotlin_classes_are_named_by_identifiers());
}

/// What [`kotlin_specifiers_name_a_base`] speaks of.
pub open spec fn for_kotlin_specifiers_name_a_base<'a>() -> spec_fn(Node<'a>) -> bool {
    |c: Node<'a>| c.isa("user_type") || c.isa("constructor_invocation") || c.isa("type_identifier")
}

/// A specifier of Kotlin names its base by its first type or constructor.
pub proof fn kotlin_specifiers_name_a_base<'a>(n: Node<'a>)
    ensures
        found(&lang::kotlin::BaseNode, n) matches Some(c) ==> is_first_kid(n, for_kotlin_specifiers_name_a_base(), c),
        found(&lang::kotlin::BaseNode, n) is None ==> no_kid(n, for_kotlin_specifiers_name_a_base()),
{
    lemma_first(&lang::kotlin::BaseNode, n, for_kotlin_specifiers_name_a_base());
}

/// What [`kotlin_constructors_name_a_type`] speaks of.
pub open spec fn for_kotlin_constructors_name_a_type<'a>() -> spec_fn(Node<'a>) -> bool {
    |c: Node<'a>| c.isa("type_identifier") || c.isa("user_type")
}

/// A constructor of Kotlin names its type by its first type.
pub proof fn kotlin_constructors_name_a_type<'a>(n: Node<'a>)
    ensures
        found(&lang::kotlin::BaseType, n) matches Some(c) ==> is_first_kid(n, for_kotlin_constructors_name_a_type(), c),
        found(&lang::kotlin::BaseType, n) is None ==> no_kid(n, for_kotlin_constructors_name_a_type()),
{
    lemma_first(&lang::kotlin::BaseType, n, for_kotlin_constructors_name_a_type());
}

/// What [`swift_params_are_named_by_identifiers`] speaks of.
pub open spec fn for_swift_params_are_named_by_identifiers<'a>() -> spec_fn(Node<'a>) -> bool {
    |c: Node<'a>| c.isa("simple_identifier") || c.isa("identifier")
}

/// A parameter of Swift is named by its first identifier.
pub proof fn swift_params_are_named_by_identifiers<'a>(n: Node<'a>)
    ensures
        found(&lang::swift::Identifier, n) matches Some(c) ==> is_first_kid(n, for_swift_params_are_named_by_identifiers(), c),
        found(&lang::swift::Identifier, n) is None ==> no_kid(n, for_swift_params_are_named_by_identifiers()),
{
    lemma_first(&lang::swift::Identifier, n, for_swift_params_are_named_by_identifiers());
}

/// What [`swift_params_stand_in_clauses`] speaks of.
pub open spec fn for_swift_params_stand_in_clauses<'a>() -> spec_fn(Node<'a>) -> bool {
    |c: Node<'a>| c.isa("parameter_clause") || c.isa("parameter_list")
}

/// The parameters of a Swift function without a field for them stand in its first list.
pub proof fn swift_params_stand_in_clauses<'a>(n: Node<'a>)
    ensures
        found(&lang::swift::ParamClause, n) matches Some(c) ==> is_first_kid(n, for_swift_params_stand_in_clauses(), c),
        found(&lang::swift::ParamClause, n) is None ==> no_kid(n, for_swift_params_stand_in_clauses()),
{
    lemma_first(&lang::swift::ParamClause, n, for_swift_params_stand_in_clauses());
}

/// What [`swift_types_are_named_by_identifiers`] speaks of.
pub open spec fn for_swift_types_are_named_by_identifiers<'a>() -> spec_fn(Node<'a>) -> bool {
    |c: Node<'a>| c.isa("type_identifier") || c.isa("simple_identifier")
}

/// A type of Swift without a name field is named by its first identifier.
pub proof fn swift_types_are_named_by_identifiers<'a>(n: Node<'a>)
    ensures
        found(&lang::swift::TypeName, n) matches Some(c) ==> is_first_kid(n, for_swift_types_are_named_by_identifiers(), c),
        found(&lang::swift::TypeName, n) is None ==> no_kid(n, for_swift_types_are_named_by_identifiers()),
{
    lemma_first(&lang::swift::TypeName, n, for_swift_types_are_named_by_identifiers());
}

/// What [`java_generic_types_are_named_by_types`] speaks of.
pub open spec fn for_java_generic_types_are_named_by_types<'a>() -> spec_fn(Node<'a>) -> bool {
    |c: Node<'a>| c.isa("type_identifier") || c.isa("scoped_type_identifier")
}

/// A generic type of Java is named by its first type.
pub proof fn java_generic_types_are_named_by_types<'a>(n: Node<'a>)
    ensures
        found(&lang::java::PlainType, n) matches Some(c) ==> is_first_kid(n, for_java_generic_types_are_named_by_types(), c),
        found(&lang::java::PlainType, n) is None ==> no_kid(n, for_java_generic_types_are_named_by_types()),
{
    lemma_first(&lang::java::PlainType, n, for_java_generic_types_are_named_by_types());
}

/// What [`ocaml_params_are_named_by_values`] speaks of.
pub open spec fn for_ocaml_params_are_named_by_values<'a>() -> spec_fn(Node<'a>) -> bool {
    |c: Node<'a>| c.isa("value_pattern") || c.isa("value_name")
}

/// A parameter of OCaml without a pattern is named by its first value.
pub proof fn ocaml_params_are_named_by_values<'a>(n: Node<'a>)
    ensures
        found(&lang::ocaml::ValueName, n) matches Some(c) ==> is_first_kid(n, for_ocaml_params_are_named_by_values(), c),
        found(&lang::ocaml::ValueName, n) is None ==> no_kid(n, for_ocaml_params_are_named_by_values()),
{
    lemma_first(&lang::ocaml::ValueName, n, for_ocaml_params_are_named_by_values());
}

/// What [`elixir_modules_are_named_by_aliases`] speaks of.
pub open spec fn for_elixir_modules_are_named_by_aliases<'a>() -> spec_fn(Node<'a>) -> bool {
    |c: Node<'a>| c.isa("alias") || c.isa("call") || c.isa("dot")
}

/// A module of Elixir is named by the first alias, call or dotted name among its arguments.
pub proof fn elixir_modules_are_named_by_aliases<'a>(n: Node<'a>)
    ensures
        found(&lang::elixir::ModuleName, n) matches Some(c) ==> is_first_kid(n, for_elixir_modules_are_named_by_aliases(), c),
        found(&lang::elixir::ModuleName, n) is None ==> no_kid(n, for_elixir_modules_are_named_by_aliases()),
{
    lemma_first(&lang::elixir::ModuleName, n, for_elixir_modules_are_named_by_aliases());
}

/// What [`elixir_matches_have_an_operator`] speaks of.
pub open spec fn for_elixir_matches_have_an_operator<'a>() -> spec_fn(Node<'a>) -> bool {
    |c: Node<'a>| c.isa("=") && c.txt() == "="@
}

/// A match of Elixir is told by its `=`.
pub proof fn elixir_matches_have_an_operator<'a>(n: Node<'a>)
    ensures
        found(&lang::elixir::MatchOperator, n) matches Some(c) ==> is_first_kid(n, for_elixir_matches_have_an_operator(), c),
        found(&lang::elixir::MatchOperator, n) is None ==> no_kid(n, for_elixir_matches_have_an_operator()),
{
    lemma_first(&lang::elixir::MatchOperator, n, for_elixir_matches_have_an_operator());
}

/// What [`cpp_classes_are_named_by_types`] speaks of.
pub open spec fn for_cpp_classes_are_named_by_types<'a>() -> spec_fn(Node<'a>) -> bool {
    |c: Node<'a>| c.isa("type_identifier") && c.txt().len() > 0
}

/// A class of C++ without a name field is named by its first type with a text.
pub proof fn cpp_classes_are_named_by_types<'a>(n: Node<'a>)
    ensures
        found(&lang::c::TypeName, n) matches Some(c) ==> is_first_kid(n, for_cpp_classes_are_named_by_types(), c),
        found(&lang::c::TypeName, n) is None ==> no_kid(n, for_cpp_classes_are_named_by_types()),
{
    lemma_first(&lang::c::TypeName, n, for_cpp_classes_are_named_by_types());
}

/// What [`go_receivers_have_a_type`] speaks of.
pub open spec fn for_go_receivers_have_a_type<'a>() -> spec_fn(Node<'a>) -> bool {
    |c: Node<'a>| c.isa("parameter_declaration") && c.at("type") is Some
}

/// The receiver of a method of Go is the first with a type.
pub proof fn go_receivers_have_a_type<'a>(n: Node<'a>)
    ensures
        found(&lang::go::TypedReceiver, n) matches Some(c) ==> is_first_kid(n, for_go_receivers_have_a_type(), c),
        found(&lang::go::TypedReceiver, n) is None ==> no_kid(n, for_go_receivers_have_a_type()),
{
    lemma_first(&lang::go::TypedReceiver, n, for_go_receivers_have_a_type());
}

/// What [`typescript_fields_are_named_by_identifiers`] speaks of.
pub open spec fn for_typescript_fields_are_named_by_identifiers<'a>() -> spec_fn(Node<'a>) -> bool {
    |c: Node<'a>| c.isa("property_identifier") || c.isa("identifier")
}

/// A field of TypeScript without a name field is named by its first identifier.
pub proof fn typescript_fields_are_named_by_identifiers<'a>(n: Node<'a>)
    ensures
        found(&lang::typescript::PropertyName, n) matches Some(c) ==> is_first_kid(n, for_typescript_fields_are_named_by_identifiers(), c),
        found(&lang::typescript::PropertyName, n) is None ==> no_kid(n, for_typescript_fields_are_named_by_identifiers()),
{
    lemma_first(&lang::typescript::PropertyName, n, for_typescript_fields_are_named_by_identifiers());
}

/// What [`typescript_accessors_have_a_token`] speaks of.
pub open spec fn for_typescript_accessors_have_a_token<'a>() -> spec_fn(Node<'a>) -> bool {
    |c: Node<'a>| c.isa("get") || c.isa("set")
}

/// An accessor of TypeScript is told by its first `get` or `set`.
pub proof fn typescript_accessors_have_a_token<'a>(n: Node<'a>)
    ensures
        found(&lang::typescript::AccessorToken, n) matches Some(c) ==> is_first_kid(n, for_typescript_accessors_have_a_token(), c),
        found(&lang::typescript::AccessorToken, n) is None ==> no_kid(n, for_typescript_accessors_have_a_token()),
{
    lemma_first(&lang::typescript::AccessorToken, n, for_typescript_accessors_have_a_token());
}

/// What [`rust_globs_have_a_path`] speaks of.
pub open spec fn for_rust_globs_have_a_path<'a>() -> spec_fn(Node<'a>) -> bool {
    |c: Node<'a>| c.facts().named && (c.isa("scoped_identifier") || c.isa("identifier") || c.isa("self") || c.isa("super") || c.isa("crate") || c.isa("metavariable"))
}

/// The path of a wildcard of Rust is its first named path.
pub proof fn rust_globs_have_a_path<'a>(n: Node<'a>)
    ensures
        found(&imports::rust::GlobPath, n) matches Some(c) ==> is_first_kid(n, for_rust_globs_have_a_path(), c),
        found(&imports::rust::GlobPath, n) is None ==> no_kid(n, for_rust_globs_have_a_path()),
{
    lemma_first(&imports::rust::GlobPath, n, for_rust_globs_have_a_path());
}

/// What [`csharp_params_are_named_by_identifiers`] speaks of.
pub open spec fn for_csharp_params_are_named_by_identifiers<'a>() -> spec_fn(Node<'a>) -> bool {
    |c: Node<'a>| c.isa("identifier")
}

/// A parameter of C# without a name field is named by its last identifier.
pub proof fn csharp_params_are_named_by_identifiers<'a>(n: Node<'a>)
    ensures
        last_found(&lang::csharp::Identifier, n) matches Some(c) ==> is_last_kid(n, for_csharp_params_are_named_by_identifiers(), c),
        last_found(&lang::csharp::Identifier, n) is None ==> no_kid(n, for_csharp_params_are_named_by_identifiers()),
{
    lemma_last(&lang::csharp::Identifier, n, for_csharp_params_are_named_by_identifiers());
}

/// What [`elixir_matches_are_named_by_identifiers`] speaks of.
pub open spec fn for_elixir_matches_are_named_by_identifiers<'a>() -> spec_fn(Node<'a>) -> bool {
    |c: Node<'a>| c.isa("identifier")
}

/// A match of Elixir without a right side is named by its last identifier.
pub proof fn elixir_matches_are_named_by_identifiers<'a>(n: Node<'a>)
    ensures
        last_found(&lang::elixir::Identifier, n) matches Some(c) ==> is_last_kid(n, for_elixir_matches_are_named_by_identifiers(), c),
        last_found(&lang::elixir::Identifier, n) is None ==> no_kid(n, for_elixir_matches_are_named_by_identifiers()),
{
    lemma_last(&lang::elixir::Identifier, n, for_elixir_matches_are_named_by_identifiers());
}

/// What [`lua_targets_stand_in_lists`] speaks of.
pub open spec fn for_lua_targets_stand_in_lists<'a>() -> spec_fn(Node<'a>) -> bool {
    |c: Node<'a>| c.isa("variable_list")
}

/// The targets of an assignment of Lua stand in its last list of variables.
pub proof fn lua_targets_stand_in_lists<'a>(n: Node<'a>)
    ensures
        last_found(&(lang::lua::Targets { luau: false }), n) matches Some(c) ==> is_last_kid(n, for_lua_targets_stand_in_lists(), c),
        last_found(&(lang::lua::Targets { luau: false }), n) is None ==> no_kid(n, for_lua_targets_stand_in_lists()),
{
    lemma_last(&(lang::lua::Targets { luau: false }), n, for_lua_targets_stand_in_lists());
}

/// What [`luau_targets_stand_in_lists`] speaks of.
pub open spec fn for_luau_targets_stand_in_lists<'a>() -> spec_fn(Node<'a>) -> bool {
    |c: Node<'a>| c.isa("variable_list") || c.isa("assignment_variable_list") || c.isa("binding_list")
}

/// The targets of an assignment of Luau stand in its last list of variables.
pub proof fn luau_targets_stand_in_lists<'a>(n: Node<'a>)
    ensures
        last_found(&(lang::lua::Targets { luau: true }), n) matches Some(c) ==> is_last_kid(n, for_luau_targets_stand_in_lists(), c),
        last_found(&(lang::lua::Targets { luau: true }), n) is None ==> no_kid(n, for_luau_targets_stand_in_lists()),
{
    lemma_last(&(lang::lua::Targets { luau: true }), n, for_luau_targets_stand_in_lists());
}

/// What [`lua_values_stand_in_lists`] speaks of.
pub open spec fn for_lua_values_stand_in_lists<'a>() -> spec_fn(Node<'a>) -> bool {
    |c: Node<'a>| c.isa("expression_list")
}

/// The values of an assignment of Lua stand in its last list of values.
pub proof fn lua_values_stand_in_lists<'a>(n: Node<'a>)
    ensures
        last_found(&(lang::lua::Values { luau: false }), n) matches Some(c) ==> is_last_kid(n, for_lua_values_stand_in_lists(), c),
        last_found(&(lang::lua::Values { luau: false }), n) is None ==> no_kid(n, for_lua_values_stand_in_lists()),
{
    lemma_last(&(lang::lua::Values { luau: false }), n, for_lua_values_stand_in_lists());
}

/// What [`luau_values_stand_in_lists`] speaks of.
pub open spec fn for_luau_values_stand_in_lists<'a>() -> spec_fn(Node<'a>) -> bool {
    |c: Node<'a>| c.isa("expression_list") || c.isa("assignment_expression_list")
}

/// The values of an assignment of Luau stand in its last list of values.
pub proof fn luau_values_stand_in_lists<'a>(n: Node<'a>)
    ensures
        last_found(&(lang::lua::Values { luau: true }), n) matches Some(c) ==> is_last_kid(n, for_luau_values_stand_in_lists(), c),
        last_found(&(lang::lua::Values { luau: true }), n) is None ==> no_kid(n, for_luau_values_stand_in_lists()),
{
    lemma_last(&(lang::lua::Values { luau: true }), n, for_luau_values_stand_in_lists());
}

/// What [`lua_constants_stand_in_lists`] speaks of.
pub open spec fn for_lua_constants_stand_in_lists<'a>() -> spec_fn(Node<'a>) -> bool {
    |c: Node<'a>| c.isa("variable_list")
}

/// The constants of an assignment of Lua stand in its last list of variables.
pub proof fn lua_constants_stand_in_lists<'a>(n: Node<'a>)
    ensures
        last_found(&constants::lua::VariableList, n) matches Some(c) ==> is_last_kid(n, for_lua_constants_stand_in_lists(), c),
        last_found(&constants::lua::VariableList, n) is None ==> no_kid(n, for_lua_constants_stand_in_lists()),
{
    lemma_last(&constants::lua::VariableList, n, for_lua_constants_stand_in_lists());
}

/// What [`solidity_types_have_a_name`] speaks of.
pub open spec fn for_solidity_types_have_a_name<'a>() -> spec_fn(Node<'a>) -> bool {
    |c: Node<'a>| c.isa("identifier") || c.isa("member_expression")
}

/// The name of a type of Solidity is its last identifier or member.
pub proof fn solidity_types_have_a_name<'a>(n: Node<'a>)
    ensures
        last_found(&lang::solidity::TypeNameNode, n) matches Some(c) ==> is_last_kid(n, for_solidity_types_have_a_name(), c),
        last_found(&lang::solidity::TypeNameNode, n) is None ==> no_kid(n, for_solidity_types_have_a_name()),
{
    lemma_last(&lang::solidity::TypeNameNode, n, for_solidity_types_have_a_name());
}

} // verus!
