//! Solidity: functions, contracts, modifiers, events, errors and constants.

use vstd::prelude::*;

use crate::docs::{join_lines, joined_lines};
use crate::items::{class_at, constant_at, field_at, function_at, new_class, new_constant, new_field, new_function};
use crate::lists::{backwards, emit, group_lists, push_some, some_seq};
use crate::nodes::{
    field_text, field_text_or_empty, field_txt, first, first_child, has_child, or_empty,
    some_text, text_of_child, txt_of,
};
use crate::text::{
    begins, behind_all, behind_or_all, concat3, join, joined, own, starts_with, trim, trim_start,
    trimmed, trimmed_front, without_prefix, without_prefixes,
};
use crate::tree::{group_tree, same, Node};
use crate::types::{
    Class, ClassInfo, ContractError, ErrorInfo, Event, EventInfo, EventParam, EventParamInfo,
    Field, FieldInfo, Function, FunctionInfo, Modifier, ModifierInfo, Param, ParamInfo,
};
use crate::walk::{
    find_child, find_last_child, found, gather, last_found, lemma_last_rank, gathered, look_back,
    nearest_first, pick_all, picked, Back, Picker, Test, Walker,
};

verus! {

broadcast use {group_tree, group_lists, lemma_last_rank};

/// The parameters of one kind, with their types.
pub struct TypedParams<'b> {
    pub kind: &'b str,
}

impl<'b> Picker for TypedParams<'b> {
    type Item = ParamInfo;

    open spec fn picks(&self, c: Node<'_>) -> Seq<Param> {
        if c.isa(self.kind) {
            seq![
                Param {
                    name: or_empty(field_txt(c, "name")),
                    type_: field_txt(c, "type"),
                    default_value: None,
                },
            ]
        } else {
            Seq::empty()
        }
    }

    fn pick(&self, c: Node<'_>, out: &mut Vec<ParamInfo>) {
        if c.is(self.kind) {
            emit(
                out,
                ParamInfo {
                    name: field_text_or_empty(&c, "name"),
                    type_: field_text(&c, "type"),
                    default_value: None,
                },
            );
        }
    }
}

/// The names of the parameters of a function; a parameter can be without one.
pub struct ParamNames;

impl Picker for ParamNames {
    type Item = String;

    open spec fn picks(&self, c: Node<'_>) -> Seq<Seq<char>> {
        if c.isa("parameter") {
            seq![or_empty(field_txt(c, "name"))]
        } else {
            Seq::empty()
        }
    }

    fn pick(&self, c: Node<'_>, out: &mut Vec<String>) {
        if c.is("parameter") {
            emit(out, field_text_or_empty(&c, "name"));
        }
    }
}

/// The names of the parameters of a function.
pub fn extract_solidity_param_names(n: &Node<'_>) -> (res: Vec<String>)
    ensures
        res.deep_view() == picked(&ParamNames, *n),
{
    pick_all(&ParamNames, *n)
}

/// The keyword by which an event can be searched.
pub struct IndexedWord;

impl Test for IndexedWord {
    open spec fn accepts(&self, c: Node<'_>) -> bool {
        c.isa("indexed") || c.txt() == "indexed"@
    }

    fn test(&self, c: Node<'_>) -> (res: bool) {
        c.is("indexed") || same(c.text(), "indexed")
    }
}

/// The parameters of an event.
pub struct EventParams;

impl Picker for EventParams {
    type Item = EventParamInfo;

    open spec fn picks(&self, c: Node<'_>) -> Seq<EventParam> {
        if c.isa("event_parameter") {
            seq![
                EventParam {
                    name: or_empty(field_txt(c, "name")),
                    type_: or_empty(field_txt(c, "type")),
                    indexed: found(&IndexedWord, c) is Some,
                },
            ]
        } else {
            Seq::empty()
        }
    }

    fn pick(&self, c: Node<'_>, out: &mut Vec<EventParamInfo>) {
        if c.is("event_parameter") {
            emit(
                out,
                EventParamInfo {
                    name: field_text_or_empty(&c, "name"),
                    type_: field_text_or_empty(&c, "type"),
                    indexed: find_child(&IndexedWord, c).is_some(),
                },
            );
        }
    }
}

/// The types of the returned values.
pub struct ReturnedTypes;

impl Picker for ReturnedTypes {
    type Item = String;

    open spec fn picks(&self, c: Node<'_>) -> Seq<Seq<char>> {
        if c.isa("parameter") {
            some_seq(field_txt(c, "type"))
        } else {
            Seq::empty()
        }
    }

    fn pick(&self, c: Node<'_>, out: &mut Vec<String>) {
        if c.is("parameter") {
            push_some(out, field_text(&c, "type"));
        }
    }
}

/// The return type of a function: the type of its one returned value, or the
/// types of several in parentheses.
pub open spec fn return_type(n: Node<'_>) -> Option<Seq<char>> {
    match n.at("return_type") {
        Some(list) => {
            let types = picked(&ReturnedTypes, list);
            if types.len() == 0 {
                None
            } else if types.len() == 1 {
                Some(types[0])
            } else {
                Some("("@ + joined(types, ", "@) + ")"@)
            }
        },
        None => None,
    }
}

/// The return type of a function.
pub fn extract_solidity_return_type(n: &Node<'_>) -> (res: Option<String>)
    ensures
        res.deep_view() == return_type(*n),
{
    let list = match n.child_by_field_name("return_type") {
        Some(list) => list,
        None => return None,
    };
    let types = pick_all(&ReturnedTypes, list);
    if types.len() == 0 {
        None
    } else if types.len() == 1 {
        assert(types.deep_view()[0] == types@[0]@);
        Some(types[0].clone())
    } else {
        let inner = join(&types, ", ");
        Some(concat3("(", inner.as_str(), ")"))
    }
}

/// Whether a text is an access keyword.
pub open spec fn is_access(s: Seq<char>) -> bool {
    s == "public"@ || s == "external"@ || s == "internal"@ || s == "private"@
}

fn access_word(s: &str) -> (res: bool)
    ensures
        res == is_access(s@),
{
    same(s, "public") || same(s, "external") || same(s, "internal") || same(s, "private")
}

/// Nodes that state the visibility.
pub struct VisibilityNode;

impl Test for VisibilityNode {
    open spec fn accepts(&self, c: Node<'_>) -> bool {
        c.isa("visibility") && is_access(trimmed(c.txt()))
    }

    fn test(&self, c: Node<'_>) -> (res: bool) {
        c.is("visibility") && access_word(trim(c.text()))
    }
}

/// The visibility of a function.
pub open spec fn visibility(n: Node<'_>) -> Option<Seq<char>> {
    match found(&VisibilityNode, n) {
        Some(c) => Some(trimmed(c.txt())),
        None => None,
    }
}

/// The visibility of a function.
pub fn extract_solidity_visibility(n: &Node<'_>) -> (res: Option<String>)
    ensures
        res.deep_view() == visibility(*n),
{
    match find_child(&VisibilityNode, *n) {
        Some(c) => Some(own(trim(c.text()))),
        None => None,
    }
}

/// Whether a text says how a function may touch the state.
pub open spec fn is_mutability(s: Seq<char>) -> bool {
    s == "pure"@ || s == "view"@ || s == "payable"@
}

fn mutability_word(s: &str) -> (res: bool)
    ensures
        res == is_mutability(s@),
{
    same(s, "pure") || same(s, "view") || same(s, "payable")
}

/// What a node says of how a function may touch the state.
pub open spec fn mutability_of(c: Node<'_>) -> Option<Seq<char>> {
    if c.isa("state_mutability") && is_mutability(trimmed(c.txt())) {
        Some(trimmed(c.txt()))
    } else if !c.facts().named && is_mutability(c.tag()) {
        Some(c.tag())
    } else {
        None
    }
}

/// Nodes that say how a function may touch the state.
pub struct MutabilityNode;

impl Test for MutabilityNode {
    open spec fn accepts(&self, c: Node<'_>) -> bool {
        mutability_of(c) is Some
    }

    fn test(&self, c: Node<'_>) -> (res: bool) {
        (c.is("state_mutability") && mutability_word(trim(c.text()))) || (!c.is_named()
            && mutability_word(c.kind()))
    }
}

/// How a function may touch the state, where it says so.
pub open spec fn state_mutability(n: Node<'_>) -> Option<Seq<char>> {
    match found(&MutabilityNode, n) {
        Some(c) => mutability_of(c),
        None => None,
    }
}

/// How a function may touch the state, where it says so.
pub fn extract_solidity_state_mutability(n: &Node<'_>) -> (res: Option<String>)
    ensures
        res.deep_view() == state_mutability(*n),
{
    match find_child(&MutabilityNode, *n) {
        Some(c) => if c.is("state_mutability") && mutability_word(trim(c.text())) {
            Some(own(trim(c.text())))
        } else {
            Some(own(c.kind()))
        },
        None => None,
    }
}

/// The modifiers that a function invokes.
pub struct Invocations;

impl Picker for Invocations {
    type Item = String;

    open spec fn picks(&self, c: Node<'_>) -> Seq<Seq<char>> {
        if c.isa("modifier_invocation") {
            some_seq(txt_of(first(c, "identifier")))
        } else {
            Seq::empty()
        }
    }

    fn pick(&self, c: Node<'_>, out: &mut Vec<String>) {
        if c.is("modifier_invocation") {
            push_some(out, text_of_child(&c, "identifier"));
        }
    }
}

/// The `///` comments just before a declaration.
pub struct DocLines;

impl Back for DocLines {
    type Item = String;

    open spec fn passes(&self, c: Node<'_>) -> bool {
        c.isa("comment") && !begins(trimmed_front(c.txt()), "/**"@) && begins(
            trimmed_front(c.txt()),
            "///"@,
        )
    }

    open spec fn takes(&self, c: Node<'_>) -> Option<Seq<char>> {
        Some(behind_or_all(behind_all(trimmed_front(c.txt()), "///"@), " "@))
    }

    fn pass(&self, c: Node<'_>) -> (res: bool) {
        c.is("comment") && !starts_with(trim_start(c.text()), "/**") && starts_with(
            trim_start(c.text()),
            "///",
        )
    }

    fn take(&self, c: Node<'_>) -> (res: Option<String>) {
        Some(own(without_prefix(without_prefixes(trim_start(c.text()), "///"), " ")))
    }
}

/// The NatSpec comment of a declaration: a `/**` block just before it, as
/// written, or the `///` lines just before it.
pub open spec fn docstring(n: Node<'_>) -> Option<Seq<char>> {
    match n.left() {
        Some(p) if p.isa("comment") && begins(trimmed_front(p.txt()), "/**"@) => Some(p.txt()),
        _ => joined_lines(nearest_first(&DocLines, n.left()).reverse()),
    }
}

/// The NatSpec comment of a declaration.
pub fn collect_solidity_natspec_text(n: &Node<'_>) -> (res: Option<String>)
    ensures
        res.deep_view() == docstring(*n),
{
    match n.prev_sibling() {
        Some(p) => {
            if p.is("comment") && starts_with(trim_start(p.text()), "/**") {
                return Some(own(p.text()));
            }
        },
        None => {},
    }
    join_lines(&backwards(look_back(&DocLines, n)))
}

/// What functions, constructors and fallbacks have in common.
pub open spec fn callable(name: Seq<char>, n: Node<'_>, is_method: bool) -> Function {
    Function {
        params: picked(&ParamNames, n),
        docstring: docstring(n),
        is_method,
        decorators: picked(&Invocations, n),
        visibility: visibility(n),
        state_mutability: state_mutability(n),
        ..function_at(name, n)
    }
}

fn extract_callable(name: String, n: &Node<'_>, is_method: bool) -> (res: FunctionInfo)
    ensures
        res.deep_view() == callable(name@, *n, is_method),
{
    let mut info = new_function(name, n);
    info.params = extract_solidity_param_names(n);
    info.docstring = collect_solidity_natspec_text(n);
    info.is_method = is_method;
    info.decorators = pick_all(&Invocations, *n);
    info.visibility = extract_solidity_visibility(n);
    info.state_mutability = extract_solidity_state_mutability(n);
    info
}

/// The keywords that a fallback begins with.
pub struct FallbackWord;

impl Test for FallbackWord {
    open spec fn accepts(&self, c: Node<'_>) -> bool {
        c.isa("fallback") || c.isa("receive") || c.txt() == "fallback"@ || c.txt() == "receive"@
    }

    fn test(&self, c: Node<'_>) -> (res: bool) {
        c.is("fallback") || c.is("receive") || same(c.text(), "fallback") || same(
            c.text(),
            "receive",
        )
    }
}

/// The name of a fallback: the keyword that it begins with.
pub open spec fn fallback_name(n: Node<'_>) -> Seq<char> {
    match found(&FallbackWord, n) {
        Some(c) => if c.isa("fallback") || c.isa("receive") {
            c.tag()
        } else {
            c.txt()
        },
        None => "fallback"@,
    }
}

fn find_fallback_name(n: &Node<'_>) -> (res: String)
    ensures
        res@ == fallback_name(*n),
{
    match find_child(&FallbackWord, *n) {
        Some(c) => if c.is("fallback") || c.is("receive") {
            own(c.kind())
        } else {
            own(c.text())
        },
        None => own("fallback"),
    }
}

/// What is reported of a function.
pub open spec fn function_info(n: Node<'_>, is_method: bool) -> Function {
    Function {
        return_type: return_type(n),
        ..callable(or_empty(field_txt(n, "name")), n, is_method)
    }
}

/// What is reported of a function.
pub fn extract_solidity_function_info(n: &Node<'_>, is_method: bool) -> (res: FunctionInfo)
    ensures
        res.deep_view() == function_info(*n, is_method),
{
    let mut info = extract_callable(field_text_or_empty(n, "name"), n, is_method);
    info.return_type = extract_solidity_return_type(n);
    info
}

/// The functions outside of contracts, or those of a contract body.
pub struct Functions {
    pub is_method: bool,
}

impl Walker for Functions {
    type Item = FunctionInfo;

    open spec fn yields(&self, c: Node<'_>) -> Seq<Function> {
        if c.isa("function_definition") {
            seq![function_info(c, self.is_method)]
        } else if c.isa("constructor_definition") {
            seq![callable("constructor"@, c, self.is_method)]
        } else if c.isa("fallback_receive_definition") {
            seq![callable(fallback_name(c), c, self.is_method)]
        } else {
            Seq::empty()
        }
    }

    open spec fn enters<'a>(&self, c: Node<'a>) -> Option<Node<'a>> {
        if c.isa("function_definition") || c.isa("constructor_definition") || c.isa(
            "fallback_receive_definition",
        ) || is_contract(c) || c.isa("contract_body") {
            None
        } else {
            Some(c)
        }
    }

    fn visit<'a>(&self, c: Node<'a>, out: &mut Vec<FunctionInfo>) -> (res: Option<Node<'a>>) {
        if c.is("function_definition") {
            emit(out, extract_solidity_function_info(&c, self.is_method));
            None
        } else if c.is("constructor_definition") {
            emit(out, extract_callable(own("constructor"), &c, self.is_method));
            None
        } else if c.is("fallback_receive_definition") {
            emit(out, extract_callable(find_fallback_name(&c), &c, self.is_method));
            None
        } else if contract_node(&c) || c.is("contract_body") {
            None
        } else {
            Some(c)
        }
    }
}

/// Contracts, interfaces and libraries.
pub open spec fn is_contract(n: Node<'_>) -> bool {
    n.isa("contract_declaration") || n.isa("interface_declaration") || n.isa("library_declaration")
}

fn contract_node(n: &Node<'_>) -> (res: bool)
    ensures
        res == is_contract(*n),
{
    n.is("contract_declaration") || n.is("interface_declaration") || n.is("library_declaration")
}

/// What is reported of a modifier.
pub open spec fn modifier_info(n: Node<'_>) -> Modifier {
    Modifier {
        name: or_empty(field_txt(n, "name")),
        line_number: n.top(),
        params: picked(&TypedParams { kind: "parameter" }, n),
        is_virtual: first(n, "virtual") is Some,
        is_override: first(n, "override_specifier") is Some,
        body_present: n.at("body") is Some,
    }
}

fn build_solidity_modifier_info(n: &Node<'_>) -> (res: ModifierInfo)
    ensures
        res.deep_view() == modifier_info(*n),
{
    ModifierInfo {
        name: field_text_or_empty(n, "name"),
        line_number: n.start_line(),
        params: pick_all(&TypedParams { kind: "parameter" }, *n),
        is_virtual: has_child(n, "virtual"),
        is_override: has_child(n, "override_specifier"),
        body_present: n.child_by_field_name("body").is_some(),
    }
}

/// The keyword that keeps the signature of an event out of the log.
pub struct AnonymousWord;

impl Test for AnonymousWord {
    open spec fn accepts(&self, c: Node<'_>) -> bool {
        c.isa("anonymous") || c.txt() == "anonymous"@
    }

    fn test(&self, c: Node<'_>) -> (res: bool) {
        c.is("anonymous") || same(c.text(), "anonymous")
    }
}

/// What is reported of an event.
pub open spec fn event_info(n: Node<'_>) -> Event {
    Event {
        name: or_empty(field_txt(n, "name")),
        line_number: n.top(),
        params: picked(&EventParams, n),
        is_anonymous: found(&AnonymousWord, n) is Some,
    }
}

fn build_solidity_event_info(n: &Node<'_>) -> (res: EventInfo)
    ensures
        res.deep_view() == event_info(*n),
{
    EventInfo {
        name: field_text_or_empty(n, "name"),
        line_number: n.start_line(),
        params: pick_all(&EventParams, *n),
        is_anonymous: find_child(&AnonymousWord, *n).is_some(),
    }
}

/// What is reported of an error.
pub open spec fn error_info(n: Node<'_>) -> ContractError {
    ContractError {
        name: or_empty(field_txt(n, "name")),
        line_number: n.top(),
        params: picked(&TypedParams { kind: "error_parameter" }, n),
    }
}

fn build_solidity_error_info(n: &Node<'_>) -> (res: ErrorInfo)
    ensures
        res.deep_view() == error_info(*n),
{
    ErrorInfo {
        name: field_text_or_empty(n, "name"),
        line_number: n.start_line(),
        params: pick_all(&TypedParams { kind: "error_parameter" }, *n),
    }
}

/// The modifiers of a file outside of contracts.
pub struct FileModifiers;

impl Walker for FileModifiers {
    type Item = ModifierInfo;

    open spec fn yields(&self, c: Node<'_>) -> Seq<Modifier> {
        if c.isa("modifier_definition") {
            seq![modifier_info(c)]
        } else {
            Seq::empty()
        }
    }

    open spec fn enters<'a>(&self, c: Node<'a>) -> Option<Node<'a>> {
        if c.isa("modifier_definition") || is_contract(c) {
            None
        } else {
            Some(c)
        }
    }

    fn visit<'a>(&self, c: Node<'a>, out: &mut Vec<ModifierInfo>) -> (res: Option<Node<'a>>) {
        if c.is("modifier_definition") {
            emit(out, build_solidity_modifier_info(&c));
            None
        } else if contract_node(&c) {
            None
        } else {
            Some(c)
        }
    }
}

/// The events of a file outside of contracts.
pub struct FileEvents;

impl Walker for FileEvents {
    type Item = EventInfo;

    open spec fn yields(&self, c: Node<'_>) -> Seq<Event> {
        if c.isa("event_definition") {
            seq![event_info(c)]
        } else {
            Seq::empty()
        }
    }

    open spec fn enters<'a>(&self, c: Node<'a>) -> Option<Node<'a>> {
        if c.isa("event_definition") || is_contract(c) {
            None
        } else {
            Some(c)
        }
    }

    fn visit<'a>(&self, c: Node<'a>, out: &mut Vec<EventInfo>) -> (res: Option<Node<'a>>) {
        if c.is("event_definition") {
            emit(out, build_solidity_event_info(&c));
            None
        } else if contract_node(&c) {
            None
        } else {
            Some(c)
        }
    }
}

/// The errors of a file outside of contracts.
pub struct FileErrors;

impl Walker for FileErrors {
    type Item = ErrorInfo;

    open spec fn yields(&self, c: Node<'_>) -> Seq<ContractError> {
        if c.isa("error_declaration") {
            seq![error_info(c)]
        } else {
            Seq::empty()
        }
    }

    open spec fn enters<'a>(&self, c: Node<'a>) -> Option<Node<'a>> {
        if c.isa("error_declaration") || is_contract(c) {
            None
        } else {
            Some(c)
        }
    }

    fn visit<'a>(&self, c: Node<'a>, out: &mut Vec<ErrorInfo>) -> (res: Option<Node<'a>>) {
        if c.is("error_declaration") {
            emit(out, build_solidity_error_info(&c));
            None
        } else if contract_node(&c) {
            None
        } else {
            Some(c)
        }
    }
}

/// The visibility of a state variable.
pub open spec fn variable_visibility(n: Node<'_>) -> Option<Seq<char>> {
    match n.at("visibility") {
        Some(v) if is_access(trimmed(v.txt())) => Some(trimmed(v.txt())),
        _ => None,
    }
}

/// What is reported of a state variable. One that is immutable is a constant.
pub open spec fn variable_info(n: Node<'_>) -> Option<Field> {
    match field_txt(n, "name") {
        Some(name) => Some(
            Field {
                field_type: field_txt(n, "type"),
                default_value: field_txt(n, "value"),
                is_constant: first(n, "immutable") is Some,
                visibility: variable_visibility(n),
                ..field_at(name, n)
            },
        ),
        None => None,
    }
}

fn build_solidity_state_variable_field(n: &Node<'_>) -> (res: Option<FieldInfo>)
    ensures
        res.deep_view() == variable_info(*n),
{
    let name = match field_text(n, "name") {
        Some(name) => name,
        None => return None,
    };
    let visibility = match n.child_by_field_name("visibility") {
        Some(v) => {
            let word: &str = trim(v.text());
            if access_word(word) {
                Some(own(word))
            } else {
                None
            }
        },
        None => None,
    };
    let mut info = new_field(name, n);
    info.field_type = field_text(n, "type");
    info.default_value = field_text(n, "value");
    info.is_constant = has_child(n, "immutable");
    info.visibility = visibility;
    Some(info)
}

/// What is reported of a constant.
pub open spec fn constant_info(n: Node<'_>) -> Option<Field> {
    match field_txt(n, "name") {
        Some(name) => Some(constant_at(name, n, field_txt(n, "type"), field_txt(n, "value"))),
        None => None,
    }
}

fn build_solidity_constant_field(n: &Node<'_>) -> (res: Option<FieldInfo>)
    ensures
        res.deep_view() == constant_info(*n),
{
    match field_text(n, "name") {
        Some(name) => Some(new_constant(name, n, field_text(n, "type"), field_text(n, "value"))),
        None => None,
    }
}

/// The constants of a file outside of contracts.
pub struct Constants;

impl Picker for Constants {
    type Item = FieldInfo;

    open spec fn picks(&self, c: Node<'_>) -> Seq<Field> {
        if c.isa("constant_variable_declaration") {
            some_seq(constant_info(c))
        } else {
            Seq::empty()
        }
    }

    fn pick(&self, c: Node<'_>, out: &mut Vec<FieldInfo>) {
        if c.is("constant_variable_declaration") {
            push_some(out, build_solidity_constant_field(&c));
        }
    }
}

/// The modifiers of a contract body.
pub struct BodyModifiers;

impl Picker for BodyModifiers {
    type Item = ModifierInfo;

    open spec fn picks(&self, c: Node<'_>) -> Seq<Modifier> {
        if c.isa("modifier_definition") {
            seq![modifier_info(c)]
        } else {
            Seq::empty()
        }
    }

    fn pick(&self, c: Node<'_>, out: &mut Vec<ModifierInfo>) {
        if c.is("modifier_definition") {
            emit(out, build_solidity_modifier_info(&c));
        }
    }
}

/// The events of a contract body.
pub struct BodyEvents;

impl Picker for BodyEvents {
    type Item = EventInfo;

    open spec fn picks(&self, c: Node<'_>) -> Seq<Event> {
        if c.isa("event_definition") {
            seq![event_info(c)]
        } else {
            Seq::empty()
        }
    }

    fn pick(&self, c: Node<'_>, out: &mut Vec<EventInfo>) {
        if c.is("event_definition") {
            emit(out, build_solidity_event_info(&c));
        }
    }
}

/// The errors of a contract body.
pub struct BodyErrors;

impl Picker for BodyErrors {
    type Item = ErrorInfo;

    open spec fn picks(&self, c: Node<'_>) -> Seq<ContractError> {
        if c.isa("error_declaration") {
            seq![error_info(c)]
        } else {
            Seq::empty()
        }
    }

    fn pick(&self, c: Node<'_>, out: &mut Vec<ErrorInfo>) {
        if c.is("error_declaration") {
            emit(out, build_solidity_error_info(&c));
        }
    }
}

/// The state variables and constants of a contract body.
pub struct BodyFields;

impl Picker for BodyFields {
    type Item = FieldInfo;

    open spec fn picks(&self, c: Node<'_>) -> Seq<Field> {
        if c.isa("state_variable_declaration") {
            some_seq(variable_info(c))
        } else if c.isa("constant_variable_declaration") {
            some_seq(constant_info(c))
        } else {
            Seq::empty()
        }
    }

    fn pick(&self, c: Node<'_>, out: &mut Vec<FieldInfo>) {
        if c.is("state_variable_declaration") {
            push_some(out, build_solidity_state_variable_field(&c));
        } else if c.is("constant_variable_declaration") {
            push_some(out, build_solidity_constant_field(&c));
        }
    }
}

/// What names a type.
pub struct TypeNameNode;

impl Test for TypeNameNode {
    open spec fn accepts(&self, c: Node<'_>) -> bool {
        c.isa("identifier") || c.isa("member_expression")
    }

    fn test(&self, c: Node<'_>) -> (res: bool) {
        c.is("identifier") || c.is("member_expression")
    }
}

/// The name of a type, without the names of what it stands in, or the type as
/// written.
pub open spec fn named_type(n: Node<'_>) -> Seq<char>
    decreases n.rank(),
{
    match last_found(&TypeNameNode, n) {
        Some(c) => if c.isa("identifier") {
            c.txt()
        } else {
            named_type(c)
        },
        None => n.txt(),
    }
}

fn solidity_user_defined_type_name(n: &Node<'_>) -> (res: String)
    ensures
        res@ == named_type(*n),
    decreases n.rank(),
{
    match find_last_child(&TypeNameNode, *n) {
        Some(c) => if c.is("identifier") {
            own(c.text())
        } else {
            solidity_user_defined_type_name(&c)
        },
        None => own(n.text()),
    }
}

/// The contracts that a contract builds on.
pub struct Bases;

impl Picker for Bases {
    type Item = String;

    open spec fn picks(&self, c: Node<'_>) -> Seq<Seq<char>> {
        if c.isa("inheritance_specifier") {
            match c.at("ancestor") {
                Some(t) => seq![named_type(t)],
                None => match first(c, "user_defined_type") {
                    Some(t) => seq![named_type(t)],
                    None => Seq::empty(),
                },
            }
        } else {
            Seq::empty()
        }
    }

    fn pick(&self, c: Node<'_>, out: &mut Vec<String>) {
        if c.is("inheritance_specifier") {
            match c.child_by_field_name("ancestor") {
                Some(t) => emit(out, solidity_user_defined_type_name(&t)),
                None => match first_child(&c, "user_defined_type") {
                    Some(t) => emit(out, solidity_user_defined_type_name(&t)),
                    None => {},
                },
            }
        }
    }
}

/// What a contract is called in the language.
pub open spec fn contract_kind(n: Node<'_>) -> Seq<char> {
    if n.isa("contract_declaration") {
        "contract"@
    } else if n.isa("interface_declaration") {
        "interface"@
    } else {
        "library"@
    }
}

fn find_contract_kind(n: &Node<'_>) -> (res: Option<String>)
    ensures
        res.deep_view() == Some(contract_kind(*n)),
{
    if n.is("contract_declaration") {
        some_text("contract")
    } else if n.is("interface_declaration") {
        some_text("interface")
    } else {
        some_text("library")
    }
}

/// What is reported of a contract, interface or library.
pub open spec fn contract_info(n: Node<'_>) -> Class {
    let plain = Class {
        bases: picked(&Bases, n),
        docstring: docstring(n),
        kind: Some(contract_kind(n)),
        ..class_at(or_empty(field_txt(n, "name")), n)
    };
    match n.at("body") {
        Some(body) => Class {
            methods: gathered(&Functions { is_method: true }, body),
            fields: picked(&BodyFields, body),
            modifiers: picked(&BodyModifiers, body),
            events: picked(&BodyEvents, body),
            errors: picked(&BodyErrors, body),
            ..plain
        },
        None => plain,
    }
}

/// What is reported of a contract, interface or library.
pub fn build_solidity_class_info(n: &Node<'_>) -> (res: ClassInfo)
    ensures
        res.deep_view() == contract_info(*n),
{
    let mut info = new_class(field_text_or_empty(n, "name"), n);
    info.bases = pick_all(&Bases, *n);
    info.docstring = collect_solidity_natspec_text(n);
    info.kind = find_contract_kind(n);
    match n.child_by_field_name("body") {
        Some(body) => {
            info.methods = gather(&Functions { is_method: true }, body);
            info.fields = pick_all(&BodyFields, body);
            info.modifiers = pick_all(&BodyModifiers, body);
            info.events = pick_all(&BodyEvents, body);
            info.errors = pick_all(&BodyErrors, body);
        },
        None => {},
    }
    info
}

/// All contracts, interfaces and libraries of a file.
pub struct Classes;

impl Walker for Classes {
    type Item = ClassInfo;

    open spec fn yields(&self, c: Node<'_>) -> Seq<Class> {
        if is_contract(c) {
            seq![contract_info(c)]
        } else {
            Seq::empty()
        }
    }

    open spec fn enters<'a>(&self, c: Node<'a>) -> Option<Node<'a>> {
        if is_contract(c) {
            None
        } else {
            Some(c)
        }
    }

    fn visit<'a>(&self, c: Node<'a>, out: &mut Vec<ClassInfo>) -> (res: Option<Node<'a>>) {
        if contract_node(&c) {
            emit(out, build_solidity_class_info(&c));
            None
        } else {
            Some(c)
        }
    }
}

} // verus!
