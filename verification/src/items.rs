//! Functions, classes and fields before their details are filled in.

use vstd::prelude::*;

use crate::lists::{emit, group_lists, none};
use crate::names::{is_constant_name, is_upper_case_name};
use crate::tree::Node;
use crate::types::{Class, ClassInfo, Field, FieldInfo, Function, FunctionInfo};

verus! {

broadcast use group_lists;

/// A function of which the name and the lines are known.
pub open spec fn function_at(name: Seq<char>, n: Node<'_>) -> Function {
    Function {
        name,
        params: Seq::empty(),
        return_type: None,
        docstring: None,
        is_method: false,
        is_async: false,
        decorators: Seq::empty(),
        visibility: None,
        line_number: n.top(),
        line_end: n.bottom(),
        state_mutability: None,
    }
}

/// A function of which the name and the lines are known.
pub fn new_function(name: String, n: &Node<'_>) -> (res: FunctionInfo)
    ensures
        res.deep_view() == function_at(name@, *n),
{
    FunctionInfo {
        name,
        params: none(),
        return_type: None,
        docstring: None,
        is_method: false,
        is_async: false,
        decorators: none(),
        visibility: None,
        line_number: n.start_line(),
        line_end: n.end_line(),
        state_mutability: None,
    }
}

/// A field of which the name and the lines are known.
pub open spec fn field_at(name: Seq<char>, n: Node<'_>) -> Field {
    Field {
        name,
        field_type: None,
        default_value: None,
        is_static: false,
        is_constant: false,
        visibility: None,
        line_number: n.top(),
        line_end: n.bottom(),
    }
}

/// A field of which the name and the lines are known.
pub fn new_field(name: String, n: &Node<'_>) -> (res: FieldInfo)
    ensures
        res.deep_view() == field_at(name@, *n),
{
    FieldInfo {
        name,
        field_type: None,
        default_value: None,
        is_static: false,
        is_constant: false,
        visibility: None,
        line_number: n.start_line(),
        line_end: n.end_line(),
    }
}

/// A class of which the name and the lines are known.
pub open spec fn class_at(name: Seq<char>, n: Node<'_>) -> Class {
    Class {
        name,
        bases: Seq::empty(),
        docstring: None,
        methods: Seq::empty(),
        fields: Seq::empty(),
        decorators: Seq::empty(),
        line_number: n.top(),
        line_end: n.bottom(),
        kind: None,
        modifiers: Seq::empty(),
        events: Seq::empty(),
        errors: Seq::empty(),
    }
}

/// A class of which the name and the lines are known.
pub fn new_class(name: String, n: &Node<'_>) -> (res: ClassInfo)
    ensures
        res.deep_view() == class_at(name@, *n),
{
    ClassInfo {
        name,
        bases: none(),
        docstring: None,
        methods: none(),
        fields: none(),
        decorators: none(),
        line_number: n.start_line(),
        line_end: n.end_line(),
        kind: None,
        modifiers: none(),
        events: none(),
        errors: none(),
    }
}

/// A constant of a file.
pub open spec fn constant_at(
    name: Seq<char>,
    n: Node<'_>,
    field_type: Option<Seq<char>>,
    value: Option<Seq<char>>,
) -> Field {
    Field {
        field_type,
        default_value: value,
        is_static: true,
        is_constant: true,
        ..field_at(name, n)
    }
}

/// A constant of a file.
pub fn new_constant(
    name: String,
    n: &Node<'_>,
    field_type: Option<String>,
    value: Option<String>,
) -> (res: FieldInfo)
    ensures
        res.deep_view() == constant_at(name@, *n, field_type.deep_view(), value.deep_view()),
{
    let mut info = new_field(name, n);
    info.field_type = field_type;
    info.default_value = value;
    info.is_static = true;
    info.is_constant = true;
    info
}

/// The constant, where its name is spelled as constants are.
pub open spec fn upper_constant(
    name: Option<Seq<char>>,
    n: Node<'_>,
    field_type: Option<Seq<char>>,
    value: Option<Seq<char>>,
) -> Seq<Field> {
    match name {
        Some(text) if is_constant_name(text) => seq![constant_at(text, n, field_type, value)],
        _ => Seq::empty(),
    }
}

/// Adds the constant, where its name is spelled as constants are.
pub fn emit_upper_constant(
    out: &mut Vec<FieldInfo>,
    name: Option<String>,
    n: &Node<'_>,
    field_type: Option<String>,
    value: Option<String>,
)
    ensures
        final(out).deep_view() == old(out).deep_view() + upper_constant(
            name.deep_view(),
            *n,
            field_type.deep_view(),
            value.deep_view(),
        ),
{
    match name {
        Some(text) => {
            if is_upper_case_name(text.as_str()) {
                emit(out, new_constant(text, n, field_type, value));
            }
        },
        None => {},
    }
}

} // verus!
