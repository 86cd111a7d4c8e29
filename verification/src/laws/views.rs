//! What the values that are handed out say: what stands in their fields.

use vstd::prelude::*;

use crate::call_graph::IntraFileCallGraph;
use crate::error::{Refusal, TldrError};
use crate::extract::ModuleInfo;
use crate::natspec::NatSpecDoc;
use crate::tree::NodeRecord;
use crate::types::{
    ClassInfo, ErrorInfo, EventInfo, EventParamInfo, FieldInfo, FunctionInfo, ImportInfo,
    ModifierInfo, ParamInfo,
};

verus! {

/// A [`FunctionInfo`] says what stands in its fields.
pub proof fn functions_say_what_their_fields_hold(x: FunctionInfo)
    ensures
        x.deep_view().name == x.name@,
        x.deep_view().params == x.params.deep_view(),
        x.deep_view().return_type == x.return_type.deep_view(),
        x.deep_view().docstring == x.docstring.deep_view(),
        x.deep_view().is_method == x.is_method,
        x.deep_view().is_async == x.is_async,
        x.deep_view().decorators == x.decorators.deep_view(),
        x.deep_view().visibility == x.visibility.deep_view(),
        x.deep_view().line_number == x.line_number,
        x.deep_view().line_end == x.line_end,
        x.deep_view().state_mutability == x.state_mutability.deep_view(),
{
}

/// A [`ClassInfo`] says what stands in its fields.
pub proof fn classes_say_what_their_fields_hold(x: ClassInfo)
    ensures
        x.deep_view().name == x.name@,
        x.deep_view().bases == x.bases.deep_view(),
        x.deep_view().docstring == x.docstring.deep_view(),
        x.deep_view().methods == x.methods.deep_view(),
        x.deep_view().fields == x.fields.deep_view(),
        x.deep_view().decorators == x.decorators.deep_view(),
        x.deep_view().line_number == x.line_number,
        x.deep_view().line_end == x.line_end,
        x.deep_view().kind == x.kind.deep_view(),
        x.deep_view().modifiers == x.modifiers.deep_view(),
        x.deep_view().events == x.events.deep_view(),
        x.deep_view().errors == x.errors.deep_view(),
{
}

/// A [`FieldInfo`] says what stands in its fields.
pub proof fn fields_say_what_their_fields_hold(x: FieldInfo)
    ensures
        x.deep_view().name == x.name@,
        x.deep_view().field_type == x.field_type.deep_view(),
        x.deep_view().default_value == x.default_value.deep_view(),
        x.deep_view().is_static == x.is_static,
        x.deep_view().is_constant == x.is_constant,
        x.deep_view().visibility == x.visibility.deep_view(),
        x.deep_view().line_number == x.line_number,
        x.deep_view().line_end == x.line_end,
{
}

/// A [`ImportInfo`] says what stands in its fields.
pub proof fn imports_say_what_their_fields_hold(x: ImportInfo)
    ensures
        x.deep_view().module == x.module@,
        x.deep_view().names == x.names.deep_view(),
        x.deep_view().is_from == x.is_from,
        x.deep_view().alias == x.alias.deep_view(),
        x.deep_view().line == x.line,
{
}

/// A [`ModifierInfo`] says what stands in its fields.
pub proof fn modifiers_say_what_their_fields_hold(x: ModifierInfo)
    ensures
        x.deep_view().name == x.name@,
        x.deep_view().line_number == x.line_number,
        x.deep_view().params == x.params.deep_view(),
        x.deep_view().is_virtual == x.is_virtual,
        x.deep_view().is_override == x.is_override,
        x.deep_view().body_present == x.body_present,
{
}

/// A [`EventInfo`] says what stands in its fields.
pub proof fn events_say_what_their_fields_hold(x: EventInfo)
    ensures
        x.deep_view().name == x.name@,
        x.deep_view().line_number == x.line_number,
        x.deep_view().params == x.params.deep_view(),
        x.deep_view().is_anonymous == x.is_anonymous,
{
}

/// A [`ErrorInfo`] says what stands in its fields.
pub proof fn contract_errors_say_what_their_fields_hold(x: ErrorInfo)
    ensures
        x.deep_view().name == x.name@,
        x.deep_view().line_number == x.line_number,
        x.deep_view().params == x.params.deep_view(),
{
}

/// A [`ParamInfo`] says what stands in its fields.
pub proof fn parameters_say_what_their_fields_hold(x: ParamInfo)
    ensures
        x.deep_view().name == x.name@,
        x.deep_view().type_ == x.type_.deep_view(),
        x.deep_view().default_value == x.default_value.deep_view(),
{
}

/// A [`EventParamInfo`] says what stands in its fields.
pub proof fn event_parameters_say_what_their_fields_hold(x: EventParamInfo)
    ensures
        x.deep_view().name == x.name@,
        x.deep_view().type_ == x.type_@,
        x.deep_view().indexed == x.indexed,
{
}

/// A [`ModuleInfo`] says what stands in its fields.
pub proof fn reports_say_what_their_fields_hold(x: ModuleInfo)
    ensures
        x.deep_view().file_path == x.file_path.deep_view(),
        x.deep_view().language == x.language,
        x.deep_view().docstring == x.docstring.deep_view(),
        x.deep_view().imports == x.imports.deep_view(),
        x.deep_view().functions == x.functions.deep_view(),
        x.deep_view().classes == x.classes.deep_view(),
        x.deep_view().constants == x.constants.deep_view(),
        x.deep_view().call_graph == x.call_graph.deep_view(),
        x.deep_view().modifiers == x.modifiers.deep_view(),
        x.deep_view().events == x.events.deep_view(),
        x.deep_view().errors == x.errors.deep_view(),
{
}

/// A [`NodeRecord`] says what stands in its fields.
pub proof fn nodes_say_what_their_fields_hold(x: NodeRecord)
    ensures
        x.deep_view().kind == x.kind@,
        x.deep_view().field == x.field.deep_view(),
        x.deep_view().named == x.named,
{
}

/// A [`NatSpecDoc`] says what stands in its fields.
pub proof fn docs_say_what_their_fields_hold(x: NatSpecDoc)
    ensures
        x.deep_view().title == x.title.deep_view(),
        x.deep_view().author == x.author.deep_view(),
        x.deep_view().notice == x.notice.deep_view(),
        x.deep_view().dev == x.dev.deep_view(),
        x.deep_view().params == x.params.deep_view(),
        x.deep_view().returns == x.returns.deep_view(),
        x.deep_view().inheritdoc == x.inheritdoc.deep_view(),
        x.deep_view().custom_tags == x.custom_tags.deep_view(),
{
}

/// A call graph says what stands in its halves.
pub proof fn call_graphs_say_what_their_halves_hold(x: IntraFileCallGraph)
    ensures
        x.deep_view().calls == x.calls.deep_view(),
        x.deep_view().called_by == x.called_by.deep_view(),
{
}

/// An error says why nothing is reported, and of what.
pub proof fn errors_say_what_they_are_of(e: TldrError)
    ensures
        e matches TldrError::PathNotFound(p) ==> e.deep_view() == Refusal::PathNotFound(
            p.deep_view(),
        ),
        e matches TldrError::PathTraversal(p) ==> e.deep_view() == Refusal::PathTraversal(
            p.deep_view(),
        ),
        e matches TldrError::UnsupportedLanguage(s) ==> e.deep_view()
            == Refusal::UnsupportedLanguage(s@),
        e matches TldrError::ParseError(p) ==> e.deep_view() == Refusal::ParseError(p.deep_view()),
{
}

} // verus!
