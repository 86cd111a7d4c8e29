//! All that is reported of a file.

use vstd::prelude::*;

use crate::call_graph::{build_intra_file_call_graph, call_graph, CallGraph, IntraFileCallGraph};
use crate::constants;
use crate::docs::{join_lines, joined_lines};
use crate::error::TldrResult;
use crate::imports::{extract_imports_from_tree, imports_in};
use crate::lang;
use crate::lists::{emit, group_lists, none};
use crate::nodes::{first, first_child};
use crate::paths::{relative_path, seen_from};
use crate::text::{begins, behind_all, own, starts_with, trim, trimmed, without_prefixes};
use crate::tree::{group_tree, Node, SyntaxTree};
use crate::types::{
    Class, ClassInfo, ContractError, ErrorInfo, Event, EventInfo, Field, FieldInfo, Function,
    FunctionInfo, Import, ImportInfo, Language, Modifier, ModifierInfo,
};
use crate::walk::{gather, gathered, pick_all, picked};

verus! {

broadcast use {group_tree, group_lists};

/// All that is reported of a file.
#[derive(Clone, Debug)]
pub struct ModuleInfo {
    /// Components of the path of the file.
    pub file_path: Vec<String>,
    /// Language of the file.
    pub language: Language,
    /// Documentation of the file.
    pub docstring: Option<String>,
    /// Imports of the file.
    pub imports: Vec<ImportInfo>,
    /// Functions of the file.
    pub functions: Vec<FunctionInfo>,
    /// Classes of the file.
    pub classes: Vec<ClassInfo>,
    /// Constants of the file.
    pub constants: Vec<FieldInfo>,
    /// Which functions of the file call which.
    pub call_graph: IntraFileCallGraph,
    /// Modifiers outside of contracts.
    pub modifiers: Vec<ModifierInfo>,
    /// Events outside of contracts.
    pub events: Vec<EventInfo>,
    /// Errors outside of contracts.
    pub errors: Vec<ErrorInfo>,
}

/// What a [`ModuleInfo`] says.
pub struct Module {
    pub file_path: Seq<Seq<char>>,
    pub language: Language,
    pub docstring: Option<Seq<char>>,
    pub imports: Seq<Import>,
    pub functions: Seq<Function>,
    pub classes: Seq<Class>,
    pub constants: Seq<Field>,
    pub call_graph: CallGraph,
    pub modifiers: Seq<Modifier>,
    pub events: Seq<Event>,
    pub errors: Seq<ContractError>,
}

impl DeepView for ModuleInfo {
    type V = Module;

    open spec fn deep_view(&self) -> Module {
        Module {
            file_path: self.file_path.deep_view(),
            language: self.language,
            docstring: self.docstring.deep_view(),
            imports: self.imports.deep_view(),
            functions: self.functions.deep_view(),
            classes: self.classes.deep_view(),
            constants: self.constants.deep_view(),
            call_graph: self.call_graph.deep_view(),
            modifiers: self.modifiers.deep_view(),
            events: self.events.deep_view(),
            errors: self.errors.deep_view(),
        }
    }
}

/// The string at the front of a Python module, past comments and other
/// expressions, looked for from child `i` on.
pub open spec fn python_doc_from(root: Node<'_>, i: int) -> Option<Seq<char>>
    decreases root.arity() - i,
{
    if i < 0 || i >= root.arity() {
        None
    } else {
        let c = root.kid(i);
        if c.isa("expression_statement") {
            match lang::python::string_statement(c) {
                Some(text) => Some(text),
                None => python_doc_from(root, i + 1),
            }
        } else if c.isa("comment") {
            python_doc_from(root, i + 1)
        } else {
            None
        }
    }
}

fn find_python_doc(root: &Node<'_>) -> (res: Option<String>)
    ensures
        res.deep_view() == python_doc_from(*root, 0),
{
    let count: usize = root.child_count();
    let mut i: usize = 0;
    while i < count
        invariant
            count == root.arity(),
            i <= count,
            python_doc_from(*root, 0) == python_doc_from(*root, i as int),
        decreases count - i,
    {
        let c = root.child(i);
        if c.is("expression_statement") {
            let doc = lang::python::read_string_statement(&c);
            if doc.is_some() {
                return doc;
            }
        } else if !c.is("comment") {
            return None;
        }
        i += 1;
    }
    None
}

/// The first doc comment among the comments at the front of a JavaScript
/// module, looked for from child `i` on.
pub open spec fn js_doc_from(root: Node<'_>, i: int) -> Option<Seq<char>>
    decreases root.arity() - i,
{
    if i < 0 || i >= root.arity() || !root.kid(i).isa("comment") {
        None
    } else if begins(root.kid(i).txt(), "/**"@) {
        Some(root.kid(i).txt())
    } else {
        js_doc_from(root, i + 1)
    }
}

fn find_js_doc(root: &Node<'_>) -> (res: Option<String>)
    ensures
        res.deep_view() == js_doc_from(*root, 0),
{
    let count: usize = root.child_count();
    let mut i: usize = 0;
    while i < count
        invariant
            count == root.arity(),
            i <= count,
            js_doc_from(*root, 0) == js_doc_from(*root, i as int),
        decreases count - i,
    {
        let c = root.child(i);
        if !c.is("comment") {
            return None;
        }
        if starts_with(c.text(), "/**") {
            return Some(own(c.text()));
        }
        i += 1;
    }
    None
}

/// The inner doc comments at the front of a Rust module, looked for from child
/// `i` on, behind the lines that were found: the lines of `//!` comments, or a
/// `/*!` block as written.
pub open spec fn rust_doc_from(root: Node<'_>, i: int, lines: Seq<Seq<char>>) -> Option<Seq<char>>
    decreases root.arity() - i,
{
    if i < 0 || i >= root.arity() {
        joined_lines(lines)
    } else {
        let c = root.kid(i);
        if c.isa("line_comment") && begins(c.txt(), "//!"@) {
            rust_doc_from(root, i + 1, lines + seq![trimmed(behind_all(c.txt(), "//!"@))])
        } else if c.isa("block_comment") && begins(c.txt(), "/*!"@) {
            Some(c.txt())
        } else if lines.len() > 0 || !c.isa("line_comment") {
            joined_lines(lines)
        } else {
            rust_doc_from(root, i + 1, lines)
        }
    }
}

fn find_rust_doc(root: &Node<'_>) -> (res: Option<String>)
    ensures
        res.deep_view() == rust_doc_from(*root, 0, Seq::empty()),
{
    let count: usize = root.child_count();
    let mut lines: Vec<String> = none();
    let mut i: usize = 0;
    while i < count
        invariant
            count == root.arity(),
            i <= count,
            rust_doc_from(*root, 0, Seq::empty()) == rust_doc_from(
                *root,
                i as int,
                lines.deep_view(),
            ),
        decreases count - i,
    {
        let c = root.child(i);
        if c.is("line_comment") && starts_with(c.text(), "//!") {
            emit(&mut lines, own(trim(without_prefixes(c.text(), "//!"))));
        } else if c.is("block_comment") && starts_with(c.text(), "/*!") {
            return Some(own(c.text()));
        } else if lines.len() > 0 || !c.is("line_comment") {
            return join_lines(&lines);
        }
        i += 1;
    }
    join_lines(&lines)
}

/// The documentation of a file, in the languages that have one.
pub open spec fn module_docstring(root: Node<'_>, language: Language) -> Option<Seq<char>> {
    match language {
        Language::Python => python_doc_from(root, 0),
        Language::TypeScript | Language::JavaScript => js_doc_from(root, 0),
        Language::Rust => rust_doc_from(root, 0, Seq::empty()),
        _ => None,
    }
}

/// The documentation of a file.
pub fn extract_module_docstring(tree: &SyntaxTree, language: Language) -> (res: Option<String>)
    ensures
        res.deep_view() == module_docstring(tree.root(), language),
{
    let root = tree.root_node();
    match language {
        Language::Python => find_python_doc(&root),
        Language::TypeScript | Language::JavaScript => find_js_doc(&root),
        Language::Rust => find_rust_doc(&root),
        _ => None,
    }
}

/// The functions of a file.
pub open spec fn functions_in(root: Node<'_>, language: Language) -> Seq<Function> {
    match language {
        Language::Python => gathered(&lang::python::Functions { is_method: false }, root),
        Language::TypeScript | Language::JavaScript => gathered(
            &lang::typescript::Functions { is_method: false },
            root,
        ),
        Language::Go => gathered(&lang::go::Functions, root),
        Language::Rust => gathered(&lang::rust::Functions, root),
        Language::Java => gathered(&lang::java::Functions, root),
        Language::C => gathered(&lang::c::Functions, root),
        Language::Cpp => gathered(&lang::c::CppFunctions, root),
        Language::Ruby => gathered(&lang::ruby::Functions, root),
        Language::Php => gathered(&lang::php::Functions, root),
        Language::CSharp => gathered(&lang::csharp::Functions, root),
        Language::Kotlin => gathered(&lang::kotlin::Functions, root),
        Language::Scala => gathered(&lang::scala::Functions, root),
        Language::Elixir => gathered(&lang::elixir::Functions, root),
        Language::Lua => gathered(&lang::lua::Functions { luau: false }, root),
        Language::Luau => gathered(&lang::lua::Functions { luau: true }, root),
        Language::Swift => gathered(&lang::swift::Functions, root),
        Language::Ocaml => gathered(&lang::ocaml::Functions, root),
        Language::Solidity => gathered(&lang::solidity::Functions { is_method: false }, root),
    }
}

/// The functions of a file.
pub fn extract_functions_detailed(tree: &SyntaxTree, language: Language) -> (res: Vec<FunctionInfo>)
    ensures
        res.deep_view() == functions_in(tree.root(), language),
{
    let root = tree.root_node();
    match language {
        Language::Python => gather(&lang::python::Functions { is_method: false }, root),
        Language::TypeScript | Language::JavaScript => gather(
            &lang::typescript::Functions { is_method: false },
            root,
        ),
        Language::Go => gather(&lang::go::Functions, root),
        Language::Rust => gather(&lang::rust::Functions, root),
        Language::Java => gather(&lang::java::Functions, root),
        Language::C => gather(&lang::c::Functions, root),
        Language::Cpp => gather(&lang::c::CppFunctions, root),
        Language::Ruby => gather(&lang::ruby::Functions, root),
        Language::Php => gather(&lang::php::Functions, root),
        Language::CSharp => gather(&lang::csharp::Functions, root),
        Language::Kotlin => gather(&lang::kotlin::Functions, root),
        Language::Scala => gather(&lang::scala::Functions, root),
        Language::Elixir => gather(&lang::elixir::Functions, root),
        Language::Lua => gather(&lang::lua::Functions { luau: false }, root),
        Language::Luau => gather(&lang::lua::Functions { luau: true }, root),
        Language::Swift => gather(&lang::swift::Functions, root),
        Language::Ocaml => gather(&lang::ocaml::Functions, root),
        Language::Solidity => gather(&lang::solidity::Functions { is_method: false }, root),
    }
}

/// The classes of a file, or what stands for them in the language.
pub open spec fn classes_in(root: Node<'_>, language: Language) -> Seq<Class> {
    match language {
        Language::Python => gathered(&lang::python::Classes, root),
        Language::TypeScript | Language::JavaScript => gathered(&lang::typescript::Classes, root),
        Language::Rust => lang::rust::classes(root),
        Language::Java => gathered(&lang::java::Classes, root),
        Language::Cpp => gathered(&lang::c::CppClasses, root),
        Language::Ruby => gathered(&lang::ruby::Classes, root),
        Language::Php => gathered(&lang::php::Classes, root),
        Language::CSharp => gathered(&lang::csharp::Classes, root),
        Language::Kotlin => gathered(&lang::kotlin::Classes, root),
        Language::Scala => gathered(&lang::scala::Classes, root),
        Language::Elixir => gathered(&lang::elixir::Classes, root),
        Language::Go => lang::go::classes(root),
        Language::Swift => gathered(&lang::swift::Classes, root),
        Language::Lua => lang::lua::classes(root, false),
        Language::Luau => lang::lua::classes(root, true),
        Language::C | Language::Ocaml => Seq::empty(),
        Language::Solidity => gathered(&lang::solidity::Classes, root),
    }
}

/// The classes of a file, or what stands for them in the language.
pub fn extract_classes_detailed(tree: &SyntaxTree, language: Language) -> (res: Vec<ClassInfo>)
    ensures
        res.deep_view() == classes_in(tree.root(), language),
{
    let root = tree.root_node();
    match language {
        Language::Python => gather(&lang::python::Classes, root),
        Language::TypeScript | Language::JavaScript => gather(&lang::typescript::Classes, root),
        Language::Rust => lang::rust::extract_rust_structs_detailed(&root),
        Language::Java => gather(&lang::java::Classes, root),
        Language::Cpp => gather(&lang::c::CppClasses, root),
        Language::Ruby => gather(&lang::ruby::Classes, root),
        Language::Php => gather(&lang::php::Classes, root),
        Language::CSharp => gather(&lang::csharp::Classes, root),
        Language::Kotlin => gather(&lang::kotlin::Classes, root),
        Language::Scala => gather(&lang::scala::Classes, root),
        Language::Elixir => gather(&lang::elixir::Classes, root),
        Language::Go => lang::go::extract_go_structs_detailed(&root),
        Language::Swift => gather(&lang::swift::Classes, root),
        Language::Lua => lang::lua::extract_lua_classes_detailed(&root, false),
        Language::Luau => lang::lua::extract_lua_classes_detailed(&root, true),
        Language::C | Language::Ocaml => none(),
        Language::Solidity => gather(&lang::solidity::Classes, root),
    }
}

/// The constants of a file outside of functions and classes.
pub open spec fn constants_in(root: Node<'_>, language: Language) -> Seq<Field> {
    match language {
        Language::Python => picked(&constants::python::Constants, root),
        Language::Rust => gathered(&constants::rust::Constants, root),
        Language::Go => picked(&constants::go::Constants, root),
        Language::TypeScript | Language::JavaScript => picked(
            &constants::typescript::Constants,
            root,
        ),
        Language::Java => Seq::empty(),
        Language::C => picked(&constants::c::Constants { cpp: false }, root),
        Language::Cpp => picked(&constants::c::Constants { cpp: true }, root),
        Language::Ruby => picked(&constants::ruby::Constants, root),
        Language::Kotlin => picked(&constants::kotlin::Constants, root),
        Language::Swift => picked(&constants::swift::Constants, root),
        Language::CSharp => picked(&constants::csharp::Constants, root),
        Language::Scala => picked(&constants::scala::Constants, root),
        Language::Php => picked(&constants::php::Constants, root),
        Language::Lua | Language::Luau => picked(&constants::lua::Constants, root),
        Language::Elixir => constants::elixir::attributes(root, root.arity()),
        Language::Ocaml => picked(&constants::ocaml::Constants, root),
        Language::Solidity => picked(&lang::solidity::Constants, root),
    }
}

/// The constants of a file outside of functions and classes.
pub fn extract_module_constants(tree: &SyntaxTree, language: Language) -> (res: Vec<FieldInfo>)
    ensures
        res.deep_view() == constants_in(tree.root(), language),
{
    let root = tree.root_node();
    match language {
        Language::Python => pick_all(&constants::python::Constants, root),
        Language::Rust => gather(&constants::rust::Constants, root),
        Language::Go => pick_all(&constants::go::Constants, root),
        Language::TypeScript | Language::JavaScript => pick_all(
            &constants::typescript::Constants,
            root,
        ),
        Language::Java => none(),
        Language::C => pick_all(&constants::c::Constants { cpp: false }, root),
        Language::Cpp => pick_all(&constants::c::Constants { cpp: true }, root),
        Language::Ruby => pick_all(&constants::ruby::Constants, root),
        Language::Kotlin => pick_all(&constants::kotlin::Constants, root),
        Language::Swift => pick_all(&constants::swift::Constants, root),
        Language::CSharp => pick_all(&constants::csharp::Constants, root),
        Language::Scala => pick_all(&constants::scala::Constants, root),
        Language::Php => pick_all(&constants::php::Constants, root),
        Language::Lua | Language::Luau => pick_all(&constants::lua::Constants, root),
        Language::Elixir => constants::elixir::extract_elixir_module_constants(&root),
        Language::Ocaml => pick_all(&constants::ocaml::Constants, root),
        Language::Solidity => pick_all(&lang::solidity::Constants, root),
    }
}

/// The parameters of a function.
pub open spec fn function_params(n: Node<'_>, language: Language) -> Seq<Seq<char>> {
    match language {
        Language::Python => lang::python::params(n),
        Language::TypeScript | Language::JavaScript => if lang::typescript::params(n).len() > 0 {
            lang::typescript::params(n)
        } else {
            lang::typescript::arrow_params(n)
        },
        Language::Go => lang::go::params(n),
        Language::Rust => lang::rust::params(n),
        Language::Java => lang::java::params(n),
        Language::C | Language::Cpp => lang::c::params(n),
        Language::CSharp => lang::csharp::params(n),
        Language::Kotlin => lang::kotlin::params(n),
        Language::Scala => picked(&lang::scala::Params, n),
        Language::Php => lang::php::params(n),
        Language::Ruby => lang::ruby::params(n),
        Language::Lua => lang::lua::params(n, false),
        Language::Luau => lang::lua::params(n, true),
        Language::Swift => lang::swift::params(n),
        Language::Ocaml => if n.isa("let_binding") {
            picked(&lang::ocaml::Params, n)
        } else {
            match first(n, "let_binding") {
                Some(binding) => picked(&lang::ocaml::Params, binding),
                None => Seq::empty(),
            }
        },
        Language::Solidity => picked(&lang::solidity::ParamNames, n),
        Language::Elixir => lang::elixir::def_params(n),
    }
}

/// The parameters of a function: none where the node is no function, or where
/// it has no parameter list. For OCaml the node can be a definition or a
/// binding; for Elixir it is the call of `def` or `defp`.
pub fn extract_function_params(n: &Node<'_>, language: Language) -> (res: Vec<String>)
    ensures
        res.deep_view() == function_params(*n, language),
{
    match language {
        Language::Python => lang::python::extract_python_params(n),
        Language::TypeScript | Language::JavaScript => {
            let params = lang::typescript::extract_ts_params(n);
            if params.len() > 0 {
                params
            } else {
                lang::typescript::extract_ts_arrow_params(n)
            }
        },
        Language::Go => lang::go::extract_go_params(n),
        Language::Rust => lang::rust::extract_rust_params(n),
        Language::Java => lang::java::extract_java_params(n),
        Language::C | Language::Cpp => lang::c::extract_c_params(n),
        Language::CSharp => lang::csharp::extract_csharp_params(n),
        Language::Kotlin => lang::kotlin::extract_kotlin_params(n),
        Language::Scala => lang::scala::extract_scala_params(n),
        Language::Php => lang::php::extract_php_params(n),
        Language::Ruby => lang::ruby::extract_ruby_params(n),
        Language::Lua => lang::lua::extract_lua_params(n),
        Language::Luau => lang::lua::extract_luau_params(n),
        Language::Swift => lang::swift::extract_swift_params(n),
        Language::Ocaml => if n.is("let_binding") {
            lang::ocaml::extract_ocaml_params(n)
        } else {
            match first_child(n, "let_binding") {
                Some(binding) => lang::ocaml::extract_ocaml_params(&binding),
                None => none(),
            }
        },
        Language::Solidity => lang::solidity::extract_solidity_param_names(n),
        Language::Elixir => lang::elixir::elixir_params_from_def_call(n),
    }
}

/// All that is reported of a parsed file.
pub open spec fn module_in(
    root: Node<'_>,
    language: Language,
    file_path: Seq<Seq<char>>,
    base_path: Option<Seq<Seq<char>>>,
) -> Module {
    let solidity = language == Language::Solidity;
    Module {
        file_path: seen_from(file_path, base_path),
        language,
        docstring: module_docstring(root, language),
        imports: imports_in(root, language),
        functions: functions_in(root, language),
        classes: classes_in(root, language),
        constants: constants_in(root, language),
        call_graph: call_graph(
            root,
            language,
            functions_in(root, language),
            classes_in(root, language),
        ),
        modifiers: if solidity {
            gathered(&lang::solidity::FileModifiers, root)
        } else {
            Seq::empty()
        },
        events: if solidity {
            gathered(&lang::solidity::FileEvents, root)
        } else {
            Seq::empty()
        },
        errors: if solidity {
            gathered(&lang::solidity::FileErrors, root)
        } else {
            Seq::empty()
        },
    }
}

/// All that is reported of a parsed file. Its path is reported as seen from the
/// base path.
pub fn extract_from_tree(
    tree: &SyntaxTree,
    language: Language,
    file_path: &Vec<String>,
    base_path: Option<&Vec<String>>,
) -> (res: TldrResult<ModuleInfo>)
    ensures
        res matches Ok(info) && info.deep_view() == module_in(
            tree.root(),
            language,
            file_path.deep_view(),
            base_path.deep_view(),
        ),
{
    let root = tree.root_node();
    let imports = match extract_imports_from_tree(tree, language) {
        Ok(imports) => imports,
        Err(e) => return Err(e),
    };
    let functions = extract_functions_detailed(tree, language);
    let classes = extract_classes_detailed(tree, language);
    let call_graph = build_intra_file_call_graph(tree, language, &functions, &classes);
    let solidity = match language {
        Language::Solidity => true,
        _ => false,
    };
    Ok(
        ModuleInfo {
            file_path: relative_path(file_path, base_path),
            language,
            docstring: extract_module_docstring(tree, language),
            imports,
            functions,
            classes,
            constants: extract_module_constants(tree, language),
            call_graph,
            modifiers: if solidity {
                gather(&lang::solidity::FileModifiers, root)
            } else {
                none()
            },
            events: if solidity {
                gather(&lang::solidity::FileEvents, root)
            } else {
                none()
            },
            errors: if solidity {
                gather(&lang::solidity::FileErrors, root)
            } else {
                none()
            },
        },
    )
}

} // verus!
