//! What is reported of a source file.

use vstd::prelude::*;

use crate::tree::same;

verus! {

/// Programming languages.
#[derive(Clone, Copy, Debug, PartialEq, Eq, Structural, Hash)]
pub enum Language {
    Python,
    TypeScript,
    JavaScript,
    Go,
    Rust,
    Java,
    C,
    Cpp,
    Ruby,
    Php,
    CSharp,
    Kotlin,
    Scala,
    Elixir,
    Lua,
    Luau,
    Swift,
    Ocaml,
    Solidity,
}

/// The language that files with the given extension are in.
pub open spec fn language_of(extension: Seq<char>) -> Option<Language> {
    if extension == "py"@ || extension == "pyi"@ {
        Some(Language::Python)
    } else if extension == "ts"@ || extension == "tsx"@ || extension == "mts"@ || extension
        == "cts"@ {
        Some(Language::TypeScript)
    } else if extension == "js"@ || extension == "jsx"@ || extension == "mjs"@ || extension
        == "cjs"@ {
        Some(Language::JavaScript)
    } else if extension == "go"@ {
        Some(Language::Go)
    } else if extension == "rs"@ {
        Some(Language::Rust)
    } else if extension == "java"@ {
        Some(Language::Java)
    } else if extension == "c"@ || extension == "h"@ {
        Some(Language::C)
    } else if extension == "cpp"@ || extension == "cc"@ || extension == "cxx"@ || extension
        == "hpp"@ || extension == "hh"@ || extension == "hxx"@ {
        Some(Language::Cpp)
    } else if extension == "rb"@ {
        Some(Language::Ruby)
    } else if extension == "php"@ {
        Some(Language::Php)
    } else if extension == "cs"@ {
        Some(Language::CSharp)
    } else if extension == "kt"@ || extension == "kts"@ {
        Some(Language::Kotlin)
    } else if extension == "scala"@ || extension == "sc"@ {
        Some(Language::Scala)
    } else if extension == "ex"@ || extension == "exs"@ {
        Some(Language::Elixir)
    } else if extension == "lua"@ {
        Some(Language::Lua)
    } else if extension == "luau"@ {
        Some(Language::Luau)
    } else if extension == "swift"@ {
        Some(Language::Swift)
    } else if extension == "ml"@ || extension == "mli"@ {
        Some(Language::Ocaml)
    } else if extension == "sol"@ {
        Some(Language::Solidity)
    } else {
        None
    }
}

impl Language {
    /// The language that files with the given extension are in.
    pub fn from_extension(extension: &str) -> (res: Option<Language>)
        ensures
            res == language_of(extension@),
    {
        let e: &str = extension;
        if same(e, "py") || same(e, "pyi") {
            Some(Language::Python)
        } else if same(e, "ts") || same(e, "tsx") || same(e, "mts") || same(e, "cts") {
            Some(Language::TypeScript)
        } else if same(e, "js") || same(e, "jsx") || same(e, "mjs") || same(e, "cjs") {
            Some(Language::JavaScript)
        } else if same(e, "go") {
            Some(Language::Go)
        } else if same(e, "rs") {
            Some(Language::Rust)
        } else if same(e, "java") {
            Some(Language::Java)
        } else if same(e, "c") || same(e, "h") {
            Some(Language::C)
        } else if same(e, "cpp") || same(e, "cc") || same(e, "cxx") || same(e, "hpp") || same(
            e,
            "hh",
        ) || same(e, "hxx") {
            Some(Language::Cpp)
        } else if same(e, "rb") {
            Some(Language::Ruby)
        } else if same(e, "php") {
            Some(Language::Php)
        } else if same(e, "cs") {
            Some(Language::CSharp)
        } else if same(e, "kt") || same(e, "kts") {
            Some(Language::Kotlin)
        } else if same(e, "scala") || same(e, "sc") {
            Some(Language::Scala)
        } else if same(e, "ex") || same(e, "exs") {
            Some(Language::Elixir)
        } else if same(e, "lua") {
            Some(Language::Lua)
        } else if same(e, "luau") {
            Some(Language::Luau)
        } else if same(e, "swift") {
            Some(Language::Swift)
        } else if same(e, "ml") || same(e, "mli") {
            Some(Language::Ocaml)
        } else if same(e, "sol") {
            Some(Language::Solidity)
        } else {
            None
        }
    }
}

/// One import of a file.
#[derive(Clone, Debug, PartialEq, Eq)]
pub struct ImportInfo {
    /// What is imported.
    pub module: String,
    /// Names taken from the module (`*` for all of them).
    pub names: Vec<String>,
    /// How the module is imported, where the language tells two ways apart.
    pub is_from: Option<bool>,
    /// Name under which the module is known in the file.
    pub alias: Option<String>,
    /// Line of the import.
    pub line: u32,
}

/// What an [`ImportInfo`] says.
pub struct Import {
    pub module: Seq<char>,
    pub names: Seq<Seq<char>>,
    pub is_from: Option<bool>,
    pub alias: Option<Seq<char>>,
    pub line: u32,
}

impl DeepView for ImportInfo {
    type V = Import;

    open spec fn deep_view(&self) -> Import {
        Import {
            module: self.module@,
            names: self.names.deep_view(),
            is_from: self.is_from,
            alias: self.alias.deep_view(),
            line: self.line,
        }
    }
}

/// An import with the given parts.
pub open spec fn import(
    module: Seq<char>,
    names: Seq<Seq<char>>,
    is_from: Option<bool>,
    alias: Option<Seq<char>>,
    line: u32,
) -> Import {
    Import { module, names, is_from, alias, line }
}

/// An import with the given parts.
pub fn import_info(
    module: String,
    names: Vec<String>,
    is_from: Option<bool>,
    alias: Option<String>,
    line: u32,
) -> (res: ImportInfo)
    ensures
        res.deep_view() == import(
            module@,
            names.deep_view(),
            is_from,
            alias.deep_view(),
            line,
        ),
{
    ImportInfo { module, names, is_from, alias, line }
}

/// The import, on the given line.
pub open spec fn on_line(i: Import, line: u32) -> Import {
    Import { line, ..i }
}

/// The import, on the given line.
pub fn with_line(info: ImportInfo, line: u32) -> (res: ImportInfo)
    ensures
        res.deep_view() == on_line(info.deep_view(), line),
{
    let mut info = info;
    info.line = line;
    info
}

/// A function or method.
#[derive(Clone, Debug, PartialEq, Eq)]
pub struct FunctionInfo {
    /// Name of the function.
    pub name: String,
    /// Names of the parameters.
    pub params: Vec<String>,
    /// Return type, as written.
    pub return_type: Option<String>,
    /// Documentation of the function.
    pub docstring: Option<String>,
    /// Whether the function belongs to a class.
    pub is_method: bool,
    /// Whether the function is asynchronous.
    pub is_async: bool,
    /// Decorators, annotations or attributes.
    pub decorators: Vec<String>,
    /// Visibility, where the language has one.
    pub visibility: Option<String>,
    /// First line of the function.
    pub line_number: u32,
    /// Last line of the function.
    pub line_end: u32,
    /// How the function may touch the state of its contract.
    pub state_mutability: Option<String>,
}

/// What a [`FunctionInfo`] says.
pub struct Function {
    pub name: Seq<char>,
    pub params: Seq<Seq<char>>,
    pub return_type: Option<Seq<char>>,
    pub docstring: Option<Seq<char>>,
    pub is_method: bool,
    pub is_async: bool,
    pub decorators: Seq<Seq<char>>,
    pub visibility: Option<Seq<char>>,
    pub line_number: u32,
    pub line_end: u32,
    pub state_mutability: Option<Seq<char>>,
}

impl DeepView for FunctionInfo {
    type V = Function;

    open spec fn deep_view(&self) -> Function {
        Function {
            name: self.name@,
            params: self.params.deep_view(),
            return_type: self.return_type.deep_view(),
            docstring: self.docstring.deep_view(),
            is_method: self.is_method,
            is_async: self.is_async,
            decorators: self.decorators.deep_view(),
            visibility: self.visibility.deep_view(),
            line_number: self.line_number,
            line_end: self.line_end,
            state_mutability: self.state_mutability.deep_view(),
        }
    }
}

/// A field of a class, or a constant of a file.
#[derive(Clone, Debug, PartialEq, Eq)]
pub struct FieldInfo {
    /// Name of the field.
    pub name: String,
    /// Type of the field, as written.
    pub field_type: Option<String>,
    /// Initial value, as written.
    pub default_value: Option<String>,
    /// Whether the field belongs to the class itself.
    pub is_static: bool,
    /// Whether the field keeps its initial value.
    pub is_constant: bool,
    /// Visibility, where the language has one.
    pub visibility: Option<String>,
    /// First line of the field.
    pub line_number: u32,
    /// Last line of the field.
    pub line_end: u32,
}

/// What a [`FieldInfo`] says.
pub struct Field {
    pub name: Seq<char>,
    pub field_type: Option<Seq<char>>,
    pub default_value: Option<Seq<char>>,
    pub is_static: bool,
    pub is_constant: bool,
    pub visibility: Option<Seq<char>>,
    pub line_number: u32,
    pub line_end: u32,
}

impl DeepView for FieldInfo {
    type V = Field;

    open spec fn deep_view(&self) -> Field {
        Field {
            name: self.name@,
            field_type: self.field_type.deep_view(),
            default_value: self.default_value.deep_view(),
            is_static: self.is_static,
            is_constant: self.is_constant,
            visibility: self.visibility.deep_view(),
            line_number: self.line_number,
            line_end: self.line_end,
        }
    }
}

/// A parameter with its type.
#[derive(Clone, Debug, PartialEq, Eq)]
pub struct ParamInfo {
    /// Name of the parameter.
    pub name: String,
    /// Type of the parameter, as written.
    pub type_: Option<String>,
    /// Default value, as written.
    pub default_value: Option<String>,
}

/// What a [`ParamInfo`] says.
pub struct Param {
    pub name: Seq<char>,
    pub type_: Option<Seq<char>>,
    pub default_value: Option<Seq<char>>,
}

impl DeepView for ParamInfo {
    type V = Param;

    open spec fn deep_view(&self) -> Param {
        Param {
            name: self.name@,
            type_: self.type_.deep_view(),
            default_value: self.default_value.deep_view(),
        }
    }
}

/// A parameter of an event.
#[derive(Clone, Debug, PartialEq, Eq)]
pub struct EventParamInfo {
    /// Name of the parameter.
    pub name: String,
    /// Type of the parameter, as written.
    pub type_: String,
    /// Whether the event can be searched by the parameter.
    pub indexed: bool,
}

/// What an [`EventParamInfo`] says.
pub struct EventParam {
    pub name: Seq<char>,
    pub type_: Seq<char>,
    pub indexed: bool,
}

impl DeepView for EventParamInfo {
    type V = EventParam;

    open spec fn deep_view(&self) -> EventParam {
        EventParam { name: self.name@, type_: self.type_@, indexed: self.indexed }
    }
}

/// A modifier of a contract.
#[derive(Clone, Debug, PartialEq, Eq)]
pub struct ModifierInfo {
    /// Name of the modifier.
    pub name: String,
    /// First line of the modifier.
    pub line_number: u32,
    /// Parameters of the modifier.
    pub params: Vec<ParamInfo>,
    /// Whether the modifier may be overridden.
    pub is_virtual: bool,
    /// Whether the modifier overrides another.
    pub is_override: bool,
    /// Whether the modifier has a body.
    pub body_present: bool,
}

/// What a [`ModifierInfo`] says.
pub struct Modifier {
    pub name: Seq<char>,
    pub line_number: u32,
    pub params: Seq<Param>,
    pub is_virtual: bool,
    pub is_override: bool,
    pub body_present: bool,
}

impl DeepView for ModifierInfo {
    type V = Modifier;

    open spec fn deep_view(&self) -> Modifier {
        Modifier {
            name: self.name@,
            line_number: self.line_number,
            params: self.params.deep_view(),
            is_virtual: self.is_virtual,
            is_override: self.is_override,
            body_present: self.body_present,
        }
    }
}

/// An event of a contract.
#[derive(Clone, Debug, PartialEq, Eq)]
pub struct EventInfo {
    /// Name of the event.
    pub name: String,
    /// First line of the event.
    pub line_number: u32,
    /// Parameters of the event.
    pub params: Vec<EventParamInfo>,
    /// Whether the event leaves its signature out of the log.
    pub is_anonymous: bool,
}

/// What an [`EventInfo`] says.
pub struct Event {
    pub name: Seq<char>,
    pub line_number: u32,
    pub params: Seq<EventParam>,
    pub is_anonymous: bool,
}

impl DeepView for EventInfo {
    type V = Event;

    open spec fn deep_view(&self) -> Event {
        Event {
            name: self.name@,
            line_number: self.line_number,
            params: self.params.deep_view(),
            is_anonymous: self.is_anonymous,
        }
    }
}

/// An error of a contract.
#[derive(Clone, Debug, PartialEq, Eq)]
pub struct ErrorInfo {
    /// Name of the error.
    pub name: String,
    /// First line of the error.
    pub line_number: u32,
    /// Parameters of the error.
    pub params: Vec<ParamInfo>,
}

/// What an [`ErrorInfo`] says.
pub struct ContractError {
    pub name: Seq<char>,
    pub line_number: u32,
    pub params: Seq<Param>,
}

impl DeepView for ErrorInfo {
    type V = ContractError;

    open spec fn deep_view(&self) -> ContractError {
        ContractError {
            name: self.name@,
            line_number: self.line_number,
            params: self.params.deep_view(),
        }
    }
}

/// A class, or what stands for one in the language.
#[derive(Clone, Debug, PartialEq, Eq)]
pub struct ClassInfo {
    /// Name of the class.
    pub name: String,
    /// Classes and interfaces that it builds on.
    pub bases: Vec<String>,
    /// Documentation of the class.
    pub docstring: Option<String>,
    /// Methods of the class.
    pub methods: Vec<FunctionInfo>,
    /// Fields of the class.
    pub fields: Vec<FieldInfo>,
    /// Decorators, annotations or attributes.
    pub decorators: Vec<String>,
    /// First line of the class.
    pub line_number: u32,
    /// Last line of the class.
    pub line_end: u32,
    /// What the class is, where the language has several sorts.
    pub kind: Option<String>,
    /// Modifiers of a contract.
    pub modifiers: Vec<ModifierInfo>,
    /// Events of a contract.
    pub events: Vec<EventInfo>,
    /// Errors of a contract.
    pub errors: Vec<ErrorInfo>,
}

/// What a [`ClassInfo`] says.
pub struct Class {
    pub name: Seq<char>,
    pub bases: Seq<Seq<char>>,
    pub docstring: Option<Seq<char>>,
    pub methods: Seq<Function>,
    pub fields: Seq<Field>,
    pub decorators: Seq<Seq<char>>,
    pub line_number: u32,
    pub line_end: u32,
    pub kind: Option<Seq<char>>,
    pub modifiers: Seq<Modifier>,
    pub events: Seq<Event>,
    pub errors: Seq<ContractError>,
}

impl DeepView for ClassInfo {
    type V = Class;

    open spec fn deep_view(&self) -> Class {
        Class {
            name: self.name@,
            bases: self.bases.deep_view(),
            docstring: self.docstring.deep_view(),
            methods: self.methods.deep_view(),
            fields: self.fields.deep_view(),
            decorators: self.decorators.deep_view(),
            line_number: self.line_number,
            line_end: self.line_end,
            kind: self.kind.deep_view(),
            modifiers: self.modifiers.deep_view(),
            events: self.events.deep_view(),
            errors: self.errors.deep_view(),
        }
    }
}

} // verus!
