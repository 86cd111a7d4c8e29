//! Imports of a file.

use vstd::prelude::*;

use crate::error::TldrResult;
use crate::laws::imports::imports_stand_in_source_order;
use crate::tree::{line_count, Node, SyntaxTree};
use crate::types::{Import, ImportInfo, Language};
use crate::walk::{gather, gathered};

pub mod c;
pub mod csharp;
pub mod elixir;
pub mod go;
pub mod java;
pub mod kotlin;
pub mod lua;
pub mod ocaml;
pub mod php;
pub mod python;
pub mod ruby;
pub mod rust;
pub mod scala;
pub mod solidity;
pub mod swift;
pub mod typescript;

verus! {

/// The imports of a file, in the order of the source.
pub open spec fn imports_in(root: Node<'_>, language: Language) -> Seq<Import> {
    match language {
        Language::Python => gathered(&python::Imports, root),
        Language::TypeScript | Language::JavaScript => gathered(&typescript::Imports, root),
        Language::Go => gathered(&go::Imports, root),
        Language::Rust => gathered(&rust::Imports, root),
        Language::Java => gathered(&java::Imports, root),
        Language::C | Language::Cpp => gathered(&c::Imports, root),
        Language::Ruby => gathered(&ruby::Imports, root),
        Language::CSharp => gathered(&csharp::Imports, root),
        Language::Scala => gathered(&scala::Imports, root),
        Language::Elixir => gathered(&elixir::Imports, root),
        Language::Ocaml => gathered(&ocaml::Imports, root),
        Language::Php => gathered(&php::Imports, root),
        Language::Lua | Language::Luau => gathered(&lua::Imports, root),
        Language::Kotlin => gathered(&kotlin::Imports, root),
        Language::Swift => gathered(&swift::Imports, root),
        Language::Solidity => gathered(&solidity::Imports, root),
    }
}

/// Whether the lines on which imports are reported do not go back.
pub open spec fn in_source_order(s: Seq<Import>) -> bool {
    forall|i: int, j: int| 0 <= i < j < s.len() ==> (#[trigger] s[i]).line <= (#[trigger] s[j]).line
}

/// Whether imports are reported on the lines from `low` to `high`.
pub open spec fn on_lines(s: Seq<Import>, low: int, high: int) -> bool {
    forall|i: int| 0 <= i < s.len() ==> low <= (#[trigger] s[i]).line <= high
}

/// The imports of a parsed file, in the order of the source, on lines of it.
pub fn extract_imports_from_tree(tree: &SyntaxTree, language: Language) -> (res: TldrResult<
    Vec<ImportInfo>,
>)
    ensures
        res matches Ok(imports) && imports.deep_view() == imports_in(tree.root(), language)
            && in_source_order(imports.deep_view()) && on_lines(
            imports.deep_view(),
            1,
            line_count(tree.text()) as int,
        ),
{
    let root = tree.root_node();
    proof {
        imports_stand_in_source_order(tree, language);
    }
    let imports = match language {
        Language::Python => gather(&python::Imports, root),
        Language::TypeScript | Language::JavaScript => gather(&typescript::Imports, root),
        Language::Go => gather(&go::Imports, root),
        Language::Rust => gather(&rust::Imports, root),
        Language::Java => gather(&java::Imports, root),
        Language::C | Language::Cpp => gather(&c::Imports, root),
        Language::Ruby => gather(&ruby::Imports, root),
        Language::CSharp => gather(&csharp::Imports, root),
        Language::Scala => gather(&scala::Imports, root),
        Language::Elixir => gather(&elixir::Imports, root),
        Language::Ocaml => gather(&ocaml::Imports, root),
        Language::Php => gather(&php::Imports, root),
        Language::Lua | Language::Luau => gather(&lua::Imports, root),
        Language::Kotlin => gather(&kotlin::Imports, root),
        Language::Swift => gather(&swift::Imports, root),
        Language::Solidity => gather(&solidity::Imports, root),
    };
    Ok(imports)
}

} // verus!
