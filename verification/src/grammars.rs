//! The grammars with which source texts are parsed.

use vstd::prelude::*;

use crate::types::Language;

verus! {

/// A grammar. Texts with tags in them (`.tsx`, `.jsx`) have one of their own.
#[derive(Clone, Copy, Debug, PartialEq, Eq, Structural)]
pub enum Grammar {
    Python,
    TypeScript,
    Tsx,
    Go,
    Rust,
    Java,
    C,
    Cpp,
    Ruby,
    Php,
    CSharp,
    Kotlin,
    Scala,
    Elixir,
    Lua,
    Luau,
    Swift,
    Ocaml,
    Solidity,
}

/// The grammar of a language.
pub open spec fn grammar_of(language: Language, tags: bool) -> Grammar {
    match language {
        Language::TypeScript | Language::JavaScript => if tags {
            Grammar::Tsx
        } else {
            Grammar::TypeScript
        },
        Language::Python => Grammar::Python,
        Language::Go => Grammar::Go,
        Language::Rust => Grammar::Rust,
        Language::Java => Grammar::Java,
        Language::C => Grammar::C,
        Language::Cpp => Grammar::Cpp,
        Language::Ruby => Grammar::Ruby,
        Language::Php => Grammar::Php,
        Language::CSharp => Grammar::CSharp,
        Language::Kotlin => Grammar::Kotlin,
        Language::Scala => Grammar::Scala,
        Language::Elixir => Grammar::Elixir,
        Language::Lua => Grammar::Lua,
        Language::Luau => Grammar::Luau,
        Language::Swift => Grammar::Swift,
        Language::Ocaml => Grammar::Ocaml,
        Language::Solidity => Grammar::Solidity,
    }
}

/// A parser of `tree_sitter`.
#[verifier::external_type_specification]
#[verifier::external_body]
pub struct ExParser(tree_sitter::Parser);

/// The grammar that a parser was given, if any.
pub uninterp spec fn parser_grammar(parser: tree_sitter::Parser) -> Option<Grammar>;

/// `Parser::new`: a parser that has no grammar yet.
#[verifier::external_body]
fn new_parser() -> (res: tree_sitter::Parser)
    ensures
        parser_grammar(res) is None,
{
    tree_sitter::Parser::new()
}

/// `Parser::set_language` with `tree_sitter_python::LANGUAGE`:
/// gives the parser the grammar of Python. Where the parser cannot take its
/// version, it is refused, and the parser keeps the grammar that it has.
#[verifier::external_body]
fn take_python(parser: &mut tree_sitter::Parser) -> (res: bool)
    ensures
        parser_grammar(*final(parser)) == if res {
            Some(Grammar::Python)
        } else {
            parser_grammar(*old(parser))
        },
{
    parser.set_language(&tree_sitter_python::LANGUAGE.into()).is_ok()
}

/// `Parser::set_language` with `tree_sitter_typescript::LANGUAGE_TYPESCRIPT`:
/// gives the parser the grammar of TypeScript. Where the parser cannot take its
/// version, it is refused, and the parser keeps the grammar that it has.
#[verifier::external_body]
fn take_typescript(parser: &mut tree_sitter::Parser) -> (res: bool)
    ensures
        parser_grammar(*final(parser)) == if res {
            Some(Grammar::TypeScript)
        } else {
            parser_grammar(*old(parser))
        },
{
    parser.set_language(&tree_sitter_typescript::LANGUAGE_TYPESCRIPT.into()).is_ok()
}

/// `Parser::set_language` with `tree_sitter_typescript::LANGUAGE_TSX`:
/// gives the parser the grammar of TypeScript with tags. Where the parser cannot take its
/// version, it is refused, and the parser keeps the grammar that it has.
#[verifier::external_body]
fn take_tsx(parser: &mut tree_sitter::Parser) -> (res: bool)
    ensures
        parser_grammar(*final(parser)) == if res {
            Some(Grammar::Tsx)
        } else {
            parser_grammar(*old(parser))
        },
{
    parser.set_language(&tree_sitter_typescript::LANGUAGE_TSX.into()).is_ok()
}

/// `Parser::set_language` with `tree_sitter_go::LANGUAGE`:
/// gives the parser the grammar of Go. Where the parser cannot take its
/// version, it is refused, and the parser keeps the grammar that it has.
#[verifier::external_body]
fn take_go(parser: &mut tree_sitter::Parser) -> (res: bool)
    ensures
        parser_grammar(*final(parser)) == if res {
            Some(Grammar::Go)
        } else {
            parser_grammar(*old(parser))
        },
{
    parser.set_language(&tree_sitter_go::LANGUAGE.into()).is_ok()
}

/// `Parser::set_language` with `tree_sitter_rust::LANGUAGE`:
/// gives the parser the grammar of Rust. Where the parser cannot take its
/// version, it is refused, and the parser keeps the grammar that it has.
#[verifier::external_body]
fn take_rust(parser: &mut tree_sitter::Parser) -> (res: bool)
    ensures
        parser_grammar(*final(parser)) == if res {
            Some(Grammar::Rust)
        } else {
            parser_grammar(*old(parser))
        },
{
    parser.set_language(&tree_sitter_rust::LANGUAGE.into()).is_ok()
}

/// `Parser::set_language` with `tree_sitter_java::LANGUAGE`:
/// gives the parser the grammar of Java. Where the parser cannot take its
/// version, it is refused, and the parser keeps the grammar that it has.
#[verifier::external_body]
fn take_java(parser: &mut tree_sitter::Parser) -> (res: bool)
    ensures
        parser_grammar(*final(parser)) == if res {
            Some(Grammar::Java)
        } else {
            parser_grammar(*old(parser))
        },
{
    parser.set_language(&tree_sitter_java::LANGUAGE.into()).is_ok()
}

/// `Parser::set_language` with `tree_sitter_c::LANGUAGE`:
/// gives the parser the grammar of C. Where the parser cannot take its
/// version, it is refused, and the parser keeps the grammar that it has.
#[verifier::external_body]
fn take_c(parser: &mut tree_sitter::Parser) -> (res: bool)
    ensures
        parser_grammar(*final(parser)) == if res {
            Some(Grammar::C)
        } else {
            parser_grammar(*old(parser))
        },
{
    parser.set_language(&tree_sitter_c::LANGUAGE.into()).is_ok()
}

/// `Parser::set_language` with `tree_sitter_cpp::LANGUAGE`:
/// gives the parser the grammar of C++. Where the parser cannot take its
/// version, it is refused, and the parser keeps the grammar that it has.
#[verifier::external_body]
fn take_cpp(parser: &mut tree_sitter::Parser) -> (res: bool)
    ensures
        parser_grammar(*final(parser)) == if res {
            Some(Grammar::Cpp)
        } else {
            parser_grammar(*old(parser))
        },
{
    parser.set_language(&tree_sitter_cpp::LANGUAGE.into()).is_ok()
}

/// `Parser::set_language` with `tree_sitter_ruby::LANGUAGE`:
/// gives the parser the grammar of Ruby. Where the parser cannot take its
/// version, it is refused, and the parser keeps the grammar that it has.
#[verifier::external_body]
fn take_ruby(parser: &mut tree_sitter::Parser) -> (res: bool)
    ensures
        parser_grammar(*final(parser)) == if res {
            Some(Grammar::Ruby)
        } else {
            parser_grammar(*old(parser))
        },
{
    parser.set_language(&tree_sitter_ruby::LANGUAGE.into()).is_ok()
}

/// `Parser::set_language` with `tree_sitter_php::LANGUAGE_PHP`:
/// gives the parser the grammar of PHP. Where the parser cannot take its
/// version, it is refused, and the parser keeps the grammar that it has.
#[verifier::external_body]
fn take_php(parser: &mut tree_sitter::Parser) -> (res: bool)
    ensures
        parser_grammar(*final(parser)) == if res {
            Some(Grammar::Php)
        } else {
            parser_grammar(*old(parser))
        },
{
    parser.set_language(&tree_sitter_php::LANGUAGE_PHP.into()).is_ok()
}

/// `Parser::set_language` with `tree_sitter_c_sharp::LANGUAGE`:
/// gives the parser the grammar of C#. Where the parser cannot take its
/// version, it is refused, and the parser keeps the grammar that it has.
#[verifier::external_body]
fn take_csharp(parser: &mut tree_sitter::Parser) -> (res: bool)
    ensures
        parser_grammar(*final(parser)) == if res {
            Some(Grammar::CSharp)
        } else {
            parser_grammar(*old(parser))
        },
{
    parser.set_language(&tree_sitter_c_sharp::LANGUAGE.into()).is_ok()
}

/// `Parser::set_language` with `tree_sitter_kotlin_ng::LANGUAGE`:
/// gives the parser the grammar of Kotlin. Where the parser cannot take its
/// version, it is refused, and the parser keeps the grammar that it has.
#[verifier::external_body]
fn take_kotlin(parser: &mut tree_sitter::Parser) -> (res: bool)
    ensures
        parser_grammar(*final(parser)) == if res {
            Some(Grammar::Kotlin)
        } else {
            parser_grammar(*old(parser))
        },
{
    parser.set_language(&tree_sitter_kotlin_ng::LANGUAGE.into()).is_ok()
}

/// `Parser::set_language` with `tree_sitter_scala::LANGUAGE`:
/// gives the parser the grammar of Scala. Where the parser cannot take its
/// version, it is refused, and the parser keeps the grammar that it has.
#[verifier::external_body]
fn take_scala(parser: &mut tree_sitter::Parser) -> (res: bool)
    ensures
        parser_grammar(*final(parser)) == if res {
            Some(Grammar::Scala)
        } else {
            parser_grammar(*old(parser))
        },
{
    parser.set_language(&tree_sitter_scala::LANGUAGE.into()).is_ok()
}

/// `Parser::set_language` with `tree_sitter_elixir::LANGUAGE`:
/// gives the parser the grammar of Elixir. Where the parser cannot take its
/// version, it is refused, and the parser keeps the grammar that it has.
#[verifier::external_body]
fn take_elixir(parser: &mut tree_sitter::Parser) -> (res: bool)
    ensures
        parser_grammar(*final(parser)) == if res {
            Some(Grammar::Elixir)
        } else {
            parser_grammar(*old(parser))
        },
{
    parser.set_language(&tree_sitter_elixir::LANGUAGE.into()).is_ok()
}

/// `Parser::set_language` with `tree_sitter_lua::LANGUAGE`:
/// gives the parser the grammar of Lua. Where the parser cannot take its
/// version, it is refused, and the parser keeps the grammar that it has.
#[verifier::external_body]
fn take_lua(parser: &mut tree_sitter::Parser) -> (res: bool)
    ensures
        parser_grammar(*final(parser)) == if res {
            Some(Grammar::Lua)
        } else {
            parser_grammar(*old(parser))
        },
{
    parser.set_language(&tree_sitter_lua::LANGUAGE.into()).is_ok()
}

/// `Parser::set_language` with `tree_sitter_luau::LANGUAGE`:
/// gives the parser the grammar of Luau. Where the parser cannot take its
/// version, it is refused, and the parser keeps the grammar that it has.
#[verifier::external_body]
fn take_luau(parser: &mut tree_sitter::Parser) -> (res: bool)
    ensures
        parser_grammar(*final(parser)) == if res {
            Some(Grammar::Luau)
        } else {
            parser_grammar(*old(parser))
        },
{
    parser.set_language(&tree_sitter_luau::LANGUAGE.into()).is_ok()
}

/// `Parser::set_language` with `tree_sitter_swift::LANGUAGE`:
/// gives the parser the grammar of Swift. Where the parser cannot take its
/// version, it is refused, and the parser keeps the grammar that it has.
#[verifier::external_body]
fn take_swift(parser: &mut tree_sitter::Parser) -> (res: bool)
    ensures
        parser_grammar(*final(parser)) == if res {
            Some(Grammar::Swift)
        } else {
            parser_grammar(*old(parser))
        },
{
    parser.set_language(&tree_sitter_swift::LANGUAGE.into()).is_ok()
}

/// `Parser::set_language` with `tree_sitter_ocaml::LANGUAGE_OCAML`:
/// gives the parser the grammar of OCaml. Where the parser cannot take its
/// version, it is refused, and the parser keeps the grammar that it has.
#[verifier::external_body]
fn take_ocaml(parser: &mut tree_sitter::Parser) -> (res: bool)
    ensures
        parser_grammar(*final(parser)) == if res {
            Some(Grammar::Ocaml)
        } else {
            parser_grammar(*old(parser))
        },
{
    parser.set_language(&tree_sitter_ocaml::LANGUAGE_OCAML.into()).is_ok()
}

/// `Parser::set_language` with `tree_sitter_solidity::LANGUAGE`:
/// gives the parser the grammar of Solidity. Where the parser cannot take its
/// version, it is refused, and the parser keeps the grammar that it has.
#[verifier::external_body]
fn take_solidity(parser: &mut tree_sitter::Parser) -> (res: bool)
    ensures
        parser_grammar(*final(parser)) == if res {
            Some(Grammar::Solidity)
        } else {
            parser_grammar(*old(parser))
        },
{
    parser.set_language(&tree_sitter_solidity::LANGUAGE.into()).is_ok()
}

/// A parser with the grammar of a language, or nothing where it was refused.
pub fn parser_for(language: Language, tags: bool) -> (res: Option<tree_sitter::Parser>)
    ensures
        res matches Some(parser) ==> parser_grammar(parser) == Some(grammar_of(language, tags)),
{
    let mut parser = new_parser();
    let taken = match language {
        Language::TypeScript | Language::JavaScript => if tags {
            take_tsx(&mut parser)
        } else {
            take_typescript(&mut parser)
        },
        Language::Python => take_python(&mut parser),
        Language::Go => take_go(&mut parser),
        Language::Rust => take_rust(&mut parser),
        Language::Java => take_java(&mut parser),
        Language::C => take_c(&mut parser),
        Language::Cpp => take_cpp(&mut parser),
        Language::Ruby => take_ruby(&mut parser),
        Language::Php => take_php(&mut parser),
        Language::CSharp => take_csharp(&mut parser),
        Language::Kotlin => take_kotlin(&mut parser),
        Language::Scala => take_scala(&mut parser),
        Language::Elixir => take_elixir(&mut parser),
        Language::Lua => take_lua(&mut parser),
        Language::Luau => take_luau(&mut parser),
        Language::Swift => take_swift(&mut parser),
        Language::Ocaml => take_ocaml(&mut parser),
        Language::Solidity => take_solidity(&mut parser),
    };
    if taken {
        Some(parser)
    } else {
        None
    }
}

} // verus!
