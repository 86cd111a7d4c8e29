//! From a file to what is reported of it. Reading the file is left to the
//! caller, who hands in what came of it.

use vstd::prelude::*;

use crate::error::{Refusal, TldrError, TldrResult};
use crate::extract::{extract_from_tree, module_in, ModuleInfo};
use crate::grammars::grammar_of;
use crate::imports::{extract_imports_from_tree, imports_in, in_source_order, on_lines};
use crate::lists::copy_strings;
use crate::parsing::{is_parse, parse};
use crate::paths::{is_below, lies_below};
use crate::text::{pieces, split};
use crate::tree::{line_count, same, SyntaxTree};
use crate::types::{language_of, ImportInfo, Language};

verus! {

/// A base path, with what it and the file resolve to.
pub struct Base {
    /// Components of the base path.
    pub path: Vec<String>,
    /// The canonical path of the file, or nothing where there is no such file.
    pub resolved_file: Option<Vec<String>>,
    /// The canonical base path, or nothing where there is no such directory.
    pub resolved_base: Option<Vec<String>>,
}

/// What came of reading and parsing a file.
pub enum Loaded {
    /// There is no such file.
    Missing,
    /// The file could not be parsed.
    Unparsed,
    /// The file was parsed.
    Parsed(SyntaxTree),
}

/// Why a file is refused for its base path.
pub open spec fn base_refusal(file: Seq<Seq<char>>, base: Option<Base>) -> Option<Refusal> {
    match base {
        Some(b) => match (b.resolved_file, b.resolved_base) {
            (None, _) => Some(Refusal::PathNotFound(file)),
            (Some(_), None) => Some(Refusal::PathNotFound(b.path.deep_view())),
            (Some(f), Some(d)) => if lies_below(f.deep_view(), d.deep_view()) {
                None
            } else {
                Some(Refusal::PathTraversal(file))
            },
        },
        None => None,
    }
}

/// Whether a file may be read: both it and the base path must exist, and the
/// file must lie below the base path.
pub fn check_base(file: &Vec<String>, base: &Option<Base>) -> (res: TldrResult<()>)
    ensures
        res is Ok <==> base_refusal(file.deep_view(), *base) is None,
        res matches Err(e) ==> base_refusal(file.deep_view(), *base) == Some(e.deep_view()),
{
    match base {
        Some(b) => match (&b.resolved_file, &b.resolved_base) {
            (None, _) => Err(TldrError::PathNotFound(copy_strings(file))),
            (Some(_f), None) => Err(TldrError::PathNotFound(copy_strings(&b.path))),
            (Some(f), Some(d)) => if is_below(f, d) {
                Ok(())
            } else {
                Err(TldrError::PathTraversal(copy_strings(file)))
            },
        },
        None => Ok(()),
    }
}

/// The extension of a file name: what stands behind its last dot, unless that
/// is also its first character.
pub open spec fn extension_of(name: Seq<char>) -> Option<Seq<char>> {
    let parts = pieces(name, "."@);
    if parts.len() > 2 || (parts.len() == 2 && parts[0].len() > 0) {
        Some(parts.last())
    } else {
        None
    }
}

fn find_extension(name: &str) -> (res: Option<String>)
    ensures
        res.deep_view() == extension_of(name@),
{
    proof {
        reveal_strlit(".");
    }
    let parts = split(name, ".");
    assert(parts.deep_view().last() == parts@[parts@.len() - 1]@);
    assert(parts.deep_view()[0] == parts@[0]@);
    if parts.len() > 2 || (parts.len() == 2 && !parts[0].as_str().is_empty()) {
        Some(parts[parts.len() - 1].clone())
    } else {
        None
    }
}

/// The extension of a file, or the empty text.
pub open spec fn file_extension(file: Seq<Seq<char>>) -> Seq<char> {
    if file.len() == 0 {
        Seq::empty()
    } else {
        match extension_of(file.last()) {
            Some(extension) => extension,
            None => Seq::empty(),
        }
    }
}

fn find_file_extension(file: &Vec<String>) -> (res: String)
    ensures
        res@ == file_extension(file.deep_view()),
{
    if file.len() == 0 {
        return String::new();
    }
    assert(file.deep_view().last() == file@[file@.len() - 1]@);
    match find_extension(file[file.len() - 1].as_str()) {
        Some(extension) => extension,
        None => String::new(),
    }
}

/// The language in which a file is read: the one that is asked for, or else
/// the one that its extension stands for.
pub open spec fn file_language(file: Seq<Seq<char>>, hint: Option<Language>) -> Option<Language> {
    match hint {
        Some(language) => Some(language),
        None => language_of(file_extension(file)),
    }
}

/// The language in which a file is read.
pub fn choose_language(file: &Vec<String>, hint: Option<Language>) -> (res: TldrResult<Language>)
    ensures
        res matches Ok(language) ==> file_language(file.deep_view(), hint) == Some(language),
        res is Ok <==> file_language(file.deep_view(), hint) is Some,
        res matches Err(e) ==> e.deep_view() == Refusal::UnsupportedLanguage(
            file_extension(file.deep_view()),
        ),
{
    match hint {
        Some(language) => return Ok(language),
        None => {},
    }
    let extension = find_file_extension(file);
    match Language::from_extension(extension.as_str()) {
        Some(language) => Ok(language),
        None => Err(TldrError::UnsupportedLanguage(extension)),
    }
}

/// Whether a file is one whose text has tags in it.
pub open spec fn has_tags(file: Seq<Seq<char>>) -> bool {
    file_extension(file) == "tsx"@ || file_extension(file) == "jsx"@
}

/// Parses the text of a file, in the language that is asked for or else in that
/// of its extension.
pub fn load(file: &Vec<String>, hint: Option<Language>, source: &str) -> (res: Loaded)
    ensures
        !(res is Missing),
        file_language(file.deep_view(), hint) is None ==> res is Unparsed,
        res matches Loaded::Parsed(t) ==> t.text() == source@ && is_parse(
            t.nodes(),
            source@,
            grammar_of(
                file_language(file.deep_view(), hint)->0,
                has_tags(file.deep_view()),
            ),
        ),
{
    let extension = find_file_extension(file);
    let tags = same(extension.as_str(), "tsx") || same(extension.as_str(), "jsx");
    match choose_language(file, hint) {
        Ok(language) => match parse(source, language, tags) {
            Some(tree) => Loaded::Parsed(tree),
            None => Loaded::Unparsed,
        },
        Err(_) => Loaded::Unparsed,
    }
}

/// Why nothing is reported of a file: because of its base path, because it is
/// missing, because its language is not known, or because it was not parsed.
pub open spec fn refusal(
    file: Seq<Seq<char>>,
    base: Option<Base>,
    hint: Option<Language>,
    loaded: Loaded,
) -> Option<Refusal> {
    match base_refusal(file, base) {
        Some(r) => Some(r),
        None => if loaded is Missing {
            Some(Refusal::PathNotFound(file))
        } else if file_language(file, hint) is None {
            Some(Refusal::UnsupportedLanguage(file_extension(file)))
        } else if loaded is Unparsed {
            Some(Refusal::ParseError(file))
        } else {
            None
        },
    }
}

/// The components of the base path.
pub open spec fn base_path(base: Option<Base>) -> Option<Seq<Seq<char>>> {
    match base {
        Some(b) => Some(b.path.deep_view()),
        None => None,
    }
}

/// What is reported of a file, in the language that is asked for or else in
/// that of its extension.
pub fn extract_file_with_lang(
    file_path: &Vec<String>,
    base: &Option<Base>,
    lang_hint: Option<Language>,
    loaded: &Loaded,
) -> (res: TldrResult<ModuleInfo>)
    ensures
        res is Ok <==> refusal(file_path.deep_view(), *base, lang_hint, *loaded) is None,
        res matches Err(e) ==> refusal(file_path.deep_view(), *base, lang_hint, *loaded) == Some(
            e.deep_view(),
        ),
        res matches Ok(info) ==> info.deep_view() == module_in(
            loaded->Parsed_0.root(),
            file_language(file_path.deep_view(), lang_hint)->0,
            file_path.deep_view(),
            base_path(*base),
        ),
{
    match check_base(file_path, base) {
        Ok(()) => {},
        Err(e) => return Err(e),
    }
    match loaded {
        Loaded::Missing => return Err(TldrError::PathNotFound(copy_strings(file_path))),
        _ => {},
    }
    let language = match choose_language(file_path, lang_hint) {
        Ok(language) => language,
        Err(e) => return Err(e),
    };
    match loaded {
        Loaded::Parsed(tree) => match base {
            Some(b) => extract_from_tree(tree, language, file_path, Some(&b.path)),
            None => extract_from_tree(tree, language, file_path, None),
        },
        _ => Err(TldrError::ParseError(copy_strings(file_path))),
    }
}

/// What is reported of a file, in the language of its extension.
pub fn extract_file(file_path: &Vec<String>, base: &Option<Base>, loaded: &Loaded) -> (res:
    TldrResult<ModuleInfo>)
    ensures
        res is Ok <==> refusal(file_path.deep_view(), *base, None, *loaded) is None,
        res matches Err(e) ==> refusal(file_path.deep_view(), *base, None, *loaded) == Some(
            e.deep_view(),
        ),
        res matches Ok(info) ==> info.deep_view() == module_in(
            loaded->Parsed_0.root(),
            file_language(file_path.deep_view(), None)->0,
            file_path.deep_view(),
            base_path(*base),
        ),
{
    extract_file_with_lang(file_path, base, None, loaded)
}

/// The imports of a file that is read in the given language.
pub fn get_imports(file_path: &Vec<String>, language: Language, loaded: &Loaded) -> (res:
    TldrResult<Vec<ImportInfo>>)
    ensures
        loaded is Missing ==> (res matches Err(e) && e.deep_view() == Refusal::PathNotFound(
            file_path.deep_view(),
        )),
        loaded is Unparsed ==> (res matches Err(e) && e.deep_view() == Refusal::ParseError(
            file_path.deep_view(),
        )),
        loaded matches Loaded::Parsed(tree) ==> (res matches Ok(imports) && imports.deep_view()
            == imports_in(tree.root(), language) && in_source_order(imports.deep_view())
            && on_lines(imports.deep_view(), 1, line_count(tree.text()) as int)),
{
    match loaded {
        Loaded::Missing => Err(TldrError::PathNotFound(copy_strings(file_path))),
        Loaded::Unparsed => Err(TldrError::ParseError(copy_strings(file_path))),
        Loaded::Parsed(tree) => extract_imports_from_tree(tree, language),
    }
}

} // verus!
