//! What holds of every request for a file.

use vstd::prelude::*;

use crate::error::Refusal;
use crate::extract::module_in;
use crate::files::{base_refusal, file_language, refusal, Base, Loaded};
use crate::imports::imports_in;
use crate::paths::{lies_below, seen_from};
use crate::tree::Node;
use crate::types::Language;

verus! {

/// A file that does not lie below its base path is refused as such, whatever
/// it holds and in whatever language it is asked for.
pub proof fn files_outside_of_the_base_are_refused(
    file: Seq<Seq<char>>,
    base: Base,
    hint: Option<Language>,
    loaded: Loaded,
)
    requires
        base.resolved_file is Some,
        base.resolved_base is Some,
        !lies_below(base.resolved_file->0.deep_view(), base.resolved_base->0.deep_view()),
    ensures
        refusal(file, Some(base), hint, loaded) == Some(Refusal::PathTraversal(file)),
{
}

/// A file that is missing is never reported.
pub proof fn missing_files_are_refused(
    file: Seq<Seq<char>>,
    base: Option<Base>,
    hint: Option<Language>,
)
    ensures
        refusal(file, base, hint, Loaded::Missing) is Some,
        base is None ==> refusal(file, base, hint, Loaded::Missing) == Some(
            Refusal::PathNotFound(file),
        ),
{
}

/// The language that is asked for is the one in which a file is read, whatever
/// its extension is: no file is refused for its extension then.
pub proof fn hints_override_extensions(
    file: Seq<Seq<char>>,
    base: Option<Base>,
    language: Language,
    loaded: Loaded,
)
    ensures
        file_language(file, Some(language)) == Some(language),
        refusal(file, base, Some(language), loaded) matches Some(r) ==> !(r
            is UnsupportedLanguage),
        base_refusal(file, base) is None && loaded is Parsed ==> refusal(
            file,
            base,
            Some(language),
            loaded,
        ) is None,
{
}

/// The path that is reported of a file below the base path leads from the base
/// path to the file.
pub proof fn reported_paths_lead_from_the_base(path: Seq<Seq<char>>, base: Seq<Seq<char>>)
    ensures
        lies_below(path, base) ==> base + seen_from(path, Some(base)) == path,
        !lies_below(path, base) ==> seen_from(path, Some(base)) == path,
        seen_from(base + path, Some(base)) == path,
{
    if lies_below(path, base) {
        assert(base + seen_from(path, Some(base)) =~= path);
    }
    assert((base + path).take(base.len() as int) =~= base);
    assert((base + path).skip(base.len() as int) =~= path);
}

/// The imports that are reported with all else of a file are those that are
/// reported when only they are asked for.
pub proof fn imports_do_not_depend_on_the_request(
    root: Node<'_>,
    language: Language,
    file_path: Seq<Seq<char>>,
    base_path: Option<Seq<Seq<char>>>,
)
    ensures
        module_in(root, language, file_path, base_path).imports == imports_in(root, language),
{
}

} // verus!
