//! What the spelling of a name says.

use vstd::prelude::*;
use vstd::string::StrSliceExecFns;

use crate::text::{begins, chars_of, letter, own, starts_with, upper};

verus! {

/// Whether a name is spelled as constants are: in upper case letters, digits
/// and underscores, at least one of them a letter.
pub open spec fn is_constant_name(name: Seq<char>) -> bool {
    &&& name.len() > 0
    &&& forall|i: int|
        0 <= i < name.len() ==> upper(#[trigger] name[i]) || name[i] == '_' || '0' <= name[i]
            <= '9'
    &&& exists|i: int| 0 <= i < name.len() && letter(#[trigger] name[i])
}

/// Whether a name is spelled as constants are.
pub fn is_upper_case_name(name: &str) -> (res: bool)
    ensures
        res == is_constant_name(name@),
{
    let cs: Vec<char> = chars_of(name);
    if cs.len() == 0 {
        return false;
    }
    let mut seen = false;
    let mut i: usize = 0;
    while i < cs.len()
        invariant
            i <= cs.len(),
            cs@ == name@,
            forall|k: int|
                0 <= k < i ==> upper(#[trigger] cs@[k]) || cs@[k] == '_' || '0' <= cs@[k] <= '9',
            seen == exists|k: int| 0 <= k < i && letter(#[trigger] cs@[k]),
        decreases cs.len() - i,
    {
        let c: char = cs[i];
        if !(c.is_uppercase() || c == '_' || ('0' <= c && c <= '9')) {
            assert(name@[i as int] == c);
            return false;
        }
        if c.is_alphabetic() {
            seen = true;
        }
        i += 1;
    }
    seen
}

/// Private names begin with an underscore.
pub open spec fn underscore_visibility(name: Seq<char>) -> Option<Seq<char>> {
    if begins(name, "_"@) {
        Some("private"@)
    } else {
        Some("public"@)
    }
}

/// Private names begin with an underscore.
pub fn visibility_by_underscore(name: &str) -> (res: Option<String>)
    ensures
        res.deep_view() == underscore_visibility(name@),
{
    if starts_with(name, "_") {
        Some(own("private"))
    } else {
        Some(own("public"))
    }
}

/// Public names begin with an upper case letter.
pub open spec fn capital_visibility(name: Seq<char>) -> Option<Seq<char>> {
    if name.len() > 0 && upper(name[0]) {
        Some("public"@)
    } else {
        Some("private"@)
    }
}

/// Public names begin with an upper case letter.
pub fn visibility_by_capital(name: &str) -> (res: Option<String>)
    ensures
        res.deep_view() == capital_visibility(name@),
{
    if !name.is_empty() && name.get_char(0).is_uppercase() {
        Some(own("public"))
    } else {
        Some(own("private"))
    }
}

/// A character that a JavaScript identifier can begin with.
pub open spec fn begins_identifier(c: char) -> bool {
    'A' <= c <= 'Z' || 'a' <= c <= 'z' || c == '_' || c == '$'
}

/// Whether a name has the shape of an (ASCII) JavaScript identifier.
pub open spec fn is_identifier(s: Seq<char>) -> bool {
    &&& s.len() > 0
    &&& begins_identifier(s[0])
    &&& forall|i: int|
        0 <= i < s.len() ==> begins_identifier(#[trigger] s[i]) || '0' <= s[i] <= '9'
}

/// Whether a name has the shape of an (ASCII) JavaScript identifier.
pub fn is_js_identifier_shape(s: &str) -> (res: bool)
    ensures
        res == is_identifier(s@),
{
    let cs: Vec<char> = chars_of(s);
    if cs.len() == 0 {
        return false;
    }
    let mut i: usize = 0;
    while i < cs.len()
        invariant
            i <= cs.len(),
            cs@ == s@,
            i > 0 ==> begins_identifier(s@[0]),
            forall|k: int|
                0 <= k < i ==> begins_identifier(#[trigger] s@[k]) || '0' <= s@[k] <= '9',
        decreases cs.len() - i,
    {
        let c: char = cs[i];
        let first = ('A' <= c && c <= 'Z') || ('a' <= c && c <= 'z') || c == '_' || c == '$';
        if !first && (i == 0 || !('0' <= c && c <= '9')) {
            assert(s@[i as int] == c);
            return false;
        }
        i += 1;
    }
    true
}

/// JavaScript names that begin with an underscore are private. Nothing is
/// said of others.
pub open spec fn js_visibility(name: Seq<char>) -> Option<Seq<char>> {
    if begins(name, "_"@) {
        Some("private"@)
    } else {
        None
    }
}

/// JavaScript names that begin with an underscore are private.
pub fn js_name_visibility(name: &str) -> (res: Option<String>)
    ensures
        res.deep_view() == js_visibility(name@),
{
    if starts_with(name, "_") {
        Some(own("private"))
    } else {
        None
    }
}

} // verus!
