//! Kotlin: `import a.b.C`, `import a.b.*`, `import a.b.C as D`.

use vstd::prelude::*;
use vstd::utf8::{
    encode_utf8, encode_utf8_decode_utf8, encode_utf8_valid_utf8,
    is_char_boundary_iff_not_is_continuation_byte,
};

use crate::lists::{emit, group_lists, none};
use crate::text::{
    behind, behind_or_all, own, strip_back, strip_prefix, stripped_back, trim,
    trim_start, trimmed, trimmed_front, without_prefix,
};
use crate::tree::{byte_slice, group_tree, Node};
use crate::types::{import, import_info, on_line, with_line, Import, ImportInfo};
use crate::walk::{find_child, found, Test, Walker};

verus! {

broadcast use {group_tree, group_lists};

/// The bytes that encode the white space of ASCII.
pub open spec fn is_ascii_white(b: u8) -> bool {
    b == 0x20 || b == 0x09 || b == 0x0a || b == 0x0c || b == 0x0d
}

fn ascii_white(b: u8) -> (res: bool)
    ensures
        res == is_ascii_white(b),
{
    b == 0x20 || b == 0x09 || b == 0x0a || b == 0x0c || b == 0x0d
}

/// Whether `as` stands behind the byte at `i`, between white space.
pub open spec fn as_at(bytes: Seq<u8>, i: int) -> bool {
    &&& 0 <= i && i + 4 <= bytes.len()
    &&& is_ascii_white(bytes[i])
    &&& bytes[i + 1] == 0x61
    &&& bytes[i + 2] == 0x73
    &&& is_ascii_white(bytes[i + 3])
}

/// The first offset at or behind `i` behind which `as` stands.
pub open spec fn as_from(bytes: Seq<u8>, i: int) -> Option<int>
    decreases bytes.len() - i,
{
    if i < 0 || i >= bytes.len() {
        None
    } else if as_at(bytes, i) {
        Some(i)
    } else {
        as_from(bytes, i + 1)
    }
}

/// The byte offset of the white space before the `as` of an import: the least
/// one behind which `as` stands between white space.
pub fn find_kotlin_as_split(body: &str) -> (res: Option<usize>)
    ensures
        res matches Some(k) ==> as_from(encode_utf8(body@), 0) == Some(k as int) && as_at(
            encode_utf8(body@),
            k as int,
        ) && forall|i: int| 0 <= i < k ==> !#[trigger] as_at(encode_utf8(body@), i),
        res is None ==> as_from(encode_utf8(body@), 0) is None && forall|i: int|
            !#[trigger] as_at(encode_utf8(body@), i),
{
    let bytes: &[u8] = body.as_bytes();
    let n: usize = bytes.len();
    let mut i: usize = 0;
    while i < n
        invariant
            n == bytes@.len(),
            bytes@ == encode_utf8(body@),
            i <= n,
            as_from(bytes@, 0) == as_from(bytes@, i as int),
            forall|k: int| 0 <= k < i ==> !#[trigger] as_at(bytes@, k),
        decreases n - i,
    {
        if n - i >= 4 && ascii_white(bytes[i]) && bytes[i + 1] == 0x61 && bytes[i + 2] == 0x73
            && ascii_white(bytes[i + 3]) {
            assert(as_at(bytes@, i as int));
            return Some(i);
        }
        i += 1;
    }
    None
}

/// The path and the alias of what stands behind `import`.
pub open spec fn path_and_alias(body: Seq<char>) -> (Seq<char>, Option<Seq<char>>) {
    let bytes = encode_utf8(body);
    match as_from(bytes, 0) {
        Some(k) => {
            let clause = byte_slice(body, k, bytes.len() as int);
            let alias = stripped_back(
                trimmed(behind_or_all(trimmed_front(clause), "as"@)),
                ";"@,
            );
            (
                trimmed(byte_slice(body, 0, k)),
                if alias.len() > 0 {
                    Some(alias)
                } else {
                    None
                },
            )
        },
        None => (trimmed(stripped_back(body, ";"@)), None),
    }
}

fn split_path_and_alias(body: &str) -> (res: (String, Option<String>))
    ensures
        res.deep_view() == path_and_alias(body@),
{
    match find_kotlin_as_split(body) {
        Some(k) => {
            let ghost bytes = encode_utf8(body@);
            proof {
                encode_utf8_valid_utf8(body@);
                is_char_boundary_iff_not_is_continuation_byte(bytes, k as int);
            }
            let (left, right) = body.split_at(k);
            proof {
                assert(encode_utf8(left@) =~= bytes.subrange(0, k as int));
                assert(encode_utf8(right@) =~= bytes.subrange(k as int, bytes.len() as int));
                encode_utf8_decode_utf8(left@);
                encode_utf8_decode_utf8(right@);
            }
            let alias: &str = strip_back(trim(without_prefix(trim_start(right), "as")), ";");
            if alias.is_empty() {
                (own(trim(left)), None)
            } else {
                (own(trim(left)), Some(own(alias)))
            }
        },
        None => (own(trim(strip_back(body, ";"))), None),
    }
}

/// The import that the text of an import statement makes.
pub open spec fn text_import(raw: Seq<char>) -> Option<Import> {
    match behind(trimmed(raw), "import"@) {
        Some(rest) => {
            let parts = path_and_alias(trimmed(rest));
            if trimmed(rest).len() == 0 || parts.0.len() == 0 {
                None
            } else {
                Some(import(parts.0, Seq::empty(), None, parts.1, 0))
            }
        },
        None => None,
    }
}

/// The import that the text of an import statement makes. Its line is not set.
pub fn parse_kotlin_import_text(raw: &str) -> (res: Option<ImportInfo>)
    ensures
        res.deep_view() == text_import(raw@),
{
    let body: &str = match strip_prefix(trim(raw), "import") {
        Some(rest) => trim(rest),
        None => return None,
    };
    if body.is_empty() {
        return None;
    }
    let parts = split_path_and_alias(body);
    assert(parts.deep_view() == (parts.0@, parts.1.deep_view()));
    let (path, alias) = parts;
    if path.as_str().is_empty() {
        return None;
    }
    Some(import_info(path, none(), None, alias, 0))
}

/// What names the module in an import statement.
pub struct ModuleName;

impl Test for ModuleName {
    open spec fn accepts(&self, c: Node<'_>) -> bool {
        c.isa("qualified_identifier") || c.isa("identifier")
    }

    fn test(&self, c: Node<'_>) -> (res: bool) {
        c.is("qualified_identifier") || c.is("identifier")
    }
}

/// Whether a node is an import statement. The keyword in it is of the same
/// kind, but names no module.
pub open spec fn is_import(c: Node<'_>) -> bool {
    c.isa("import_header") || (c.isa("import") && found(&ModuleName, c) is Some)
}

fn is_kotlin_import_statement(c: &Node<'_>) -> (res: bool)
    ensures
        res == is_import(*c),
{
    c.is("import_header") || (c.is("import") && find_child(&ModuleName, *c).is_some())
}

/// All imports of a file.
pub struct Imports;

impl Walker for Imports {
    type Item = ImportInfo;

    open spec fn yields(&self, c: Node<'_>) -> Seq<Import> {
        match text_import(c.txt()) {
            Some(made) if is_import(c) => seq![on_line(made, c.top())],
            _ => Seq::empty(),
        }
    }

    open spec fn enters<'a>(&self, c: Node<'a>) -> Option<Node<'a>> {
        if is_import(c) {
            None
        } else {
            Some(c)
        }
    }

    fn visit<'a>(&self, c: Node<'a>, out: &mut Vec<ImportInfo>) -> (res: Option<Node<'a>>) {
        if is_kotlin_import_statement(&c) {
            match parse_kotlin_import_text(c.text()) {
                Some(made) => emit(out, with_line(made, c.start_line())),
                None => {},
            }
            None
        } else {
            Some(c)
        }
    }
}

} // verus!
