//! From a source text to its syntax tree.

use vstd::prelude::*;
use vstd::utf8::encode_utf8;

use crate::capture::tree_nodes;
use crate::grammars::{grammar_of, parser_for, parser_grammar, Grammar};
use crate::tree::{is_tree, NodeFacts, SyntaxTree};
use crate::types::Language;

verus! {

/// Whether these are the nodes of a parse that `tree_sitter` makes of a text
/// with a grammar. Some grammars ask the C library which characters are letters
/// or spaces, and it answers by the locale of the process: hence one text may
/// have more than one such parse.
pub uninterp spec fn is_parse(
    nodes: Seq<NodeFacts>,
    source: Seq<char>,
    grammar: Grammar,
) -> bool;

/// `Parser::parse`: makes a parse of the whole text with the grammar of the
/// parser, or none. When one is made is not said: it rests also on the time
/// limit and the cancellation flag that a parser can have. The parser counts
/// bytes in 32 bits.
#[verifier::external_body]
fn run_parser(parser: &mut tree_sitter::Parser, source: &str) -> (res: Option<tree_sitter::Tree>)
    requires
        encode_utf8(source@).len() < u32::MAX,
    ensures
        res matches Some(tree) ==> (parser_grammar(*old(parser)) matches Some(grammar) && is_parse(
            tree_nodes(tree),
            source@,
            grammar,
        )),
{
    parser.parse(source, None)
}

/// The syntax tree of a source text, with the grammar of its language, or
/// nothing where no parse was made of it. Texts whose bytes cannot be counted in
/// 32 bits are not parsed.
pub fn parse(source: &str, language: Language, tags: bool) -> (res: Option<SyntaxTree>)
    ensures
        res matches Some(t) ==> {
            &&& t.text() == source@
            &&& is_tree(source@, t.nodes())
            &&& is_parse(t.nodes(), source@, grammar_of(language, tags))
        },
        encode_utf8(source@).len() >= u32::MAX ==> res is None,
{
    let bytes: &[u8] = source.as_bytes();
    if bytes.len() >= u32::MAX as usize {
        return None;
    }
    match parser_for(language, tags) {
        Some(mut parser) => match run_parser(&mut parser, source) {
            Some(tree) => SyntaxTree::capture(&tree, source),
            None => None,
        },
        None => None,
    }
}

} // verus!
