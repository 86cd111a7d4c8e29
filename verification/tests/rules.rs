//! Rules on files, paths, names, comments and import texts.

use tldr_ast::docs::parse_block_doc_comment;
use tldr_ast::error::TldrError;
use tldr_ast::extract::{extract_from_tree, extract_function_params, ModuleInfo};
use tldr_ast::files::{
    check_base, choose_language, extract_file, extract_file_with_lang, get_imports, load, Base,
    Loaded,
};
use tldr_ast::imports::extract_imports_from_tree;
use tldr_ast::imports::kotlin::{find_kotlin_as_split, parse_kotlin_import_text};
use tldr_ast::imports::php::parse_php_use_alias;
use tldr_ast::imports::scala::parse_scala_import_text;
use tldr_ast::imports::swift::parse_swift_import_text;
use tldr_ast::lang::csharp::extract_csharp_bases;
use tldr_ast::lang::kotlin::extract_kotlin_bases;
use tldr_ast::lang::php::extract_php_bases;
use tldr_ast::lang::solidity::collect_solidity_natspec_text;
use tldr_ast::lang::swift::extract_swift_bases;
use tldr_ast::names::{is_js_identifier_shape, is_upper_case_name};
use tldr_ast::natspec::{
    is_natspec_identifier, normalize_natspec_text, parse_solidity_natspec,
};
use tldr_ast::order::sort_and_dedup;
use tldr_ast::parsing;
use tldr_ast::paths::{is_below, relative_path};
use tldr_ast::spans::decl_keyword_line_from_node;
use tldr_ast::text::{join, lines, split, split_whitespace, strip, trim};
use tldr_ast::tree::{Node, NodeRecord, SyntaxTree};
use tldr_ast::types::{ImportInfo, Language};

fn parse(source: &str, language: Language) -> SyntaxTree {
    parsing::parse(source, language, false).unwrap()
}

fn components(path: &str) -> Vec<String> {
    path.split('/').map(|part| part.to_string()).collect()
}

/// What is reported of a file with the given suffix and content.
fn extract(suffix: &str, source: &str) -> ModuleInfo {
    let path = components(&format!("/tmp/file{}", suffix));
    let loaded = load(&path, None, source);
    extract_file(&path, &None, &loaded).unwrap()
}

fn find_kind<'a>(node: Node<'a>, kind: &str) -> Option<Node<'a>> {
    if node.kind() == kind {
        return Some(node);
    }
    for i in 0..node.child_count() {
        if let Some(found) = find_kind(node.child(i), kind) {
            return Some(found);
        }
    }
    None
}

fn strings(list: &[&str]) -> Vec<String> {
    list.iter().map(|s| s.to_string()).collect()
}

/// A node that spans the bytes from `start` to `end` on one row.
fn record(kind: &str, field: Option<&str>, depth: usize, start: usize, end: usize) -> NodeRecord {
    NodeRecord {
        kind: kind.to_string(),
        field: field.map(|name| name.to_string()),
        named: true,
        depth,
        start_byte: start,
        end_byte: end,
        start_row: 0,
        end_row: 0,
    }
}

fn python() -> Loaded {
    Loaded::Parsed(parse("import os\n", Language::Python))
}

fn base(path: &str, file: Option<&str>, dir: Option<&str>) -> Option<Base> {
    Some(Base {
        path: components(path),
        resolved_file: file.map(components),
        resolved_base: dir.map(components),
    })
}

#[test]
fn files_below_the_base_are_reported_from_there() {
    let path = components("/src/app/main.py");
    let base = base("/src", Some("/src/app/main.py"), Some("/src"));
    let info = extract_file(&path, &base, &python()).unwrap();
    assert_eq!(info.file_path, strings(&["app", "main.py"]));
    assert_eq!(info.imports.len(), 1);
}

#[test]
fn a_path_that_does_not_begin_with_the_base_is_reported_whole() {
    let path = components("app/main.py");
    let base = base("/src", Some("/src/app/main.py"), Some("/src"));
    let info = extract_file(&path, &base, &python()).unwrap();
    assert_eq!(info.file_path, strings(&["app", "main.py"]));
}

#[test]
fn files_outside_of_the_base_are_refused() {
    let path = components("/etc/passwd.py");
    let base = base("/src", Some("/etc/passwd.py"), Some("/src"));
    let result = extract_file_with_lang(&path, &base, Some(Language::Python), &python());
    assert_eq!(result.unwrap_err(), TldrError::PathTraversal(path.clone()));
    assert_eq!(check_base(&path, &base), Err(TldrError::PathTraversal(path.clone())));
}

#[test]
fn a_sibling_whose_name_begins_like_the_base_is_outside() {
    let path = components("/src2/a.py");
    let base = base("/src", Some("/src2/a.py"), Some("/src"));
    assert_eq!(check_base(&path, &base), Err(TldrError::PathTraversal(path.clone())));
}

#[test]
fn unresolved_paths_are_not_found() {
    let path = components("/src/a.py");
    let no_file = base("/src", None, Some("/src"));
    assert_eq!(check_base(&path, &no_file), Err(TldrError::PathNotFound(path.clone())));
    let no_base = base("/src", Some("/src/a.py"), None);
    assert_eq!(check_base(&path, &no_base), Err(TldrError::PathNotFound(components("/src"))));
    assert_eq!(check_base(&path, &None), Ok(()));
}

#[test]
fn unparsed_files_are_refused() {
    let path = components("/src/a.py");
    let result = extract_file(&path, &None, &Loaded::Unparsed);
    assert_eq!(result.unwrap_err(), TldrError::ParseError(path.clone()));
    let result = get_imports(&path, Language::Python, &Loaded::Unparsed);
    assert_eq!(result.unwrap_err(), TldrError::ParseError(path.clone()));
    let result = get_imports(&path, Language::Python, &Loaded::Missing);
    assert_eq!(result.unwrap_err(), TldrError::PathNotFound(path.clone()));
}

#[test]
fn a_missing_file_is_not_found_before_its_language_is_asked() {
    let path = components("/src/a.xyz");
    let result = extract_file(&path, &None, &Loaded::Missing);
    assert_eq!(result.unwrap_err(), TldrError::PathNotFound(path.clone()));
    let result = extract_file(&path, &None, &Loaded::Unparsed);
    assert_eq!(result.unwrap_err(), TldrError::UnsupportedLanguage("xyz".to_string()));
}

#[test]
fn hints_override_extensions() {
    let path = components("/src/shape.h");
    assert_eq!(choose_language(&path, None), Ok(Language::C));
    assert_eq!(choose_language(&path, Some(Language::Cpp)), Ok(Language::Cpp));
    let loaded = Loaded::Parsed(parse("class A {};\n", Language::Cpp));
    let info = extract_file_with_lang(&path, &None, Some(Language::Cpp), &loaded).unwrap();
    assert_eq!(info.language, Language::Cpp);
    assert_eq!(info.classes[0].name, "A");
    let script = components("/src/myscript");
    let imports = get_imports(&script, Language::Python, &python()).unwrap();
    assert_eq!(imports[0].module, "os");
}

#[test]
fn extensions_stand_behind_the_last_dot() {
    assert_eq!(choose_language(&components("/a/b.test.ts"), None), Ok(Language::TypeScript));
    assert_eq!(
        choose_language(&components("/a/.py"), None),
        Err(TldrError::UnsupportedLanguage(String::new()))
    );
    assert_eq!(
        choose_language(&components("/a/Makefile"), None),
        Err(TldrError::UnsupportedLanguage(String::new()))
    );
    assert_eq!(choose_language(&components("/a/.hidden.py"), None), Ok(Language::Python));
}

#[test]
fn imports_do_not_depend_on_the_request() {
    let source = "import os\nfrom a import b\n";
    let path = components("/src/a.py");
    let loaded = Loaded::Parsed(parse(source, Language::Python));
    let info = extract_file(&path, &None, &loaded).unwrap();
    assert_eq!(info.imports, get_imports(&path, Language::Python, &loaded).unwrap());
}

#[test]
fn reported_paths_lead_from_the_base() {
    let path = strings(&["a", "b", "c"]);
    assert!(is_below(&path, &strings(&["a", "b"])));
    assert!(is_below(&path, &path));
    assert!(!is_below(&path, &strings(&["a", "c"])));
    assert!(!is_below(&strings(&["a"]), &path));
    assert_eq!(relative_path(&path, Some(&strings(&["a"]))), strings(&["b", "c"]));
    assert_eq!(relative_path(&path, Some(&strings(&["x"]))), path);
    assert_eq!(relative_path(&path, None), path);
}

#[test]
fn javascript_is_read_as_typescript() {
    let source = "import a from 'b';\nconst MAX = 1;\nfunction f(x) { g(); }\nclass C { m() { f(); } }\n";
    let tree = parse(source, Language::TypeScript);
    let path = components("/a");
    let ts = extract_from_tree(&tree, Language::TypeScript, &path, None).unwrap();
    let js = extract_from_tree(&tree, Language::JavaScript, &path, None).unwrap();
    assert_eq!(ts.imports, js.imports);
    assert_eq!(ts.functions, js.functions);
    assert_eq!(ts.classes, js.classes);
    assert_eq!(ts.constants, js.constants);
    assert_eq!(ts.call_graph.calls.get("m"), js.call_graph.calls.get("m"));
    assert_eq!(js.call_graph.called_by.get("f"), Some(&strings(&["m"])));
}

#[test]
fn called_by_is_the_inverse_of_calls() {
    let info = extract(
        ".py",
        "def a():\n    b()\n    c()\n    b()\n\ndef b():\n    c()\n\ndef c():\n    mod.c()\n    other()\n",
    );
    let graph = &info.call_graph;
    assert_eq!(graph.calls.get("a"), Some(&strings(&["b", "c"])));
    assert_eq!(graph.calls.get("b"), Some(&strings(&["c"])));
    assert_eq!(graph.calls.get("c"), Some(&strings(&["c", "other"])));
    assert_eq!(graph.called_by.get("c"), Some(&strings(&["a", "b", "c"])));
    assert_eq!(graph.called_by.get("b"), Some(&strings(&["a"])));
    assert_eq!(graph.called_by.get("other"), Some(&strings(&["c"])));
    assert!(!graph.called_by.contains_key("a"));
}

#[test]
fn languages_without_calls_have_empty_graphs() {
    let info = extract(".rb", "def a\n  b\nend\ndef b\n  a()\nend\n");
    assert_eq!(info.functions.len(), 2);
    assert!(info.call_graph.calls.keys().is_empty());
    assert!(info.call_graph.called_by.keys().is_empty());
}

#[test]
fn names_are_sorted_and_listed_once() {
    let list = strings(&["b", "a", "ab", "b", "A", "", "é", "a"]);
    assert_eq!(sort_and_dedup(&list), strings(&["", "A", "a", "ab", "b", "é"]));
}

#[test]
fn constants_are_spelled_in_upper_case() {
    assert!(is_upper_case_name("MAX_SIZE_2"));
    assert!(is_upper_case_name("É"));
    assert!(is_upper_case_name("_A"));
    assert!(!is_upper_case_name("Max"));
    assert!(!is_upper_case_name("_1"));
    assert!(!is_upper_case_name(""));
    assert!(!is_upper_case_name("A-B"));
    let info = extract(".py", "LIMIT = 1\nlimit = 2\nÉTÉ: int = 3\n_2 = 4\n");
    let names: Vec<&str> = info.constants.iter().map(|c| c.name.as_str()).collect();
    assert_eq!(names, vec!["LIMIT", "ÉTÉ"]);
}

#[test]
fn identifier_shapes() {
    assert!(is_js_identifier_shape("$a_1"));
    assert!(is_js_identifier_shape("_"));
    assert!(!is_js_identifier_shape("1a"));
    assert!(!is_js_identifier_shape("text/plain"));
    assert!(!is_js_identifier_shape("é"));
    assert!(!is_js_identifier_shape(""));
    assert!(is_natspec_identifier("result"));
    assert!(is_natspec_identifier("out_"));
    assert!(is_natspec_identifier("_x1"));
    assert!(!is_natspec_identifier("The"));
    assert!(!is_natspec_identifier("a-b"));
    assert!(!is_natspec_identifier(""));
}

#[test]
fn string_keys_must_have_the_shape_of_names() {
    let info = extract(
        ".js",
        "res.format({ \"text/plain\": function () {}, \"json\": function () {}, [x]: function () {} });\n",
    );
    let names: Vec<&str> = info.functions.iter().map(|f| f.name.as_str()).collect();
    assert_eq!(names, vec!["json"]);
}

#[test]
fn block_doc_comments() {
    let text = "/**\n * First.\n *\n *  Second.\n */";
    assert_eq!(parse_block_doc_comment(text), Some("First.\n\n Second.".to_string()));
    assert_eq!(parse_block_doc_comment("/** One. */"), Some("One.".to_string()));
    assert_eq!(parse_block_doc_comment("/** */"), None);
    assert_eq!(parse_block_doc_comment("/**\n *\n */"), None);
}

#[test]
fn natspec_reads_each_tag() {
    let doc = parse_solidity_natspec(
        "/**\n * Some prose.\n * @title Token\n * @title Other\n * @notice Does a\n *   thing\n * @dev\n * @author me\n * @param amount How much\n * @param\n * @return result The product\n * @return The product\n * @inheritdoc\n * @inheritdoc Base now\n * @custom:risk high\n * @custom:risk low\n * @custom:note n\n * @unknown x\n */",
    );
    assert_eq!(doc.title.as_deref(), Some("Token"));
    assert_eq!(doc.notice.as_deref(), Some("Does a thing"));
    assert_eq!(doc.dev.as_deref(), Some(""));
    assert_eq!(doc.author.as_deref(), Some("me"));
    assert_eq!(doc.params.len(), 1);
    assert_eq!(doc.params[0].name, "amount");
    assert_eq!(doc.params[0].text, "How much");
    assert_eq!(doc.returns.len(), 2);
    assert_eq!(doc.returns[0].name.as_deref(), Some("result"));
    assert_eq!(doc.returns[0].text, "The product");
    assert_eq!(doc.returns[1].name, None);
    assert_eq!(doc.returns[1].text, "The product");
    assert_eq!(doc.inheritdoc.as_deref(), Some("Base"));
    assert_eq!(doc.custom_tag("risk"), strings(&["high", "low"]));
    assert_eq!(doc.custom_tag("note"), strings(&["n"]));
    assert_eq!(doc.custom_tag("none"), strings(&[]));
    assert_eq!(doc.custom_tags.len(), 2);
}

#[test]
fn block_delimiters_say_nothing() {
    let lines = "@notice Moves\nmuch\n@param a b";
    assert_eq!(parse_solidity_natspec(&format!("/**{}*/", lines)), parse_solidity_natspec(lines));
    let block = "/**\n * @notice Moves\n * much\n * @param a b\n */";
    assert_eq!(parse_solidity_natspec(block), parse_solidity_natspec(lines));
}

#[test]
fn prose_says_nothing() {
    let doc = parse_solidity_natspec("Only prose.\n\nNo a@b tag here.");
    assert_eq!(doc, parse_solidity_natspec(""));
    assert_eq!(doc.title, None);
    assert!(doc.params.is_empty());
}

#[test]
fn stars_are_stripped_only_in_blocks() {
    let lines = "@dev list:\n* item";
    assert_eq!(normalize_natspec_text(lines), lines);
    assert_eq!(normalize_natspec_text("  a \n"), "  a \n");
    assert_eq!(normalize_natspec_text("/** a\n *b\n * c */"), "a\nb\nc\n");
    assert_eq!(parse_solidity_natspec(lines).dev.as_deref(), Some("list: * item"));
    let block = "/**\n * @dev list:\n * item\n */";
    assert_eq!(parse_solidity_natspec(block).dev.as_deref(), Some("list: item"));
}

#[test]
fn blocks_and_lines_say_the_same() {
    let block = "/**\n * @title T\n * \n * * starred\n * @param a  b \n */";
    let lines = "@title T\n\n* starred\n@param a  b ";
    assert_eq!(parse_solidity_natspec(block), parse_solidity_natspec(lines));
    assert_eq!(parse_solidity_natspec(block).title.as_deref(), Some("T * starred"));
}

#[test]
fn prose_before_a_text_says_nothing() {
    let text = "@notice Moves\nmuch";
    assert_eq!(
        parse_solidity_natspec(&format!("Some prose.\n* more\n{}", text)),
        parse_solidity_natspec(text)
    );
    assert_eq!(
        parse_solidity_natspec("  \n/** @dev x */"),
        parse_solidity_natspec("/** @dev x */")
    );
}

#[test]
fn a_single_returned_word_is_no_name() {
    let doc = parse_solidity_natspec("@return result");
    assert_eq!(doc.returns[0].name, None);
    assert_eq!(doc.returns[0].text, "result");
}

#[test]
fn natspec_of_declarations() {
    let source = "/// @notice Old\n/** @dev Block */\ncontract A {\n    // plain\n    /// one\n    ///  two\n    function f() public {}\n    // plain\n    function g() public {}\n}\n";
    let tree = parse(source, Language::Solidity);
    let contract = find_kind(tree.root_node(), "contract_declaration").unwrap();
    assert_eq!(collect_solidity_natspec_text(&contract), Some("/** @dev Block */".to_string()));
    let f = find_kind(tree.root_node(), "function_definition").unwrap();
    assert_eq!(collect_solidity_natspec_text(&f), Some("one\n two".to_string()));
    let info = extract(".sol", source);
    assert_eq!(info.classes[0].methods[1].docstring, None);
}

#[test]
fn solidity_members() {
    let source = "error TopErr(uint code);\nevent Top(address indexed who);\ncontract A {\n    event Moved(address indexed from, uint amount) anonymous;\n    error Bad(string why);\n    modifier only(uint a) virtual { _; }\n    modifier nothing() override;\n    constructor() payable {}\n    function f(uint, string memory b) public {}\n}\n";
    let info = extract(".sol", source);
    assert_eq!(info.events.len(), 1);
    assert_eq!(info.events[0].name, "Top");
    assert!(info.events[0].params[0].indexed);
    assert!(!info.events[0].is_anonymous);
    assert_eq!(info.errors.len(), 1);
    assert_eq!(info.errors[0].params[0].name, "code");
    assert_eq!(info.errors[0].params[0].type_.as_deref(), Some("uint"));
    assert!(info.modifiers.is_empty());
    let class = &info.classes[0];
    assert_eq!(class.kind.as_deref(), Some("contract"));
    assert_eq!(class.events[0].name, "Moved");
    assert!(class.events[0].is_anonymous);
    assert_eq!(class.events[0].line_number, 4);
    assert!(class.events[0].params[0].indexed);
    assert!(!class.events[0].params[1].indexed);
    assert_eq!(class.events[0].params[1].type_, "uint");
    assert_eq!(class.errors[0].name, "Bad");
    assert_eq!(class.modifiers[0].name, "only");
    assert!(class.modifiers[0].is_virtual);
    assert!(!class.modifiers[0].is_override);
    assert!(class.modifiers[0].body_present);
    assert_eq!(class.modifiers[0].params[0].name, "a");
    assert!(class.modifiers[1].is_override);
    assert!(!class.modifiers[1].body_present);
    assert_eq!(class.methods[0].name, "constructor");
    assert_eq!(class.methods[0].state_mutability.as_deref(), Some("payable"));
    assert_eq!(class.methods[1].params, strings(&["", "b"]));
}

fn scala(text: &str) -> Vec<ImportInfo> {
    let mut out: Vec<ImportInfo> = vec![];
    parse_scala_import_text(text, &mut out, 7);
    out
}

#[test]
fn scala_import_texts() {
    let out = scala("scala.util.{Try, Success => S, Failure => _, _}");
    assert_eq!(out[0].module, "scala.util.Try");
    assert_eq!(out[1].module, "scala.util.Success");
    assert_eq!(out[1].alias.as_deref(), Some("S"));
    assert_eq!(out[0].line, 7);
    let last = &out[out.len() - 1];
    assert_eq!(last.module, "scala.util");
    assert_eq!(last.names, strings(&["*"]));
    assert_eq!(last.is_from, Some(true));
    let out = scala("a.b._");
    assert_eq!((out[0].module.as_str(), out[0].is_from), ("a.b", Some(true)));
    let out = scala("a.b.C");
    assert_eq!((out[0].module.as_str(), out[0].is_from), ("a.b.C", Some(false)));
}

#[test]
fn php_aliases_are_found_in_any_case() {
    assert_eq!(
        parse_php_use_alias("A\\B As C"),
        ("A\\B".to_string(), Some("C".to_string()))
    );
    assert_eq!(parse_php_use_alias("A\\Basic"), ("A\\Basic".to_string(), None));
}

#[test]
fn swift_import_texts() {
    let module = |text: &str| parse_swift_import_text(text).map(|i| i.module);
    assert_eq!(module("import Foundation"), Some("Foundation".to_string()));
    assert_eq!(module("import struct PackageDescription"), Some("PackageDescription".to_string()));
    assert_eq!(module("@testable import MyModule;"), Some("MyModule".to_string()));
    assert_eq!(module("import UIKit.UIView"), Some("UIKit.UIView".to_string()));
    assert_eq!(module("import"), None);
    assert_eq!(module("import struct"), None);
    assert_eq!(module("let x = 1"), None);
}

#[test]
fn kotlin_import_texts() {
    let made = parse_kotlin_import_text("import a.assert.B as C;").unwrap();
    assert_eq!((made.module.as_str(), made.alias.as_deref()), ("a.assert.B", Some("C")));
    let made = parse_kotlin_import_text("import a.b.*;").unwrap();
    assert_eq!((made.module.as_str(), made.alias, made.is_from), ("a.b.*", None, None));
    assert!(parse_kotlin_import_text("import ").is_none());
    assert!(parse_kotlin_import_text("package a").is_none());
    assert_eq!(find_kotlin_as_split("a as b"), Some(1));
    assert_eq!(find_kotlin_as_split("a.B as C"), Some(3));
    assert_eq!(find_kotlin_as_split("é as b"), Some(2));
    assert_eq!(find_kotlin_as_split("a\u{a0}as b"), None);
    assert_eq!(find_kotlin_as_split("a.as.b"), None);
    assert_eq!(find_kotlin_as_split("kotlin.assert.something"), None);
    assert_eq!(find_kotlin_as_split("x as"), None);
    let made = parse_kotlin_import_text("import a.é as ü").unwrap();
    assert_eq!((made.module.as_str(), made.alias.as_deref()), ("a.é", Some("ü")));
}

#[test]
fn no_import_without_a_module() {
    let tree = parse("require ''\nrequire name\nrequire 'x'\n", Language::Ruby);
    let imports = extract_imports_from_tree(&tree, Language::Ruby).unwrap();
    assert_eq!(imports.len(), 1);
    assert_eq!(imports[0].module, "x");
    assert_eq!(imports[0].line, 3);
}

#[test]
fn python_names_follow_from() {
    let tree = parse(
        "import a, b as c\nfrom . import d\nfrom x import y, z as w\nfrom m import *\nfrom __future__ import annotations\n",
        Language::Python,
    );
    let imports = extract_imports_from_tree(&tree, Language::Python).unwrap();
    for i in &imports {
        assert_eq!(i.is_from == Some(true), !i.names.is_empty());
    }
    let modules: Vec<&str> = imports.iter().map(|i| i.module.as_str()).collect();
    assert_eq!(modules, vec!["a", "b", ".", "x", "x", "m", "__future__"]);
    assert_eq!(imports[1].alias.as_deref(), Some("c"));
    assert_eq!(imports[3].names, strings(&["z"]));
    assert_eq!(imports[3].alias.as_deref(), Some("w"));
    assert_eq!(imports[4].names, strings(&["y"]));
    assert_eq!(imports[5].names, strings(&["*"]));
    assert_eq!(imports[6].names, strings(&["annotations"]));
}

#[test]
fn required_modules_are_imported() {
    let tree = parse(
        "const a = require('a');\nrequire(`b`);\nrequire(`c${d}`);\nrequire(e);\nother('f');\nrequire(g, 'h');\nrequire('i', j);\nrequire(/* k */ 'l');\nrequire();\nrequire('');\n",
        Language::JavaScript,
    );
    let imports = extract_imports_from_tree(&tree, Language::JavaScript).unwrap();
    let modules: Vec<&str> = imports.iter().map(|i| i.module.as_str()).collect();
    assert_eq!(modules, vec!["a", "b", "l"]);
    assert_eq!(imports[1].line, 2);
    assert_eq!(imports[2].line, 8);
}

#[test]
fn dynamically_loaded_modules_are_imported() {
    let tree = parse(
        "const m = import('./lazy');\nimport(name);\nawait import(`./late`);\nimport('./data', { with: { type: 'json' } });\nimport(cond, 'x');\n",
        Language::TypeScript,
    );
    let imports = extract_imports_from_tree(&tree, Language::TypeScript).unwrap();
    let modules: Vec<&str> = imports.iter().map(|i| i.module.as_str()).collect();
    assert_eq!(modules, vec!["./lazy", "./late", "./data"]);
    assert_eq!(imports[0].is_from, Some(true));
    assert_eq!(imports[0].line, 1);
    assert_eq!(imports[1].line, 3);
}

#[test]
fn declarations_begin_behind_their_annotations() {
    let source = "class A {\n    @Override\n    @Deprecated\n    public int f() { return 1; }\n}\n";
    let tree = parse(source, Language::Java);
    let method = find_kind(tree.root_node(), "method_declaration").unwrap();
    assert_eq!(method.start_line(), 2);
    assert_eq!(decl_keyword_line_from_node(&method), 4);
    let name = method.child_by_field_name("name").unwrap();
    assert_eq!(decl_keyword_line_from_node(&name), 4);
}

#[test]
fn parameters_of_single_nodes() {
    let tree = parse("const f = (a, { b }, c) => 1;\n", Language::JavaScript);
    let arrow = find_kind(tree.root_node(), "arrow_function").unwrap();
    assert_eq!(extract_function_params(&arrow, Language::JavaScript), strings(&["a", "{ b }", "c"]));
    let tree = parse("let f x (y : int) = x\n", Language::Ocaml);
    let definition = find_kind(tree.root_node(), "value_definition").unwrap();
    let binding = find_kind(tree.root_node(), "let_binding").unwrap();
    assert_eq!(extract_function_params(&definition, Language::Ocaml), strings(&["x", "y"]));
    assert_eq!(extract_function_params(&binding, Language::Ocaml), strings(&["x", "y"]));
    assert_eq!(extract_function_params(&tree.root_node(), Language::Ocaml), strings(&[]));
    let tree = parse("def f(a, b) when a > b do\n  a\nend\n", Language::Elixir);
    let call = tree.root_node().child(0);
    assert_eq!(extract_function_params(&call, Language::Elixir), strings(&["a", "b"]));
}

#[test]
fn functions_have_the_params_of_their_nodes() {
    let source = "fn f(a: i32, (b, c): (i32, i32)) {}\n";
    let tree = parse(source, Language::Rust);
    let node = find_kind(tree.root_node(), "function_item").unwrap();
    let info = extract(".rs", source);
    assert_eq!(info.functions[0].params, extract_function_params(&node, Language::Rust));
    assert_eq!(info.functions[0].params, strings(&["a", "(b, c)"]));
}

#[test]
fn java_methods_are_functions_too() {
    let info = extract(".java", "class A { int f() { return 1; } class B { void g() {} } }\n");
    for class in &info.classes {
        for method in &class.methods {
            assert!(info.functions.contains(method));
        }
    }
    assert_eq!(info.functions.len(), 2);
}

#[test]
fn go_methods_belong_to_their_types() {
    let info = extract(
        ".go",
        "package a\ntype T struct{}\nfunc (t *T) A() {}\nfunc (u U) B() {}\nfunc (t T) C() {}\nfunc (u *U) D() {}\n",
    );
    let names = |i: usize| -> Vec<&str> {
        info.classes[i].methods.iter().map(|m| m.name.as_str()).collect()
    };
    assert_eq!(info.classes.len(), 2);
    assert_eq!(names(0), vec!["A", "C"]);
    assert_eq!(info.classes[1].name, "U");
    assert_eq!(info.classes[1].line_number, 0);
    assert_eq!(names(1), vec!["B", "D"]);
    assert!(info.functions.is_empty());
}

#[test]
fn lua_fields_are_listed_once() {
    let info = extract(
        ".lua",
        "function T.new()\n  self.a = 1\n  self.a = 2\nend\nT.a = 3\nT.B = 4\nT = {}\nT.f = function() end\nlocal U = {}\nU.x = 1\n",
    );
    assert_eq!(info.classes.len(), 1);
    let class = &info.classes[0];
    let names: Vec<&str> = class.fields.iter().map(|f| f.name.as_str()).collect();
    assert_eq!(names, vec!["a", "B"]);
    assert!(class.fields[1].is_constant);
    assert_eq!(class.line_number, 7);
    assert_eq!(class.line_end, 8);
    assert_eq!(info.functions.len(), 1);
    assert_eq!(info.functions[0].name, "f");
}

#[test]
fn lua_fields_stand_at_top_level() {
    let info = extract(
        ".lua",
        "local T = {}\nT.a = 1\nfunction T.f()\n  T.b = 2\n  self.c = 3\nend\nif x then\n  T.d = 4\nend\n",
    );
    let class = &info.classes[0];
    let names: Vec<&str> = class.fields.iter().map(|f| f.name.as_str()).collect();
    assert_eq!(names, vec!["c", "a"]);
    assert_eq!((class.line_number, class.line_end), (1, 8));
}

#[test]
fn modules_named_for_tests_mark_their_functions() {
    let info = extract(
        ".rs",
        "mod MyTesting {\n    fn a() {}\n}\nmod plain {\n    fn b() {}\n}\n",
    );
    assert_eq!(info.functions[0].decorators, strings(&["cfg(test)/* via mod MyTesting */"]));
    assert_eq!(info.functions[1].decorators, strings(&[]));
}

#[test]
fn solidity_bases_are_leaf_names() {
    let info = extract(".sol", "contract A is B.C, D, E.F.G(1) {}\n");
    assert_eq!(info.classes[0].bases, strings(&["C", "D", "G"]));
}

#[test]
fn members_before_the_first_access_specifier() {
    let info = extract(
        ".cpp",
        "struct S {\n    void a() {}\nprivate:\n    void b() {}\n};\nclass C {\n    void c() {}\nprotected:\n    void d() {}\n};\n",
    );
    let seen: Vec<Option<&str>> = info
        .classes
        .iter()
        .flat_map(|c| c.methods.iter().map(|m| m.visibility.as_deref()))
        .collect();
    assert_eq!(seen, vec![Some("public"), Some("private"), Some("private"), Some("protected")]);
}

#[test]
fn accessors_are_kept_apart() {
    let info = extract(
        ".ts",
        "class A {\n  get x(): number { return 1; }\n  set x(v: number) {}\n  static f(a: string): void;\n  f(a: string): void;\n  f(a: any): void {}\n}\n",
    );
    let names: Vec<&str> = info.classes[0].methods.iter().map(|m| m.name.as_str()).collect();
    assert_eq!(names, vec!["x", "x", "f", "f"]);
}

#[test]
fn bases_of_php_and_csharp_and_kotlin() {
    let tree = parse("<?php\nclass A extends B implements C, D {}\n", Language::Php);
    let class = find_kind(tree.root_node(), "class_declaration").unwrap();
    assert_eq!(extract_php_bases(&class), strings(&["B", "C", "D"]));
    let tree = parse("class A : B, C.D, E<F> {}\n", Language::CSharp);
    let class = find_kind(tree.root_node(), "class_declaration").unwrap();
    assert_eq!(extract_csharp_bases(&class), strings(&["B", "C.D", "E<F>"]));
    let tree = parse("class A : B() {\n}\n", Language::Kotlin);
    let class = find_kind(tree.root_node(), "class_declaration").unwrap();
    assert_eq!(extract_kotlin_bases(&class), strings(&["B"]));
}

#[test]
fn swift_bases_stand_in_an_inheritance_clause() {
    let records = vec![
        record("class_declaration", None, 0, 0, 12),
        record("class", None, 1, 0, 5),
        record("type_inheritance_clause", None, 1, 6, 12),
        record("user_type", None, 2, 6, 7),
        record("inheritance_specifier", None, 2, 8, 12),
        record("user_type", None, 3, 8, 10),
        record("type_identifier", None, 3, 11, 12),
    ];
    let tree = SyntaxTree::from_records("class A BC D".to_string(), records).unwrap();
    assert_eq!(extract_swift_bases(&tree.root_node()), strings(&["A", "BC", "D"]));
}

#[test]
fn trees_are_built_only_from_walks() {
    let source = "ab".to_string();
    let root = record("root", None, 0, 0, 2);
    let child = record("child", Some("name"), 1, 1, 2);
    let tree = SyntaxTree::from_records(source.clone(), vec![root.clone(), child.clone()]).unwrap();
    let node = tree.root_node().child_by_field_name("name").unwrap();
    assert_eq!((node.kind(), node.text()), ("child", "b"));
    assert_eq!(node.parent().unwrap().kind(), "root");
    assert!(node.prev_sibling().is_none());
    assert!(SyntaxTree::from_records(source.clone(), vec![]).is_none());
    assert!(SyntaxTree::from_records(source.clone(), vec![child.clone()]).is_none());
    let deep = record("deep", None, 2, 0, 1);
    assert!(SyntaxTree::from_records(source.clone(), vec![root.clone(), deep]).is_none());
    let long = record("long", None, 1, 0, 3);
    assert!(SyntaxTree::from_records(source.clone(), vec![root.clone(), long]).is_none());
    let narrow = record("root", None, 0, 0, 1);
    assert!(SyntaxTree::from_records(source.clone(), vec![narrow, child.clone()]).is_none());
    let early = record("early", None, 1, 0, 1);
    let both = vec![root.clone(), early.clone(), child.clone()];
    assert!(SyntaxTree::from_records(source.clone(), both).is_some());
    let swapped = vec![root.clone(), child, early];
    assert!(SyntaxTree::from_records(source.clone(), swapped).is_none());
    let below = NodeRecord { end_row: 1, ..root };
    assert!(SyntaxTree::from_records(source, vec![below.clone()]).is_none());
    assert!(SyntaxTree::from_records("\nb".to_string(), vec![below]).is_some());
}

#[test]
fn a_singleton_class_is_no_class_of_its_own() {
    let source = "class Foo\n  class << self\n    def make\n    end\n  end\nend\n";
    let info = extract(".rb", source);
    let names: Vec<&str> = info.classes.iter().map(|c| c.name.as_str()).collect();
    assert_eq!(names, ["Foo"]);
}

#[test]
fn what_stands_in_a_contract_is_not_of_the_file() {
    let source = "EFG".to_string();
    let event = |depth: usize, at: usize| {
        vec![
            record("event_definition", None, depth, at, at + 1),
            record("identifier", Some("name"), depth + 1, at, at + 1),
        ]
    };
    let mut records = vec![record("source_file", None, 0, 0, 3), record("ERROR", None, 1, 0, 3)];
    records.extend(event(2, 0));
    records.push(record("contract_declaration", None, 2, 1, 2));
    records.push(record("contract_body", Some("body"), 3, 1, 2));
    records.extend(event(4, 1));
    records.extend(event(2, 2));
    let tree = SyntaxTree::from_records(source, records).unwrap();
    let path = components("/tmp/file.sol");
    let info = extract_from_tree(&tree, Language::Solidity, &path, None).unwrap();
    let names: Vec<&str> = info.events.iter().map(|e| e.name.as_str()).collect();
    assert_eq!(names, ["E", "G"]);
}

#[test]
fn imports_are_reported_in_source_order() {
    let source = "use a::b;\nmod inner {\n    use c::d;\n}\n\nuse e::f;\n";
    let imports = extract_imports_from_tree(&parse(source, Language::Rust), Language::Rust).unwrap();
    let lines: Vec<u32> = imports.iter().map(|import| import.line).collect();
    assert_eq!(lines, [1, 3, 6]);
    let source = "package p\n\nimport (\n\t\"a\"\n\t\"b\"\n)\nimport \"c\"";
    let imports = extract_imports_from_tree(&parse(source, Language::Go), Language::Go).unwrap();
    let lines: Vec<u32> = imports.iter().map(|import| import.line).collect();
    assert_eq!(lines, [4, 5, 7]);
}

#[test]
fn texts_are_parsed_with_the_grammar_of_their_language() {
    let source = "const a = <b>c</b>;\n";
    let root = |tags: bool| {
        let tree = parsing::parse(source, Language::TypeScript, tags).unwrap();
        find_kind(tree.root_node(), "jsx_element").is_some()
    };
    assert!(root(true));
    assert!(!root(false));
    for (file, tags) in [("/a.tsx", true), ("/a.jsx", true), ("/a.ts", false), ("/a.js", false)] {
        match load(&components(file), None, source) {
            Loaded::Parsed(tree) => {
                assert_eq!(find_kind(tree.root_node(), "jsx_element").is_some(), tags)
            }
            _ => panic!("not parsed"),
        }
    }
    assert!(matches!(load(&components("/a.txt"), None, source), Loaded::Unparsed));
    assert!(matches!(
        load(&components("/a.txt"), Some(Language::Python), "import os\n"),
        Loaded::Parsed(_)
    ));
}

#[test]
fn each_language_has_its_grammar() {
    for (language, root) in [
        (Language::Python, "module"),
        (Language::TypeScript, "program"),
        (Language::JavaScript, "program"),
        (Language::Go, "source_file"),
        (Language::Rust, "source_file"),
        (Language::Java, "program"),
        (Language::C, "translation_unit"),
        (Language::Cpp, "translation_unit"),
        (Language::Ruby, "program"),
        (Language::Php, "program"),
        (Language::CSharp, "compilation_unit"),
        (Language::Kotlin, "source_file"),
        (Language::Scala, "compilation_unit"),
        (Language::Elixir, "source"),
        (Language::Lua, "chunk"),
        (Language::Luau, "chunk"),
        (Language::Swift, "source_file"),
        (Language::Ocaml, "compilation_unit"),
        (Language::Solidity, "source_file"),
    ] {
        assert_eq!(parse("", language).root_node().kind(), root);
    }
    let kind = |source: &str, language: Language| {
        let tree = parse(source, language);
        let kind = tree.root_node().child(0).kind().to_string();
        kind
    };
    assert_eq!(kind("class A {};", Language::Cpp), "class_specifier");
    assert_eq!(kind("type A = number", Language::Luau), "type_definition");
    assert_eq!(kind("fun a() {}", Language::Kotlin), "function_declaration");
    assert_eq!(kind("func a() {}", Language::Go), "function_declaration");
    assert_eq!(kind("fn a() {}", Language::Rust), "function_item");
    assert_eq!(kind("contract A {}", Language::Solidity), "contract_declaration");
    assert_eq!(kind("import A", Language::Swift), "import_declaration");
}

#[test]
fn a_tree_of_another_text_is_not_captured() {
    let mut parser = tree_sitter::Parser::new();
    parser.set_language(&tree_sitter_python::LANGUAGE.into()).unwrap();
    let tree = parser.parse("value = 1\n", None).unwrap();
    assert!(SyntaxTree::capture(&tree, "value = 1\n").is_some());
    assert!(SyntaxTree::capture(&tree, "v").is_none());
    assert!(SyntaxTree::capture(&tree, "value =é\n").is_none());
}

#[test]
fn texts_are_cut_at_white_space() {
    assert_eq!(trim("\u{a0}\t a b\u{3000}\r\n"), "a b");
    assert_eq!(trim("\u{200b}a"), "\u{200b}a");
    assert_eq!(split_whitespace(" a\u{2003}b \n"), strings(&["a", "b"]));
    assert_eq!(lines("a\r\nb\n\nc\r"), strings(&["a", "b", "", "c\r"]));
    assert_eq!(split("a::b::", "::"), strings(&["a", "b", ""]));
    assert_eq!(join(&strings(&["a", "b"]), ", "), "a, b");
    assert_eq!(strip("\"'a'b`", "\"'`"), "a'b");
}

#[test]
fn declarations_are_reported_on_their_lines() {
    let source = "@A\nclass B {\n  @C\n  public void d() {\n  }\n}\n";
    let info = extract(".java", source);
    let class = &info.classes[0];
    assert_eq!((class.line_number, class.line_end), (2, 6));
    let method = &class.methods[0];
    assert_eq!((method.line_number, method.line_end), (4, 5));
    assert_eq!((info.functions[0].line_number, info.functions[0].line_end), (4, 5));
    let info = extract(".go", "package p\n\nfunc (a *A) f() {\n}\n");
    let class = &info.classes[0];
    assert_eq!((class.line_number, class.line_end), (0, 0));
    assert_eq!((class.methods[0].line_number, class.methods[0].line_end), (3, 4));
    let info = extract(".lua", "local T = {}\nfunction T.f()\nend\n");
    let class = &info.classes[0];
    assert_eq!((class.line_number, class.line_end), (1, 3));
}
