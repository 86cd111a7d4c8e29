//! Functions, classes and constants of files.

use tldr_ast::error::TldrError;
use tldr_ast::extract::{
    extract_classes_detailed, extract_from_tree, extract_functions_detailed,
    extract_module_constants, ModuleInfo,
};
use tldr_ast::files::{extract_file, load, Loaded};
use tldr_ast::lang::typescript::{ts_method_has_body, ts_method_has_impl_sibling};
use tldr_ast::parsing;
use tldr_ast::tree::{Node, SyntaxTree};
use tldr_ast::types::{FunctionInfo, Language};

fn parse(source: &str, language: Language) -> SyntaxTree {
    parsing::parse(source, language, false).unwrap()
}

fn components(path: &str) -> Vec<String> {
    path.split('/').map(|part| part.to_string()).collect()
}

/// What is reported of a file with the given suffix and content.
fn extract(suffix: &str, source: &str) -> ModuleInfo {
    let path = components(&format!("/tmp/file{}", suffix));
    let loaded = load(&path, None, source);
    extract_file(&path, &None, &loaded).unwrap()
}

fn find_kind<'a>(node: Node<'a>, kind: &str) -> Option<Node<'a>> {
    if node.kind() == kind {
        return Some(node);
    }
    for i in 0..node.child_count() {
        if let Some(found) = find_kind(node.child(i), kind) {
            return Some(found);
        }
    }
    None
}

#[test]
fn test_extract_python_file() {
    let suffix = ".py";
    let source = format!(r#"
"""Module docstring."""

def foo():
    """Function docstring."""
    bar()

def bar():
    pass
"#);

    let info = extract(suffix, &source);

    assert_eq!(info.language, Language::Python);
    assert!(info.docstring.is_some());
    assert_eq!(info.functions.len(), 2);
    assert!(info.functions.iter().any(|f| f.name == "foo"));
    assert!(info.call_graph.calls.contains_key("foo"));
}

#[test]
fn test_extract_handles_file_not_found() {
    let path = components("/nonexistent/file.py");
    let result = extract_file(&path, &None, &Loaded::Missing);
    assert!(matches!(result, Err(TldrError::PathNotFound(_))));
}

#[test]
fn test_extract_handles_unsupported_language() {
    let path = components(&format!("/tmp/file{}", ".xyz"));
    let source = format!("unknown language");
    let loaded = Loaded::Parsed(parse(&source, Language::Python));
    let result = extract_file(&path, &None, &loaded);
    assert!(matches!(result, Err(TldrError::UnsupportedLanguage(_))));
}

#[test]
fn test_extract_calls_in_conditional_branches() {
    let suffix = ".py";
    let source = format!(r#"
def get_imports(file, lang):
    if lang == "python":
        return parse_imports(file)
    elif lang == "go":
        return parse_go_imports(file)
    elif lang == "java":
        return parse_java_imports(file)
    else:
        return default_imports(file)

def parse_imports(f):
    pass

def parse_go_imports(f):
    pass

def parse_java_imports(f):
    pass

def default_imports(f):
    pass
"#);

    let info = extract(suffix, &source);
    let calls = info
        .call_graph
        .calls
        .get("get_imports")
        .expect("get_imports should have calls");
    assert!(
        calls.contains(&"parse_imports".to_string()),
        "should find parse_imports in if branch"
    );
    assert!(
        calls.contains(&"parse_go_imports".to_string()),
        "should find parse_go_imports in elif branch"
    );
    assert!(
        calls.contains(&"parse_java_imports".to_string()),
        "should find parse_java_imports in elif branch"
    );
    assert!(
        calls.contains(&"default_imports".to_string()),
        "should find default_imports in else branch"
    );
}

#[test]
fn test_extract_calls_in_for_while_with_try() {
    let suffix = ".py";
    let source = format!(r#"
def process(items):
    for item in items:
        transform(item)
    while check_pending():
        flush()
    with open_resource() as r:
        read_data(r)
    try:
        risky_op()
    except Exception:
        handle_error()

def transform(x):
    pass

def check_pending():
    pass

def flush():
    pass

def open_resource():
    pass

def read_data(r):
    pass

def risky_op():
    pass

def handle_error():
    pass
"#);

    let info = extract(suffix, &source);
    let calls = info
        .call_graph
        .calls
        .get("process")
        .expect("process should have calls");
    assert!(
        calls.contains(&"transform".to_string()),
        "should find transform in for loop"
    );
    assert!(
        calls.contains(&"check_pending".to_string()),
        "should find check_pending in while"
    );
    assert!(
        calls.contains(&"flush".to_string()),
        "should find flush in while body"
    );
    assert!(
        calls.contains(&"open_resource".to_string()),
        "should find open_resource in with"
    );
    assert!(
        calls.contains(&"read_data".to_string()),
        "should find read_data in with body"
    );
    assert!(
        calls.contains(&"risky_op".to_string()),
        "should find risky_op in try"
    );
    assert!(
        calls.contains(&"handle_error".to_string()),
        "should find handle_error in except"
    );
}

#[test]
fn test_extract_calls_duplicate_method_names_across_classes() {
    let suffix = ".py";
    let source = format!(r#"
class Alpha:
    def process(self):
        alpha_helper()

    def visit(self):
        visit_alpha()

class Beta:
    def process(self):
        beta_helper()

    def visit(self):
        visit_beta()

def alpha_helper():
    pass

def beta_helper():
    pass

def visit_alpha():
    pass

def visit_beta():
    pass
"#);

    let info = extract(suffix, &source);
    let calls = &info.call_graph.calls;

    let process_calls = calls.get("process").expect("process should have calls");
    assert!(
        process_calls.contains(&"alpha_helper".to_string()),
        "should find alpha_helper from Alpha.process, got: {:?}",
        process_calls
    );
    assert!(
        process_calls.contains(&"beta_helper".to_string()),
        "should find beta_helper from Beta.process, got: {:?}",
        process_calls
    );

    let visit_calls = calls.get("visit").expect("visit should have calls");
    assert!(
        visit_calls.contains(&"visit_alpha".to_string()),
        "should find visit_alpha from Alpha.visit, got: {:?}",
        visit_calls
    );
    assert!(
        visit_calls.contains(&"visit_beta".to_string()),
        "should find visit_beta from Beta.visit, got: {:?}",
        visit_calls
    );
}

#[test]
fn test_extract_python_params() {
    let source = r#"
def foo(x, y):
    pass

def bar(items: list) -> int:
    return 0

def baz(a: int, b: str = "default") -> None:
    pass
"#;
    let tree = parse(source, Language::Python);
    let functions = extract_functions_detailed(&tree, Language::Python);

    let foo = functions.iter().find(|f| f.name == "foo").unwrap();
    assert_eq!(foo.params, vec!["x".to_string(), "y".to_string()]);

    let bar = functions.iter().find(|f| f.name == "bar").unwrap();
    assert_eq!(bar.params, vec!["items".to_string()]);

    let baz = functions.iter().find(|f| f.name == "baz").unwrap();
    assert_eq!(baz.params, vec!["a".to_string(), "b".to_string()]);
}

#[test]
fn test_extract_lua_named_functions() {
    let source = r#"--- A docstring for greet
function greet(name, age)
    print("Hello " .. name)
end

local function helper(x)
    return x + 1
end
"#;
    let tree = parse(source, Language::Lua);
    let functions = extract_functions_detailed(&tree, Language::Lua);

    assert_eq!(
        functions.len(),
        2,
        "Should find 2 named functions, got: {:?}",
        functions.iter().map(|f| &f.name).collect::<Vec<_>>()
    );

    let greet = functions.iter().find(|f| f.name == "greet").unwrap();
    assert_eq!(greet.params, vec!["name", "age"]);
    assert!(greet.docstring.is_some(), "greet should have a docstring");
    assert!(greet
        .docstring
        .as_ref()
        .unwrap()
        .contains("docstring for greet"));
    assert_eq!(greet.return_type, None);
    assert!(!greet.is_async);

    let helper = functions.iter().find(|f| f.name == "helper").unwrap();
    assert_eq!(helper.params, vec!["x"]);
}

#[test]
fn test_extract_lua_assignment_functions() {
    let source = r#"M.request = function(url, opts)
    return http.get(url)
end

local myFunc = function(a, b)
    return a + b
end
"#;
    let tree = parse(source, Language::Lua);
    let functions = extract_functions_detailed(&tree, Language::Lua);

    assert!(
        functions.len() >= 2,
        "Should find at least 2 assignment functions, got: {:?}",
        functions.iter().map(|f| &f.name).collect::<Vec<_>>()
    );

    let request = functions.iter().find(|f| f.name == "request").unwrap();
    assert_eq!(request.params, vec!["url", "opts"]);

    let my_func = functions.iter().find(|f| f.name == "myFunc").unwrap();
    assert_eq!(my_func.params, vec!["a", "b"]);
}

#[test]
fn test_extract_lua_file_integration() {
    let suffix = ".lua";
    let source = format!(r#"--- Module function
function greet(name)
    print("Hello " .. name)
end

local function helper()
    return 42
end
"#);

    let info = extract(suffix, &source);
    assert_eq!(info.language, Language::Lua);
    assert!(info.functions.len() >= 2);
    assert!(info.functions.iter().any(|f| f.name == "greet"));
    assert!(info.functions.iter().any(|f| f.name == "helper"));
}

#[test]
fn test_extract_luau_typed_functions() {
    let source = r#"--- Typed function
function greet(name: string, age: number): string
    return "Hello " .. name
end

local function helper(x: number): number
    return x + 1
end
"#;
    let tree = parse(source, Language::Luau);
    let functions = extract_functions_detailed(&tree, Language::Luau);

    assert_eq!(
        functions.len(),
        2,
        "Should find 2 functions, got: {:?}",
        functions.iter().map(|f| &f.name).collect::<Vec<_>>()
    );

    let greet = functions.iter().find(|f| f.name == "greet").unwrap();
    assert_eq!(greet.params, vec!["name", "age"]);
    assert!(
        greet.return_type.is_some(),
        "greet should have a return type"
    );
    let rt = greet.return_type.as_ref().unwrap();
    assert!(
        rt.contains("string"),
        "return type should contain 'string', got: {}",
        rt
    );
    assert!(greet.docstring.is_some(), "greet should have a docstring");

    let helper = functions.iter().find(|f| f.name == "helper").unwrap();
    assert_eq!(helper.params, vec!["x"]);
    assert!(helper.return_type.is_some());
}

#[test]
fn test_extract_luau_file_integration() {
    let suffix = ".luau";
    let source = format!(r#"--!strict
function add(a: number, b: number): number
    return a + b
end
"#);

    let info = extract(suffix, &source);
    assert_eq!(info.language, Language::Luau);
    assert!(!info.functions.is_empty());
    let add = info.functions.iter().find(|f| f.name == "add").unwrap();
    assert_eq!(add.params, vec!["a", "b"]);
}

#[test]
fn test_extract_ocaml_simple_functions() {
    let source = r#"(** A greeting function *)
let greet name age =
  Printf.printf "Hello %s, age %d\n" name age

let rec factorial n =
  if n <= 1 then 1
  else n * factorial (n - 1)
"#;
    let tree = parse(source, Language::Ocaml);
    let functions = extract_functions_detailed(&tree, Language::Ocaml);

    assert!(
        functions.len() >= 2,
        "Should find at least 2 functions, got: {:?}",
        functions.iter().map(|f| &f.name).collect::<Vec<_>>()
    );

    let greet = functions.iter().find(|f| f.name == "greet").unwrap();
    assert_eq!(greet.params, vec!["name", "age"]);
    assert!(greet.docstring.is_some(), "greet should have a docstring");
    assert!(greet
        .docstring
        .as_ref()
        .unwrap()
        .contains("greeting function"));
    assert_eq!(greet.return_type, None);
    assert!(!greet.is_async);

    let factorial = functions.iter().find(|f| f.name == "factorial").unwrap();
    assert_eq!(factorial.params, vec!["n"]);
}

#[test]
fn test_extract_ocaml_typed_functions() {
    let source = r#"let add (x : int) (y : int) : int =
  x + y
"#;
    let tree = parse(source, Language::Ocaml);
    let functions = extract_functions_detailed(&tree, Language::Ocaml);

    assert_eq!(functions.len(), 1, "Should find 1 function");
    let add = &functions[0];
    assert_eq!(add.name, "add");
    assert_eq!(add.params, vec!["x", "y"]);
    assert!(add.return_type.is_some(), "add should have a return type");
    assert_eq!(add.return_type.as_ref().unwrap(), "int");
}

#[test]
fn test_extract_ocaml_file_integration() {
    let suffix = ".ml";
    let source = format!(r#"(** Add two numbers *)
let add x y = x + y

let mul x y = x * y
"#);

    let info = extract(suffix, &source);
    assert_eq!(info.language, Language::Ocaml);
    assert!(info.functions.len() >= 2);
    assert!(info.functions.iter().any(|f| f.name == "add"));
    assert!(info.functions.iter().any(|f| f.name == "mul"));
}

#[test]
fn test_extract_ocaml_no_classes() {
    let suffix = ".ml";
    let source = format!("{}\n", r#"let add x y = x + y"#);

    let info = extract(suffix, &source);
    assert!(info.classes.is_empty(), "OCaml should have no classes");
}

#[test]
fn test_extract_lua_no_classes() {
    let suffix = ".lua";
    let source = format!("{}\n", r#"function foo() end"#);

    let info = extract(suffix, &source);
    assert!(
        info.classes.is_empty(),
        "A bare top-level function is not a class, got: {:?}",
        info.classes.iter().map(|c| &c.name).collect::<Vec<_>>()
    );
    assert_eq!(info.functions.len(), 1, "foo should be a module function");
}

#[test]
fn test_extract_lua_table_class_with_methods() {
    let source = r#"local M = {}
M.__index = M
M.VERSION = "1.0"

function M.new(name)
  local self = setmetatable({}, M)
  self.name = name
  return self
end

function M:greet()
  return "hi " .. self.name
end

local function helper()
  return 1
end
"#;
    let tree = parse(source, Language::Lua);

    let classes = extract_classes_detailed(&tree, Language::Lua);
    assert_eq!(
        classes.len(),
        1,
        "expected exactly one class M, got: {:?}",
        classes.iter().map(|c| &c.name).collect::<Vec<_>>()
    );
    let m = &classes[0];
    assert_eq!(m.name, "M");
    assert_eq!(m.kind.as_deref(), Some("table"));

    assert_eq!(m.line_number, 1, "class M should anchor on `local M = {{}}`");

    let method_names: Vec<&str> = m.methods.iter().map(|x| x.name.as_str()).collect();
    assert!(
        method_names.contains(&"new"),
        "M should have method `new`, got {:?}",
        method_names
    );
    assert!(
        method_names.contains(&"greet"),
        "M should have method `greet`, got {:?}",
        method_names
    );

    assert!(
        m.methods.iter().all(|x| x.is_method),
        "all grouped members must have is_method=true"
    );

    let greet = m.methods.iter().find(|x| x.name == "greet").unwrap();
    assert!(
        greet.decorators.iter().any(|d| d == "method"),
        "colon method `greet` should be tagged `method`, got {:?}",
        greet.decorators
    );
    let new = m.methods.iter().find(|x| x.name == "new").unwrap();
    assert!(
        new.decorators.iter().any(|d| d == "static"),
        "dot method `new` should be tagged `static`, got {:?}",
        new.decorators
    );

    assert!(
        m.fields.iter().any(|f| f.name == "VERSION"),
        "M should capture field VERSION, got {:?}",
        m.fields.iter().map(|f| &f.name).collect::<Vec<_>>()
    );

    assert!(
        m.fields.iter().any(|f| f.name == "name"),
        "M should capture constructor field `name`, got {:?}",
        m.fields.iter().map(|f| &f.name).collect::<Vec<_>>()
    );

    let functions = extract_functions_detailed(&tree, Language::Lua);
    let fn_names: Vec<&str> = functions.iter().map(|f| f.name.as_str()).collect();
    assert!(
        fn_names.contains(&"helper"),
        "module functions should contain helper, got {:?}",
        fn_names
    );
    assert!(
        !fn_names.iter().any(|n| n.contains("M.new") || n.contains("M:greet") || *n == "new"),
        "table-qualified M.new / M:greet must NOT appear as module functions, got {:?}",
        fn_names
    );
}

#[test]
fn test_extract_lua_two_classes_grouped_separately() {
    let source = r#"local History = {}
History.__index = History
function History.new() return setmetatable({}, History) end
function History:add(line) self.line = line end

local Editor = {}
function Editor:refresh() end
function Editor:insert(c) end
Editor.__index = Editor
"#;
    let tree = parse(source, Language::Lua);
    let classes = extract_classes_detailed(&tree, Language::Lua);
    let names: Vec<&str> = classes.iter().map(|c| c.name.as_str()).collect();
    assert!(names.contains(&"History"), "expected History, got {:?}", names);
    assert!(names.contains(&"Editor"), "expected Editor, got {:?}", names);
    assert_eq!(classes.len(), 2, "exactly two classes, got {:?}", names);

    let editor = classes.iter().find(|c| c.name == "Editor").unwrap();
    let em: Vec<&str> = editor.methods.iter().map(|x| x.name.as_str()).collect();
    assert!(em.contains(&"refresh") && em.contains(&"insert"), "Editor methods {:?}", em);
}

#[test]
fn test_extract_luau_table_class_with_methods() {
    let source = r#"local Account = {}
Account.__index = Account

function Account.new(name: string): Account
  local self = setmetatable({}, Account)
  self.name = name
  return self
end

function Account:greet(): string
  return "hi"
end
"#;
    let tree = parse(source, Language::Luau);
    let classes = extract_classes_detailed(&tree, Language::Luau);
    assert_eq!(
        classes.len(),
        1,
        "expected one Luau class, got {:?}",
        classes.iter().map(|c| &c.name).collect::<Vec<_>>()
    );
    let acc = &classes[0];
    assert_eq!(acc.name, "Account");
    let mnames: Vec<&str> = acc.methods.iter().map(|x| x.name.as_str()).collect();
    assert!(mnames.contains(&"new") && mnames.contains(&"greet"), "methods {:?}", mnames);

    let greet = acc.methods.iter().find(|x| x.name == "greet").unwrap();
    assert!(
        greet.return_type.as_deref().map(|t| t.contains("string")).unwrap_or(false),
        "greet should carry return type string, got {:?}",
        greet.return_type
    );
}

#[test]
fn test_extract_lua_module_table_not_a_class() {
    let source = r#"local config = {}
config.timeout = 30
config.retries = 3
return config
"#;
    let tree = parse(source, Language::Lua);
    let classes = extract_classes_detailed(&tree, Language::Lua);
    assert!(
        classes.is_empty(),
        "a function-less table is not a class, got {:?}",
        classes.iter().map(|c| &c.name).collect::<Vec<_>>()
    );
}

#[test]
fn test_extract_from_tree_matches_extract_file() {
    let suffix = ".py";
    let source = format!(r#"
"""Module docstring."""

def foo():
    """Function docstring."""
    bar()

def bar():
    pass
"#);

    let info_from_file = extract(suffix, &source);

    let tree = parse(&source, Language::Python);
    let path = components("/tmp/file.py");
    let info_from_tree = extract_from_tree(&tree, Language::Python, &path, None).unwrap();

    assert_eq!(info_from_file.language, info_from_tree.language);
    assert_eq!(info_from_file.docstring, info_from_tree.docstring);
    assert_eq!(
        info_from_file.functions.len(),
        info_from_tree.functions.len()
    );
    assert_eq!(info_from_file.classes.len(), info_from_tree.classes.len());
    assert_eq!(info_from_file.imports.len(), info_from_tree.imports.len());

    for func in &info_from_file.functions {
        assert!(info_from_tree.functions.iter().any(|f| f.name == func.name));
    }
}

#[test]
fn test_extract_c_module_constants() {
    let source = r#"
#define MAX_SIZE 1024
#define VERSION "1.0.0"

const int BUFFER_LEN = 256;
int mutable_var = 42;
"#;
    let tree = parse(source, Language::C);
    let constants = extract_module_constants(&tree, Language::C);

    assert!(
        constants
            .iter()
            .any(|c| c.name == "MAX_SIZE" && c.is_constant),
        "Should extract #define MAX_SIZE. Got: {:?}",
        constants
    );
    assert!(
        constants
            .iter()
            .any(|c| c.name == "VERSION" && c.is_constant),
        "Should extract #define VERSION. Got: {:?}",
        constants
    );
    assert!(
        constants
            .iter()
            .any(|c| c.name == "BUFFER_LEN" && c.is_constant),
        "Should extract const int BUFFER_LEN. Got: {:?}",
        constants
    );

    assert!(
        !constants.iter().any(|c| c.name == "mutable_var"),
        "Should not extract non-const mutable_var"
    );
}

#[test]
fn test_extract_cpp_module_constants() {
    let source = r#"
#define MAX_THREADS 8

const int BUFFER_SIZE = 4096;
constexpr int CACHE_LINE = 64;
int global_var = 0;
"#;
    let tree = parse(source, Language::Cpp);
    let constants = extract_module_constants(&tree, Language::Cpp);

    assert!(
        constants
            .iter()
            .any(|c| c.name == "MAX_THREADS" && c.is_constant),
        "Should extract #define MAX_THREADS. Got: {:?}",
        constants
    );
    assert!(
        constants
            .iter()
            .any(|c| c.name == "BUFFER_SIZE" && c.is_constant),
        "Should extract const int BUFFER_SIZE. Got: {:?}",
        constants
    );
    assert!(
        constants
            .iter()
            .any(|c| c.name == "CACHE_LINE" && c.is_constant),
        "Should extract constexpr int CACHE_LINE. Got: {:?}",
        constants
    );
    assert!(
        !constants.iter().any(|c| c.name == "global_var"),
        "Should not extract non-const global_var"
    );
}

#[test]
fn test_extract_ruby_module_constants() {
    let source = r#"
MAX_RETRIES = 3
DEFAULT_TIMEOUT = 30
local_var = "hello"
"#;
    let tree = parse(source, Language::Ruby);
    let constants = extract_module_constants(&tree, Language::Ruby);

    assert!(
        constants
            .iter()
            .any(|c| c.name == "MAX_RETRIES" && c.is_constant),
        "Should extract UPPER_CASE constant MAX_RETRIES. Got: {:?}",
        constants
    );
    assert!(
        constants
            .iter()
            .any(|c| c.name == "DEFAULT_TIMEOUT" && c.is_constant),
        "Should extract UPPER_CASE constant DEFAULT_TIMEOUT. Got: {:?}",
        constants
    );
    assert!(
        !constants.iter().any(|c| c.name == "local_var"),
        "Should not extract lowercase local_var"
    );
}

#[test]
fn test_extract_kotlin_module_constants() {
    let source = r#"
const val MAX_SIZE = 1024
val DEFAULT_NAME = "hello"
var mutableVar = 42
"#;
    let tree = parse(source, Language::Kotlin);
    let constants = extract_module_constants(&tree, Language::Kotlin);

    assert!(
        constants
            .iter()
            .any(|c| c.name == "MAX_SIZE" && c.is_constant),
        "Should extract const val MAX_SIZE. Got: {:?}",
        constants
    );
    assert!(
        constants
            .iter()
            .any(|c| c.name == "DEFAULT_NAME" && c.is_constant),
        "Should extract val DEFAULT_NAME (UPPER_CASE). Got: {:?}",
        constants
    );
    assert!(
        !constants.iter().any(|c| c.name == "mutableVar"),
        "Should not extract var mutableVar"
    );
}

#[test]
fn test_extract_php_module_constants() {
    let source = r#"<?php
const MAX_CONNECTIONS = 100;
define('API_VERSION', '2.0');
$regular_var = "hello";
"#;
    let tree = parse(source, Language::Php);
    let constants = extract_module_constants(&tree, Language::Php);

    assert!(
        constants
            .iter()
            .any(|c| c.name == "MAX_CONNECTIONS" && c.is_constant),
        "Should extract const MAX_CONNECTIONS. Got: {:?}",
        constants
    );
    assert!(
        constants
            .iter()
            .any(|c| c.name == "API_VERSION" && c.is_constant),
        "Should extract define('API_VERSION', ...). Got: {:?}",
        constants
    );
}

#[test]
fn test_extract_lua_module_constants() {
    let source = r#"
MAX_RETRIES = 5
DEFAULT_TIMEOUT = 30
local lower_case = "not a constant"
"#;
    let tree = parse(source, Language::Lua);
    let constants = extract_module_constants(&tree, Language::Lua);

    assert!(
        constants
            .iter()
            .any(|c| c.name == "MAX_RETRIES" && c.is_constant),
        "Should extract UPPER_CASE assignment MAX_RETRIES. Got: {:?}",
        constants
    );
    assert!(
        constants
            .iter()
            .any(|c| c.name == "DEFAULT_TIMEOUT" && c.is_constant),
        "Should extract UPPER_CASE assignment DEFAULT_TIMEOUT. Got: {:?}",
        constants
    );
    assert!(
        !constants.iter().any(|c| c.name == "lower_case"),
        "Should not extract lowercase variable"
    );
}

#[test]
fn test_extract_luau_module_constants() {
    let source = r#"
local MAX_SIZE = 100
local DEFAULT_NAME = "world"
local mutable_value = 42
"#;
    let tree = parse(source, Language::Luau);
    let constants = extract_module_constants(&tree, Language::Luau);

    assert!(
        constants
            .iter()
            .any(|c| c.name == "MAX_SIZE" && c.is_constant),
        "Should extract UPPER_CASE local MAX_SIZE. Got: {:?}",
        constants
    );
    assert!(
        constants
            .iter()
            .any(|c| c.name == "DEFAULT_NAME" && c.is_constant),
        "Should extract UPPER_CASE local DEFAULT_NAME. Got: {:?}",
        constants
    );
    assert!(
        !constants.iter().any(|c| c.name == "mutable_value"),
        "Should not extract lowercase mutable_value"
    );
}

#[test]
fn test_extract_elixir_module_constants() {
    let source = r#"
@MAX_RETRIES 3
@DEFAULT_TIMEOUT 30
"#;
    let tree = parse(source, Language::Elixir);
    let constants = extract_module_constants(&tree, Language::Elixir);

    assert!(
        constants
            .iter()
            .any(|c| c.name == "MAX_RETRIES" && c.is_constant),
        "Should extract @MAX_RETRIES module attribute. Got: {:?}",
        constants
    );
    assert!(
        constants
            .iter()
            .any(|c| c.name == "DEFAULT_TIMEOUT" && c.is_constant),
        "Should extract @DEFAULT_TIMEOUT module attribute. Got: {:?}",
        constants
    );
}

#[test]
fn test_extract_scala_module_constants() {
    let source = r#"
val MAX_SIZE = 1024
val DEFAULT_NAME = "hello"
var mutableVar = 42
"#;
    let tree = parse(source, Language::Scala);
    let constants = extract_module_constants(&tree, Language::Scala);

    assert!(
        constants
            .iter()
            .any(|c| c.name == "MAX_SIZE" && c.is_constant),
        "Should extract val MAX_SIZE (UPPER_CASE). Got: {:?}",
        constants
    );
    assert!(
        constants
            .iter()
            .any(|c| c.name == "DEFAULT_NAME" && c.is_constant),
        "Should extract val DEFAULT_NAME (UPPER_CASE). Got: {:?}",
        constants
    );
    assert!(
        !constants.iter().any(|c| c.name == "mutableVar"),
        "Should not extract var mutableVar"
    );
}

#[test]
fn test_extract_csharp_module_constants() {
    let source = r#"
const int MAX_SIZE = 1024;
"#;
    let tree = parse(source, Language::CSharp);
    let constants = extract_module_constants(&tree, Language::CSharp);

    assert!(
        constants
            .iter()
            .any(|c| c.name == "MAX_SIZE" && c.is_constant),
        "Should extract const int MAX_SIZE. Got: {:?}",
        constants
    );
}

#[test]
fn test_extract_ocaml_module_constants() {
    let source = r#"
let MAX_SIZE = 1024
let DEFAULT_NAME = "hello"
let lowercase_val = 42
"#;
    let tree = parse(source, Language::Ocaml);
    let constants = extract_module_constants(&tree, Language::Ocaml);

    assert!(
        constants
            .iter()
            .any(|c| c.name == "MAX_SIZE" && c.is_constant),
        "Should extract let MAX_SIZE (UPPER_CASE). Got: {:?}",
        constants
    );
    assert!(
        constants
            .iter()
            .any(|c| c.name == "DEFAULT_NAME" && c.is_constant),
        "Should extract let DEFAULT_NAME (UPPER_CASE). Got: {:?}",
        constants
    );
    assert!(
        !constants.iter().any(|c| c.name == "lowercase_val"),
        "Should not extract lowercase lowercase_val"
    );
}

#[test]
fn test_extract_swift_module_constants() {
    let source = r#"
let MAX_SIZE = 1024
let DEFAULT_NAME = "hello"
var mutableVar = 42
"#;
    let tree = parse(source, Language::Swift);
    let constants = extract_module_constants(&tree, Language::Swift);

    assert!(
        constants
            .iter()
            .any(|c| c.name == "MAX_SIZE" && c.is_constant),
        "Should extract let MAX_SIZE (UPPER_CASE). Got: {:?}",
        constants
    );
    assert!(
        constants
            .iter()
            .any(|c| c.name == "DEFAULT_NAME" && c.is_constant),
        "Should extract let DEFAULT_NAME (UPPER_CASE). Got: {:?}",
        constants
    );
    assert!(
        !constants.iter().any(|c| c.name == "mutableVar"),
        "Should not extract var mutableVar"
    );
}

#[test]
fn test_go_var_declaration_extraction() {
    let source = "package mypkg\n\nimport \"errors\"\n\nvar (\n\tErrTimeout  = errors.New(\"timeout\")\n\tErrCanceled = errors.New(\"canceled\")\n)\n";
    let tree = parse(source, Language::Go);

    let constants = extract_module_constants(&tree, Language::Go);
    let names: Vec<&str> = constants.iter().map(|c| c.name.as_str()).collect();
    assert!(
        names.contains(&"ErrTimeout"),
        "Should extract ErrTimeout from grouped var block, got: {:?}",
        names
    );
    assert!(
        names.contains(&"ErrCanceled"),
        "Should extract ErrCanceled from grouped var block, got: {:?}",
        names
    );

    for c in &constants {
        assert!(!c.is_constant, "var entries should have is_constant=false");
    }
}

#[test]
fn test_extract_js_function_expression_assignment() {
    let suffix = ".js";
    let source = format!(r#"
var app = exports = module.exports = {{}};

app.use = function use(fn) {{ return fn; }};
app.engine = function engine(ext, fn) {{ return ext; }};
app.set = function set(setting, val) {{ return val; }};
"#);

    let info = extract(suffix, &source);
    let names: Vec<&str> = info.functions.iter().map(|f| f.name.as_str()).collect();

    assert!(
        info.functions.len() >= 3,
        "Expected >=3 functions for app.X = function X() {{}} pattern, got {}: {:?}",
        info.functions.len(),
        names
    );
    assert!(names.contains(&"use"), "Missing 'use' in {:?}", names);
    assert!(names.contains(&"engine"), "Missing 'engine' in {:?}", names);
    assert!(names.contains(&"set"), "Missing 'set' in {:?}", names);

    let use_fn = info.functions.iter().find(|f| f.name == "use").unwrap();
    assert_eq!(use_fn.params, vec!["fn".to_string()]);
}

#[test]
fn test_extract_js_arrow_function_assignment() {
    let suffix = ".js";
    let source = format!(r#"
const handler = (req, res) => {{ res.end(); }};
let asyncHandler = async (x) => x + 1;
"#);

    let info = extract(suffix, &source);
    let names: Vec<&str> = info.functions.iter().map(|f| f.name.as_str()).collect();
    assert!(
        names.contains(&"handler"),
        "Missing 'handler' in {:?}",
        names
    );
    assert!(
        names.contains(&"asyncHandler"),
        "Missing 'asyncHandler' in {:?}",
        names
    );
    let async_fn = info
        .functions
        .iter()
        .find(|f| f.name == "asyncHandler")
        .unwrap();
    assert!(async_fn.is_async, "asyncHandler should be async");
}

#[test]
fn test_extract_js_prototype_method_pattern() {
    let suffix = ".js";
    let source = format!(r#"
function Foo() {{}}

Foo.prototype.bar = function bar(x) {{ return x; }};
Foo.prototype.baz = function (y) {{ return y; }};
Foo.prototype.qux = (z) => z;
"#);

    let info = extract(suffix, &source);
    let names: Vec<&str> = info.functions.iter().map(|f| f.name.as_str()).collect();
    assert!(names.contains(&"bar"), "Missing 'bar' in {:?}", names);
    assert!(names.contains(&"baz"), "Missing 'baz' in {:?}", names);
    assert!(names.contains(&"qux"), "Missing 'qux' in {:?}", names);
}

#[test]
fn test_extract_js_object_method_shorthand() {
    let suffix = ".js";
    let source = format!(r#"
module.exports = {{
  foo() {{ return 1; }},
  bar: function bar(x) {{ return x; }},
  baz: (y) => y,
}};
"#);

    let info = extract(suffix, &source);
    let names: Vec<&str> = info.functions.iter().map(|f| f.name.as_str()).collect();
    assert!(
        names.contains(&"foo"),
        "Missing 'foo' (method shorthand) in {:?}",
        names
    );
    assert!(
        names.contains(&"bar"),
        "Missing 'bar' (pair: function) in {:?}",
        names
    );
    assert!(
        names.contains(&"baz"),
        "Missing 'baz' (pair: arrow) in {:?}",
        names
    );
}

#[test]
fn test_extract_js_named_function_expression_argument() {
    let suffix = ".js";
    let source = format!(r#"
defineGetter(req, 'query', function query() {{ return 1; }});
defineGetter(req, 'protocol', function protocol() {{ return 2; }});
defineGetter(req, 'fresh', function() {{ return 3; }});
arr.forEach((x) => x);
"#);

    let info = extract(suffix, &source);
    let names: Vec<&str> = info.functions.iter().map(|f| f.name.as_str()).collect();
    assert!(
        names.contains(&"query"),
        "named function-expression arg `function query()` must be collected, got {:?}",
        names
    );
    assert!(
        names.contains(&"protocol"),
        "named function-expression arg `function protocol()` must be collected, got {:?}",
        names
    );

    assert!(
        !names.contains(&"fresh"),
        "anonymous callback arg must NOT be collected under the string label, got {:?}",
        names
    );
}

#[test]
fn test_extract_js_anonymous_callback_argument_not_collected() {
    let suffix = ".js";
    let source = format!(r#"
defineGetter(req, 'fresh', function() {{ return 3; }});
arr.forEach(function(x) {{ return x; }});
list.map((y) => y + 1);
"#);

    let info = extract(suffix, &source);
    let names: Vec<&str> = info.functions.iter().map(|f| f.name.as_str()).collect();

    assert!(
        !names.contains(&"fresh"),
        "anonymous callback must NOT be collected under the string-arg name, got {:?}",
        names
    );
    assert!(
        names.is_empty(),
        "no anonymous argument callback may produce a def, got {:?}",
        names
    );
}

#[test]
fn test_extract_js_computed_member_assignment_placeholder() {
    let suffix = ".js";

    let source = format!(r#"
app[method] = function() {{ return 1; }};
router[other] = (x) => x;
obj["key"] = function() {{ return 2; }};
"#);

    let info = extract(suffix, &source);
    let names: Vec<&str> = info.functions.iter().map(|f| f.name.as_str()).collect();
    assert!(
        names.contains(&"app.[computed]"),
        "computed-member assignment must emit a `app.[computed]` placeholder, got {:?}",
        names
    );

    assert!(
        !names.contains(&"method"),
        "the dynamic index `method` must NOT be resolved as a def name, got {:?}",
        names
    );
    assert!(
        !names.contains(&"other"),
        "the dynamic index `other` must NOT be resolved as a def name, got {:?}",
        names
    );

    assert!(
        !names.contains(&"obj.[computed]"),
        "static string key `obj[\"key\"]` must NOT emit a computed placeholder, got {:?}",
        names
    );

    let app_placeholders: Vec<&FunctionInfo> = info
        .functions
        .iter()
        .filter(|f| f.name == "app.[computed]")
        .collect();
    assert_eq!(
        app_placeholders.len(),
        1,
        "expected exactly one `app.[computed]` placeholder, got {:?}",
        names
    );
    let placeholder = app_placeholders[0];

    assert!(
        !placeholder.is_method,
        "computed placeholder must have is_method == false"
    );

    assert_eq!(
        placeholder.visibility.as_deref(),
        Some("public"),
        "computed placeholder must be public-visibility"
    );

    assert!(
        placeholder.line_number >= 1 && placeholder.line_number <= placeholder.line_end,
        "placeholder line bounds must satisfy 1 <= start ({}) <= end ({})",
        placeholder.line_number,
        placeholder.line_end
    );

    let total_placeholders = info
        .functions
        .iter()
        .filter(|f| f.name.ends_with(".[computed]"))
        .count();
    assert_eq!(
        total_placeholders, 2,
        "expected exactly two computed placeholders (app + router), got {:?}",
        names
    );
}

#[test]
fn test_extract_js_computed_member_generator_rhs_placeholder() {
    let suffix = ".js";
    let source = format!(r#"
app[method] = function*() {{ yield 1; }};
"#);

    let info = extract(suffix, &source);
    let names: Vec<&str> = info.functions.iter().map(|f| f.name.as_str()).collect();
    let count = info
        .functions
        .iter()
        .filter(|f| f.name == "app.[computed]")
        .count();
    assert_eq!(
        count, 1,
        "generator RHS `function*(){{}}` must emit exactly one `app.[computed]` placeholder, got {:?}",
        names
    );

    assert!(
        !names.contains(&"method"),
        "the dynamic index `method` must NOT be resolved as a def name, got {:?}",
        names
    );
}

#[test]
fn test_extract_tsx_named_function_expression_argument() {
    let suffix = ".tsx";
    let source = format!(r#"
defineGetter(req, 'query', function query() {{ return 1; }});
defineGetter(req, 'fresh', function() {{ return 2; }});
"#);

    let info = extract(suffix, &source);
    let names: Vec<&str> = info.functions.iter().map(|f| f.name.as_str()).collect();

    assert!(
        names.contains(&"query"),
        "TSX: named function-expression arg `function query()` must be collected, got {:?}",
        names
    );

    assert!(
        !names.contains(&"fresh"),
        "TSX: anonymous callback must NOT be collected under the string arg, got {:?}",
        names
    );
}

#[test]
fn test_extract_ts_same_patterns() {
    let suffix = ".ts";
    let source = format!(r#"
const app: any = {{}};

app.use = function use(fn: Function): any {{ return fn; }};
app.engine = (ext: string, fn: Function): any => ext;

const handler = (x: number): number => x + 1;

const obj = {{
  foo(n: number): number {{ return n; }},
  bar: function (s: string) {{ return s; }},
}};

function Klass() {{}}
Klass.prototype.method = function method(arg: number) {{ return arg; }};
"#);

    let info = extract(suffix, &source);
    let names: Vec<&str> = info.functions.iter().map(|f| f.name.as_str()).collect();
    assert!(names.contains(&"use"), "TS: missing 'use' in {:?}", names);
    assert!(
        names.contains(&"engine"),
        "TS: missing 'engine' in {:?}",
        names
    );
    assert!(
        names.contains(&"handler"),
        "TS: missing 'handler' in {:?}",
        names
    );
    assert!(names.contains(&"foo"), "TS: missing 'foo' in {:?}", names);
    assert!(names.contains(&"bar"), "TS: missing 'bar' in {:?}", names);
    assert!(
        names.contains(&"method"),
        "TS: missing 'method' (prototype) in {:?}",
        names
    );
}

#[test]
fn test_extract_ts_overload_signatures_collapse_to_impl() {
    let suffix = ".ts";
    let source = format!(r#"
class NestFactoryStatic {{
  public create(a: string): void;
  public create(a: number): void;
  public create(a: any): void {{
    return;
  }}

  static make(): void;
  static make(): void {{
    return;
  }}

  get value(): string {{
    return "x";
  }}
  set value(v: string) {{}}
}}
"#);

    let info = extract(suffix, &source);
    let class = info
        .classes
        .iter()
        .find(|c| c.name == "NestFactoryStatic")
        .expect("NestFactoryStatic class");
    let method_names: Vec<&str> = class.methods.iter().map(|m| m.name.as_str()).collect();

    let create_count = method_names.iter().filter(|n| **n == "create").count();
    assert_eq!(
        create_count, 1,
        "overloaded `create` should collapse to one impl, got {:?}",
        method_names
    );

    let create = class
        .methods
        .iter()
        .find(|m| m.name == "create")
        .expect("create method retained");
    assert!(
        create.line_end > create.line_number,
        "retained `create` should be the multi-line impl, got lines {}-{}",
        create.line_number,
        create.line_end
    );

    let make_count = method_names.iter().filter(|n| **n == "make").count();
    assert_eq!(
        make_count, 1,
        "overloaded static `make` should collapse to one impl, got {:?}",
        method_names
    );

    let value_count = method_names.iter().filter(|n| **n == "value").count();
    assert_eq!(
        value_count, 2,
        "get/set `value` accessors must both be retained, got {:?}",
        method_names
    );
}

#[test]
fn test_extract_ts_ambient_declaration_only_method_retained() {
    let suffix = ".ts";
    let source = format!(r#"
declare class Ambient {{
  onlyDecl(x: number): void;
  alsoDecl(): string;
}}
"#);

    let info = extract(suffix, &source);
    let class = info
        .classes
        .iter()
        .find(|c| c.name == "Ambient")
        .expect("Ambient class");
    let method_names: Vec<&str> = class.methods.iter().map(|m| m.name.as_str()).collect();
    assert!(
        method_names.contains(&"onlyDecl"),
        "declaration-only `onlyDecl` must be retained, got {:?}",
        method_names
    );
    assert!(
        method_names.contains(&"alsoDecl"),
        "declaration-only `alsoDecl` must be retained, got {:?}",
        method_names
    );
}

#[test]
fn test_extract_ts_same_name_methods_in_different_classes_both_kept() {
    let suffix = ".ts";
    let source = format!(r#"
class First {{
  create(): void {{
    return;
  }}
}}

class Second {{
  create(): void {{
    return;
  }}
}}
"#);

    let info = extract(suffix, &source);
    let first = info
        .classes
        .iter()
        .find(|c| c.name == "First")
        .expect("First class");
    let second = info
        .classes
        .iter()
        .find(|c| c.name == "Second")
        .expect("Second class");
    assert_eq!(
        first.methods.iter().filter(|m| m.name == "create").count(),
        1,
        "First::create must be kept"
    );
    assert_eq!(
        second.methods.iter().filter(|m| m.name == "create").count(),
        1,
        "Second::create must be kept (never deduped across classes)"
    );
}

#[test]
fn test_extract_ts_overload_bodyless_method_definition_dedup() {
    let src = "class Svc {\n  build(a: string): void;\n  build(a: any): void {\n    return;\n  }\n}\n";
    let suffix = ".ts";
    let source = format!("{src}");
    let tree = parse(&source, Language::TypeScript);

    let class_body = find_kind(tree.root_node(), "class_body").expect("class_body present");

    let mut sig: Option<Node> = None;
    let mut imp: Option<Node> = None;
    for i in 0..class_body.child_count() {
        let member = class_body.child(i);
        match member.kind() {
            "method_signature" => sig = Some(member),
            "method_definition" => imp = Some(member),
            _ => {}
        }
    }
    let sig = sig.expect("body-less overload must parse as a method_signature");
    let imp = imp.expect("the implementation must parse as a method_definition");

    assert!(
        ts_method_has_body(&imp),
        "the `method_definition` implementation must own a body"
    );
    assert!(
        !ts_method_has_body(&sig),
        "the body-less overload declaration must report no body"
    );

    assert!(
        ts_method_has_impl_sibling(&class_body, &sig),
        "body-less `build` declaration must see the `method_definition` impl as its sibling"
    );
    assert!(
        !ts_method_has_impl_sibling(&class_body, &imp),
        "the `method_definition` impl has no impl sibling -> it is never the dropped member"
    );

    let info = extract(suffix, &source);
    let class = info
        .classes
        .iter()
        .find(|c| c.name == "Svc")
        .expect("Svc class");
    let build_methods: Vec<&FunctionInfo> =
        class.methods.iter().filter(|m| m.name == "build").collect();
    assert_eq!(
        build_methods.len(),
        1,
        "the body-less `build` overload must be dropped, leaving one entry, got {:?}",
        class.methods.iter().map(|m| m.name.as_str()).collect::<Vec<_>>()
    );
    let kept = build_methods[0];
    assert!(
        kept.line_end > kept.line_number,
        "the surviving `build` must be the multi-line `method_definition` impl, got lines {}-{}",
        kept.line_number,
        kept.line_end
    );
}

#[test]
fn test_extract_c_double_pointer_param_kept() {
    let suffix = ".c";
    let source = format!("char *sdsjoin(char **argv, int argc, char *sep) {{ return 0; }}\n");

    let info = extract(suffix, &source);
    let f = info
        .functions
        .iter()
        .find(|f| f.name == "sdsjoin")
        .expect("sdsjoin function");

    assert!(
        f.params.iter().any(|p| p == "argv"),
        "double-pointer param `char **argv` must be captured, got {:?}",
        f.params
    );
    assert!(
        f.params.iter().any(|p| p == "sep"),
        "single-pointer param `char *sep` must be captured, got {:?}",
        f.params
    );
    assert!(
        f.params.iter().any(|p| p == "argc"),
        "plain param `int argc` must be captured, got {:?}",
        f.params
    );

    assert_eq!(
        f.params.len(),
        3,
        "sdsjoin must have exactly 3 params, got {:?}",
        f.params
    );
}

#[test]
fn test_extract_c_triple_pointer_param_kept() {
    let suffix = ".c";
    let source = format!("void f(char ***matrix, int n) {{ }}\n");

    let info = extract(suffix, &source);
    let f = info
        .functions
        .iter()
        .find(|f| f.name == "f")
        .expect("f function");
    assert!(
        f.params.iter().any(|p| p == "matrix"),
        "triple-pointer param `char ***matrix` must be captured, got {:?}",
        f.params
    );
    assert_eq!(f.params.len(), 2, "got {:?}", f.params);
}

#[test]
fn test_extract_elixir_struct_pattern_param_kept() {
    let suffix = ".ex";
    let source = format!("defmodule M do\n  def basic_auth(%Plug.Conn{{}} = conn, options) do\n    conn\n  end\nend\n");

    let info = extract(suffix, &source);
    let f = info
        .functions
        .iter()
        .find(|f| f.name == "basic_auth")
        .expect("basic_auth function");
    assert!(
        f.params.iter().any(|p| p == "conn"),
        "struct-pattern param `%Plug.Conn{{}} = conn` must bind `conn`, got {:?}",
        f.params
    );
    assert!(
        f.params.iter().any(|p| p == "options"),
        "plain param `options` must be captured, got {:?}",
        f.params
    );
    assert_eq!(
        f.params.len(),
        2,
        "basic_auth arity must be 2, got {:?}",
        f.params
    );
}

#[test]
fn test_extract_elixir_default_param_still_left() {
    let suffix = ".ex";
    let source = format!("defmodule M do\n  def run(opts \\\\ []) do\n    opts\n  end\nend\n");

    let info = extract(suffix, &source);
    let f = info
        .functions
        .iter()
        .find(|f| f.name == "run")
        .expect("run function");
    assert!(
        f.params.iter().any(|p| p == "opts"),
        "default-value param `opts \\\\ []` must bind `opts`, got {:?}",
        f.params
    );
}

#[test]
fn test_extract_ocaml_pointfree_function_kept() {
    let suffix = ".ml";
    let source = format!("let all = [ 1; 2 ]\nlet code = function\n  | 0 -> 1\n  | _ -> 2\nlet info e = code e\n");

    let info = extract(suffix, &source);
    let names: Vec<&str> = info.functions.iter().map(|f| f.name.as_str()).collect();
    assert!(
        names.contains(&"code"),
        "point-free `let code = function ...` must be a function, got {:?}",
        names
    );
    assert!(
        names.contains(&"info"),
        "parameterised `let info e = ...` must be a function, got {:?}",
        names
    );
    assert!(
        !names.contains(&"all"),
        "value binding `let all = [..]` must NOT be a function, got {:?}",
        names
    );
}

#[test]
fn test_java_called_by_not_doubled() {
    let suffix = ".java";
    let source = format!(r#"
class C {{
    void caller() {{
        callee();
    }}
    void callee() {{
    }}
}}
"#);

    let info = extract(suffix, &source);
    let callers = info
        .call_graph
        .called_by
        .get("callee")
        .expect("callee should have callers");
    let caller_count = callers.iter().filter(|c| *c == "caller").count();
    assert_eq!(
        caller_count, 1,
        "caller `caller` must appear exactly once in callee's called_by, got {:?}",
        callers
    );
}

#[test]
fn test_luau_mode_pragma_not_docstring() {
    let suffix = ".luau";
    let source = format!("--!nocheck\n\nlocal function expectpass(s, f)\n  f()\nend\n");

    let info = extract(suffix, &source);
    let f = info
        .functions
        .iter()
        .find(|f| f.name == "expectpass")
        .expect("expectpass function");
    assert!(
        f.docstring.is_none(),
        "Luau `--!nocheck` pragma must not be a docstring, got {:?}",
        f.docstring
    );
}

#[test]
fn test_lua_real_docstring_still_captured() {
    let suffix = ".lua";
    let source = format!("-- Adds two numbers\nlocal function add(a, b)\n  return a + b\nend\n");

    let info = extract(suffix, &source);
    let f = info
        .functions
        .iter()
        .find(|f| f.name == "add")
        .expect("add function");
    assert_eq!(
        f.docstring.as_deref(),
        Some("Adds two numbers"),
        "adjacent doc comment must be captured, got {:?}",
        f.docstring
    );
}

#[test]
fn test_ts_ambient_export_function_captured() {
    let suffix = ".d.ts";
    let source = format!("export function getAdapter(a: string): object;\nexport function create(c?: number): any;\n");

    let info = extract(suffix, &source);
    let names: Vec<&str> = info.functions.iter().map(|f| f.name.as_str()).collect();
    assert!(
        names.contains(&"getAdapter"),
        "ambient `export function getAdapter` must be captured, got {:?}",
        names
    );
    assert!(
        names.contains(&"create"),
        "ambient `export function create` must be captured, got {:?}",
        names
    );
}
