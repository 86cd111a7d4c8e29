//! Imports of files.

use tldr_ast::imports::extract_imports_from_tree;
use tldr_ast::parsing;
use tldr_ast::tree::SyntaxTree;
use tldr_ast::types::Language;

fn parse(source: &str, language: Language) -> SyntaxTree {
    parsing::parse(source, language, false).unwrap()
}

#[test]
fn test_c_include_system() {
    let source = "#include <stdio.h>";
    let tree = parse(source, Language::C);
    let imports = extract_imports_from_tree(&tree, Language::C).unwrap();

    assert_eq!(imports.len(), 1);
    assert_eq!(imports[0].module, "stdio.h");

    assert_eq!(imports[0].is_from, Some(true));
}

#[test]
fn test_c_include_local() {
    let source = r#"#include "local.h""#;
    let tree = parse(source, Language::C);
    let imports = extract_imports_from_tree(&tree, Language::C).unwrap();

    assert_eq!(imports.len(), 1);
    assert_eq!(imports[0].module, "local.h");

    assert_eq!(imports[0].is_from, Some(false));
}

#[test]
fn test_c_include_macro_is_dropped() {
    let source = r#"
#include <stdio.h>
#include MALLOC_INCLUDE
#include MACRO(arg1, arg2)
#include "local.h"
"#;
    let tree = parse(source, Language::C);
    let imports = extract_imports_from_tree(&tree, Language::C).unwrap();

    let modules: Vec<&str> = imports.iter().map(|i| i.module.as_str()).collect();
    assert!(modules.contains(&"stdio.h"));
    assert!(modules.contains(&"local.h"));
    assert!(!modules.contains(&"MALLOC_INCLUDE"));

    assert_eq!(imports.len(), 2);
}

#[test]
fn test_c_multiple_includes() {
    let source = r#"
#include <stdio.h>
#include <stdlib.h>
#include "myheader.h"
"#;
    let tree = parse(source, Language::C);
    let imports = extract_imports_from_tree(&tree, Language::C).unwrap();

    assert_eq!(imports.len(), 3);
    let modules: Vec<&str> = imports.iter().map(|i| i.module.as_str()).collect();
    assert!(modules.contains(&"stdio.h"));
    assert!(modules.contains(&"stdlib.h"));
    assert!(modules.contains(&"myheader.h"));
}

#[test]
fn test_cpp_includes() {
    let source = r#"
#include <iostream>
#include <string>
#include "local.hpp"
"#;
    let tree = parse(source, Language::Cpp);
    let imports = extract_imports_from_tree(&tree, Language::Cpp).unwrap();

    assert_eq!(imports.len(), 3);
    let modules: Vec<&str> = imports.iter().map(|i| i.module.as_str()).collect();
    assert!(modules.contains(&"iostream"));
    assert!(modules.contains(&"string"));
    assert!(modules.contains(&"local.hpp"));
}

#[test]
fn test_python_import() {
    let source = "import os";
    let tree = parse(source, Language::Python);
    let imports = extract_imports_from_tree(&tree, Language::Python).unwrap();

    assert_eq!(imports.len(), 1);
    assert_eq!(imports[0].module, "os");
    assert_eq!(imports[0].is_from, Some(false));
}

#[test]
fn test_python_from_import() {
    let source = "from typing import List, Optional";
    let tree = parse(source, Language::Python);
    let imports = extract_imports_from_tree(&tree, Language::Python).unwrap();

    assert_eq!(imports.len(), 1);
    assert_eq!(imports[0].module, "typing");
    assert_eq!(imports[0].is_from, Some(true));
    assert!(imports[0].names.contains(&"List".to_string()));
    assert!(imports[0].names.contains(&"Optional".to_string()));
}

#[test]
fn test_typescript_import() {
    let source = "import { foo, bar } from './module';";
    let tree = parse(source, Language::TypeScript);
    let imports = extract_imports_from_tree(&tree, Language::TypeScript).unwrap();

    assert_eq!(imports.len(), 1);
    assert_eq!(imports[0].module, "./module");
    assert!(imports[0].names.contains(&"foo".to_string()));
}

#[test]
fn test_go_import() {
    let source = r#"
package main

import "fmt"
"#;
    let tree = parse(source, Language::Go);
    let imports = extract_imports_from_tree(&tree, Language::Go).unwrap();

    assert!(!imports.is_empty());
    assert!(imports.iter().any(|i| i.module == "fmt"));
}

#[test]
fn test_rust_use() {
    let source = "use std::collections::HashMap;";
    let tree = parse(source, Language::Rust);
    let imports = extract_imports_from_tree(&tree, Language::Rust).unwrap();

    assert_eq!(imports.len(), 1);
    assert!(imports[0].module.contains("std::collections"));
}

#[test]
fn test_rust_use_glob_keeps_module_bare() {
    let source = "use clap_builder::*;";
    let tree = parse(source, Language::Rust);
    let imports = extract_imports_from_tree(&tree, Language::Rust).unwrap();

    assert_eq!(imports.len(), 1, "one glob import");
    assert_eq!(
        imports[0].module, "clap_builder",
        "glob must keep the module path, not drop it to empty"
    );
    assert!(imports[0].names.contains(&"*".to_string()));
}

#[test]
fn test_rust_use_glob_keeps_scoped_module() {
    let source = "use self::ParseSizeErrorKind::*;";
    let tree = parse(source, Language::Rust);
    let imports = extract_imports_from_tree(&tree, Language::Rust).unwrap();

    assert_eq!(imports.len(), 1);
    assert_eq!(
        imports[0].module, "self::ParseSizeErrorKind",
        "scoped glob must keep the full path"
    );
    assert!(imports[0].names.contains(&"*".to_string()));
}

#[test]
fn test_rust_inline_mod_not_import_and_body_recursed() {
    let source = "\
mod tests {
    use super::*;
    use crate::foo::Bar;
}
";
    let tree = parse(source, Language::Rust);
    let imports = extract_imports_from_tree(&tree, Language::Rust).unwrap();

    assert!(
        !imports.iter().any(|i| i.module == "tests" && i.names.is_empty()),
        "inline `mod tests {{}}` must not be reported as an import, got {:?}",
        imports
    );

    assert!(
        imports.iter().any(|i| i.module == "super" && i.names.contains(&"*".to_string())),
        "nested `use super::*` inside mod body must be captured, got {:?}",
        imports
    );
    assert!(
        imports.iter().any(|i| i.module == "crate::foo" && i.names.contains(&"Bar".to_string())),
        "nested `use crate::foo::Bar` inside mod body must be captured, got {:?}",
        imports
    );
}

#[test]
fn test_rust_bare_mod_declaration_still_emitted() {
    let source = "mod foo;\nmod bar;\n";
    let tree = parse(source, Language::Rust);
    let imports = extract_imports_from_tree(&tree, Language::Rust).unwrap();

    assert!(
        imports.iter().any(|i| i.module == "foo"),
        "bare `mod foo;` should still be emitted, got {:?}",
        imports
    );
    assert!(
        imports.iter().any(|i| i.module == "bar"),
        "bare `mod bar;` should still be emitted, got {:?}",
        imports
    );
}

#[test]
fn test_ruby_require_gem() {
    let source = "require 'json'";
    let tree = parse(source, Language::Ruby);
    let imports = extract_imports_from_tree(&tree, Language::Ruby).unwrap();

    assert_eq!(imports.len(), 1);
    assert_eq!(imports[0].module, "json");

    assert_eq!(imports[0].is_from, None);
}

#[test]
fn test_ruby_require_relative() {
    let source = "require_relative './helper'";
    let tree = parse(source, Language::Ruby);
    let imports = extract_imports_from_tree(&tree, Language::Ruby).unwrap();

    assert_eq!(imports.len(), 1);
    assert_eq!(imports[0].module, "./helper");

    assert_eq!(imports[0].is_from, None);
}

#[test]
fn test_ruby_require_explicit_relative() {
    let source = "require './lib/util'";
    let tree = parse(source, Language::Ruby);
    let imports = extract_imports_from_tree(&tree, Language::Ruby).unwrap();

    assert_eq!(imports.len(), 1);
    assert_eq!(imports[0].module, "./lib/util");

    assert_eq!(imports[0].is_from, None);
}

#[test]
fn test_ruby_multiple_requires() {
    let source = r##"
require 'json'
require 'net/http'
require_relative './local_module'
"##;
    let tree = parse(source, Language::Ruby);
    let imports = extract_imports_from_tree(&tree, Language::Ruby).unwrap();

    assert_eq!(imports.len(), 3);
    let modules: Vec<&str> = imports.iter().map(|i| i.module.as_str()).collect();
    assert!(modules.contains(&"json"));
    assert!(modules.contains(&"net/http"));
    assert!(modules.contains(&"./local_module"));
}

#[test]
fn test_elixir_import() {
    let source = "import Phoenix.Controller";
    let tree = parse(source, Language::Elixir);
    let imports = extract_imports_from_tree(&tree, Language::Elixir).unwrap();

    assert_eq!(imports.len(), 1);
    assert_eq!(imports[0].module, "Phoenix.Controller");
    assert_eq!(imports[0].is_from, Some(true));
}

#[test]
fn test_elixir_alias_simple() {
    let source = "alias Phoenix.LiveView";
    let tree = parse(source, Language::Elixir);
    let imports = extract_imports_from_tree(&tree, Language::Elixir).unwrap();

    assert_eq!(imports.len(), 1);
    assert_eq!(imports[0].module, "Phoenix.LiveView");

    assert_eq!(imports[0].alias, Some("LiveView".to_string()));
}

#[test]
fn test_elixir_alias_with_as() {
    let source = "alias Phoenix.LiveView, as: LV";
    let tree = parse(source, Language::Elixir);
    let imports = extract_imports_from_tree(&tree, Language::Elixir).unwrap();

    assert_eq!(imports.len(), 1);
    assert_eq!(imports[0].module, "Phoenix.LiveView");
    assert_eq!(imports[0].alias, Some("LV".to_string()));
}

#[test]
fn test_elixir_multi_alias_expands() {
    let source = "alias Plug.{Conn, Router}";
    let tree = parse(source, Language::Elixir);
    let imports = extract_imports_from_tree(&tree, Language::Elixir).unwrap();

    assert_eq!(imports.len(), 2, "multi-alias should expand to two entries");
    let modules: Vec<&str> = imports.iter().map(|i| i.module.as_str()).collect();
    assert!(modules.contains(&"Plug.Conn"));
    assert!(modules.contains(&"Plug.Router"));
    for i in &imports {
        assert_eq!(i.is_from, Some(false), "alias signature: is_from=false");
        assert!(i.alias.is_some(), "alias signature: alias=Some(_)");
        assert!(i.names.is_empty(), "alias signature: names empty");
    }

    let conn = imports.iter().find(|i| i.module == "Plug.Conn").unwrap();
    assert_eq!(conn.alias.as_deref(), Some("Conn"));
}

#[test]
fn test_elixir_require() {
    let source = "require Logger";
    let tree = parse(source, Language::Elixir);
    let imports = extract_imports_from_tree(&tree, Language::Elixir).unwrap();

    assert_eq!(imports.len(), 1);
    assert_eq!(imports[0].module, "Logger");
}

#[test]
fn test_elixir_use() {
    let source = "use GenServer";
    let tree = parse(source, Language::Elixir);
    let imports = extract_imports_from_tree(&tree, Language::Elixir).unwrap();

    assert_eq!(imports.len(), 1);
    assert_eq!(imports[0].module, "GenServer");
    assert_eq!(imports[0].is_from, Some(true));
}

#[test]
fn test_elixir_multiple_imports() {
    let source = r#"import Phoenix.Controller
alias Phoenix.LiveView, as: LV
require Logger
use GenServer
"#;
    let tree = parse(source, Language::Elixir);
    let imports = extract_imports_from_tree(&tree, Language::Elixir).unwrap();

    assert_eq!(imports.len(), 4);
    let modules: Vec<&str> = imports.iter().map(|i| i.module.as_str()).collect();
    assert!(modules.contains(&"Phoenix.Controller"));
    assert!(modules.contains(&"Phoenix.LiveView"));
    assert!(modules.contains(&"Logger"));
    assert!(modules.contains(&"GenServer"));
}

#[test]
fn test_elixir_imports_inside_defmodule() {
    let source = r#"defmodule MyApp.Router do
  alias Phoenix.Socket
  import Plug.Conn
  use Phoenix.Router
  require Logger
end"#;
    let tree = parse(source, Language::Elixir);
    let imports = extract_imports_from_tree(&tree, Language::Elixir).unwrap();

    assert_eq!(
        imports.len(),
        4,
        "Should find all 4 imports inside defmodule"
    );
    let modules: Vec<&str> = imports.iter().map(|i| i.module.as_str()).collect();
    assert!(
        modules.contains(&"Phoenix.Socket"),
        "Should find alias Phoenix.Socket"
    );
    assert!(
        modules.contains(&"Plug.Conn"),
        "Should find import Plug.Conn"
    );
    assert!(
        modules.contains(&"Phoenix.Router"),
        "Should find use Phoenix.Router"
    );
    assert!(modules.contains(&"Logger"), "Should find require Logger");
}

#[test]
fn test_ocaml_open() {
    let source = "open List";
    let tree = parse(source, Language::Ocaml);
    let imports = extract_imports_from_tree(&tree, Language::Ocaml).unwrap();

    assert_eq!(imports.len(), 1);
    assert_eq!(imports[0].module, "List");
    assert_eq!(imports[0].is_from, Some(true));
}

#[test]
fn test_ocaml_module_alias() {
    let source = "module M = Hashtbl";
    let tree = parse(source, Language::Ocaml);
    let imports = extract_imports_from_tree(&tree, Language::Ocaml).unwrap();

    assert_eq!(imports.len(), 1);
    assert_eq!(imports[0].module, "Hashtbl");
    assert_eq!(imports[0].alias, Some("M".to_string()));
}

#[test]
fn test_ocaml_include() {
    let source = "include Set";
    let tree = parse(source, Language::Ocaml);
    let imports = extract_imports_from_tree(&tree, Language::Ocaml).unwrap();

    assert_eq!(imports.len(), 1);
    assert_eq!(imports[0].module, "Set");
    assert_eq!(imports[0].is_from, Some(true), "include should have is_from=Some(true)");
}

#[test]
fn test_ocaml_multiple_imports() {
    let source = r#"open List
module M = Hashtbl
include Set
"#;
    let tree = parse(source, Language::Ocaml);
    let imports = extract_imports_from_tree(&tree, Language::Ocaml).unwrap();

    assert_eq!(imports.len(), 3);
    let modules: Vec<&str> = imports.iter().map(|i| i.module.as_str()).collect();
    assert!(modules.contains(&"List"));
    assert!(modules.contains(&"Hashtbl"));
    assert!(modules.contains(&"Set"));
}

#[test]
fn test_ocaml_nested_module() {
    let source = "open Stdlib.Map";
    let tree = parse(source, Language::Ocaml);
    let imports = extract_imports_from_tree(&tree, Language::Ocaml).unwrap();

    assert_eq!(imports.len(), 1);
    assert_eq!(imports[0].module, "Stdlib.Map");
}

#[test]
fn test_ocaml_open_inside_module() {
    let source = r#"module M = struct
  open List
  open Hashtbl
end"#;
    let tree = parse(source, Language::Ocaml);
    let imports = extract_imports_from_tree(&tree, Language::Ocaml).unwrap();

    assert_eq!(
        imports.len(),
        2,
        "Should find 2 open statements inside module struct"
    );
    let modules: Vec<&str> = imports.iter().map(|i| i.module.as_str()).collect();
    assert!(modules.contains(&"List"), "Should find open List");
    assert!(modules.contains(&"Hashtbl"), "Should find open Hashtbl");
}

#[test]
fn test_php_use_simple() {
    let source = "<?php\nuse App\\Models\\User;";
    let tree = parse(source, Language::Php);
    let imports = extract_imports_from_tree(&tree, Language::Php).unwrap();

    assert_eq!(imports.len(), 1);
    assert_eq!(imports[0].module, "App\\Models\\User");
}

#[test]
fn test_php_use_alias() {
    let source = "<?php\nuse App\\Models\\User as UserModel;";
    let tree = parse(source, Language::Php);
    let imports = extract_imports_from_tree(&tree, Language::Php).unwrap();

    assert_eq!(imports.len(), 1);
    assert_eq!(imports[0].module, "App\\Models\\User");
    assert_eq!(imports[0].alias, Some("UserModel".to_string()));
}

#[test]
fn test_php_require() {
    let source = "<?php\nrequire 'config.php';";
    let tree = parse(source, Language::Php);
    let imports = extract_imports_from_tree(&tree, Language::Php).unwrap();

    assert_eq!(imports.len(), 1);
    assert_eq!(imports[0].module, "config.php");
    assert_eq!(imports[0].is_from, Some(true), "require should have is_from=Some(true)");
}

#[test]
fn test_php_require_once() {
    let source = "<?php\nrequire_once 'autoload.php';";
    let tree = parse(source, Language::Php);
    let imports = extract_imports_from_tree(&tree, Language::Php).unwrap();

    assert_eq!(imports.len(), 1);
    assert_eq!(imports[0].module, "autoload.php");
    assert_eq!(
        imports[0].alias,
        Some("once".to_string()),
        "require_once should have alias='once'"
    );
}

#[test]
fn test_php_multiple_imports() {
    let source = r#"<?php
use App\Models\User;
use App\Models\Post as BlogPost;
require_once 'vendor/autoload.php';
"#;
    let tree = parse(source, Language::Php);
    let imports = extract_imports_from_tree(&tree, Language::Php).unwrap();

    assert!(
        imports.len() >= 3,
        "Expected at least 3 imports, got {}",
        imports.len()
    );
}

#[test]
fn test_lua_require_standard() {
    let source = r#"local socket = require("socket")"#;
    let tree = parse(source, Language::Lua);
    let imports = extract_imports_from_tree(&tree, Language::Lua).unwrap();

    assert_eq!(imports.len(), 1, "Expected 1 import, got {}", imports.len());
    assert_eq!(imports[0].module, "socket");
}

#[test]
fn test_lua_require_no_parens() {
    let source = r#"local dict = require"socket.dict""#;
    let tree = parse(source, Language::Lua);
    let imports = extract_imports_from_tree(&tree, Language::Lua).unwrap();

    assert_eq!(imports.len(), 1, "Expected 1 import, got {}", imports.len());
    assert_eq!(imports[0].module, "socket.dict");
}

#[test]
fn test_lua_require_space_string() {
    let source = r#"local mime = require "mime""#;
    let tree = parse(source, Language::Lua);
    let imports = extract_imports_from_tree(&tree, Language::Lua).unwrap();

    assert_eq!(imports.len(), 1, "Expected 1 import, got {}", imports.len());
    assert_eq!(imports[0].module, "mime");
}

#[test]
fn test_lua_require_local() {
    let source = r#"local http = require("socket.http")"#;
    let tree = parse(source, Language::Lua);
    let imports = extract_imports_from_tree(&tree, Language::Lua).unwrap();

    assert_eq!(imports.len(), 1, "Expected 1 import, got {}", imports.len());
    assert_eq!(imports[0].module, "socket.http");
}

#[test]
fn test_lua_multiple_requires() {
    let source = r#"
local socket = require("socket")
local url = require("socket.url")
local ltn12 = require("ltn12")
local mime = require("mime")
"#;
    let tree = parse(source, Language::Lua);
    let imports = extract_imports_from_tree(&tree, Language::Lua).unwrap();

    assert!(
        imports.len() >= 4,
        "Expected at least 4 imports, got {}",
        imports.len()
    );
    let modules: Vec<&str> = imports.iter().map(|i| i.module.as_str()).collect();
    assert!(modules.contains(&"socket"), "Missing 'socket' import");
    assert!(
        modules.contains(&"socket.url"),
        "Missing 'socket.url' import"
    );
    assert!(modules.contains(&"ltn12"), "Missing 'ltn12' import");
    assert!(modules.contains(&"mime"), "Missing 'mime' import");
}

#[test]
fn test_lua_require_datamodel_dot_path() {
    let source = r#"local Foo = require(script.Parent.Foo)"#;
    let tree = parse(source, Language::Lua);
    let imports = extract_imports_from_tree(&tree, Language::Lua).unwrap();

    assert_eq!(imports.len(), 1, "Expected 1 import, got {}", imports.len());
    assert_eq!(imports[0].module, "script.Parent.Foo");
}

#[test]
fn test_lua_require_datamodel_nested_paths() {
    let source = r#"
local Util = require(script.Parent.Parent.Util)
local Net = require(game.ReplicatedStorage.Shared.Net)
"#;
    let tree = parse(source, Language::Lua);
    let imports = extract_imports_from_tree(&tree, Language::Lua).unwrap();

    let modules: Vec<&str> = imports.iter().map(|i| i.module.as_str()).collect();
    assert!(
        modules.contains(&"script.Parent.Parent.Util"),
        "Missing nested 'script.Parent.Parent.Util', got {modules:?}"
    );
    assert!(
        modules.contains(&"game.ReplicatedStorage.Shared.Net"),
        "Missing 'game.ReplicatedStorage.Shared.Net', got {modules:?}"
    );
}

#[test]
fn test_lua_require_wait_for_child() {
    let source = r#"local Config = require(script:WaitForChild("Config"))"#;
    let tree = parse(source, Language::Lua);
    let imports = extract_imports_from_tree(&tree, Language::Lua).unwrap();

    assert_eq!(imports.len(), 1, "Expected 1 import, got {}", imports.len());
    assert_eq!(imports[0].module, "Config");
}

#[test]
fn test_lua_require_bracket_index() {
    let source = r#"local B = require(script["Bracketed"])"#;
    let tree = parse(source, Language::Lua);
    let imports = extract_imports_from_tree(&tree, Language::Lua).unwrap();

    assert_eq!(imports.len(), 1, "Expected 1 import, got {}", imports.len());
    assert_eq!(imports[0].module, "script.Bracketed");
}

#[test]
fn test_luau_require_datamodel_forms() {
    let source = r#"
local Net = require(script.Parent.Net)
local Cfg = require(script:WaitForChild("Config"))
local Shared = require(game.ReplicatedStorage.Shared)
"#;
    let tree = parse(source, Language::Luau);
    let imports = extract_imports_from_tree(&tree, Language::Luau).unwrap();

    let modules: Vec<&str> = imports.iter().map(|i| i.module.as_str()).collect();
    assert!(
        modules.contains(&"script.Parent.Net"),
        "Luau: missing 'script.Parent.Net', got {modules:?}"
    );
    assert!(
        modules.contains(&"Config"),
        "Luau: missing WaitForChild 'Config', got {modules:?}"
    );
    assert!(
        modules.contains(&"game.ReplicatedStorage.Shared"),
        "Luau: missing 'game.ReplicatedStorage.Shared', got {modules:?}"
    );
}

#[test]
fn test_lua_require_mixed_string_and_datamodel() {
    let source = r#"
require("m")
local x = require("y")
local Foo = require(script.Parent.Foo)
"#;
    let tree = parse(source, Language::Lua);
    let imports = extract_imports_from_tree(&tree, Language::Lua).unwrap();

    let modules: Vec<&str> = imports.iter().map(|i| i.module.as_str()).collect();
    assert!(modules.contains(&"m"), "Missing string require 'm', got {modules:?}");
    assert!(modules.contains(&"y"), "Missing local require 'y', got {modules:?}");
    assert!(
        modules.contains(&"script.Parent.Foo"),
        "Missing DataModel require 'script.Parent.Foo', got {modules:?}"
    );
}

#[test]
fn test_lua_require_no_argument_is_dropped() {
    let source = r#"require()"#;
    let tree = parse(source, Language::Lua);
    let imports = extract_imports_from_tree(&tree, Language::Lua).unwrap();
    assert!(
        imports.is_empty(),
        "require() with no argument must not emit an import, got {imports:?}"
    );
}
