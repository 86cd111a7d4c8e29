[package]
name = "tldr_ast"
version = "0.1.0"
edition = "2021"
publish = false

[dependencies]
dunce = "=1.0.5"
tree-sitter = "=0.25.10"
tree-sitter-c = "=0.23.4"
tree-sitter-c-sharp = "=0.23.5"
tree-sitter-cpp = "=0.23.4"
tree-sitter-elixir = "=0.3.5"
tree-sitter-go = "=0.23.4"
tree-sitter-java = "=0.23.5"
tree-sitter-kotlin-ng = "=1.1.0"
tree-sitter-lua = "=0.2.0"
tree-sitter-luau = "=1.2.0"
tree-sitter-ocaml = "=0.23.2"
tree-sitter-php = "=0.23.11"
tree-sitter-python = "=0.23.6"
tree-sitter-ruby = "=0.23.1"
tree-sitter-rust = "=0.23.3"
tree-sitter-scala = "=0.23.4"
tree-sitter-solidity = "=1.2.13"
tree-sitter-swift = "=0.7.4"
tree-sitter-typescript = "=0.23.2"
