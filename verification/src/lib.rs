//! Structural facts about source files: what a file imports, which functions,
//! classes and constants it declares, and which of its functions call which.
//!
//! Every fact is read off a syntax tree ([`tree::SyntaxTree`]) of the file.

pub mod call_graph;
pub mod capture;
pub mod constants;
pub mod docs;
pub mod error;
pub mod extract;
pub mod files;
pub mod grammars;
pub mod grouping;
pub mod imports;
pub mod items;
pub mod lang;
pub mod laws;
pub mod lists;
pub mod names;
pub mod name_map;
pub mod natspec;
pub mod nodes;
pub mod order;
pub mod parsing;
pub mod paths;
pub mod spans;
pub mod text;
pub mod tree;
pub mod types;
pub mod walk;
