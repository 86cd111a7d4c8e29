//! Functions and classes, language by language.

pub mod c;
pub mod csharp;
pub mod elixir;
pub mod go;
pub mod java;
pub mod kotlin;
pub mod lua;
pub mod ocaml;
pub mod php;
pub mod python;
pub mod ruby;
pub mod rust;
pub mod scala;
pub mod solidity;
pub mod swift;
pub mod typescript;
