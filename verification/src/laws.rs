//! What holds of all files.

pub mod call_sites;
pub mod calls;
pub mod class_lines;
pub mod classes;
pub mod completeness;
pub mod constants;
pub mod doc_comments;
pub mod files;
pub mod finer_rules;
pub mod functions;
pub mod import_texts;
pub mod imports;
pub mod languages;
pub mod lines;
pub mod natspec;
pub mod listing;
pub mod lua;
pub mod lua_tables;
pub mod node_names;
pub mod reported_classes;
pub mod reported_details;
pub mod reported_fields;
pub mod reported_functions;
pub mod reported_imports;
pub mod reported_parts;
pub mod reported_properties;
pub mod reported_signatures;
pub mod reported_types;
pub mod reports;
pub mod solidity;
pub mod tag_lines;
pub mod texts;
pub mod typescript;
pub mod views;
