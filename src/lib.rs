//! A multi-language streaming lexer: per-language decision tables, a
//! character-driven tokenizer, an import resolver planner and a parser for the
//! declarative language-description format.
pub mod codegen;
pub mod generate;
pub mod import_resolution;
pub mod java_delimiters;
pub mod java_inference;
pub mod java_tokenset;
pub mod laws;
pub mod lexer;
pub mod normalize;
pub mod numerals;
pub mod scan;
pub mod states;
pub mod strs;
pub mod text;
pub mod textgen;
pub mod syntx;
pub mod syntx_inference;
pub mod syntx_tokenset;
pub mod tokens;
