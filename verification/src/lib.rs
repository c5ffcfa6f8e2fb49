//! A compiler front end for a small interface definition language built
//! around session types: a verified parser, a semantic analyzer that
//! resolves name references and detects cyclic definitions, and two code
//! generation backends (a structure-preserving formatter and a lowering
//! emitter for protocol types).
pub mod ast;
pub mod grammar;
pub mod parser;
pub mod codegen;
pub mod graph;
pub mod type_checker;
