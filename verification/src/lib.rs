//! Converts an OpenAPI 3.x document into a set of callable tool definitions
//! and renders them as source text for an LLM-tool-calling server.
//!
//! The pipeline is pure: a [`document::Document`] (built by the caller from a
//! parsed specification) goes through reference resolution, type mapping and
//! the operation/server converters into an [`ir::MCPServer`], which the code
//! generator and the registry/constants emitters turn into text. Every stage
//! is specified by a mathematical model of the same name (`spec_...`), each
//! executable function's contract pins its result to that model, and the
//! cross-stage guarantees live in [`laws`].

pub mod cli;
pub mod codegen;
pub mod convert;
pub mod document;
pub mod error;
pub mod features;
pub mod gitignore;
pub mod ir;
pub mod laws;
pub mod mapper;
pub mod names;
pub mod patterns;
pub mod resolver;
pub mod template;
pub mod text;
