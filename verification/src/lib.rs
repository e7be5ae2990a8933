//! A small command-line toolkit: a declarative command schema, an argument
//! resolver that decodes raw tokens into typed parameters, a dispatcher that
//! selects exactly one handler, and a renderer that serializes a dynamically
//! typed value tree into JSON, YAML-like, or indented-table text.

pub mod text;
pub mod value;
pub mod render;
pub mod schema;
pub mod resolver;
pub mod dispatch;
pub mod handlers;
