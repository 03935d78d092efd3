//! Primitives for analysing a JavaScript/TypeScript module graph: telling
//! bare specifiers from paths, spotting barrel files, and counting the
//! modules that a set of entry points reaches.
//!
//! The library decides and computes; it neither reads files nor resolves
//! specifiers against the disk. A traversal is therefore a state machine
//! ([`graph::GraphCounter`]) that asks its caller for one resolution or one
//! file at a time. What a traversal counts, and that it ends, is proved in
//! [`reach`] and [`ends`] over the description of the machine in
//! [`traversal`].

pub mod barrel;
pub mod config;
pub mod ends;
pub mod failure;
pub mod graph;
mod order;
pub mod paths;
pub mod project;
pub mod reach;
pub mod resolve;
pub mod specifier;
pub mod syntax;
mod text;
pub mod traversal;

pub use barrel::{is_barrel, is_barrel_file_rs, ParseFailure};
pub use config::{create_alias_option, create_tsconfig_option, ResolveConfig};
pub use failure::GraphFailure;
pub use graph::{GraphCounter, Request, Step};
pub use resolve::{resolve_outcome, resolve_request, ResolutionFailure, ResolveRequest};
pub use specifier::is_bare_module_specifier;
