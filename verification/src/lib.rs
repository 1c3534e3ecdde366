//! Static analysis of PostgreSQL migrations: a catalog model, the transitions
//! that statements make on it, and the dependency graph between its objects.
pub mod cache;
pub mod collections;
pub mod digits;
pub mod doubles;
pub mod evidence;
pub mod expr_ir;
pub mod expr_visitor;
pub mod facts;
pub mod graph;
pub mod identifiers;
pub mod laws;
pub mod model;
pub mod mutations;
pub mod outcome;
pub mod reach;
pub mod resolver;
pub mod settings;
pub mod state;
pub mod text;
pub mod transaction;
