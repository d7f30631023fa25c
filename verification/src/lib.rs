//! Type-checking and structural-validation core for a hierarchical
//! dataflow/control-flow program graph.
//!
//! The library models a program as a hierarchical port graph whose nodes
//! carry typed operations.  Types form a closed algebra with a three-point
//! bound lattice, row-polymorphic function schemes with De Bruijn-indexed
//! variables, and an extension system that names the capabilities an
//! operation's execution adds.  A structural validator walks the hierarchy
//! and either accepts the graph or reports the first violation.

pub mod extension;
pub mod extension_set;
pub mod float_ops;
pub mod hugr;
pub mod infer;
pub mod ops;
pub mod poly_func;
pub mod signature;
pub mod type_check;
pub mod validate;
pub mod type_param;
pub mod types;
