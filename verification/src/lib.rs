//! Bookkeeping for the unknowns of symbolic differentiation, and a few of the
//! building blocks of the compiler around it.
//!
//! The heart of the crate is [`unkowns::Unkowns`]: a registry that names the
//! first-order differentiation variables of a model and interns every
//! higher-order derivative that is asked for, so that one chain of
//! differentiations has exactly one handle.
//!
//! * [`handles`] holds the handle types, [`model`] the mathematical model of
//!   the registry, and [`laws`] what is proved of every registry.
//! * [`store`] and [`overwrites`] state what is taken on trust of the hash
//!   collections of the `indexmap` and `ahash` crates.
//! * [`ir`], [`ids`] and [`span`] hold nodes of the intermediate
//!   representation.
//! * [`attrs`] and [`lints`] resolve the attributes that set lint levels.
//! * [`statement_owner`] finds the basic block that a statement belongs to.
//! * [`files`] turns the contents of a file into text, and [`upcast`] holds
//!   the trait by which a database is seen as a more general one.

pub mod attrs;
pub mod files;
pub mod handles;
pub mod ids;
pub mod ir;
pub mod laws;
pub mod lints;
pub mod model;
pub mod overwrites;
pub mod span;
pub mod statement_owner;
pub mod store;
pub mod unkowns;
pub mod upcast;
