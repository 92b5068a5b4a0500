//! Strict decoder for interface descriptions.
//!
//! A generic document tree ([`Node`]) is decoded into a closed, typed model
//! ([`Interface`], [`Command`], [`Variable`], [`Type`], ...). Every decoder
//! rejects fields outside the recognized set of the record it decodes, and
//! each one is proved to return exactly what the functions of [`rules`] say
//! for the tree it was given. [`laws`] holds what follows for every document.

pub mod decode;
pub mod error;
pub mod laws;
pub mod model;
pub mod node;
pub mod rules;

pub use error::{DecodeError, Record};
pub use model::{
    Argument, ArrayOptions, Command, ErrorEntry, IntegerOptions, Interface, Kind, NumberOptions,
    ObjectOptions, StringFormat, StringOptions, Type, Variable,
};
pub use node::{Doc, Node, Number};
pub use rules::Fields;
