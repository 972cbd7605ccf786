//! Populate strongly-typed configuration structures from a snapshot of the
//! process environment.
//!
//! The crate has three parts, composed by the loader in `loader`:
//!
//! - a *name deriver* (`name`): the pure function from a structure
//!   identifier, its naming options and a field identifier to the
//!   environment-variable name that holds the field's value;
//! - a *value coercer* (`parse`): the pure functions that turn the text of a
//!   variable into a typed value, or a structured error;
//! - a *loader* (`loader`): the driver that walks a structure's field
//!   descriptors in declaration order, deriving each variable name, looking
//!   it up in an [`env::Env`] snapshot and coercing the result.
//!
//! All lookups go through an explicit [`env::Env`] value, so every function
//! here is deterministic in its arguments; reading the real process
//! environment into such a snapshot is left to the (unverified) caller.

#![allow(unused_imports)]

use vstd::prelude::*;

pub mod coerce;
pub mod env;
pub mod errors;
pub mod laws;
pub mod list;
pub mod loader;
pub mod name;
pub mod parse;
pub mod text;
pub mod values;

pub use env::Env;
pub use loader::FromEnvTrait;
pub use loader::parse_env_var;
pub use values::FieldSpec;
pub use values::FieldValue;
pub use values::PrimValue;
pub use values::PrimitiveKind;
pub use values::Shape;
pub use values::StructSpec;

pub use list::parse_vec_bool;
pub use list::parse_vec_char;
pub use list::parse_vec_float;
pub use list::parse_vec_int;
pub use list::parse_vec_string;
pub use parse::FromText;
pub use parse::parse_bool;
pub use parse::parse_char;

pub use errors::FromEnvError;
pub use errors::ParseError;
pub use name::NamingOptions;
pub use name::derive_name;
pub use name::to_env_case;
