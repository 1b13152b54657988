//! An in-memory model of a relational database schema — databases, tables,
//! columns, typed constraints, keys and users — together with a validator
//! that reports structural problems and a deterministic generator that
//! compiles the model into dialect-specific DDL statements with bound
//! parameter lists.

pub mod datatype;
pub mod generator;
pub mod schema;
pub mod settings;
pub mod text;
pub mod validator;
