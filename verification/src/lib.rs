//! Schema-based random dummy data generation, with its core logic verified.

pub mod text;
pub mod value;
pub mod context;
pub mod builder;
pub mod generator_type;
pub mod eval;
pub mod error;
pub mod generator;
pub mod schema;
pub mod cli;
pub mod writer;
