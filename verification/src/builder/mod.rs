//! Builders of generators, and the options they take.

pub mod bound;
pub mod generator_builder;
pub mod nullable;
pub mod step;

pub use bound::{BoundValue, TextValue, ValueBound};
pub use generator_builder::{ChildGeneratorBuilder, GeneratorBuilder, ParentGeneratorBuilder, Weight};
pub use nullable::Nullable;
pub use step::ValueStep;
