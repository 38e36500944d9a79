//! Type-directed binding generation for a WebIDL-style graphics API registry.

pub mod context;
pub mod registry;
pub mod text;
pub mod types;
pub mod marshal;
pub mod naming;
pub mod generator;
