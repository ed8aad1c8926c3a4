//! Hierarchical `KEY=VALUE` overrides for nested configuration values,
//! with introspection of every overridable key.

pub mod decimal;
pub mod error;
pub mod field;
pub mod grouping;
pub mod help;
pub mod laws;
pub mod leaf;
pub mod meta;
pub mod namespace;
pub mod order;
pub mod overrides;
pub mod text;
pub mod toolchain;
pub mod util;
pub mod value;
