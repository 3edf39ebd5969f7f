//! Model-level core of the `ts_bind` TypeScript binding generator.

pub mod config;
pub mod derive_attrs;
pub mod files;
pub mod order;
pub mod parsers;
pub mod rename_all;
pub mod text;
pub mod ts;
pub mod ts_bind;
pub mod ts_bind_const;
