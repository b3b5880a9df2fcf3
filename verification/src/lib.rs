//! The `new` command of cargo-compete, verified: what to retrieve for the arguments,
//! which group the problems form, how the new package is laid out and named, and the
//! credentials it needs.

pub mod text;
pub mod str_map;
pub mod group;
pub mod external;
pub mod toml_syntax;
pub mod toml_key;
pub mod error;
pub mod plan;
pub mod package;
pub mod manifest;
pub mod options;
pub mod credentials;
pub mod session;
