//! OpenAPI enumeration support: the wire representation of a closed set of
//! unit variants, its schema descriptor, its JSON and parameter codec, and
//! conversions to a structurally identical external enumeration.

pub mod text;
pub mod repr;
pub mod json;
pub mod rename;
pub mod catalog;
pub mod codec;
pub mod schema;
pub mod bridge;
pub mod registry;
pub mod generate;
