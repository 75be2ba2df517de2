//! Reading the derive input: attribute arguments, fields, groups, container.
pub mod literal;
pub mod meta;
pub mod group_parser;
pub mod field_parser;
pub mod container_parser;
