//! Rules that every part of the grammar uses.
pub mod attributes;
pub mod identifiers;
