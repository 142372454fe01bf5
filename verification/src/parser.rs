//! The rules of the grammar, by the part of the language they belong to.
pub mod behavioral_statements;
pub mod declarations;
pub mod expressions;
pub mod general;
pub mod instantiations;
pub mod nesting;
pub mod specify_section;
