//! Declarations.
pub mod assertion_declarations;
pub mod declaration_ranges;
