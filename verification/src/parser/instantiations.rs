//! Instantiations.
pub mod module_instantiation;
