//! Statements.
pub mod case_statements;
pub mod clocking_block;
pub mod conditional_statements;
pub mod patterns;
pub mod statements;
pub mod subroutine_call_statements;
pub mod timing_control_statements;
