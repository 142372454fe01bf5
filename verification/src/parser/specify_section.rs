//! The specify section.
pub mod system_timing_check_command_arguments;
pub mod system_timing_check_commands;
pub mod system_timing_check_event_definitions;
