//! A gravitational N-body engine over fixed-point integers, with the level
//! construction, editing and command-line logic that surrounds it.

pub mod fixed;
pub mod gravity;
pub mod physics;
pub mod theorems;
pub mod level_builder;
pub mod command_parser;
pub mod commands;
pub mod edit_tools;
pub mod trails;
