//! A multi-repository workspace manager: the data model of a project and
//! its workspaces, and the decisions and texts of its commands.

pub mod text;
pub mod name_map;
pub mod path;
pub mod config;
pub mod workspace;
pub mod git;
pub mod templates;
pub mod commands;
pub mod tui;
pub mod screen;
pub mod cli;
pub mod laws;
