//! Template rendering and form state of a repository scaffolder.

pub mod text;
pub mod repo;
pub mod help;
pub mod input;
pub mod state;
pub mod ui;
pub mod tool;
pub mod entries;
pub mod keys;
