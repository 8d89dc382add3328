//! Core library of fsPrompt: the data model, selection tree, undo history,
//! ignore-pattern handling and prompt generation, with their contracts.

pub mod types;
pub mod history;
pub mod text;
pub mod paths;
pub mod patterns;
pub mod order;
pub mod sort;
pub mod fstree;
pub mod generator;
pub mod tree;
pub mod dirtree;
pub mod ui;
pub mod perf;
pub mod watcher;
pub mod session;
pub mod scan;
pub mod config;
pub mod toast;
