//! The manage requests: writing content, behind the command-line token.
pub mod articles;
pub mod cache;
pub mod categories;
pub mod pages;
pub mod settings;
pub mod tags;
