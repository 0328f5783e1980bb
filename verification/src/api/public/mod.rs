//! The public requests: reading published content.
pub mod articles;
pub mod categories;
pub mod pages;
pub mod settings;
pub mod tags;
