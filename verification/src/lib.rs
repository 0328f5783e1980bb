//! A news site's content library: the content store with the rules of its
//! tables, the cache keys and cache actions of each request, the error
//! answers, the server and command-line configuration, and the requests that
//! the command-line client sends.
pub mod text;
pub mod slugs;
pub mod common;
pub mod db;
pub mod error;
pub mod cache;
pub mod api;
pub mod config;
pub mod cli;
