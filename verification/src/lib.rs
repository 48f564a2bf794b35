//! What a small coding agent decides and computes: its turns, its talk with the
//! model, its settings, its tools, and what it records and shows.

pub mod agent;
pub mod config;
pub mod decimal;
pub mod failure;
pub mod json;
pub mod mcp;
pub mod model;
pub mod runs;
pub mod session;
pub mod terminal;
pub mod text;
pub mod tools;
pub mod turn;
