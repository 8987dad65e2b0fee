//! Core logic of the Crow coding assistant: text handling, patches,
//! agent definitions and permissions, session bookkeeping and tool output.
#![allow(unused_imports)]

pub mod text;
pub mod types;
pub mod config;
pub mod agent;
pub mod session;
pub mod store;
pub mod keyed;
pub mod lock;
pub mod todo;
pub mod tools;
pub mod sort;
pub mod pair;
pub mod lsp;
pub mod storage;
pub mod cli;
pub mod react;
pub mod render;
pub mod patch;
pub mod turn;
