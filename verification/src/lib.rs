//! Prompt composition for a zsh prompt engine.
use vstd::prelude::*;

pub mod config;

pub mod directory;
pub mod modules;
pub mod path;
pub mod prompt;
pub mod prompt_laws;
pub mod render;
pub mod segment;
pub mod shell;
pub mod style;
pub mod text;

verus! {
}
