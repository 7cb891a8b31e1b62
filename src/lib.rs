//! Playback core of a small visual-novel engine: a line-oriented script
//! language, its parser, and an interpreter that runs a script up to the next
//! line of dialogue.

pub mod config;
pub mod instruction;
pub mod parse;
pub mod script;

pub use config::{ConfigError, PackConfig};
pub use instruction::Instruction;
pub use parse::parse_source;
pub use script::{Action, Content, Script, ScriptError};
