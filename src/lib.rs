//! A dictionary lookup library: the response model of the dictionary
//! service, the rendering of its answers as styled lines, the command
//! grammar and the decisions of the interactive loop.

pub mod highlight;
pub mod model;
pub mod render;
pub mod cli;
pub mod repl;
pub mod laws;
