//! An interpreter for the eight-command tape language: a parser that builds an
//! instruction tree, a growable tape of byte cells, a line-buffered input queue
//! and a step machine that runs the tree against them.

pub mod input;
pub mod machine;
pub mod program;
pub mod tape;
