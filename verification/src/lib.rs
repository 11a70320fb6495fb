//! A task runner's core: a tree of named shell commands, the resolution of a
//! sequence of name tokens to one command of the tree, the upward search for
//! the file that holds the tree, and the decisions taken while the command is
//! fed to a shell interpreter.

pub mod tree;
pub mod resolve;
pub mod discover;
pub mod text;
pub mod bash;
