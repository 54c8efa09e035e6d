//! A command-line password generator library: argument tokenizing, layered
//! configuration resolution, command dispatch, and a named-profile store.
//!
//! Raw invocation tokens go through the tokenizer in [`cli`], the resulting
//! options through the dispatcher there; a generating run then resolves its
//! configuration in [`resolver`] against the profile store in [`database`],
//! and hands the resolved record to the sampling code in
//! [`generation_logic`].

pub mod cli;
pub mod database;
pub mod generation_logic;
pub mod resolver;
pub mod text;
