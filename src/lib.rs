//! Scaffolding for small command-line applications: an application identity,
//! a registry of named subcommands, and dispatch of an invoked command name to
//! the handler registered under it.

pub mod builder;
pub mod vars;
