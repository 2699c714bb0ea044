//! A configuration-driven command orchestrator for local multi-service
//! development: a declarative configuration is resolved into ordered lists of
//! shell operations, which a host then runs one by one.

pub mod brew;
pub mod cmd;
pub mod config;
pub mod decr;
pub mod dns;
pub mod docker;
pub mod gen;
pub mod git;
pub mod instr;
pub mod names;
pub mod prompt;
pub mod shell;
pub mod text;
pub mod util;
