//! Verified core of the `imt` command-line front end: reading and summing
//! decimal numbers, the texts the tool prints, the command-line surface it
//! declares, and the `docker` invocations (and the file paths they need) that
//! each subcommand hands to the containerised store.

pub mod numeric;
pub mod text;
pub mod calculator;
pub mod invocation;
pub mod paths;
pub mod messages;
pub mod commands;
