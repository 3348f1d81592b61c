//! Core of a differential fuzzer for the Postgres wire protocol.
//!
//! The library generates sequences of frontend operations, encodes them, decides
//! what to send and when to stop reading, compares the two response streams that
//! an oracle and a target gave, and shrinks a sequence that made them differ.
//! Everything that talks to a network lives outside of it.

pub mod comparator;
pub mod connection;
pub mod drawing;
pub mod generator;
pub mod message;
pub mod op;
pub mod passes;
pub mod profile;
pub mod random;
pub mod report;
pub mod runner;
pub mod session;
pub mod shrinker;
pub mod template;
pub mod text;
pub mod wire;
