//! Tools for taking Tickflow bytecode out of game binaries and writing it
//! back as relocatable BTKS containers.
//!
//! - [`extract`] finds the subroutines that a set of entry points reaches,
//!   and makes a relocatable program of them.
//! - [`data`] holds the operations, the tables that tell what an operation
//!   does in each game, and the BTKS container.
//! - [`stream`] holds the byte sources that the engine reads from.
//! - [`parse`] reads and writes the Tickflow source language.
pub mod data;
pub mod endian;
pub mod extract;
pub mod parse;
pub mod stream;
