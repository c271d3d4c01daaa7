//! A two-pass assembler for the Hack machine language.
//!
//! The library turns the lines of a Hack assembly program into 16-bit machine
//! instructions. Every function in it is verified with Verus: the mnemonic
//! tables, the line classifier, the symbol table and the two passes that tie
//! them together all carry contracts stated over mathematical models of the
//! program text.
//!
//! It presents an API with a 'Config' type used to store command line configuration arguments and
//! a 'run' function that carries out the process of translation.
//!
//! Some syntax checking of the Hack assembly instructions takes place, but it is not designed to
//! be exhaustive.  In general the input is assumed to be syntactically correct.

pub use self::config::Config;
pub use self::runner::run;

pub mod code_translator;
pub mod config;
pub mod error;
pub mod laws;
pub mod parser;
pub mod runner;
pub mod symbols;
pub mod syntax;
pub mod text;
