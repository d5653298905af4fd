//! Sierra core-library simulation and the module definitions of a crate.
//!
//! `ids`, `program`, `values`, `extensions`, `context` and `simulation` model the
//! Sierra side: identifiers, generic arguments, runtime values, the core library
//! functions, their specialization against a type context and the simulation of one
//! invocation. `harness` holds the entry point that looks a library function up by
//! name, specializes it and simulates it. `laws` proves properties that relate several
//! simulations. `defs` computes the modules, files and items of crates from their
//! parsed files.
pub mod ids;
pub mod program;
pub mod values;
pub mod context;
pub mod extensions;
pub mod simulation;
pub mod harness;
pub mod laws;
pub mod defs;
