//! A recipe-driven package build library.
//!
//! A declarative recipe describes a software unit: its sources with their
//! checksums, and the shell bodies of its build stages.  The library models
//! the recipe, resolves source filenames, checks digests, generates the
//! stage scripts, classifies staged entries for the source-package
//! assembler, and lays out the build pipeline as a plan of steps; a thin
//! front end performs the downloads, subprocess runs and filesystem work
//! that the plan calls for.

pub mod errors;
pub mod strutil;
pub mod digest;
pub mod urlname;
pub mod script;
pub mod recipe;
pub mod assemble;
pub mod plan;
