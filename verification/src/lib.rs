//! Filesystem-probing primitives for discovering Python interpreter
//! installations: locating an interpreter inside a candidate environment
//! directory, reading a version out of a `pyvenv.cfg` file, deciding when an
//! interpreter has to be invoked to learn its version, enumerating virtual
//! environments under a parent directory, and deriving stable identity keys
//! for discovered environments.
//!
//! The library itself performs no I/O: every function here is a pure,
//! verified computation over plain values. Paths are plain strings whose
//! components are separated by `/`; a thin unverified shell supplies
//! directory listings, file contents, existence bits and interpreter output,
//! and hands them to the functions in this crate.

pub mod discover;
pub mod env;
pub mod keys;
pub mod paths;
pub mod probe;
pub mod pyvenv_cfg;
pub mod version;
