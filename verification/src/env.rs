//! The record produced for each interpreter found on disk.

use vstd::prelude::*;

verus! {

/// Spec-level image of an `Option<String>`: the same option over the
/// string's characters.
pub open spec fn opt_str_view(o: Option<String>) -> Option<Seq<char>> {
    match o {
        Some(s) => Some(s@),
        None => None,
    }
}

/// One interpreter found on disk.
#[derive(Debug)]
pub struct PythonEnv {
    /// Path of the interpreter binary.
    pub executable: String,
    /// Root directory of the environment, present when the environment was
    /// discovered by scanning a parent directory.
    pub path: Option<String>,
    /// Version string, when one could be resolved.
    pub version: Option<String>,
}

/// Mathematical image of a `PythonEnv`.
pub struct PythonEnvView {
    pub executable: Seq<char>,
    pub path: Option<Seq<char>>,
    pub version: Option<Seq<char>>,
}

impl View for PythonEnv {
    type V = PythonEnvView;

    open spec fn view(&self) -> PythonEnvView {
        PythonEnvView {
            executable: self.executable@,
            path: opt_str_view(self.path),
            version: opt_str_view(self.version),
        }
    }
}

impl PythonEnv {
    /// Packs the three discovery results into one record, unchanged.
    pub fn new(executable: String, path: Option<String>, version: Option<String>) -> (r: Self)
        ensures
            r.executable == executable,
            r.path == path,
            r.version == version,
    {
        Self { executable, path, version }
    }
}

} // verus!
