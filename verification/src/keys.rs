//! Stable identity keys for discovered environments and environment
//! managers, used by a caller's deduplication logic.

use vstd::prelude::*;
use crate::env::opt_str_view;

verus! {

/// The fields of a reported environment that key derivation reads. The full
/// reporting record lives with the caller; only these two paths matter here.
pub struct PythonEnvironment {
    /// Path of the interpreter binary, when known.
    pub python_executable_path: Option<String>,
    /// Root directory of the environment, when known.
    pub env_path: Option<String>,
}

/// The fields of an environment manager that key derivation reads. A
/// manager always has an executable path.
pub struct EnvManager {
    /// Path of the manager's executable.
    pub executable_path: String,
}

/// The identity key of an environment: its executable path when present,
/// else its root path, else nothing.
pub open spec fn environment_key_seq(
    executable: Option<Seq<char>>,
    env_path: Option<Seq<char>>,
) -> Option<Seq<char>> {
    match executable {
        Some(p) => Some(p),
        None => match env_path {
            Some(p) => Some(p),
            None => None,
        },
    }
}

/// Derives the identity key of an environment, preferring the executable
/// path over the root path.
pub fn get_environment_key(env: &PythonEnvironment) -> (r: Option<String>)
    ensures
        match r {
            Some(k) => environment_key_seq(
                opt_str_view(env.python_executable_path),
                opt_str_view(env.env_path),
            ) == Some(k@),
            None => environment_key_seq(
                opt_str_view(env.python_executable_path),
                opt_str_view(env.env_path),
            ) is None,
        },
{
    match &env.python_executable_path {
        Some(p) => Some(p.clone()),
        None => match &env.env_path {
            Some(p) => Some(p.clone()),
            None => None,
        },
    }
}

/// Derives the identity key of an environment manager: the string form of
/// its executable path.
pub fn get_environment_manager_key(manager: &EnvManager) -> (r: String)
    ensures
        r@ == manager.executable_path@,
{
    manager.executable_path.clone()
}

/// Law: an environment whose executable path was just probed keys back to
/// exactly that probed path, whatever its root path holds.
pub proof fn lemma_environment_key_round_trip(executable: Seq<char>, env_path: Option<Seq<char>>)
    ensures
        environment_key_seq(Some(executable), env_path) == Some(executable),
{
}

} // verus!
