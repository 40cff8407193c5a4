//! The path prober: where an interpreter binary may sit under an
//! environment root, and which of the candidate locations wins.
//!
//! The library performs no I/O, so the caller passes one existence bit per
//! candidate location, gathered in candidate order.

use vstd::prelude::*;
use crate::paths::join_path;
use crate::paths::join_seq;

verus! {

/// Directory that holds the interpreter in a POSIX-style environment.
pub open spec fn bin_dir() -> Seq<char> {
    seq!['b', 'i', 'n']
}

/// Directory that holds the interpreter in a Windows-style environment.
pub open spec fn scripts_dir() -> Seq<char> {
    seq!['S', 'c', 'r', 'i', 'p', 't', 's']
}

/// The three candidate interpreter locations under `env_path`, in priority
/// order: `bin/`, then `Scripts/`, then the root itself.
pub open spec fn binary_candidates_seq(env_path: Seq<char>, bin_name: Seq<char>) -> Seq<Seq<char>> {
    seq![
        join_seq(join_seq(env_path, bin_dir()), bin_name),
        join_seq(join_seq(env_path, scripts_dir()), bin_name),
        join_seq(env_path, bin_name),
    ]
}

/// The first candidate whose existence bit is set, if any.
pub open spec fn found_binary_seq(
    env_path: Seq<char>,
    bin_name: Seq<char>,
    exists: Seq<bool>,
) -> Option<Seq<char>> {
    if exists[0] {
        Some(binary_candidates_seq(env_path, bin_name)[0])
    } else if exists[1] {
        Some(binary_candidates_seq(env_path, bin_name)[1])
    } else if exists[2] {
        Some(binary_candidates_seq(env_path, bin_name)[2])
    } else {
        None
    }
}

/// Builds the three candidate interpreter paths under `env_path`, in
/// priority order. `bin_name` is the platform's interpreter file name,
/// chosen once by the caller.
pub fn python_binary_candidates(env_path: &str, bin_name: &str) -> (r: Vec<String>)
    ensures
        r@.len() == 3,
        forall|i: int| 0 <= i < 3 ==> r@[i]@ == binary_candidates_seq(env_path@, bin_name@)[i],
{
    proof {
        reveal_strlit("bin");
        reveal_strlit("Scripts");
        assert("bin"@ =~= bin_dir());
        assert("Scripts"@ =~= scripts_dir());
    }
    let bin_dir_path = join_path(env_path, "bin");
    let scripts_dir_path = join_path(env_path, "Scripts");
    let c0 = join_path(bin_dir_path.as_str(), bin_name);
    let c1 = join_path(scripts_dir_path.as_str(), bin_name);
    let c2 = join_path(env_path, bin_name);
    let mut r: Vec<String> = Vec::new();
    r.push(c0);
    r.push(c1);
    r.push(c2);
    r
}

/// Picks the interpreter location for `env_path`: the first candidate whose
/// existence bit in `exists` is set, the bits given in candidate order.
pub fn find_python_binary_path(env_path: &str, bin_name: &str, exists: &Vec<bool>) -> (r: Option<
    String,
>)
    requires
        exists@.len() == 3,
    ensures
        match r {
            Some(p) => found_binary_seq(env_path@, bin_name@, exists@) == Some(p@),
            None => found_binary_seq(env_path@, bin_name@, exists@) is None,
        },
{
    let mut candidates = python_binary_candidates(env_path, bin_name);
    if exists[0] {
        Some(candidates.remove(0))
    } else if exists[1] {
        Some(candidates.remove(1))
    } else if exists[2] {
        Some(candidates.remove(2))
    } else {
        None
    }
}

/// Law: in a directory where all three candidate locations exist, the
/// prober returns the `bin/` path.
pub proof fn lemma_probe_prefers_bin(env_path: Seq<char>, bin_name: Seq<char>, exists: Seq<bool>)
    requires
        exists.len() == 3,
        exists[0],
    ensures
        found_binary_seq(env_path, bin_name, exists) == Some(
            join_seq(join_seq(env_path, bin_dir()), bin_name),
        ),
{
}

} // verus!
