//! The version resolver policy: a config file first, the interpreter as a
//! subprocess only as a last resort.
//!
//! The resolver itself spawns nothing. It decides, from the config parse
//! result, whether the caller must ask the interpreter at all, and it
//! distills a version out of whatever the interpreter printed.

use vstd::prelude::*;
use vstd::string::StrSliceExecFns;
use crate::pyvenv_cfg::PyEnvCfg;

verus! {

/// What the resolver does next, the config file having been consulted.
pub enum VersionResolution {
    /// The config file held a version: use it, spawn nothing.
    Resolved(String),
    /// No config version: only the interpreter itself can answer.
    NeedsInterpreterOutput,
}

/// Decides the resolver's next step from the config parse result. A parsed
/// config always resolves on the spot; only its absence sends the resolver
/// to the interpreter.
pub fn plan_version_resolution(cfg: Option<PyEnvCfg>) -> (r: VersionResolution)
    ensures
        match cfg {
            Some(c) => r == VersionResolution::Resolved(c.version),
            None => r == VersionResolution::NeedsInterpreterOutput,
        },
{
    match cfg {
        Some(c) => VersionResolution::Resolved(c.version),
        None => VersionResolution::NeedsInterpreterOutput,
    }
}

/// Whitespace, as interpreter output is trimmed and split.
pub open spec fn is_ws(c: char) -> bool {
    c == ' ' || c == '\t' || c == '\n' || c == '\r'
}

/// First index at or after `i` holding a non-whitespace character, or the
/// length.
pub open spec fn ws_end(s: Seq<char>, i: int) -> int
    decreases s.len() - i,
{
    if i < 0 || i >= s.len() {
        i
    } else if is_ws(s[i]) {
        ws_end(s, i + 1)
    } else {
        i
    }
}

/// First index at or after `i` holding a whitespace character, or the
/// length.
pub open spec fn token_end(s: Seq<char>, i: int) -> int
    decreases s.len() - i,
{
    if i < 0 || i >= s.len() {
        i
    } else if !is_ws(s[i]) {
        token_end(s, i + 1)
    } else {
        i
    }
}

/// The first whitespace-delimited token of `s`, or nothing when `s` holds
/// only whitespace.
pub open spec fn first_token(s: Seq<char>) -> Option<Seq<char>> {
    let a = ws_end(s, 0);
    if a >= s.len() {
        None
    } else {
        Some(s.subrange(a, token_end(s, a)))
    }
}

fn scan_ws(s: &str, from: usize) -> (r: usize)
    requires
        from <= s@.len(),
    ensures
        from <= r <= s@.len(),
        r == ws_end(s@, from as int),
{
    let n = s.unicode_len();
    let mut i = from;
    while i < n
        invariant
            from <= i <= n,
            n == s@.len(),
            ws_end(s@, from as int) == ws_end(s@, i as int),
        decreases n - i,
    {
        let c = s.get_char(i);
        if !(c == ' ' || c == '\t' || c == '\n' || c == '\r') {
            assert(ws_end(s@, i as int) == i);
            return i;
        }
        assert(ws_end(s@, i as int) == ws_end(s@, i + 1));
        i = i + 1;
    }
    assert(ws_end(s@, i as int) == i);
    i
}

fn scan_token(s: &str, from: usize) -> (r: usize)
    requires
        from <= s@.len(),
    ensures
        from <= r <= s@.len(),
        r == token_end(s@, from as int),
{
    let n = s.unicode_len();
    let mut i = from;
    while i < n
        invariant
            from <= i <= n,
            n == s@.len(),
            token_end(s@, from as int) == token_end(s@, i as int),
        decreases n - i,
    {
        let c = s.get_char(i);
        if c == ' ' || c == '\t' || c == '\n' || c == '\r' {
            assert(token_end(s@, i as int) == i);
            return i;
        }
        assert(token_end(s@, i as int) == token_end(s@, i + 1));
        i = i + 1;
    }
    assert(token_end(s@, i as int) == i);
    i
}

/// Distills a version from what the interpreter printed: the first
/// whitespace-delimited token, trailing build annotations discarded;
/// nothing for empty or all-whitespace output.
pub fn version_from_interpreter_output(output: &str) -> (r: Option<String>)
    ensures
        match r {
            Some(v) => first_token(output@) == Some(v@),
            None => first_token(output@) is None,
        },
{
    let n = output.unicode_len();
    let a = scan_ws(output, 0);
    if a >= n {
        return None;
    }
    let b = scan_token(output, a);
    let v = output.substring_char(a, b);
    Some(v.to_owned())
}

} // verus!
