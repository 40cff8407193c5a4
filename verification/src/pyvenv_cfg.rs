//! The `pyvenv.cfg` reader: where the file may sit relative to an
//! interpreter, and how a version is read out of its text.
//!
//! The file is line-oriented `key = value` text. A line yields a version in
//! one of two forms, the first taking priority:
//!
//! * `version = <x>.<y>.<z>` — exactly three dot-separated runs of digits;
//! * `version_info = <x>.<y>.<z><rest>` — three runs of digits, then
//!   arbitrary trailing content, all of which belongs to the value.
//!
//! Around the `=`, runs of blanks (spaces or tabs) are tolerated. The value
//! of the first line matching either form is the file's version; malformed
//! lines are passed over, and a file without a matching line yields nothing.

use vstd::prelude::*;
use vstd::string::StrSliceExecFns;
use crate::paths::join_path;
use crate::paths::join_seq;
use crate::paths::parent_path;
use crate::paths::parent_seq;

verus! {

/// Parse result of a config file: a version line was found and this is its
/// value.
#[derive(Debug)]
pub struct PyEnvCfg {
    /// The version string captured from the matching line.
    pub version: String,
}

/// A decimal digit.
pub open spec fn is_digit(c: char) -> bool {
    '0' <= c && c <= '9'
}

/// A blank tolerated around the `=` of a config line.
pub open spec fn is_blank(c: char) -> bool {
    c == ' ' || c == '\t'
}

/// First index at or after `i` that does not hold a digit, or the length.
pub open spec fn digits_end(s: Seq<char>, i: int) -> int
    decreases s.len() - i,
{
    if i < 0 || i >= s.len() {
        i
    } else if is_digit(s[i]) {
        digits_end(s, i + 1)
    } else {
        i
    }
}

/// First index at or after `i` that does not hold a blank, or the length.
pub open spec fn blanks_end(s: Seq<char>, i: int) -> int
    decreases s.len() - i,
{
    if i < 0 || i >= s.len() {
        i
    } else if is_blank(s[i]) {
        blanks_end(s, i + 1)
    } else {
        i
    }
}

/// Where the value of a `<key> = <value>` line begins: the line must start
/// with `key`, then blanks, then `=`, then blanks; the value is the rest.
pub open spec fn value_start(line: Seq<char>, key: Seq<char>) -> Option<int> {
    if line.len() >= key.len() && line.take(key.len() as int) == key {
        let e = blanks_end(line, key.len() as int);
        if e < line.len() && line[e] == '=' {
            Some(blanks_end(line, e + 1))
        } else {
            None
        }
    } else {
        None
    }
}

/// End of a `<digits>.<digits>.<digits>` prefix starting at `i`: three
/// nonempty runs of digits separated by dots, if `s[i..]` begins with them.
pub open spec fn semver_prefix_end(s: Seq<char>, i: int) -> Option<int> {
    let a = digits_end(s, i);
    if a > i && a < s.len() && s[a] == '.' {
        let b = digits_end(s, a + 1);
        if b > a + 1 && b < s.len() && s[b] == '.' {
            let c = digits_end(s, b + 1);
            if c > b + 1 {
                Some(c)
            } else {
                None
            }
        } else {
            None
        }
    } else {
        None
    }
}

/// The key of the strict version line.
pub open spec fn version_key() -> Seq<char> {
    seq!['v', 'e', 'r', 's', 'i', 'o', 'n']
}

/// The key of the tolerant version line.
pub open spec fn version_info_key() -> Seq<char> {
    seq!['v', 'e', 'r', 's', 'i', 'o', 'n', '_', 'i', 'n', 'f', 'o']
}

/// The value of a `version = <x>.<y>.<z>` line: the whole value must be the
/// three digit runs.
pub open spec fn strict_version_value(l: Seq<char>) -> Option<Seq<char>> {
    match value_start(l, version_key()) {
        Some(c) => if semver_prefix_end(l, c) == Some(l.len() as int) {
            Some(l.skip(c))
        } else {
            None
        },
        None => None,
    }
}

/// The value of a `version_info = <x>.<y>.<z><rest>` line: the value must
/// begin with the three digit runs and keeps its trailing content.
pub open spec fn info_version_value(l: Seq<char>) -> Option<Seq<char>> {
    match value_start(l, version_info_key()) {
        Some(c) => if semver_prefix_end(l, c) is Some {
            Some(l.skip(c))
        } else {
            None
        },
        None => None,
    }
}

/// The version one config line yields, the strict form taking priority.
pub open spec fn line_version(l: Seq<char>) -> Option<Seq<char>> {
    if strict_version_value(l) is Some {
        strict_version_value(l)
    } else {
        info_version_value(l)
    }
}

/// First index at or after `i` holding a line break, or the length.
pub open spec fn line_break(s: Seq<char>, i: int) -> int
    decreases s.len() - i,
{
    if i < 0 || i >= s.len() {
        s.len() as int
    } else if s[i] == '\n' {
        i
    } else {
        line_break(s, i + 1)
    }
}

proof fn lemma_line_break_bounds(s: Seq<char>, i: int)
    requires
        0 <= i <= s.len(),
    ensures
        i <= line_break(s, i) <= s.len(),
    decreases s.len() - i,
{
    if i < s.len() && s[i] != '\n' {
        lemma_line_break_bounds(s, i + 1);
    }
}

/// A line with a trailing carriage return loses it.
pub open spec fn strip_cr(l: Seq<char>) -> Seq<char> {
    if l.len() > 0 && l[l.len() - 1] == '\r' {
        l.drop_last()
    } else {
        l
    }
}

/// The lines of `s` from index `i` on: segments between line breaks, a
/// trailing carriage return stripped from each, the empty segment after a
/// final line break dropped.
pub open spec fn split_lines_from(s: Seq<char>, i: int) -> Seq<Seq<char>>
    decreases s.len() - i,
    via split_lines_from_decreases
{
    if i < 0 || i >= s.len() {
        seq![]
    } else {
        let e = line_break(s, i);
        if e >= s.len() {
            seq![strip_cr(s.subrange(i, s.len() as int))]
        } else {
            seq![strip_cr(s.subrange(i, e))] + split_lines_from(s, e + 1)
        }
    }
}

#[via_fn]
proof fn split_lines_from_decreases(s: Seq<char>, i: int) {
    if 0 <= i < s.len() {
        lemma_line_break_bounds(s, i);
    }
}

/// The lines of `s`.
pub open spec fn split_lines(s: Seq<char>) -> Seq<Seq<char>> {
    split_lines_from(s, 0)
}

/// The version the lines from index `i` on yield: the value of the first
/// line that is a version line.
pub open spec fn first_version_from(lines: Seq<Seq<char>>, i: int) -> Option<Seq<char>>
    decreases lines.len() - i,
{
    if i < 0 || i >= lines.len() {
        None
    } else if line_version(lines[i]) is Some {
        line_version(lines[i])
    } else {
        first_version_from(lines, i + 1)
    }
}

/// The version recorded in a config file's text.
pub open spec fn cfg_version(contents: Seq<char>) -> Option<Seq<char>> {
    first_version_from(split_lines(contents), 0)
}

fn scan_blanks(s: &str, from: usize) -> (r: usize)
    requires
        from <= s@.len(),
    ensures
        from <= r <= s@.len(),
        r == blanks_end(s@, from as int),
{
    let n = s.unicode_len();
    let mut i = from;
    while i < n
        invariant
            from <= i <= n,
            n == s@.len(),
            blanks_end(s@, from as int) == blanks_end(s@, i as int),
        decreases n - i,
    {
        let c = s.get_char(i);
        if !(c == ' ' || c == '\t') {
            assert(blanks_end(s@, i as int) == i);
            return i;
        }
        assert(blanks_end(s@, i as int) == blanks_end(s@, i + 1));
        i = i + 1;
    }
    assert(blanks_end(s@, i as int) == i);
    i
}

fn scan_digits(s: &str, from: usize) -> (r: usize)
    requires
        from <= s@.len(),
    ensures
        from <= r <= s@.len(),
        r == digits_end(s@, from as int),
{
    let n = s.unicode_len();
    let mut i = from;
    while i < n
        invariant
            from <= i <= n,
            n == s@.len(),
            digits_end(s@, from as int) == digits_end(s@, i as int),
        decreases n - i,
    {
        let c = s.get_char(i);
        if !('0' <= c && c <= '9') {
            assert(digits_end(s@, i as int) == i);
            return i;
        }
        assert(digits_end(s@, i as int) == digits_end(s@, i + 1));
        i = i + 1;
    }
    assert(digits_end(s@, i as int) == i);
    i
}

fn scan_line_break(s: &str, from: usize) -> (r: usize)
    requires
        from <= s@.len(),
    ensures
        from <= r <= s@.len(),
        r == line_break(s@, from as int),
        r < s@.len() ==> s@[r as int] == '\n',
{
    let n = s.unicode_len();
    let mut i = from;
    while i < n
        invariant
            from <= i <= n,
            n == s@.len(),
            line_break(s@, from as int) == line_break(s@, i as int),
        decreases n - i,
    {
        let c = s.get_char(i);
        if c == '\n' {
            assert(line_break(s@, i as int) == i);
            return i;
        }
        assert(line_break(s@, i as int) == line_break(s@, i + 1));
        i = i + 1;
    }
    assert(line_break(s@, i as int) == i);
    i
}

fn starts_with_key(line: &str, key: &str) -> (r: bool)
    ensures
        r == (line@.len() >= key@.len() && line@.take(key@.len() as int) == key@),
{
    let kn = key.unicode_len();
    let ln = line.unicode_len();
    if ln < kn {
        return false;
    }
    let mut i: usize = 0;
    while i < kn
        invariant
            i <= kn <= ln,
            kn == key@.len(),
            ln == line@.len(),
            forall|j: int| 0 <= j < i ==> line@[j] == key@[j],
        decreases kn - i,
    {
        if line.get_char(i) != key.get_char(i) {
            assert(line@.take(kn as int)[i as int] != key@[i as int]);
            return false;
        }
        i = i + 1;
    }
    proof {
        assert(line@.take(kn as int) =~= key@);
    }
    true
}

/// Where the value of a `<key> = <value>` line begins, if the line has that
/// shape.
fn find_value_start(line: &str, key: &str) -> (r: Option<usize>)
    ensures
        match r {
            Some(c) => value_start(line@, key@) == Some(c as int) && c <= line@.len(),
            None => value_start(line@, key@) is None,
        },
{
    if !starts_with_key(line, key) {
        return None;
    }
    let e = scan_blanks(line, key.unicode_len());
    if e < line.unicode_len() && line.get_char(e) == '=' {
        let c = scan_blanks(line, e + 1);
        Some(c)
    } else {
        None
    }
}

/// End of the `<digits>.<digits>.<digits>` prefix of `s[from..]`, if any.
fn scan_semver(s: &str, from: usize) -> (r: Option<usize>)
    requires
        from <= s@.len(),
    ensures
        match r {
            Some(c) => semver_prefix_end(s@, from as int) == Some(c as int) && from <= c
                <= s@.len(),
            None => semver_prefix_end(s@, from as int) is None,
        },
{
    let n = s.unicode_len();
    let a = scan_digits(s, from);
    if a == from || a >= n || s.get_char(a) != '.' {
        return None;
    }
    let b = scan_digits(s, a + 1);
    if b == a + 1 || b >= n || s.get_char(b) != '.' {
        return None;
    }
    let c = scan_digits(s, b + 1);
    if c == b + 1 {
        return None;
    }
    Some(c)
}

/// The version held in one config line, if the line is a version line.
pub fn match_version_line(line: &str) -> (r: Option<String>)
    ensures
        match r {
            Some(v) => line_version(line@) == Some(v@),
            None => line_version(line@) is None,
        },
{
    proof {
        reveal_strlit("version");
        reveal_strlit("version_info");
        assert("version"@ =~= version_key());
        assert("version_info"@ =~= version_info_key());
    }
    let n = line.unicode_len();
    if let Some(c) = find_value_start(line, "version") {
        if let Some(e) = scan_semver(line, c) {
            if e == n {
                let v = line.substring_char(c, n);
                proof {
                    assert(v@ =~= line@.skip(c as int));
                }
                return Some(v.to_owned());
            }
        }
    }
    assert(strict_version_value(line@) is None);
    if let Some(c) = find_value_start(line, "version_info") {
        if scan_semver(line, c).is_some() {
            let v = line.substring_char(c, n);
            proof {
                assert(v@ =~= line@.skip(c as int));
            }
            return Some(v.to_owned());
        }
    }
    None
}

/// Splits text into its lines, as `split_lines` describes them.
pub fn split_into_lines(contents: &str) -> (r: Vec<String>)
    ensures
        r.deep_view() == split_lines(contents@),
{
    let n = contents.unicode_len();
    let mut lines: Vec<String> = Vec::new();
    let mut pos: usize = 0;
    while pos < n
        invariant
            pos <= n,
            n == contents@.len(),
            split_lines(contents@) == lines.deep_view() + split_lines_from(
                contents@,
                pos as int,
            ),
        decreases n - pos,
    {
        let ghost prev = lines.deep_view();
        let ghost old_pos = pos as int;
        let e = scan_line_break(contents, pos);
        let raw_end = if e > pos && contents.get_char(e - 1) == '\r' {
            e - 1
        } else {
            e
        };
        let line = contents.substring_char(pos, raw_end).to_owned();
        proof {
            assert(line@ =~= strip_cr(contents@.subrange(old_pos, e as int)));
        }
        lines.push(line);
        pos = if e < n {
            e + 1
        } else {
            n
        };
        proof {
            assert(lines.deep_view() =~~= prev.push(lines@[lines@.len() - 1]@));
            if e < n {
                assert(split_lines_from(contents@, old_pos) == seq![
                    strip_cr(contents@.subrange(old_pos, e as int)),
                ] + split_lines_from(contents@, e + 1));
            } else {
                assert(split_lines_from(contents@, pos as int) =~~= Seq::<Seq<char>>::empty());
                assert(split_lines_from(contents@, old_pos) =~~= seq![
                    strip_cr(contents@.subrange(old_pos, e as int)),
                ] + split_lines_from(contents@, pos as int));
            }
            assert(split_lines(contents@) =~~= lines.deep_view() + split_lines_from(
                contents@,
                pos as int,
            ));
        }
    }
    proof {
        assert(split_lines_from(contents@, pos as int) =~~= Seq::<Seq<char>>::empty());
        assert(split_lines(contents@) =~~= lines.deep_view());
    }
    lines
}

/// Reads the interpreter version out of `pyvenv.cfg` text: the value of the
/// first line of either version form, or nothing when no line matches.
pub fn parse_pyvenv_cfg(contents: &str) -> (r: Option<PyEnvCfg>)
    ensures
        match r {
            Some(cfg) => cfg_version(contents@) == Some(cfg.version@),
            None => cfg_version(contents@) is None,
        },
{
    let lines = split_into_lines(contents);
    let ghost lv = lines.deep_view();
    let mut k: usize = 0;
    while k < lines.len()
        invariant
            k <= lines@.len(),
            lv == lines.deep_view(),
            lv == split_lines(contents@),
            first_version_from(lv, 0) == first_version_from(lv, k as int),
        decreases lines@.len() - k,
    {
        proof {
            assert(lv[k as int] == lines@[k as int]@);
        }
        if let Some(v) = match_version_line(lines[k].as_str()) {
            proof {
                assert(first_version_from(lv, k as int) == Some(v@));
            }
            return Some(PyEnvCfg { version: v });
        }
        proof {
            assert(first_version_from(lv, k as int) == first_version_from(lv, k + 1));
        }
        k = k + 1;
    }
    proof {
        assert(first_version_from(lv, k as int) is None);
    }
    None
}

/// File name of the venv configuration file.
pub open spec fn pyvenv_cfg_name() -> Seq<char> {
    seq!['p', 'y', 'v', 'e', 'n', 'v', '.', 'c', 'f', 'g']
}

/// The candidate config locations for interpreter path `p`, in priority
/// order: beside `p`'s parent, then beside its grandparent; fewer when the
/// ancestors run out.
pub open spec fn cfg_candidates_seq(p: Seq<char>) -> Seq<Seq<char>> {
    match parent_seq(p) {
        None => seq![],
        Some(p1) => match parent_seq(p1) {
            None => seq![join_seq(p1, pyvenv_cfg_name())],
            Some(p2) => seq![
                join_seq(p1, pyvenv_cfg_name()),
                join_seq(p2, pyvenv_cfg_name()),
            ],
        },
    }
}

/// The first candidate config location whose existence bit is set, if any.
pub open spec fn found_cfg_seq(p: Seq<char>, exists: Seq<bool>) -> Option<Seq<char>> {
    let cs = cfg_candidates_seq(p);
    if cs.len() > 0 && exists[0] {
        Some(cs[0])
    } else if cs.len() > 1 && exists[1] {
        Some(cs[1])
    } else {
        None
    }
}

/// Builds the candidate config paths for `python_executable`, in priority
/// order.
pub fn pyvenv_cfg_candidates(python_executable: &str) -> (r: Vec<String>)
    ensures
        r@.len() == cfg_candidates_seq(python_executable@).len(),
        forall|i: int| 0 <= i < r@.len() ==> r@[i]@ == cfg_candidates_seq(python_executable@)[i],
{
    proof {
        reveal_strlit("pyvenv.cfg");
        assert("pyvenv.cfg"@ =~= pyvenv_cfg_name());
    }
    let mut r: Vec<String> = Vec::new();
    if let Some(p1) = parent_path(python_executable) {
        r.push(join_path(p1.as_str(), "pyvenv.cfg"));
        if let Some(p2) = parent_path(p1.as_str()) {
            r.push(join_path(p2.as_str(), "pyvenv.cfg"));
        }
    }
    r
}

/// Picks the config path for `python_executable`: the first candidate whose
/// existence bit in `exists` is set, the bits given in candidate order.
pub fn find_pyvenv_config_path(python_executable: &str, exists: &Vec<bool>) -> (r: Option<String>)
    requires
        exists@.len() == cfg_candidates_seq(python_executable@).len(),
    ensures
        match r {
            Some(q) => found_cfg_seq(python_executable@, exists@) == Some(q@),
            None => found_cfg_seq(python_executable@, exists@) is None,
        },
{
    let mut candidates = pyvenv_cfg_candidates(python_executable);
    if candidates.len() > 0 && exists[0] {
        Some(candidates.remove(0))
    } else if candidates.len() > 1 && exists[1] {
        Some(candidates.remove(1))
    } else {
        None
    }
}

/// Law: an interpreter path without a parent directory yields no config
/// path, whatever the existence bits say.
pub proof fn lemma_no_parent_no_cfg(p: Seq<char>, exists: Seq<bool>)
    requires
        parent_seq(p) is None,
    ensures
        found_cfg_seq(p, exists) is None,
{
}

/// Whether `needle` occurs in `hay` as a contiguous run.
pub open spec fn contains_seq(hay: Seq<char>, needle: Seq<char>) -> bool {
    exists|k: int|
        0 <= k && k + needle.len() <= hay.len() && #[trigger] hay.subrange(
            k,
            k + needle.len() as int,
        ) == needle
}

proof fn lemma_contains_at(hay: Seq<char>, needle: Seq<char>, k: int)
    requires
        0 <= k,
        k + needle.len() <= hay.len(),
        hay.subrange(k, k + needle.len() as int) == needle,
    ensures
        contains_seq(hay, needle),
{
}

proof fn lemma_version_line_contains_key(l: Seq<char>)
    requires
        line_version(l) is Some,
    ensures
        contains_seq(l, version_key()),
{
    if strict_version_value(l) is Some {
        assert(l.take(version_key().len() as int) == version_key());
        assert(l.subrange(0, version_key().len() as int) =~= l.take(version_key().len() as int));
    } else {
        assert(l.take(version_info_key().len() as int) == version_info_key());
        assert(l.subrange(0, version_key().len() as int) =~= version_key());
    }
    lemma_contains_at(l, version_key(), 0);
}

proof fn lemma_first_version_all_none(lines: Seq<Seq<char>>, i: int)
    requires
        forall|j: int| i <= j < lines.len() ==> line_version(#[trigger] lines[j]) is None,
    ensures
        first_version_from(lines, i) is None,
    decreases lines.len() - i,
{
    if 0 <= i < lines.len() {
        lemma_first_version_all_none(lines, i + 1);
    }
}

/// Law: text none of whose lines contains the word `version` yields no
/// version.
pub proof fn lemma_no_version_word_no_version(contents: Seq<char>)
    requires
        forall|i: int|
            0 <= i < split_lines(contents).len() ==> !contains_seq(
                #[trigger] split_lines(contents)[i],
                version_key(),
            ),
    ensures
        cfg_version(contents) is None,
{
    let lines = split_lines(contents);
    assert forall|j: int| 0 <= j < lines.len() implies line_version(#[trigger] lines[j]) is None by {
        if line_version(lines[j]) is Some {
            lemma_version_line_contains_key(lines[j]);
        }
    }
    lemma_first_version_all_none(lines, 0);
}

} // verus!
