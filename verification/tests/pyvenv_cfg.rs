use native_locator::pyvenv_cfg::find_pyvenv_config_path;
use native_locator::pyvenv_cfg::match_version_line;
use native_locator::pyvenv_cfg::parse_pyvenv_cfg;
use native_locator::pyvenv_cfg::pyvenv_cfg_candidates;
use native_locator::pyvenv_cfg::split_into_lines;

#[test]
fn parses_strict_version_line() {
    let cfg = parse_pyvenv_cfg("home = /usr/bin\nversion = 3.10.2\n").unwrap();
    assert_eq!(cfg.version, "3.10.2");
}

#[test]
fn parses_version_info_line_with_trailing_content() {
    let cfg = parse_pyvenv_cfg("version_info = 3.10.2.final.0\n").unwrap();
    assert_eq!(cfg.version, "3.10.2.final.0");
}

#[test]
fn strict_form_requires_exactly_three_components() {
    assert!(parse_pyvenv_cfg("version = 3.10\n").is_none());
    assert!(parse_pyvenv_cfg("version = 3.10.2.4\n").is_none());
    assert!(parse_pyvenv_cfg("version = 3..2\n").is_none());
    assert!(parse_pyvenv_cfg("version = x.y.z\n").is_none());
}

#[test]
fn tolerates_blanks_around_equals() {
    let cfg = parse_pyvenv_cfg("version=3.1.4").unwrap();
    assert_eq!(cfg.version, "3.1.4");
    let cfg = parse_pyvenv_cfg("version \t =  \t 1.2.3").unwrap();
    assert_eq!(cfg.version, "1.2.3");
}

#[test]
fn first_matching_line_wins() {
    let cfg = parse_pyvenv_cfg("version_info = 1.2.3.beta\nversion = 9.9.9\n").unwrap();
    assert_eq!(cfg.version, "1.2.3.beta");
    let cfg = parse_pyvenv_cfg("version = 9.9.9\nversion_info = 1.2.3.beta\n").unwrap();
    assert_eq!(cfg.version, "9.9.9");
}

#[test]
fn skips_lines_that_do_not_match() {
    let text = "home = /opt\nversion is unknown\nversion = 5.6.7\n";
    let cfg = parse_pyvenv_cfg(text).unwrap();
    assert_eq!(cfg.version, "5.6.7");
}

#[test]
fn returns_nothing_without_a_version_line() {
    assert!(parse_pyvenv_cfg("").is_none());
    assert!(parse_pyvenv_cfg("home = /usr/bin\ninclude-system-site-packages = false\n").is_none());
}

#[test]
fn handles_carriage_return_line_endings() {
    let cfg = parse_pyvenv_cfg("home = /usr\r\nversion = 3.9.1\r\n").unwrap();
    assert_eq!(cfg.version, "3.9.1");
}

#[test]
fn version_info_needs_three_leading_numeric_components() {
    assert!(parse_pyvenv_cfg("version_info = 1.2\n").is_none());
    assert!(parse_pyvenv_cfg("version_info = final.3.10.2\n").is_none());
}

#[test]
fn matches_single_lines() {
    assert_eq!(match_version_line("version = 3.8.0"), Some("3.8.0".to_string()));
    assert_eq!(match_version_line("version_info = 3.8.0rc1"), Some("3.8.0rc1".to_string()));
    assert_eq!(match_version_line("versionx = 3.8.0"), None);
    assert_eq!(match_version_line("version = "), None);
}

#[test]
fn splits_lines_like_the_reader() {
    let lines = split_into_lines("a\nb\r\nc");
    assert_eq!(lines, vec!["a".to_string(), "b".to_string(), "c".to_string()]);
    let lines = split_into_lines("a\n");
    assert_eq!(lines, vec!["a".to_string()]);
    let lines = split_into_lines("");
    assert!(lines.is_empty());
}

#[test]
fn config_candidates_follow_the_ancestors() {
    let cands = pyvenv_cfg_candidates("env/bin/python");
    assert_eq!(cands, vec!["env/bin/pyvenv.cfg".to_string(), "env/pyvenv.cfg".to_string()]);
    let cands = pyvenv_cfg_candidates("env/python");
    assert_eq!(cands, vec!["env/pyvenv.cfg".to_string()]);
    let cands = pyvenv_cfg_candidates("python");
    assert!(cands.is_empty());
}

#[test]
fn config_path_prefers_the_first_existing_candidate() {
    let exe = "env/bin/python";
    let found = find_pyvenv_config_path(exe, &vec![true, true]);
    assert_eq!(found, Some("env/bin/pyvenv.cfg".to_string()));
    let found = find_pyvenv_config_path(exe, &vec![false, true]);
    assert_eq!(found, Some("env/pyvenv.cfg".to_string()));
    let found = find_pyvenv_config_path(exe, &vec![false, false]);
    assert_eq!(found, None);
}

#[test]
fn config_path_absent_for_bare_file_name() {
    assert_eq!(find_pyvenv_config_path("python", &vec![]), None);
}
