use native_locator::paths::join_path;
use native_locator::paths::parent_path;
use native_locator::probe::find_python_binary_path;
use native_locator::probe::python_binary_candidates;

#[test]
fn joins_with_a_separator() {
    assert_eq!(join_path("env", "bin"), "env/bin".to_string());
    assert_eq!(join_path("env/bin", "python"), "env/bin/python".to_string());
}

#[test]
fn parent_strips_the_last_component() {
    assert_eq!(parent_path("env/bin/python"), Some("env/bin".to_string()));
    assert_eq!(parent_path("env/bin"), Some("env".to_string()));
    assert_eq!(parent_path("python"), None);
}

#[test]
fn candidates_come_in_priority_order() {
    let cands = python_binary_candidates("env", "python");
    assert_eq!(
        cands,
        vec![
            "env/bin/python".to_string(),
            "env/Scripts/python".to_string(),
            "env/python".to_string(),
        ]
    );
    let cands = python_binary_candidates("env", "python.exe");
    assert_eq!(cands[0], "env/bin/python.exe".to_string());
}

#[test]
fn prober_prefers_bin_over_scripts_over_root() {
    let all = vec![true, true, true];
    assert_eq!(
        find_python_binary_path("env", "python", &all),
        Some("env/bin/python".to_string())
    );
    let no_bin = vec![false, true, true];
    assert_eq!(
        find_python_binary_path("env", "python", &no_bin),
        Some("env/Scripts/python".to_string())
    );
    let only_root = vec![false, false, true];
    assert_eq!(
        find_python_binary_path("env", "python", &only_root),
        Some("env/python".to_string())
    );
}

#[test]
fn prober_reports_nothing_when_no_candidate_exists() {
    let none = vec![false, false, false];
    assert_eq!(find_python_binary_path("env", "python", &none), None);
}
