use native_locator::pyvenv_cfg::parse_pyvenv_cfg;
use native_locator::pyvenv_cfg::PyEnvCfg;
use native_locator::version::plan_version_resolution;
use native_locator::version::version_from_interpreter_output;
use native_locator::version::VersionResolution;

#[test]
fn config_version_resolves_without_a_spawn() {
    let cfg = PyEnvCfg { version: "3.10.2".to_string() };
    match plan_version_resolution(Some(cfg)) {
        VersionResolution::Resolved(v) => assert_eq!(v, "3.10.2"),
        VersionResolution::NeedsInterpreterOutput => {
            panic!("config version must resolve without asking the interpreter")
        },
    }
}

#[test]
fn parsed_config_file_resolves_without_a_spawn() {
    // With a config that parses, the resolver must settle on the spot: an
    // interpreter that would fail loudly if invoked is never asked.
    let cfg = parse_pyvenv_cfg("version = 3.12.1\n");
    match plan_version_resolution(cfg) {
        VersionResolution::Resolved(v) => assert_eq!(v, "3.12.1"),
        VersionResolution::NeedsInterpreterOutput => {
            panic!("config version must resolve without asking the interpreter")
        },
    }
}

#[test]
fn missing_config_sends_the_resolver_to_the_interpreter() {
    assert!(matches!(
        plan_version_resolution(None),
        VersionResolution::NeedsInterpreterOutput
    ));
}

#[test]
fn interpreter_output_keeps_only_the_first_token() {
    let out = "3.11.4 (main, Jun  7 2023, 10:13:09) [GCC 12.2.0]\n";
    assert_eq!(version_from_interpreter_output(out), Some("3.11.4".to_string()));
    assert_eq!(version_from_interpreter_output("  2.7.18\n"), Some("2.7.18".to_string()));
}

#[test]
fn empty_interpreter_output_yields_nothing() {
    assert_eq!(version_from_interpreter_output(""), None);
    assert_eq!(version_from_interpreter_output(" \t\r\n"), None);
}
