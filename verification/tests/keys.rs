use native_locator::keys::get_environment_key;
use native_locator::keys::get_environment_manager_key;
use native_locator::keys::EnvManager;
use native_locator::keys::PythonEnvironment;
use native_locator::probe::find_python_binary_path;

#[test]
fn key_prefers_the_executable_path() {
    let env = PythonEnvironment {
        python_executable_path: Some("venv/bin/python".to_string()),
        env_path: Some("venv".to_string()),
    };
    assert_eq!(get_environment_key(&env), Some("venv/bin/python".to_string()));
}

#[test]
fn key_falls_back_to_the_root_path() {
    let env = PythonEnvironment {
        python_executable_path: None,
        env_path: Some("venv".to_string()),
    };
    assert_eq!(get_environment_key(&env), Some("venv".to_string()));
}

#[test]
fn key_absent_when_both_paths_are_absent() {
    let env = PythonEnvironment { python_executable_path: None, env_path: None };
    assert_eq!(get_environment_key(&env), None);
}

#[test]
fn manager_key_is_its_executable_path() {
    let manager = EnvManager { executable_path: "conda/bin/conda".to_string() };
    assert_eq!(get_environment_manager_key(&manager), "conda/bin/conda".to_string());
}

#[test]
fn probed_path_keys_back_to_itself() {
    let probed = find_python_binary_path("venv", "python", &vec![true, true, true]).unwrap();
    let env = PythonEnvironment {
        python_executable_path: Some(probed.clone()),
        env_path: Some("venv".to_string()),
    };
    assert_eq!(get_environment_key(&env), Some(probed));
}
