use rosenv::error::RosenvError;
use rosenv::shell::{
    activation_setup_path, generate_activation_script, generate_deactivation_script,
    generate_shell_integration, info_report, list_output, setup_file_for, shell_name, status_report, KeyDir,
    SetupFiles,
};
use rosenv::distro::LinkState;

fn files(zsh: bool, bash: bool, sh: bool) -> SetupFiles {
    SetupFiles { zsh, bash, sh }
}

fn all_vars() -> Vec<&'static str> {
    vec![
    "ROS_DISTRO",
    "ROS_VERSION",
    "ROS_PYTHON_VERSION",
    "AMENT_PREFIX_PATH",
    "CMAKE_PREFIX_PATH",
    "COLCON_PREFIX_PATH",
    "PYTHONPATH",
    "LD_LIBRARY_PATH",
    "DYLD_LIBRARY_PATH",
    "PKG_CONFIG_PATH",
    ]
}

#[test]
fn shell_test_generate_deactivation_script() {
    let script = generate_deactivation_script();

    assert!(script.contains("unset ROS_DISTRO"));
    assert!(script.contains("unset ROS_VERSION"));
    assert!(script.contains("unset AMENT_PREFIX_PATH"));
    assert!(script.contains("unset CMAKE_PREFIX_PATH"));
    assert!(script.contains("PATH="));
}

#[test]
fn main_test_generate_deactivation_script() {
    let script = generate_deactivation_script();

    assert!(script.contains("unset ROS_DISTRO"));
    assert!(script.contains("unset ROS_VERSION"));
    assert!(script.contains("unset AMENT_PREFIX_PATH"));
    assert!(script.contains("unset CMAKE_PREFIX_PATH"));
    assert!(script.contains("PATH="));
}

#[test]
fn shell_test_generate_shell_integration_zsh() {
    let script = generate_shell_integration("zsh");

    assert!(script.contains("rosenv()"));
    assert!(script.contains("rosenv init zsh"));
    assert!(script.contains("case \"$1\" in"));
    assert!(script.contains("activate)"));
    assert!(script.contains("deactivate)"));
    assert!(script.contains("status)"));
}

#[test]
fn main_test_generate_shell_integration_zsh() {
    let script = generate_shell_integration("zsh");

    assert!(script.contains("rosenv()"));
    assert!(script.contains("rosenv init zsh"));
    assert!(script.contains("case \"$1\" in"));
    assert!(script.contains("activate)"));
    assert!(script.contains("deactivate)"));
    assert!(script.contains("status)"));
}

#[test]
fn shell_test_generate_shell_integration_bash() {
    let script = generate_shell_integration("bash");

    assert!(script.contains("rosenv init bash"));
    assert!(script.contains("rosenv()"));
}

#[test]
fn main_test_generate_shell_integration_bash() {
    let script = generate_shell_integration("bash");

    assert!(script.contains("rosenv init bash"));
    assert!(script.contains("rosenv()"));
}

#[test]
fn shell_test_shell_integration_contains_all_commands() {
    let script = generate_shell_integration("zsh");

    let required_elements = vec![
        "activate",
        "deactivate",
        "status",
        "command rosenv",
        "eval",
        "ROS_DISTRO",
    ];

    for element in required_elements {
        assert!(
            script.contains(element),
            "Shell integration missing: {}",
            element
        );
    }
}

#[test]
fn main_test_shell_integration_contains_all_commands() {
    let script = generate_shell_integration("zsh");

    let required_elements = vec![
        "activate",
        "deactivate",
        "status",
        "command rosenv",
        "eval",
        "ROS_DISTRO",
    ];

    for element in required_elements {
        assert!(
            script.contains(element),
            "Shell integration missing: {}",
            element
        );
    }
}

#[test]
fn shell_test_deactivation_script_unsets_all_vars() {
    let script = generate_deactivation_script();

    let required_unsets = vec![
        "ROS_DISTRO",
        "ROS_VERSION",
        "ROS_PYTHON_VERSION",
        "AMENT_PREFIX_PATH",
        "CMAKE_PREFIX_PATH",
        "COLCON_PREFIX_PATH",
        "PYTHONPATH",
        "PKG_CONFIG_PATH",
    ];

    for var in required_unsets {
        assert!(
            script.contains(&format!("unset {}", var)),
            "Deactivation script missing unset for: {}",
            var
        );
    }
}

#[test]
fn main_test_deactivation_script_unsets_all_vars() {
    let script = generate_deactivation_script();

    let required_unsets = vec![
        "ROS_DISTRO",
        "ROS_VERSION",
        "ROS_PYTHON_VERSION",
        "AMENT_PREFIX_PATH",
        "CMAKE_PREFIX_PATH",
        "COLCON_PREFIX_PATH",
        "PYTHONPATH",
        "LD_LIBRARY_PATH",
        "DYLD_LIBRARY_PATH",
        "PKG_CONFIG_PATH",
    ];

    for var in required_unsets {
        assert!(
            script.contains(&format!("unset {}", var)),
            "Deactivation script missing unset for: {}",
            var
        );
    }
}

#[test]
fn deactivation_script_is_exact() {
    let mut expected = String::from("# Deactivate ROS 2 environment\n");
    expected.push_str("export PATH=$(echo $PATH | tr ':' '\\n' | grep -v '/opt/ros/' | tr '\\n' ':')\n");
    for v in all_vars() {
        expected.push_str(&format!("unset {}\n", v));
    }
    assert_eq!(generate_deactivation_script(), expected);
}

#[test]
fn activation_script_sources_shell_setup() {
    let script = generate_activation_script("humble", "zsh", true, &files(true, true, false)).unwrap();
    assert!(script.starts_with("# Clean up previous ROS environment\nexport PATH="));
    for v in all_vars() {
        assert!(script.contains(&format!("unset {}\n", v)));
    }
    assert!(script.ends_with(
        "\n# Activate ROS 2 humble\nexport ROS_DISTRO=humble\nsource /opt/ros/humble/setup.zsh\n"
    ));
}

#[test]
fn activation_of_missing_entry_is_not_found() {
    let err = generate_activation_script("nonexistent", "bash", false, &files(false, false, false)).unwrap_err();
    assert_eq!(err, RosenvError::NotFound { distro: "nonexistent".to_string() });
    assert!(err.message().contains("not found"));
}

#[test]
fn activation_without_setup_file_fails() {
    let err = generate_activation_script("humble", "fish", true, &files(false, false, false)).unwrap_err();
    assert_eq!(err, RosenvError::SetupFileMissing { path: "/opt/ros/humble/setup.sh".to_string() });
    assert_eq!(err.message(), "Setup file not found: /opt/ros/humble/setup.sh");
}

#[test]
fn setup_file_follows_shell() {
    assert_eq!(setup_file_for("zsh"), "setup.zsh");
    assert_eq!(setup_file_for("bash"), "setup.bash");
    assert_eq!(setup_file_for("sh"), "setup.sh");
    assert_eq!(activation_setup_path("jazzy", "bash"), "/opt/ros/jazzy/setup.bash");
}

#[test]
fn shell_integration_names_shell_in_comment() {
    let script = generate_shell_integration("fish");
    assert!(script.starts_with("# ROS 2 Environment Manager (rosenv)\n# Generated by: rosenv init fish\n\nrosenv() {\n"));
}

#[test]
fn list_short_wins_over_names_only() {
    let names = vec!["alpha".to_string(), "beta".to_string()];
    assert_eq!(list_output(&names, false, true, None), "alpha beta\n");
    assert_eq!(list_output(&names, true, true, None), "alpha beta\n");
    assert_eq!(list_output(&names, true, false, None), "alpha\nbeta\n");
}

#[test]
fn list_marks_active_version() {
    let names = vec!["humble".to_string(), "jazzy".to_string()];
    assert_eq!(
        list_output(&names, false, false, Some("jazzy")),
        "Available ROS distributions:\n    humble\n  * jazzy (active)\n"
    );
}

#[test]
fn list_of_nothing() {
    let names: Vec<String> = Vec::new();
    assert_eq!(
        list_output(&names, false, false, None),
        "No ROS distributions found in /opt/ros\n\nRun: rosenv setup\n"
    );
    assert_eq!(list_output(&names, true, false, None), "");
    assert_eq!(list_output(&names, false, true, None), "");
}

#[test]
fn shell_name_from_login_shell() {
    assert_eq!(shell_name(Some("/usr/bin/zsh")), "zsh");
    assert_eq!(shell_name(Some("fish")), "fish");
    assert_eq!(shell_name(Some("/bin/")), "");
    assert_eq!(shell_name(None), "bash");
}

#[test]
fn activation_falls_back_to_another_setup_file() {
    let zsh_with_bash = generate_activation_script("humble", "zsh", true, &files(false, true, false)).unwrap();
    assert!(zsh_with_bash.ends_with("source /opt/ros/humble/setup.bash\n"));
    let bash_with_all_but_bash = generate_activation_script("jazzy", "bash", true, &files(true, false, true)).unwrap();
    assert!(bash_with_all_but_bash.ends_with("source /opt/ros/jazzy/setup.sh\n"));
    let sh_with_zsh = generate_activation_script("iron", "sh", true, &files(true, false, false)).unwrap();
    assert!(sh_with_zsh.ends_with("source /opt/ros/iron/setup.zsh\n"));
    let own = generate_activation_script("iron", "bash", true, &files(true, true, true)).unwrap();
    assert!(own.ends_with("source /opt/ros/iron/setup.bash\n"));
}

#[test]
fn info_report_of_linked_entry() {
    let state = LinkState::Symlink { target: "/home/u/.pixi/envs/ros-humble-desktop".to_string() };
    let dirs = vec![
        KeyDir { name: "bin".to_string(), exists: true, entries: Some(12) },
        KeyDir { name: "lib".to_string(), exists: true, entries: None },
        KeyDir { name: "share".to_string(), exists: false, entries: None },
    ];
    assert_eq!(
        info_report("humble", &state, &files(true, false, false), &dirs),
        "Distribution: humble\nPath:         /opt/ros/humble\nType:         Symlink\nTarget:       /home/u/.pixi/envs/ros-humble-desktop\n\nSetup files:\n  ✗ setup.bash\n  ✓ setup.zsh\n  ✗ setup.sh\n\nKey directories:\n  ✓ bin (12 entries)\n  ✓ lib\n"
    );
}

#[test]
fn info_report_of_directory_entry() {
    let report = info_report("iron", &LinkState::Directory, &files(false, true, true), &Vec::new());
    assert!(report.contains("Type:         Directory\n\nSetup files:\n  ✓ setup.bash\n"));
    assert!(report.ends_with("\nKey directories:\n"));
}

#[test]
fn status_when_active() {
    assert_eq!(
        status_report(Some("humble"), Some("2"), None, true, &Vec::new()),
        "ROS 2 humble is active\n\nEnvironment:\n  ROS_VERSION:       2\n  ROS_DISTRO:        humble\n\nSetup file:\n  ✓ /opt/ros/humble/setup.zsh\n"
    );
    assert_eq!(
        status_report(Some("jazzy"), None, Some("/opt/ros/jazzy"), false, &Vec::new()),
        "ROS 2 jazzy is active\n\nEnvironment:\n  ROS_DISTRO:        jazzy\n  AMENT_PREFIX_PATH: /opt/ros/jazzy\n"
    );
}

#[test]
fn status_when_inactive() {
    let names = vec!["humble".to_string(), "jazzy".to_string()];
    assert_eq!(
        status_report(None, None, None, false, &names),
        "No ROS 2 distribution active\n\nAvailable distributions:\n  - humble\n  - jazzy\n\nActivate: ros-distro <distro>\n"
    );
    assert_eq!(
        status_report(None, None, None, false, &Vec::new()),
        "No ROS 2 distribution active\n\nRun: rosenv setup\n"
    );
}
