use rosenv::pixi::{detect_distro_in, generate_pixi_activate_script, pixi_activation_output};

fn names(v: &[&str]) -> Vec<String> {
    v.iter().map(|s| s.to_string()).collect()
}

#[test]
fn mutex_package_decides_version() {
    let pkgs = names(&["ros-humble-rclcpp-1.0.json", "ros2-distro-mutex-0.5-jazzy.json"]);
    assert_eq!(detect_distro_in(&pkgs), Some("jazzy".to_string()));
}

#[test]
fn package_prefix_decides_without_mutex() {
    let pkgs = names(&["python-3.11.json", "ros-iron-rclpy-3.json"]);
    assert_eq!(detect_distro_in(&pkgs), Some("iron".to_string()));
}

#[test]
fn known_order_breaks_ties() {
    let pkgs = names(&["ros-rolling-a.json", "ros-humble-b.json"]);
    assert_eq!(detect_distro_in(&pkgs), Some("humble".to_string()));
}

#[test]
fn nothing_detected() {
    assert_eq!(detect_distro_in(&names(&["numpy-1.json", "ros-foxy-x.json"])), None);
    assert_eq!(detect_distro_in(&Vec::new()), None);
}

#[test]
fn pixi_script_without_global() {
    let s = generate_pixi_activate_script("humble", false);
    assert!(s.starts_with("_rosenv_strip() {\n"));
    assert!(s.contains("# Strip inherited /opt/ros paths from parent shell\nexport PATH=$(_rosenv_strip \"$PATH\")\n"));
    assert!(s.contains("export AMENT_PREFIX_PATH=$(_rosenv_strip \"$AMENT_PREFIX_PATH\")\n"));
    assert!(s.contains("\nexport ROS_DISTRO=\"humble\"\n"));
    assert!(!s.contains("_rosenv_append AMENT_PREFIX_PATH"));
    assert!(s.ends_with("\nunset -f _rosenv_strip _rosenv_append\n"));
}

#[test]
fn pixi_script_with_global() {
    let s = generate_pixi_activate_script("jazzy", true);
    assert!(s.contains("\n# Append global ROS jazzy paths\n_rosenv_append AMENT_PREFIX_PATH \"/opt/ros/jazzy\"\n"));
    assert!(s.contains("_rosenv_append PATH \"/opt/ros/jazzy/bin\"\n"));
    assert!(s.contains("_rosenv_append PKG_CONFIG_PATH \"/opt/ros/jazzy/lib/pkgconfig\"\n"));
    assert!(s.contains("for _rosenv_pypath in \"/opt/ros/jazzy\"/lib/python*/site-packages; do\n"));
    assert!(s.contains("done\nunset _rosenv_pypath\n"));
}

#[test]
fn pixi_output_variants() {
    assert_eq!(
        pixi_activation_output(None, false, false, false),
        "# rosenv: no ROS detected in pixi environment\n"
    );
    assert_eq!(
        pixi_activation_output(None, false, true, true),
        "# rosenv: no ROS detected in pixi environment\nsource install/setup.bash\nunset LD_LIBRARY_PATH\nunset DYLD_LIBRARY_PATH\n"
    );
    assert_eq!(
        pixi_activation_output(None, false, false, true),
        "# rosenv: no ROS detected in pixi environment\nsource install/setup.sh\nunset LD_LIBRARY_PATH\nunset DYLD_LIBRARY_PATH\n"
    );
    let with_global = pixi_activation_output(Some("humble"), true, false, false);
    assert_eq!(
        with_global,
        format!(
            "# rosenv: pixi has ROS humble, appending global /opt/ros/humble\n{}",
            generate_pixi_activate_script("humble", true)
        )
    );
    let alone = pixi_activation_output(Some("humble"), false, false, false);
    assert!(alone.starts_with("# rosenv: pixi has ROS humble, no matching global found\n_rosenv_strip"));
}
