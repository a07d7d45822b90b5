use rosenv::text::{contains, join_path, starts_with, str_eq, str_less};

#[test]
fn order_is_lexicographic() {
    assert!(str_less("alpha", "beta"));
    assert!(!str_less("beta", "alpha"));
    assert!(str_less("hum", "humble"));
    assert!(!str_less("humble", "humble"));
    assert!(str_less("", "a"));
    assert!(str_less("Z", "a"));
    assert!(str_less("a", "é"));
}

#[test]
fn equality_and_search() {
    assert!(str_eq("jazzy", "jazzy"));
    assert!(!str_eq("jazzy", "jazz"));
    assert!(starts_with("ros-humble", "ros-"));
    assert!(!starts_with("ro", "ros-"));
    assert!(contains("ros2-distro-mutex-0.5-jazzy", "jazzy"));
    assert!(contains("abc", ""));
    assert!(!contains("abc", "abcd"));
}

#[test]
fn path_joining() {
    assert_eq!(join_path("/opt/ros", "humble"), "/opt/ros/humble");
    assert_eq!(join_path("/opt/ros/", "humble"), "/opt/ros/humble");
    assert_eq!(join_path("/opt/ros", "/abs"), "/abs");
    assert_eq!(join_path("", "rel"), "rel");
    assert_eq!(join_path("/opt/ros", ""), "/opt/ros/");
}
