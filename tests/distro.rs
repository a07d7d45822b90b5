use std::path::PathBuf;

use rosenv::distro::{
    distro_path, get_pixi_envs_dir, get_ros_root, list_distribution_names,
    pixi_envs_dir_under, select_installations, validate_distro, version_from_name, CacheEntry,
    CanonicalEntry, Distribution, LinkState,
};
use rosenv::error::RosenvError;

fn dir(name: &str, bash: bool, zsh: bool) -> CacheEntry {
    CacheEntry {
        name: name.to_string(),
        path: format!("/home/u/.pixi/envs/{}", name),
        is_dir: true,
        has_setup_bash: bash,
        has_setup_zsh: zsh,
    }
}

fn names(found: &[Distribution]) -> Vec<String> {
    found.iter().map(|d| d.name.clone()).collect()
}

#[test]
fn distro_test_distribution_struct() {
    let distro = Distribution {
        name: "humble".to_string(),
        path: "/test/path".to_string(),
    };

    assert_eq!(distro.name, "humble");
    assert_eq!(PathBuf::from(&distro.path), PathBuf::from("/test/path"));
}

#[test]
fn main_test_distribution_struct() {
    let distro = Distribution {
        name: "humble".to_string(),
        path: "/test/path".to_string(),
    };

    assert_eq!(distro.name, "humble");
    assert_eq!(PathBuf::from(&distro.path), PathBuf::from("/test/path"));
}

#[test]
fn distro_test_get_ros_root() {
    let root = get_ros_root();
    assert_eq!(PathBuf::from(root), PathBuf::from("/opt/ros"));
}

#[test]
fn main_test_get_ros_root() {
    let root = get_ros_root();
    assert_eq!(PathBuf::from(root), PathBuf::from("/opt/ros"));
}

#[test]
fn distro_test_get_pixi_envs_dir() {
    let envs_dir = get_pixi_envs_dir().expect("Could not determine home directory");
    assert!(envs_dir.contains(".pixi"));
    assert!(envs_dir.contains("envs"));
}

#[test]
fn main_test_get_pixi_envs_dir() {
    let envs_dir = get_pixi_envs_dir().expect("Could not determine home directory");
    assert!(envs_dir.contains(".pixi"));
    assert!(envs_dir.contains("envs"));
}

#[test]
fn pixi_envs_dir_is_under_home() {
    assert_eq!(pixi_envs_dir_under("/home/u"), "/home/u/.pixi/envs");
    assert_eq!(pixi_envs_dir_under("/home/u/"), "/home/u/.pixi/envs");
}

#[test]
fn distro_path_joins_root() {
    assert_eq!(distro_path("humble"), "/opt/ros/humble");
    assert_eq!(distro_path("/etc"), "/etc");
}

#[test]
fn validate_distro_reports_missing_entry() {
    assert_eq!(validate_distro("humble", true), Ok("/opt/ros/humble".to_string()));
    let err = validate_distro("nonexistent", false).unwrap_err();
    assert_eq!(err, RosenvError::NotFound { distro: "nonexistent".to_string() });
    assert_eq!(err.message(), "Distribution 'nonexistent' not found in /opt/ros");
}

#[test]
fn version_is_second_dash_field() {
    assert_eq!(version_from_name("ros-humble-desktop"), Some("humble".to_string()));
    assert_eq!(version_from_name("ros-jazzy-desktop-full"), Some("jazzy".to_string()));
    assert_eq!(version_from_name("ros-"), None);
    assert_eq!(version_from_name("ros"), None);
    assert_eq!(version_from_name("ros-humble"), None);
    assert_eq!(version_from_name("ros--desktop"), None);
    assert_eq!(version_from_name("python-312"), None);
}

#[test]
fn scan_keeps_installations_sorted() {
    let entries = vec![
        dir("ros-rolling-desktop", true, false),
        dir("ros-humble-desktop", true, false),
        dir("ros-jazzy-desktop", true, false),
        dir("ros-iron-desktop", true, false),
    ];
    let found = select_installations(&entries);
    assert_eq!(names(&found), vec!["humble", "iron", "jazzy", "rolling"]);
    assert_eq!(found[0].path, "/home/u/.pixi/envs/ros-humble-desktop");
}

#[test]
fn scan_skips_non_installations() {
    let mut file = dir("ros-iron-desktop", true, true);
    file.is_dir = false;
    let entries = vec![
        dir("python-312", true, false),
        dir("nodejs-20", true, false),
        dir("rust-stable", true, false),
        dir("ros-", true, false),
        dir("ros", true, false),
        dir("ros-humble-desktop", false, false),
        file,
    ];
    assert!(select_installations(&entries).is_empty());
}

#[test]
fn scan_accepts_either_setup_script() {
    let entries = vec![dir("ros-humble-desktop", true, false), dir("ros-jazzy-desktop", false, true)];
    assert_eq!(names(&select_installations(&entries)), vec!["humble", "jazzy"]);
}

#[test]
fn scan_keeps_one_item_per_version() {
    let entries = vec![dir("ros-humble-desktop", true, false), dir("ros-humble-base", false, true)];
    let found = select_installations(&entries);
    assert_eq!(found.len(), 1);
    assert_eq!(found[0].path, "/home/u/.pixi/envs/ros-humble-base");
}

#[test]
fn scan_ignores_listing_order() {
    let a = vec![
        dir("ros-jazzy-desktop", true, false),
        dir("ros-humble-desktop", true, false),
        dir("ros-humble-base", true, false),
        dir("misc", true, true),
    ];
    let mut b = a.clone();
    b.reverse();
    let first = select_installations(&a);
    let second = select_installations(&b);
    assert_eq!(names(&first), names(&second));
    let paths: Vec<String> = first.iter().map(|d| d.path.clone()).collect();
    let paths2: Vec<String> = second.iter().map(|d| d.path.clone()).collect();
    assert_eq!(paths, paths2);
}

#[test]
fn listing_sorts_links_and_directories() {
    let entries = vec![
        CanonicalEntry { name: "jazzy".to_string(), state: LinkState::Symlink { target: "/x".to_string() } },
        CanonicalEntry { name: "README".to_string(), state: LinkState::Other },
        CanonicalEntry { name: "humble".to_string(), state: LinkState::Directory },
    ];
    assert_eq!(list_distribution_names(&entries), vec!["humble", "jazzy"]);
    assert!(list_distribution_names(&Vec::new()).is_empty());
}
