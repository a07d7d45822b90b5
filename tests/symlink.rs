use rosenv::distro::{
    list_distribution_names, select_installations, CacheEntry, CanonicalEntry, Distribution,
    LinkState,
};
use rosenv::error::RosenvError;
use rosenv::shell::list_output;
use rosenv::symlink::{
    answer_overwrite, cleanup_candidates, confirmed, find_installation, is_yes, link_freshness,
    new_installations, plan_link, plan_remove, removal_for, writability_probe_path,
    writability_verdict, Freshness, LinkStep, Removal,
};

fn link(target: &str) -> LinkState {
    LinkState::Symlink { target: target.to_string() }
}

fn dist(name: &str, path: &str) -> Distribution {
    Distribution { name: name.to_string(), path: path.to_string() }
}

#[test]
fn absent_entry_is_created() {
    assert_eq!(plan_link(&LinkState::Absent, "/p/ros-humble-desktop", false), LinkStep::Create);
    assert_eq!(plan_link(&LinkState::Absent, "/p/ros-humble-desktop", true), LinkStep::Create);
}

#[test]
fn correct_link_is_left_alone() {
    let state = link("/p/ros-humble-desktop");
    assert_eq!(plan_link(&state, "/p/ros-humble-desktop", false), LinkStep::UpToDate);
    assert_eq!(plan_link(&state, "/p/ros-humble-desktop", true), LinkStep::UpToDate);
}

#[test]
fn divergent_entry_asks_unless_forced() {
    let state = link("/old/place");
    assert_eq!(plan_link(&state, "/p/ros-humble-desktop", false), LinkStep::Confirm);
    assert_eq!(plan_link(&state, "/p/ros-humble-desktop", true), LinkStep::Overwrite);
    assert_eq!(plan_link(&LinkState::Directory, "/p/x", false), LinkStep::Confirm);
    assert_eq!(plan_link(&LinkState::Directory, "/p/x", true), LinkStep::Overwrite);
    assert_eq!(plan_link(&LinkState::Other, "/p/x", false), LinkStep::Confirm);
}

#[test]
fn declined_overwrite_is_skipped() {
    assert_eq!(answer_overwrite(false), LinkStep::Skipped);
    assert_eq!(answer_overwrite(true), LinkStep::Overwrite);
}

#[test]
fn removal_follows_entry_kind() {
    assert_eq!(removal_for(&link("/x")), Removal::Unlink);
    assert_eq!(removal_for(&LinkState::Directory), Removal::RemoveTree);
    assert_eq!(removal_for(&LinkState::Other), Removal::Nothing);
    assert_eq!(removal_for(&LinkState::Absent), Removal::Nothing);
}

#[test]
fn removing_missing_entry_is_not_found() {
    assert_eq!(
        plan_remove("iron", &LinkState::Absent),
        Err(RosenvError::NotFound { distro: "iron".to_string() })
    );
    assert_eq!(plan_remove("iron", &link("/x")), Ok(Removal::Unlink));
}

#[test]
fn installation_lookup_takes_first_match() {
    let found = vec![dist("humble", "/a"), dist("jazzy", "/b"), dist("jazzy", "/c")];
    assert_eq!(find_installation(&found, "jazzy"), Some("/b".to_string()));
    assert_eq!(find_installation(&found, "iron"), None);
}

#[test]
fn refresh_links_only_new_versions() {
    let existing = vec!["humble".to_string()];
    let found = vec![dist("humble", "/a"), dist("iron", "/b"), dist("jazzy", "/c")];
    let fresh = new_installations(&existing, &found);
    let names: Vec<String> = fresh.iter().map(|d| d.name.clone()).collect();
    assert_eq!(names, vec!["iron", "jazzy"]);
    assert_eq!(fresh[1].path, "/c");
    assert!(new_installations(&vec!["iron".to_string(), "humble".to_string(), "jazzy".to_string()], &found).is_empty());
}

#[test]
fn writability_errors() {
    assert_eq!(writability_verdict(false, false), Err(RosenvError::RootMissing));
    assert_eq!(writability_verdict(true, false), Err(RosenvError::RootNotWritable));
    assert_eq!(writability_verdict(true, true), Ok(()));
    assert!(RosenvError::RootMissing.message().starts_with("/opt/ros does not exist"));
    assert!(RosenvError::RootNotWritable.message().contains("sudo chown $USER /opt/ros"));
    assert_eq!(writability_probe_path(), "/opt/ros/.rosenv-test");
}

#[test]
fn confirmation_accepts_only_y() {
    assert!(confirmed("y\n"));
    assert!(confirmed("  Y  \n"));
    assert!(!confirmed("yes\n"));
    assert!(!confirmed("\n"));
    assert!(!confirmed("n"));
    assert!(is_yes("y"));
    assert!(!is_yes(" y"));
}

#[test]
fn setup_then_list_gives_sorted_versions() {
    let entries = vec![
        CacheEntry {
            name: "ros-beta-desktop".to_string(),
            path: "/home/u/.pixi/envs/ros-beta-desktop".to_string(),
            is_dir: true,
            has_setup_bash: false,
            has_setup_zsh: true,
        },
        CacheEntry {
            name: "ros-alpha-desktop".to_string(),
            path: "/home/u/.pixi/envs/ros-alpha-desktop".to_string(),
            is_dir: true,
            has_setup_bash: true,
            has_setup_zsh: false,
        },
    ];
    let found = select_installations(&entries);
    let mut root: Vec<CanonicalEntry> = Vec::new();
    for d in found.iter().rev() {
        assert_eq!(plan_link(&LinkState::Absent, &d.path, false), LinkStep::Create);
        root.push(CanonicalEntry { name: d.name.clone(), state: link(&d.path) });
    }
    let listed = list_distribution_names(&root);
    assert_eq!(list_output(&listed, false, true, None), "alpha beta\n");
    for d in &found {
        let state = link(&d.path);
        assert_eq!(plan_link(&state, &d.path, false), LinkStep::UpToDate);
    }
}

#[test]
fn cleanup_removes_every_listed_entry() {
    let entries = vec![
        CanonicalEntry { name: "jazzy".to_string(), state: link("/x") },
        CanonicalEntry { name: "README".to_string(), state: LinkState::Other },
        CanonicalEntry { name: "humble".to_string(), state: LinkState::Directory },
    ];
    let items = cleanup_candidates(&entries);
    let got: Vec<(String, Removal)> = items.iter().map(|c| (c.name.clone(), c.removal)).collect();
    assert_eq!(
        got,
        vec![("humble".to_string(), Removal::RemoveTree), ("jazzy".to_string(), Removal::Unlink)]
    );
    assert!(cleanup_candidates(&Vec::new()).is_empty());
}

#[test]
fn refresh_reports_link_freshness() {
    assert_eq!(link_freshness(&link("/x"), true), Some(Freshness::UpToDate));
    assert_eq!(link_freshness(&link("/x"), false), Some(Freshness::Broken));
    assert_eq!(link_freshness(&LinkState::Directory, true), None);
    assert_eq!(link_freshness(&LinkState::Absent, false), None);
}

#[test]
fn confirmation_trims_unicode_whitespace() {
    assert!(confirmed("\t\u{a0}y\u{3000}\r\n"));
    assert!(!confirmed("\u{200b}y"));
}
