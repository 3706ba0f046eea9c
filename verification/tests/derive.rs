use gwtree::config::{Config, ConfigData};
use gwtree::command::worktree::compute_target_path;
use gwtree::target::derive_path_segment;

#[test]
fn derive_is_deterministic() {
    let a = derive_path_segment("my-repo", "my-feature");
    let b = derive_path_segment("my-repo", "my-feature");
    assert_eq!(a, b);
    assert_eq!(a.len(), 16);
}

#[test]
fn derive_matches_known_digest() {
    // sha1("my-repo|my-feature") = af25876b5a125ec32fdf0fd58fcfa69f14685183
    assert_eq!(
        derive_path_segment("my-repo", "my-feature"),
        "af25876b5a125ec3"
    );
}

#[test]
fn derive_changes_with_branch() {
    let a = derive_path_segment("my-repo", "my-feature");
    let b = derive_path_segment("my-repo", "other-feature");
    assert_ne!(a, b);
    assert_eq!(b, "f1f3055d7c5a1f30");
}

#[test]
fn derive_changes_with_repository() {
    let a = derive_path_segment("my-repo", "my-feature");
    let b = derive_path_segment("other-repo", "my-feature");
    assert_ne!(a, b);
    assert_eq!(b, "d421dd6126929191");
}

#[test]
fn target_path_is_root_joined_with_segment() {
    // Scenario: toplevel /repo, branch feature-x, worktree root /store.
    // sha1("/repo|feature-x") = b78784dafe6c1a738a9e26708641422831306159.
    let config = Config::Loaded(
        ConfigData {
            worktree_root: String::from("/store"),
        },
        String::from("/home/user/.gwt/config.toml"),
    );
    let path = compute_target_path(&config, "/repo", "feature-x").unwrap();
    assert_eq!(path, "/store/b78784dafe6c1a73");

    // A second invocation with identical inputs yields the identical path.
    let again = compute_target_path(&config, "/repo", "feature-x").unwrap();
    assert_eq!(path, again);
}

#[test]
fn target_path_requires_loaded_config() {
    assert!(compute_target_path(&Config::Omit, "/repo", "feature-x").is_err());
}
