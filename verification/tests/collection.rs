use gwtree::command::config::ConfigCommands;
use gwtree::command::{command_omits_config, Commands};
use gwtree::config::{config_file_path, default_store_path, Config, ConfigData};
use gwtree::utility::worktree::{ListBranchMode, Worktrees};
use gwtree::worktree::Worktree;

#[test]
fn test_worktrees_sorting_and_deref() {
    let mut wts = Worktrees::new(vec![
        Worktree::new("/z".into(), "h1".into(), Some("zebra".into())),
        Worktree::new("/d".into(), "h2".into(), None),
        Worktree::new("/a".into(), "h3".into(), Some("apple".into())),
    ]);

    assert_eq!(wts.len(), 3);

    wts.sort_by_branch();

    // Check order: apple, zebra, None
    assert_eq!(wts.items()[0].branch(), Some("apple"));
    assert_eq!(wts.items()[1].branch(), Some("zebra"));
    assert_eq!(wts.items()[2].branch(), None);
}

#[test]
fn test_worktrees_into_iterator() {
    let wts = Worktrees::new(vec![Worktree::new(
        "/a".into(),
        "h1".into(),
        Some("b1".into()),
    )]);

    let mut count = 0;
    for wt in wts.items() {
        assert_eq!(wt.branch(), Some("b1"));
        count += 1;
    }
    assert_eq!(count, 1);

    for wt in wts.items().iter() {
        assert_eq!(wt.branch(), Some("b1"));
    }
}

#[test]
fn test_worktrees_branches() {
    let wts = Worktrees::new(vec![
        Worktree::new("/a".into(), "h1".into(), Some("b1".into())),
        Worktree::new("/b".into(), "h2".into(), None),
    ]);

    let raw_branches = wts.branches(ListBranchMode::Raw);
    assert_eq!(raw_branches, vec!["b1"]);

    let full_branches = wts.branches(ListBranchMode::Full("none"));
    assert_eq!(full_branches, vec!["b1", "none"]);
}

#[test]
fn worktrees_sort_keeps_detached_order_after_named() {
    let mut wts = Worktrees::new(vec![
        Worktree::new("/d1".into(), "h1".into(), None),
        Worktree::new("/z".into(), "h2".into(), Some("zebra".into())),
        Worktree::new("/a".into(), "h3".into(), Some("apple".into())),
        Worktree::new("/d2".into(), "h4".into(), None),
    ]);
    wts.sort_by_branch();
    assert_eq!(wts.items()[0].branch(), Some("apple"));
    assert_eq!(wts.items()[1].branch(), Some("zebra"));
    assert_eq!(wts.items()[2].branch(), None);
    assert_eq!(wts.items()[3].branch(), None);
}

#[test]
fn worktrees_sort_is_stable_for_equal_branches() {
    // Two records of the same branch name keep their arrival order.
    let mut wts = Worktrees::new(vec![
        Worktree::new("/first".into(), "h1".into(), Some("same".into())),
        Worktree::new("/aaa".into(), "h2".into(), Some("aaa".into())),
        Worktree::new("/second".into(), "h3".into(), Some("same".into())),
    ]);
    wts.sort_by_branch();
    assert_eq!(wts.items()[0].path().as_str(), "/aaa");
    assert_eq!(wts.items()[1].path().as_str(), "/first");
    assert_eq!(wts.items()[2].path().as_str(), "/second");
}

#[test]
fn worktrees_max_branch_width_caps_long_names() {
    let wts = Worktrees::new(vec![
        Worktree::new("/a".into(), "h1".into(), Some("short".into())),
        Worktree::new(
            "/b".into(),
            "h2".into(),
            Some("feature/this-is-a-very-long-branch-name-past-the-cap".into()),
        ),
        Worktree::new("/c".into(), "h3".into(), None),
    ]);
    // The long name is capped at 32; "(detached)" counts 10; "short" 5.
    assert_eq!(wts.max_branch_width(), 32);

    let short = Worktrees::new(vec![Worktree::new(
        "/a".into(),
        "h1".into(),
        Some("dev".into()),
    )]);
    assert_eq!(short.max_branch_width(), 3);

    let detached_only = Worktrees::new(vec![Worktree::new("/a".into(), "h1".into(), None)]);
    assert_eq!(detached_only.max_branch_width(), 10);

    let empty = Worktrees::new(vec![]);
    assert_eq!(empty.max_branch_width(), 0);
}

#[test]
fn test_config_commands_view_variant() {
    // Test that ConfigCommands::View can be created and matched
    let cmd = ConfigCommands::View;
    match cmd {
        ConfigCommands::View => {
            // This ensures the variant exists and can be matched
        },
        _ => {},
    }
}

#[test]
fn test_config_commands_setup_variant() {
    let cmd = ConfigCommands::Setup;
    match cmd {
        ConfigCommands::Setup => {},
        _ => panic!("Expected Setup variant"),
    }
}

#[test]
fn config_paths_join_under_home() {
    assert_eq!(config_file_path("/home/u"), "/home/u/.gwt/config.toml");
    assert_eq!(default_store_path("/home/u"), "/home/u/.gwt_store");
}

#[test]
fn config_accessors_follow_the_variant() {
    let omitted = Config::Omit;
    assert!(omitted.config_path().is_none());
    assert!(omitted.data().is_none());

    let loaded = Config::Loaded(
        ConfigData {
            worktree_root: String::from("/tmp/wt-root"),
        },
        String::from("/tmp/config"),
    );
    assert_eq!(loaded.config_path(), Some("/tmp/config"));
    assert_eq!(loaded.data().unwrap().worktree_root, "/tmp/wt-root");
}

#[test]
fn init_and_setup_commands_skip_config_loading() {
    assert!(command_omits_config(&Commands::Init {
        shell: String::from("bash")
    }));
    assert!(command_omits_config(&Commands::Config(ConfigCommands::Setup)));
    assert!(!command_omits_config(&Commands::Config(ConfigCommands::View)));
    assert!(!command_omits_config(&Commands::Ls));
    assert!(!command_omits_config(&Commands::Sw {
        branch: Some(String::from("b")),
        create: false,
        main: false
    }));
}
