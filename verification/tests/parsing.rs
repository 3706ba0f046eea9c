use gwtree::worktree::{find_worktree_for_branch, parse_porcelain, render_porcelain};

#[test]
fn mod_parse_porcelain_two_worktrees() {
    let input = "worktree /path/to/main
HEAD abc123
branch refs/heads/main

worktree /path/to/feature
HEAD def456
branch refs/heads/feature-branch
";

    let parsed = parse_porcelain(input);
    assert_eq!(parsed.len(), 2);

    assert_eq!(parsed[0].path().as_str(), "/path/to/main");
    assert_eq!(parsed[0].head(), "abc123");
    assert_eq!(parsed[0].branch(), Some("main"));

    assert_eq!(parsed[1].path().as_str(), "/path/to/feature");
    assert_eq!(parsed[1].head(), "def456");
    assert_eq!(parsed[1].branch(), Some("feature-branch"));
}

#[test]
fn mod_parse_porcelain_detached_worktree() {
    let input = "worktree /path/to/detached
HEAD ghi789
detached
";

    let parsed = parse_porcelain(input);
    assert_eq!(parsed.len(), 1);
    assert_eq!(parsed[0].path().as_str(), "/path/to/detached");
    assert_eq!(parsed[0].head(), "ghi789");
    assert_eq!(parsed[0].branch(), None);
}

#[test]
fn mod_find_worktree_by_branch() {
    let input = "worktree /path/to/main
HEAD abc123
branch refs/heads/main

worktree /path/to/feature
HEAD def456
branch refs/heads/feature-branch
";

    let parsed = parse_porcelain(input);
    let found = find_worktree_for_branch(&parsed, "feature-branch");
    assert!(found.is_some());
    let w = found.unwrap();
    assert_eq!(w.path().as_str(), "/path/to/feature");
}

#[test]
fn mod_parse_branch_with_slash() {
    let input = "worktree /path/to/feature
HEAD abcabc
branch refs/heads/feature/my-feature
";

    let parsed = parse_porcelain(input);
    assert_eq!(parsed.len(), 1);
    assert_eq!(parsed[0].branch(), Some("feature/my-feature"));
}

#[test]
fn mod_parse_multiple_blocks_last_block_without_trailing_blank_correct() {
    let input = "worktree /a
HEAD a1
branch refs/heads/a

worktree /b
HEAD b1
branch refs/heads/b";
    let parsed = parse_porcelain(input);
    assert_eq!(parsed.len(), 2);
    assert_eq!(parsed[1].branch(), Some("b"));
}

#[test]
fn worktree_parse_porcelain_two_worktrees() {
    let input = "worktree /path/to/main
HEAD abc123
branch refs/heads/main

worktree /path/to/feature
HEAD def456
branch refs/heads/feature-branch
";

    let parsed = parse_porcelain(input);
    assert_eq!(parsed.len(), 2);

    assert_eq!(parsed[0].path().as_str(), "/path/to/main");
    assert_eq!(parsed[0].head(), "abc123");
    assert_eq!(parsed[0].branch(), Some("main"));

    assert_eq!(parsed[1].path().as_str(), "/path/to/feature");
    assert_eq!(parsed[1].head(), "def456");
    assert_eq!(parsed[1].branch(), Some("feature-branch"));
}

#[test]
fn worktree_parse_porcelain_detached_worktree() {
    let input = "worktree /path/to/detached
HEAD ghi789
detached
";

    let parsed = parse_porcelain(input);
    assert_eq!(parsed.len(), 1);
    assert_eq!(parsed[0].path().as_str(), "/path/to/detached");
    assert_eq!(parsed[0].head(), "ghi789");
    assert_eq!(parsed[0].branch(), None);
}

#[test]
fn worktree_find_worktree_by_branch() {
    let input = "worktree /path/to/main
HEAD abc123
branch refs/heads/main

worktree /path/to/feature
HEAD def456
branch refs/heads/feature-branch
";

    let parsed = parse_porcelain(input);
    let found = find_worktree_for_branch(&parsed, "feature-branch");
    assert!(found.is_some());
    let w = found.unwrap();
    assert_eq!(w.path().as_str(), "/path/to/feature");
}

#[test]
fn worktree_parse_branch_with_slash() {
    let input = "worktree /path/to/feature
HEAD abcabc
branch refs/heads/feature/my-feature
";

    let parsed = parse_porcelain(input);
    assert_eq!(parsed.len(), 1);
    assert_eq!(parsed[0].branch(), Some("feature/my-feature"));
}

#[test]
fn worktree_parse_multiple_blocks_last_block_without_trailing_blank_correct() {
    let input = "worktree /a
HEAD a1
branch refs/heads/a

worktree /b
HEAD b1
branch refs/heads/b";
    let parsed = parse_porcelain(input);
    assert_eq!(parsed.len(), 2);
    assert_eq!(parsed[1].branch(), Some("b"));
}

#[test]
fn parse_empty_input_gives_no_records() {
    assert_eq!(parse_porcelain("").len(), 0);
    assert_eq!(parse_porcelain("\n\n\n").len(), 0);
}

#[test]
fn parse_ignores_unknown_lines() {
    let input = "worktree /w
HEAD h1
locked reason
prunable gone
branch refs/heads/dev
";
    let parsed = parse_porcelain(input);
    assert_eq!(parsed.len(), 1);
    assert_eq!(parsed[0].branch(), Some("dev"));
}

#[test]
fn parse_drops_record_missing_head() {
    let input = "worktree /only-path

worktree /complete
HEAD hh
branch refs/heads/x
";
    let parsed = parse_porcelain(input);
    assert_eq!(parsed.len(), 1);
    assert_eq!(parsed[0].path().as_str(), "/complete");
}

#[test]
fn parse_detached_after_branch_clears_it() {
    let input = "worktree /w
HEAD h
branch refs/heads/x
detached
";
    let parsed = parse_porcelain(input);
    assert_eq!(parsed.len(), 1);
    assert_eq!(parsed[0].branch(), None);
}

#[test]
fn parse_trims_trailing_carriage_returns() {
    let input = "worktree /w\r\nHEAD h\r\nbranch refs/heads/x\r\n";
    let parsed = parse_porcelain(input);
    assert_eq!(parsed.len(), 1);
    assert_eq!(parsed[0].path().as_str(), "/w");
    assert_eq!(parsed[0].branch(), Some("x"));
}

#[test]
fn parse_render_reparse_round_trips() {
    let input = "worktree /path/to/main
HEAD abc123
branch refs/heads/main
ignored metadata line

worktree /path/to/detached
HEAD ghi789
detached

worktree /incomplete-no-head

worktree /path/to/feature
HEAD def456
branch refs/heads/feature/nested";
    let first = parse_porcelain(input);
    let rendered = render_porcelain(&first);
    let second = parse_porcelain(&rendered);
    assert_eq!(first.len(), second.len());
    for (a, b) in first.iter().zip(second.iter()) {
        assert_eq!(a.path(), b.path());
        assert_eq!(a.head(), b.head());
        assert_eq!(a.branch(), b.branch());
    }
    // And the rendering itself is stable across a further round trip.
    let third = render_porcelain(&second);
    assert_eq!(rendered, third);
}

#[test]
fn parse_keeps_branch_without_heads_prefix() {
    let input = "worktree /w
HEAD h
branch topic
";
    let parsed = parse_porcelain(input);
    assert_eq!(parsed.len(), 1);
    assert_eq!(parsed[0].branch(), Some("topic"));
}
