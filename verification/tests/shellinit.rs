use gwtree::command::completion::handle;
use gwtree::command::ShellType;

#[test]
fn shell_generate_bash_init_contains_function() {
    let s = gwtree::shell::generate_init("bash").unwrap();
    assert!(s.contains("gwt() {"));
    assert!(s.contains("command gwtree"));
}

#[test]
fn shell_generate_fish_init_contains_function() {
    let s = gwtree::shell::generate_init("fish").unwrap();
    assert!(s.contains("function gwt"));
    assert!(s.contains("command gwtree"));
}

#[test]
fn mod_generate_bash_init_contains_function() {
    let s = gwtree::command::shell::generate_init("bash").unwrap();
    assert!(s.contains("gwt() {"));
    assert!(s.contains("command gwtree"));
    assert!(s.contains(r#"[ "$1" = "switch" ] || [ "$1" = "sw" ]"#));
    assert!(s.contains(r#"[ "$1" = "remove" ] || [ "$1" = "rm" ]"#));
}

#[test]
fn generate_zsh_init_contains_function() {
    let s = gwtree::command::shell::generate_init("zsh").unwrap();
    assert!(s.contains("gwt() {"));
    assert!(s.contains("command gwtree"));
    assert!(s.contains(r#"[ "$1" = "switch" ] || [ "$1" = "sw" ]"#));
    assert!(s.contains(r#"[ "$1" = "remove" ] || [ "$1" = "rm" ]"#));
}

#[test]
fn mod_generate_fish_init_contains_function() {
    let s = gwtree::command::shell::generate_init("fish").unwrap();
    assert!(s.contains("function gwt"));
    assert!(s.contains("command gwtree"));
    assert!(s.contains(r#"test "$argv[1]" = "switch" -o "$argv[1]" = "sw""#));
    assert!(s.contains(r#"test "$argv[1]" = "remove" -o "$argv[1]" = "rm""#));
}

#[test]
fn generate_init_unsupported_shell() {
    let result = gwtree::command::shell::generate_init("powershell");
    assert!(result.is_err());
    assert_eq!(
        result.unwrap_err(),
        "Unsupported shell 'powershell'. Supported: bash, zsh, fish"
    );
}

#[test]
fn test_handle_bash() {
    // Just ensure it doesn't panic
    assert!(handle(ShellType::Bash).is_ok());
}

#[test]
fn test_handle_zsh() {
    assert!(handle(ShellType::Zsh).is_ok());
}

#[test]
fn test_handle_fish() {
    assert!(handle(ShellType::Fish).is_ok());
}

#[test]
fn completion_text_names_the_listing_command() {
    let bash = handle(ShellType::Bash).unwrap();
    assert!(bash.contains("gwtree ls --raw"));
    assert!(bash.contains("complete -F _gwt_custom gwt"));
    let zsh = handle(ShellType::Zsh).unwrap();
    assert!(zsh.contains("compdef _gwt_wrapper gwt"));
    let fish = handle(ShellType::Fish).unwrap();
    assert!(fish.contains("__gwt_branches"));
}
