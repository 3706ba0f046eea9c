//! Shell integration for the two-command wrapper: `sw` changes into the
//! printed worktree path, `rm` changes into the redirect path a removal
//! prints when it removed the directory the caller stood in.

use crate::strutil::str_eq_str;
use vstd::prelude::*;

verus! {

/// The wrapper emitted for bash and zsh.
pub const POSIX_INIT: &'static str = r#"gwt() {
    if [ "$1" = "switch" ] || [ "$1" = "sw" ]; then
        for arg in "$@"; do
            if [ "$arg" = "--help" ] || [ "$arg" = "-h" ]; then
                command gwtree "$@"
                return
            fi
        done
        local result
        result=$(command gwtree sw "${@:2}")
        local exit_code=$?
        if [ $exit_code -eq 0 ]; then
            if [ -d "$result" ]; then
                cd "$result" || return 1
            else
                printf "%s\n" "$result"
            fi
        else
            printf "%s\n" "$result" >&2
            return $exit_code
        fi
    elif [ "$1" = "remove" ] || [ "$1" = "rm" ]; then
        for arg in "$@"; do
            if [ "$arg" = "--help" ] || [ "$arg" = "-h" ]; then
                command gwtree "$@"
                return
            fi
        done
        local result
        result=$(command gwtree rm "${@:2}")
        local exit_code=$?
        if [ $exit_code -eq 0 ]; then
            if [ -d "$result" ]; then
                cd "$result" || return 1
            fi
        else
            printf "%s\n" "$result" >&2
            return $exit_code
        fi
    else
        command gwtree "$@"
    fi
}
"#;

/// The wrapper emitted for fish.
pub const FISH_INIT: &'static str = r#"function gwt
    if test "$argv[1]" = "switch" -o "$argv[1]" = "sw"
        for arg in $argv
            if test "$arg" = "--help" -o "$arg" = "-h"
                command gwtree $argv
                return
            end
        end
        set result (command gwtree sw $argv[2..-1])
        set exit_code $status
        if test $exit_code -eq 0
            if test -d "$result"
                cd "$result" || return 1
            else
                printf "%s\n" $result
            end
        else
            printf "%s\n" $result >&2
            return $exit_code
        end
    else if test "$argv[1]" = "remove" -o "$argv[1]" = "rm"
        for arg in $argv
            if test "$arg" = "--help" -o "$arg" = "-h"
                command gwtree $argv
                return
            end
        end
        set result (command gwtree rm $argv[2..-1])
        set exit_code $status
        if test $exit_code -eq 0
            if test -d "$result"
                cd "$result" || return 1
            end
        else
            printf "%s\n" $result >&2
            return $exit_code
        end
    else
        command gwtree $argv
    end
end
"#;

/// The script `generate_init` owes for each supported shell.
pub open spec fn init_script_spec(shell: Seq<char>) -> Seq<char> {
    if shell == "fish"@ {
        FISH_INIT@
    } else {
        POSIX_INIT@
    }
}

/// Generate the shell integration function for a supported shell; any
/// other name is rejected with a message naming it.
pub fn generate_init(shell: &str) -> (r: Result<String, String>)
    ensures
        (shell@ == "bash"@ || shell@ == "zsh"@ || shell@ == "fish"@) <==> r is Ok,
        r matches Ok(s) ==> s@ == init_script_spec(shell@),
        r matches Err(e) ==> e@ == "Unsupported shell '"@ + shell@
            + "'. Supported: bash, zsh, fish"@,
{
    if str_eq_str(shell, "bash") || str_eq_str(shell, "zsh") {
        proof {
            reveal_strlit("bash");
            reveal_strlit("zsh");
            reveal_strlit("fish");
            assert("bash"@ != "fish"@) by {
                assert("bash"@[0] == 'b');
                assert("fish"@[0] == 'f');
            }
            assert("zsh"@ != "fish"@) by {
                assert("zsh"@.len() == 3);
                assert("fish"@.len() == 4);
            }
        }
        Ok(String::from_str(POSIX_INIT))
    } else if str_eq_str(shell, "fish") {
        Ok(String::from_str(FISH_INIT))
    } else {
        let mut m = String::from_str("Unsupported shell '");
        m.append(shell);
        m.append("'. Supported: bash, zsh, fish");
        Err(m)
    }
}

} // verus!
