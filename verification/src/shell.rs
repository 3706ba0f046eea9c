//! Shell integration: a wrapper function for the user's shell that turns
//! a printed worktree path into a directory change.

use crate::strutil::str_eq_str;
use vstd::prelude::*;

verus! {

/// The wrapper emitted for bash and zsh.
pub const POSIX_INIT: &'static str = r#"gwt() {
    if [ "$1" = "switch" ]; then
        local result
        result=$(command gwtree switch "${@:2}")
        local exit_code=$?
        if [ $exit_code -eq 0 ]; then
            if [ -d "$result" ]; then
                cd "$result" || return 1
            fi
        else
            echo "$result" >&2
            return $exit_code
        fi
    else
        command gwtree "$@"
    fi
}
"#;

/// The wrapper emitted for fish.
pub const FISH_INIT: &'static str = r#"function gwt
    if test "$argv[1]" = "switch"
        set result (command gwtree switch (echo $argv | sed 's/^switch //'))
        set exit_code $status
        if test $exit_code -eq 0
            if test -d "$result"
                cd "$result" || return 1
            end
        else
            echo $result >&2
            return $exit_code
        end
    else
        command gwtree $argv
    end
end
"#;

/// The script `generate_init` owes for each supported shell.
pub open spec fn init_script_spec(shell: Seq<char>) -> Seq<char> {
    if shell == "fish"@ {
        FISH_INIT@
    } else {
        POSIX_INIT@
    }
}

/// Generate the shell integration function for a supported shell; any
/// other name is rejected with a message naming it.
pub fn generate_init(shell: &str) -> (r: Result<String, String>)
    ensures
        (shell@ == "bash"@ || shell@ == "zsh"@ || shell@ == "fish"@) <==> r is Ok,
        r matches Ok(s) ==> s@ == init_script_spec(shell@),
        r matches Err(e) ==> e@ == "Unsupported shell '"@ + shell@
            + "'. Supported: bash, zsh, fish"@,
{
    if str_eq_str(shell, "bash") || str_eq_str(shell, "zsh") {
        proof {
            reveal_strlit("bash");
            reveal_strlit("zsh");
            reveal_strlit("fish");
            assert("bash"@ != "fish"@) by {
                assert("bash"@[0] == 'b');
                assert("fish"@[0] == 'f');
            }
            assert("zsh"@ != "fish"@) by {
                assert("zsh"@.len() == 3);
                assert("fish"@.len() == 4);
            }
        }
        Ok(String::from_str(POSIX_INIT))
    } else if str_eq_str(shell, "fish") {
        Ok(String::from_str(FISH_INIT))
    } else {
        let mut m = String::from_str("Unsupported shell '");
        m.append(shell);
        m.append("'. Supported: bash, zsh, fish");
        Err(m)
    }
}

} // verus!
