//! Tab-completion support: the dynamic completion functions that suggest
//! branch names for the switch subcommand. The static completion script
//! for the argument parser is produced by an outer layer; this module
//! decides the text that is appended to it.

use crate::command::ShellType;
use vstd::prelude::*;

verus! {

/// Dynamic branch-name completion for bash.
pub const BASH_DYNAMIC: &'static str = r#"
# Dynamic completion for gwt sw command (branch names)
_gwt_sw_completions() {
    local branches
    branches=$(gwtree ls --raw 2>/dev/null)
    COMPREPLY=($(compgen -W "$branches" -- "${COMP_WORDS[COMP_CWORD]}"))
}

# Override the default completion for 'sw' subcommand
_gwt_custom() {
    local cur prev words cword
    _init_completion || return

    if [[ ${cword} -ge 2 && "${words[1]}" == "sw" ]]; then
        # Complete branch names for 'gwt sw <branch>'
        _gwt_sw_completions
        return
    fi

    # Fall back to default gwtree completions
    _gwtree "$@"
}

complete -F _gwt_custom gwt
"#;

/// Dynamic branch-name completion for zsh.
pub const ZSH_DYNAMIC: &'static str = r#"
# Dynamic completion for gwt sw command (branch names)
_gwt_branches() {
    local branches
    branches=(${(f)"$(gwtree ls --raw 2>/dev/null)"})
    _describe 'branch' branches
}

# Custom completion for gwt wrapper function
compdef _gwt_wrapper gwt

_gwt_wrapper() {
    local line state

    _arguments -C \
        '1: :->command' \
        '*: :->args'

    case $state in
        command)
            _gwtree
            ;;
        args)
            case $line[1] in
                sw|switch)
                    _gwt_branches
                    ;;
                *)
                    _gwtree
                    ;;
            esac
            ;;
    esac
}
"#;

/// Dynamic branch-name completion for fish.
pub const FISH_DYNAMIC: &'static str = r#"
# Dynamic completion for gwt sw command (branch names)
function __gwt_branches
    gwtree ls --raw 2>/dev/null
end

# Complete branch names after 'gwt sw'
complete -c gwt -n '__fish_seen_subcommand_from sw switch' -a '(__gwt_branches)' -d 'branch'
"#;

/// The dynamic completion text owed for each shell.
pub open spec fn dynamic_completions_spec(shell: ShellType) -> Seq<char> {
    match shell {
        ShellType::Bash => BASH_DYNAMIC@,
        ShellType::Zsh => ZSH_DYNAMIC@,
        ShellType::Fish => FISH_DYNAMIC@,
    }
}

/// The dynamic completion functions to append to the static completion
/// script for the given shell.
pub fn handle(shell: ShellType) -> (r: Result<String, String>)
    ensures
        r matches Ok(s) && s@ == dynamic_completions_spec(shell),
{
    match shell {
        ShellType::Bash => Ok(String::from_str(BASH_DYNAMIC)),
        ShellType::Zsh => Ok(String::from_str(ZSH_DYNAMIC)),
        ShellType::Fish => Ok(String::from_str(FISH_DYNAMIC)),
    }
}

} // verus!
