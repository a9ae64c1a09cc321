//! The argument lists handed to a subshell, and the choice of shell.
//!
//! A recognized strict-mode-capable shell family gets its strict-mode flags
//! placed before `-c`; any other shell runs the command bare.

use vstd::prelude::*;
use vstd::string::StringExecFns;
use crate::text::str_eq;

verus! {

/// The extra flags a recognized shell family gets before `-c`.
pub open spec fn strict_mode_flags(shell: Seq<char>) -> Seq<Seq<char>> {
    if shell == "zsh"@ {
        seq!["--shwordsplit"@, "--no-unset"@, "--errexit"@]
    } else if shell == "bash"@ {
        seq!["-e"@, "-u"@]
    } else {
        Seq::empty()
    }
}

/// The full argument list for running `command` under `shell`: the family's
/// strict-mode flags, then `-c`, then the command itself.
pub open spec fn shell_argv(shell: Seq<char>, command: Seq<char>) -> Seq<Seq<char>> {
    strict_mode_flags(shell) + seq!["-c"@, command]
}

/// The arguments to pass to `shell` so that it runs `command`.
pub fn shell_invocation(shell: &str, command: &str) -> (argv: Vec<String>)
    ensures
        argv.deep_view() == shell_argv(shell@, command@),
{
    let mut argv: Vec<String> = Vec::new();
    if str_eq(shell, "zsh") {
        argv.push(String::from_str("--shwordsplit"));
        argv.push(String::from_str("--no-unset"));
        argv.push(String::from_str("--errexit"));
    } else if str_eq(shell, "bash") {
        argv.push(String::from_str("-e"));
        argv.push(String::from_str("-u"));
    }
    argv.push(String::from_str("-c"));
    argv.push(String::from_str(command));
    proof {
        assert(argv.deep_view() =~= shell_argv(shell@, command@));
    }
    argv
}

/// The shell the engine runs commands under: the configured one, else the
/// one the environment names, else `sh`.
pub fn effective_shell(configured: &Option<String>, environment: &Option<String>) -> (r: String)
    ensures
        (match *configured {
            Some(s) => r@ == s@,
            None => (match *environment {
                Some(e) => r@ == e@,
                None => r@ == "sh"@,
            }),
        }),
{
    match configured {
        Some(s) => s.clone(),
        None => match environment {
            Some(e) => e.clone(),
            None => String::from_str("sh"),
        },
    }
}

} // verus!
