//! The request for a shell-completion script: which shell is meant, and what
//! is said when the shell is not known.

use crate::dispatch::{EXIT_FAILURE, EXIT_SUCCESS};
use std::str::FromStr;
use vstd::prelude::*;

verus! {

/// `clap_complete::Shell`, carried as a value that only `clap_complete`
/// looks into.
#[verifier::external_type_specification]
#[verifier::external_body]
pub struct ExShell(clap_complete::Shell);

/// The name under which `clap_complete` knows a shell, which is also what
/// the shell displays as.
pub uninterp spec fn shell_name(shell: clap_complete::Shell) -> Seq<char>;

/// `name` is the name of a shell for which a completion script can be
/// generated.
pub open spec fn is_shell_name(name: Seq<char>) -> bool {
    ||| name == "bash"@
    ||| name == "elvish"@
    ||| name == "fish"@
    ||| name == "powershell"@
    ||| name == "zsh"@
}

/// What `clap_complete` says of a name that is no shell's.
pub open spec fn invalid_shell_text(name: Seq<char>) -> Seq<char> {
    "invalid variant: "@ + name
}

/// `<clap_complete::Shell as FromStr>::from_str`: the shell whose name is
/// `name`, letter for letter and in lower case; for any other text an error
/// that quotes the text.
#[verifier::external_body]
fn shell_from_str(name: &str) -> (parsed: Result<clap_complete::Shell, String>)
    ensures
        parsed is Ok <==> is_shell_name(name@),
        parsed matches Ok(shell) ==> shell_name(shell) == name@,
        parsed matches Err(text) ==> text@ == invalid_shell_text(name@),
{
    clap_complete::Shell::from_str(name)
}

/// What to do about a request for a completion script: generate it for a
/// shell and exit with success, or print a message to the error stream and
/// exit with failure.
#[derive(Debug)]
pub enum CompletionPlan {
    Generate(clap_complete::Shell),
    Reject { message: String },
}

/// The message for a shell name that is not known.
pub open spec fn rejection_text(name: Seq<char>) -> Seq<char> {
    "Error reading shell name '"@ + name + "': "@ + invalid_shell_text(name)
}

impl CompletionPlan {
    /// The exit code of a run that carried the plan out.
    pub fn exit_code(&self) -> (code: i32)
        ensures
            code == (if self is Generate {
                EXIT_SUCCESS
            } else {
                EXIT_FAILURE
            }),
    {
        match self {
            CompletionPlan::Generate(_) => EXIT_SUCCESS,
            CompletionPlan::Reject { .. } => EXIT_FAILURE,
        }
    }
}

/// Decides what to do about the value of the completions flag. A known
/// shell name gives that shell; any other text gives the message that names
/// the text and says why it was refused.
pub fn plan_completions(name: &str) -> (plan: CompletionPlan)
    ensures
        plan is Generate <==> is_shell_name(name@),
        plan matches CompletionPlan::Generate(shell) ==> shell_name(shell) == name@,
        plan matches CompletionPlan::Reject { message } ==> message@ == rejection_text(name@),
{
    match shell_from_str(name) {
        Ok(shell) => CompletionPlan::Generate(shell),
        Err(reason) => {
            let mut message = "Error reading shell name '".to_owned();
            message.append(name);
            message.append("': ");
            message.append(reason.as_str());
            assert(message@ =~= rejection_text(name@));
            CompletionPlan::Reject { message }
        },
    }
}

} // verus!
