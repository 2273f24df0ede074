//! Dispatch: from a resolution outcome to the one call it stands for, and
//! from what that call reports to the exit code of the process.

use crate::catalog::{
    law_standard_verbs_offer_every_verb, standard_verb_models, EntryModel, Verb,
    EXEC_COMMAND_NAME,
};
use crate::resolve::{law_flat_matches_primary, resolve_model, OutcomeModel, ResolutionOutcome};
use crate::tree::{flat_tree, primary_tree};
use vstd::prelude::*;

verus! {

/// The exit code of a run that did what was asked.
pub const EXIT_SUCCESS: i32 = 0;

/// The exit code of a run whose invocation was unresolved, and of a failed
/// action that reported no code of its own.
pub const EXIT_FAILURE: i32 = 1;

/// What is printed to the error stream for an unresolved invocation.
pub const UNRESOLVED_DIAGNOSTIC: &'static str = "unknown subcommand, see help";

/// The one call that a run makes: to list the catalog, to create a snippet,
/// to delete, edit or execute the named snippet, or to report that the
/// invocation was not understood.
#[derive(Clone, Debug, PartialEq, Eq)]
pub enum Action {
    List,
    CreateNew,
    Delete(String),
    Edit(String),
    Execute(String),
    ReportUnresolved,
}

/// What an action holds.
pub enum ActionModel {
    List,
    CreateNew,
    Delete(Seq<char>),
    Edit(Seq<char>),
    Execute(Seq<char>),
    ReportUnresolved,
}

impl View for Action {
    type V = ActionModel;

    open spec fn view(&self) -> ActionModel {
        match self {
            Action::List => ActionModel::List,
            Action::CreateNew => ActionModel::CreateNew,
            Action::Delete(name) => ActionModel::Delete(name@),
            Action::Edit(name) => ActionModel::Edit(name@),
            Action::Execute(name) => ActionModel::Execute(name@),
            Action::ReportUnresolved => ActionModel::ReportUnresolved,
        }
    }
}

/// What the call of an action reported: that it was done, or that it failed,
/// with the code it failed with (that of a process it ran, for one).
#[derive(Clone, Copy, Debug, PartialEq, Eq, Structural)]
pub enum ActionResult {
    Done,
    Failed { code: i32 },
}

/// The action that an outcome stands for.
pub open spec fn action_for(outcome: OutcomeModel) -> ActionModel {
    match outcome {
        OutcomeModel::ListRequested => ActionModel::List,
        OutcomeModel::NewRequested => ActionModel::CreateNew,
        OutcomeModel::VerbOnSnippet(Verb::Delete, name) => ActionModel::Delete(name),
        OutcomeModel::VerbOnSnippet(Verb::Edit, name) => ActionModel::Edit(name),
        OutcomeModel::VerbOnSnippet(Verb::Exec, name) => ActionModel::Execute(name),
        OutcomeModel::Unresolved => ActionModel::ReportUnresolved,
    }
}

/// The exit code of a run. Listing succeeds whatever the catalog holds. An
/// unresolved invocation fails with `EXIT_FAILURE`. Any other action
/// succeeds where its call was done; where the call failed, its code is
/// handed on as it is, and `EXIT_FAILURE` stands in for a code of zero, so
/// that a failure never exits with success.
pub open spec fn exit_code_for(action: ActionModel, result: ActionResult) -> i32 {
    match action {
        ActionModel::List => EXIT_SUCCESS,
        ActionModel::ReportUnresolved => EXIT_FAILURE,
        _ => match result {
            ActionResult::Done => EXIT_SUCCESS,
            ActionResult::Failed { code } => if code == 0 {
                EXIT_FAILURE
            } else {
                code
            },
        },
    }
}

/// Chooses the call that `outcome` stands for.
pub fn dispatch(outcome: ResolutionOutcome) -> (action: Action)
    ensures
        action@ == action_for(outcome@),
{
    match outcome {
        ResolutionOutcome::ListRequested => Action::List,
        ResolutionOutcome::NewRequested => Action::CreateNew,
        ResolutionOutcome::VerbOnSnippet(verb, name) => match verb {
            Verb::Delete => Action::Delete(name),
            Verb::Edit => Action::Edit(name),
            Verb::Exec => Action::Execute(name),
        },
        ResolutionOutcome::Unresolved => Action::ReportUnresolved,
    }
}

/// The exit code of a run that made the call of `action` and got `result`
/// from it. For `List` and `ReportUnresolved` the result does not count.
pub fn exit_code(action: &Action, result: ActionResult) -> (code: i32)
    ensures
        code == exit_code_for(action@, result),
        action@ is ReportUnresolved ==> code == EXIT_FAILURE,
        result is Failed && !(action@ is List) ==> code != EXIT_SUCCESS,
{
    match action {
        Action::List => EXIT_SUCCESS,
        Action::ReportUnresolved => EXIT_FAILURE,
        _ => match result {
            ActionResult::Done => EXIT_SUCCESS,
            ActionResult::Failed { code } => if code == 0 {
                EXIT_FAILURE
            } else {
                code
            },
        },
    }
}

/// Flat and primary trees dispatch alike. For a snippet of the catalog,
/// `exec` and the snippet's name on the primary tree of the built-in verbs,
/// and the snippet's name alone on the flat tree, resolve to the same
/// outcome and stand for the same call: to execute that snippet.
pub proof fn law_flat_dispatches_as_primary(
    catalog: Seq<EntryModel>,
    completions_flag: bool,
    snippet: Seq<char>,
)
    requires
        exists|i: int| 0 <= i < catalog.len() && catalog[i].name == snippet,
    ensures
        resolve_model(
            primary_tree(catalog, standard_verb_models(), completions_flag),
            seq![EXEC_COMMAND_NAME@, snippet],
        ) == resolve_model(flat_tree(catalog, completions_flag), seq![snippet]),
        action_for(
            resolve_model(
                primary_tree(catalog, standard_verb_models(), completions_flag),
                seq![EXEC_COMMAND_NAME@, snippet],
            ),
        ) == ActionModel::Execute(snippet),
        action_for(resolve_model(flat_tree(catalog, completions_flag), seq![snippet]))
            == ActionModel::Execute(snippet),
{
    law_standard_verbs_offer_every_verb(Verb::Exec);
    law_flat_matches_primary(catalog, standard_verb_models(), completions_flag, snippet);
}

} // verus!
