//! The command tree handed to clap: a `clap::Command` that holds what the
//! tree holds, so that clap's help, parsing and completion scripts speak of
//! the same commands as the resolver.

use crate::tree::{lemma_node_view, CommandNode, CommandTree, NodeModel, TreeModel};
use vstd::prelude::*;

verus! {

/// The version that the root command reports.
pub const APP_VERSION: &'static str = "0.1.0";

/// The author that the root command reports.
pub const APP_AUTHOR: &'static str = "YJDoc2";

/// The root flag that asks for a shell-completion script; it is also the
/// name under which clap stores the flag's value.
pub const COMPLETIONS_FLAG: &'static str = "completions";

/// The help text of the completions flag.
pub const COMPLETIONS_HELP: &'static str = "Generate shell completions";

/// `clap::Command`, carried as a value that only clap looks into.
#[verifier::external_type_specification]
#[verifier::external_body]
pub struct ExCommand(clap::Command);

/// `clap::Arg`, carried as a value that only clap looks into.
#[verifier::external_type_specification]
#[verifier::external_body]
pub struct ExArg(clap::Arg);

/// What this library reads of a `clap::Arg`.
pub struct ArgModel {
    pub id: Seq<char>,
    pub long: Option<Seq<char>>,
    pub help: Option<Seq<char>>,
}

/// What this library reads of a `clap::Command`: its name, the texts and
/// the two settings that it sets, its arguments and its subcommands, each in
/// the order in which they were added.
#[verifier::ext_equal]
pub struct CommandModel {
    pub name: Seq<char>,
    pub about: Option<Seq<char>>,
    pub version: Option<Seq<char>>,
    pub author: Option<Seq<char>>,
    pub args: Seq<ArgModel>,
    pub subcommands: Seq<CommandModel>,
    pub subcommand_required: bool,
    pub arg_required_else_help: bool,
}

/// What a `clap::Command` holds, as far as `CommandModel` goes: the name,
/// the description, the version and the author as they were stored, the
/// settings `SubcommandRequired` and `ArgRequiredElseHelp`, and the models
/// of the arguments and subcommands that were added. What else clap keeps
/// in a command (display order, help headings) is not part of it.
pub uninterp spec fn command_model(command: clap::Command) -> CommandModel;

/// What a `clap::Arg` holds, as far as `ArgModel` goes: the id, the long
/// flag and the help as they were stored.
pub uninterp spec fn arg_model(arg: clap::Arg) -> ArgModel;

/// A command that has a name and nothing else.
pub open spec fn bare_command(name: Seq<char>) -> CommandModel {
    CommandModel {
        name,
        about: None,
        version: None,
        author: None,
        args: Seq::empty(),
        subcommands: Seq::empty(),
        subcommand_required: false,
        arg_required_else_help: false,
    }
}

/// `clap::Command::new`: a command with the given name and, for the rest,
/// clap's defaults: no description, version or author, neither setting set,
/// no argument and no subcommand.
#[verifier::external_body]
fn command_new(name: &str) -> (command: clap::Command)
    ensures
        command_model(command) == bare_command(name@),
{
    clap::Command::new(name.to_owned())
}

/// `clap::Command::about`: stores the text as the command's description
/// and changes nothing else.
#[verifier::external_body]
fn command_about(command: clap::Command, about: &str) -> (out: clap::Command)
    ensures
        command_model(out) == (CommandModel { about: Some(about@), ..command_model(command) }),
{
    command.about(about.to_owned())
}

/// `clap::Command::version`: stores the text as the command's version and
/// changes nothing else.
#[verifier::external_body]
fn command_version(command: clap::Command, version: &'static str) -> (out: clap::Command)
    ensures
        command_model(out) == (CommandModel {
            version: Some(version@),
            ..command_model(command)
        }),
{
    command.version(version)
}

/// `clap::Command::author`: stores the text as the command's author and
/// changes nothing else.
#[verifier::external_body]
fn command_author(command: clap::Command, author: &'static str) -> (out: clap::Command)
    ensures
        command_model(out) == (CommandModel { author: Some(author@), ..command_model(command) }),
{
    command.author(author)
}

/// `clap::Command::subcommand_required`: sets the setting by which clap
/// reports an error when no subcommand is given, or clears it, as `yes`
/// says, and changes nothing else.
#[verifier::external_body]
fn command_subcommand_required(command: clap::Command, yes: bool) -> (out: clap::Command)
    ensures
        command_model(out) == (CommandModel { subcommand_required: yes, ..command_model(command) }),
{
    command.subcommand_required(yes)
}

/// `clap::Command::arg_required_else_help`: sets the setting by which clap
/// shows help when nothing follows the command, or clears it, as `yes`
/// says, and changes nothing else.
#[verifier::external_body]
fn command_arg_required_else_help(command: clap::Command, yes: bool) -> (out: clap::Command)
    ensures
        command_model(out) == (CommandModel {
            arg_required_else_help: yes,
            ..command_model(command)
        }),
{
    command.arg_required_else_help(yes)
}

/// `clap::Command::subcommand`: puts `sub` behind the subcommands that the
/// command has. Clap gives `sub` a display order on the way; of what the
/// model holds, nothing in `sub` and nothing else in the command changes.
#[verifier::external_body]
fn command_subcommand(command: clap::Command, sub: clap::Command) -> (out: clap::Command)
    ensures
        command_model(out) == (CommandModel {
            subcommands: command_model(command).subcommands.push(command_model(sub)),
            ..command_model(command)
        }),
{
    command.subcommand(sub)
}

/// `clap::Command::arg`: puts `arg` behind the arguments that the command
/// has. Clap gives `arg` a display order and a help heading on the way; of
/// what the models hold, nothing in `arg` and nothing else in the command
/// changes.
#[verifier::external_body]
fn command_arg(command: clap::Command, arg: clap::Arg) -> (out: clap::Command)
    ensures
        command_model(out) == (CommandModel {
            args: command_model(command).args.push(arg_model(arg)),
            ..command_model(command)
        }),
{
    command.arg(arg)
}

/// `clap::Arg::new`: an argument with the given id and, for the rest,
/// clap's defaults: no long flag and no help.
#[verifier::external_body]
fn arg_new(id: &'static str) -> (arg: clap::Arg)
    ensures
        arg_model(arg) == (ArgModel { id: id@, long: None, help: None }),
{
    clap::Arg::new(id)
}

/// `clap::Arg::long`: stores the text as the argument's long flag, as it
/// is given, and changes nothing else.
#[verifier::external_body]
fn arg_long(arg: clap::Arg, long: &'static str) -> (out: clap::Arg)
    ensures
        arg_model(out) == (ArgModel { long: Some(long@), ..arg_model(arg) }),
{
    arg.long(long)
}

/// `clap::Arg::help`: stores the text as the argument's help and changes
/// nothing else.
#[verifier::external_body]
fn arg_help(arg: clap::Arg, help: &'static str) -> (out: clap::Arg)
    ensures
        arg_model(out) == (ArgModel { help: Some(help@), ..arg_model(arg) }),
{
    arg.help(help)
}

/// The clap command for one node: named as the node, described by its help
/// text, with the node's two flags as clap's two settings and one
/// subcommand per child, in the children's order.
pub open spec fn command_for(node: NodeModel) -> CommandModel
    decreases node,
{
    CommandModel {
        name: node.name,
        about: Some(node.help),
        version: None,
        author: None,
        args: Seq::empty(),
        subcommands: Seq::new(
            node.children.len(),
            |i: int|
                if 0 <= i < node.children.len() {
                    command_for(node.children[i])
                } else {
                    arbitrary()
                },
        ),
        subcommand_required: node.requires_subcommand,
        arg_required_else_help: node.shows_help_if_no_args,
    }
}

/// The clap commands for the first `upto` of `children`.
pub open spec fn commands_for(children: Seq<NodeModel>, upto: int) -> Seq<CommandModel> {
    Seq::new(upto as nat, |i: int| command_for(children[i]))
}

/// The subcommands of a node's command are the commands of its children.
pub proof fn lemma_command_for(node: NodeModel)
    ensures
        command_for(node).subcommands == commands_for(node.children, node.children.len() as int),
{
    assert(command_for(node).subcommands =~= commands_for(
        node.children,
        node.children.len() as int,
    ));
}

/// The argument behind the completions flag.
pub open spec fn completions_arg() -> ArgModel {
    ArgModel {
        id: COMPLETIONS_FLAG@,
        long: Some(COMPLETIONS_FLAG@),
        help: Some(COMPLETIONS_HELP@),
    }
}

/// The clap command for a whole tree: the command of its root, with the
/// version and the author, and with the completions flag where the tree
/// takes it.
pub open spec fn cli_for(tree: TreeModel) -> CommandModel {
    CommandModel {
        version: Some(APP_VERSION@),
        author: Some(APP_AUTHOR@),
        args: if tree.completions_flag {
            seq![completions_arg()]
        } else {
            Seq::empty()
        },
        ..command_for(tree.root)
    }
}

/// Builds the clap command that holds what `node` holds, children and
/// their children included.
pub fn command_of(node: &CommandNode) -> (command: clap::Command)
    ensures
        command_model(command) == command_for(node@),
    decreases node,
{
    let mut command = command_about(command_new(node.name.as_str()), node.help.as_str());
    let mut i: usize = 0;
    proof {
        lemma_node_view(*node);
        lemma_command_for(node@);
    }
    assert(command_model(command).subcommands =~= commands_for(node@.children, 0));
    while i < node.children.len()
        invariant
            i <= node.children.len(),
            node@.children.len() == node.children@.len(),
            forall|j: int| 0 <= j < node.children@.len() ==> node@.children[j] == node.children@[j]@,
            command_model(command) == (CommandModel {
                subcommands: commands_for(node@.children, i as int),
                about: Some(node@.help),
                ..bare_command(node@.name)
            }),
        decreases node.children.len() - i,
    {
        let sub = command_of(&node.children[i]);
        command = command_subcommand(command, sub);
        i += 1;
        assert(command_model(command).subcommands =~= commands_for(node@.children, i as int));
    }
    command = command_subcommand_required(command, node.requires_subcommand);
    command = command_arg_required_else_help(command, node.shows_help_if_no_args);
    assert(command_model(command) =~= command_for(node@));
    command
}

/// Builds the clap command for `tree`: that of the root, with the version
/// and the author, and with the `--completions` flag where the tree takes
/// it.
pub fn create_cli(tree: &CommandTree) -> (command: clap::Command)
    ensures
        command_model(command) == cli_for(tree@),
{
    let mut command = command_of(&tree.root);
    command = command_version(command, APP_VERSION);
    command = command_author(command, APP_AUTHOR);
    if tree.completions_flag {
        let flag = arg_help(arg_long(arg_new(COMPLETIONS_FLAG), COMPLETIONS_FLAG), COMPLETIONS_HELP);
        command = command_arg(command, flag);
        assert(command_model(command).args =~= seq![completions_arg()]);
    }
    assert(command_model(command) =~= cli_for(tree@));
    command
}

} // verus!
