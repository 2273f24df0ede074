use shnippet::catalog::{standard_verbs, CatalogEntry};
use shnippet::cli::{
    command_of, create_cli, APP_AUTHOR, APP_VERSION, COMPLETIONS_FLAG, COMPLETIONS_HELP,
};
use shnippet::completions::{plan_completions, CompletionPlan};
use shnippet::resolve::{resolve, ResolutionOutcome};
use shnippet::tree::{build, build_flat, CommandNode, CommandTree};

fn entry(name: &str, description: &str) -> CatalogEntry {
    CatalogEntry { name: name.to_string(), description: description.to_string() }
}

fn primary() -> CommandTree {
    build(
        &vec![entry("build", "Builds the project"), entry("test", "Runs tests")],
        &standard_verbs(),
        true,
    )
}

fn about_of(command: &clap::Command) -> Option<String> {
    command.get_about().map(|text| text.to_string())
}

fn mirrors(command: &clap::Command, node: &CommandNode) {
    assert_eq!(command.get_name(), node.name);
    assert_eq!(about_of(command), Some(node.help.clone()));
    assert_eq!(command.is_subcommand_required_set(), node.requires_subcommand);
    assert_eq!(command.is_arg_required_else_help_set(), node.shows_help_if_no_args);
    let subcommands: Vec<&clap::Command> = command.get_subcommands().collect();
    assert_eq!(subcommands.len(), node.children.len());
    for (sub, child) in subcommands.iter().zip(node.children.iter()) {
        mirrors(sub, child);
    }
}

#[test]
fn command_of_a_leaf_has_name_and_about_only() {
    let command = command_of(&CommandNode::leaf("build".to_string(), "Builds".to_string()));
    assert_eq!(command.get_name(), "build");
    assert_eq!(about_of(&command), Some("Builds".to_string()));
    assert_eq!(command.get_version(), None);
    assert_eq!(command.get_author(), None);
    assert_eq!(command.get_subcommands().count(), 0);
    assert_eq!(command.get_arguments().count(), 0);
    assert!(!command.is_subcommand_required_set());
    assert!(!command.is_arg_required_else_help_set());
}

#[test]
fn command_of_mirrors_the_whole_tree() {
    let tree = primary();
    mirrors(&command_of(&tree.root), &tree.root);
    let flat = build_flat(&vec![entry("a", "A"), entry("b", "B"), entry("c", "C")], false);
    mirrors(&command_of(&flat.root), &flat.root);
}

#[test]
fn command_of_keeps_the_order_of_the_children() {
    let command = command_of(&primary().root);
    let names: Vec<&str> = command.get_subcommands().map(|sub| sub.get_name()).collect();
    assert_eq!(names, vec!["list", "new", "delete", "edit", "exec"]);
    let exec = command.find_subcommand("exec").unwrap();
    let below: Vec<&str> = exec.get_subcommands().map(|sub| sub.get_name()).collect();
    assert_eq!(below, vec!["build", "test"]);
    let delete = command.find_subcommand("delete").unwrap();
    assert_eq!(
        about_of(delete.find_subcommand("build").unwrap()),
        Some("Delete the 'build' snippet (Builds the project)".to_string())
    );
}

#[test]
fn create_cli_adds_version_author_and_the_completions_flag() {
    let tree = primary();
    let command = create_cli(&tree);
    mirrors(&command, &tree.root);
    assert_eq!(command.get_version(), Some(APP_VERSION));
    assert_eq!(command.get_author(), Some(APP_AUTHOR));
    assert_eq!(APP_VERSION, "0.1.0");
    let args: Vec<&clap::Arg> = command.get_arguments().collect();
    assert_eq!(args.len(), 1);
    assert_eq!(args[0].get_id().as_str(), COMPLETIONS_FLAG);
    assert_eq!(args[0].get_long(), Some("completions"));
    assert_eq!(args[0].get_help().map(|text| text.to_string()), Some(COMPLETIONS_HELP.to_string()));
}

#[test]
fn create_cli_without_the_flag_has_no_argument() {
    let tree = build_flat(&vec![entry("build", "Builds")], false);
    let command = create_cli(&tree);
    mirrors(&command, &tree.root);
    assert_eq!(command.get_arguments().count(), 0);
    assert!(command.is_subcommand_required_set());
    assert_eq!(command.get_version(), Some("0.1.0"));
}

#[test]
fn clap_reads_the_value_of_the_completions_flag() {
    let matches = create_cli(&primary())
        .try_get_matches_from(["shnippet", "--completions", "zsh"])
        .unwrap();
    assert_eq!(matches.get_one::<String>(COMPLETIONS_FLAG), Some(&"zsh".to_string()));
    assert!(matches.subcommand().is_none());
}

#[test]
fn clap_and_the_resolver_follow_the_same_words() {
    let tree = primary();
    let matches = create_cli(&tree).try_get_matches_from(["shnippet", "edit", "test"]).unwrap();
    let (verb, below) = matches.subcommand().unwrap();
    let (snippet, _) = below.subcommand().unwrap();
    let words = vec![verb.to_string(), snippet.to_string()];
    assert_eq!(words, vec!["edit", "test"]);
    assert_eq!(
        resolve(&tree, &words),
        ResolutionOutcome::VerbOnSnippet(shnippet::catalog::Verb::Edit, "test".to_string())
    );
}

#[test]
fn clap_refuses_what_the_resolver_leaves_unresolved() {
    let tree = primary();
    for words in [vec!["delete"], vec!["frobnicate"], vec!["exec", "deploy"], vec!["list", "x"]] {
        let mut line = vec!["shnippet"];
        line.extend(words.iter());
        assert!(create_cli(&tree).try_get_matches_from(line).is_err());
        let argv: Vec<String> = words.iter().map(|w| w.to_string()).collect();
        assert_eq!(resolve(&tree, &argv), ResolutionOutcome::Unresolved);
    }
}

#[test]
fn known_shells_are_planned_for_generation() {
    for name in ["bash", "elvish", "fish", "powershell", "zsh"] {
        let plan = plan_completions(name);
        assert_eq!(plan.exit_code(), 0);
        match plan {
            CompletionPlan::Generate(shell) => assert_eq!(shell.to_string(), name),
            CompletionPlan::Reject { message } => panic!("{} was refused: {}", name, message),
        }
    }
}

#[test]
fn unknown_shells_are_rejected_with_a_message() {
    let plan = plan_completions("tcsh");
    assert_eq!(plan.exit_code(), 1);
    match plan {
        CompletionPlan::Reject { message } => {
            assert_eq!(message, "Error reading shell name 'tcsh': invalid variant: tcsh")
        },
        CompletionPlan::Generate(shell) => panic!("tcsh was taken for {}", shell),
    }
}

#[test]
fn shell_names_are_compared_letter_for_letter() {
    for name in ["Bash", "ZSH", "", " fish", "pwsh", "power-shell"] {
        match plan_completions(name) {
            CompletionPlan::Reject { message } => assert_eq!(
                message,
                format!("Error reading shell name '{}': invalid variant: {}", name, name)
            ),
            CompletionPlan::Generate(shell) => panic!("{} was taken for {}", name, shell),
        }
    }
}

#[test]
fn a_completion_script_can_be_generated_for_the_planned_shell() {
    let mut command = create_cli(&primary());
    let mut script: Vec<u8> = Vec::new();
    match plan_completions("bash") {
        CompletionPlan::Generate(shell) => {
            clap_complete::generate(shell, &mut command, "shnippet", &mut script)
        },
        CompletionPlan::Reject { message } => panic!("{}", message),
    }
    let text = String::from_utf8(script).unwrap();
    assert!(text.contains("shnippet"));
    assert!(text.contains("build"));
    assert!(text.contains("--completions"));
}
