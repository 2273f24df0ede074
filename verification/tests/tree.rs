use shnippet::catalog::{
    standard_verbs, CatalogEntry, Verb, VerbDefinition, DELETE_COMMAND_NAME,
    DELETE_DESCRIPTION_TEMPLATE, EDIT_COMMAND_NAME, EXEC_COMMAND_NAME, LIST_COMMAND_NAME,
    NEW_COMMAND_NAME,
};
use shnippet::tree::{
    build, build_flat, require_subcommands, shnippet_list_command, shnippet_sub_commands,
    CommandNode, TreeMode, FLAT_ROOT_NAME, PRIMARY_ROOT_NAME, ROOT_DESCRIPTION,
};

fn entry(name: &str, description: &str) -> CatalogEntry {
    CatalogEntry { name: name.to_string(), description: description.to_string() }
}

fn sample_catalog() -> Vec<CatalogEntry> {
    vec![entry("build", "Builds the project"), entry("test", "Runs tests")]
}

fn names(nodes: &Vec<CommandNode>) -> Vec<String> {
    nodes.iter().map(|n| n.name.clone()).collect()
}

#[test]
fn standard_verbs_are_delete_edit_exec() {
    let verbs = standard_verbs();
    assert_eq!(verbs.len(), 3);
    assert_eq!(verbs[0].verb_name, "delete");
    assert_eq!(verbs[1].verb_name, "edit");
    assert_eq!(verbs[2].verb_name, "exec");
    assert_eq!(verbs[0].child_description_template, Some(DELETE_DESCRIPTION_TEMPLATE));
    assert!(verbs[1].child_description_template.is_some());
    assert_eq!(verbs[2].child_description_template, None);
}

#[test]
fn verb_names_choose_their_verbs() {
    assert_eq!(Verb::from_name(&"delete".to_string()), Some(Verb::Delete));
    assert_eq!(Verb::from_name(&"edit".to_string()), Some(Verb::Edit));
    assert_eq!(Verb::from_name(&"exec".to_string()), Some(Verb::Exec));
    assert_eq!(Verb::from_name(&"list".to_string()), None);
    assert_eq!(Verb::from_name(&"Exec".to_string()), None);
    assert_eq!(Verb::from_name(&"exe".to_string()), None);
    assert_eq!(Verb::from_name(&"".to_string()), None);
    assert_eq!(Verb::Delete.name(), DELETE_COMMAND_NAME);
    assert_eq!(Verb::Edit.name(), EDIT_COMMAND_NAME);
    assert_eq!(Verb::Exec.name(), EXEC_COMMAND_NAME);
}

#[test]
fn leaf_has_no_children_and_no_flags() {
    let node = CommandNode::leaf("build".to_string(), "Builds".to_string());
    assert_eq!(node.name, "build");
    assert_eq!(node.help, "Builds");
    assert!(node.children.is_empty());
    assert!(!node.requires_subcommand);
    assert!(!node.shows_help_if_no_args);
}

#[test]
fn require_subcommands_sets_both_flags_and_keeps_the_rest() {
    let mut node = CommandNode::leaf("verb".to_string(), "Acts".to_string());
    node.children.push(CommandNode::leaf("a".to_string(), "A".to_string()));
    let out = require_subcommands(node);
    assert_eq!(out.name, "verb");
    assert_eq!(out.help, "Acts");
    assert_eq!(names(&out.children), vec!["a"]);
    assert!(out.requires_subcommand);
    assert!(out.shows_help_if_no_args);
}

#[test]
fn sub_commands_without_template_show_descriptions() {
    let nodes = shnippet_sub_commands(&sample_catalog(), None);
    assert_eq!(
        nodes,
        vec![
            CommandNode::leaf("build".to_string(), "Builds the project".to_string()),
            CommandNode::leaf("test".to_string(), "Runs tests".to_string()),
        ]
    );
}

#[test]
fn sub_commands_with_template_render_it_per_entry() {
    let nodes = shnippet_sub_commands(&sample_catalog(), Some("{name} = {description}"));
    assert_eq!(names(&nodes), vec!["build", "test"]);
    assert_eq!(nodes[0].help, "build = Builds the project");
    assert_eq!(nodes[1].help, "test = Runs tests");
}

#[test]
fn sub_commands_of_an_empty_catalog_are_none() {
    assert!(shnippet_sub_commands(&Vec::new(), Some("{name}")).is_empty());
}

#[test]
fn list_command_requires_a_subcommand() {
    let node = shnippet_list_command("delete", "Delete a snippet", &sample_catalog(), None);
    assert_eq!(node.name, "delete");
    assert_eq!(node.help, "Delete a snippet");
    assert_eq!(names(&node.children), vec!["build", "test"]);
    assert!(node.requires_subcommand);
    assert!(node.shows_help_if_no_args);
}

#[test]
fn primary_tree_has_two_plus_v_children_and_n_below_each_verb() {
    let catalog = vec![entry("a", "A"), entry("b", "B"), entry("c", "C"), entry("d", "D")];
    let tree = build(&catalog, &standard_verbs(), true);
    assert_eq!(tree.mode, TreeMode::Primary);
    assert_eq!(tree.root.children.len(), 2 + 3);
    assert_eq!(
        names(&tree.root.children),
        vec![LIST_COMMAND_NAME, NEW_COMMAND_NAME, "delete", "edit", "exec"]
    );
    for verb in &tree.root.children[2..] {
        assert_eq!(verb.children.len(), 4);
        assert_eq!(names(&verb.children), vec!["a", "b", "c", "d"]);
        assert!(verb.requires_subcommand);
        assert!(verb.shows_help_if_no_args);
    }
    for builtin in &tree.root.children[..2] {
        assert!(builtin.children.is_empty());
        assert!(!builtin.requires_subcommand);
    }
}

#[test]
fn primary_tree_without_verbs_has_list_and_new() {
    let tree = build(&sample_catalog(), &Vec::new(), false);
    assert_eq!(names(&tree.root.children), vec!["list", "new"]);
}

#[test]
fn primary_tree_with_one_verb_has_three_children() {
    let verbs = vec![VerbDefinition {
        verb_name: "rename",
        top_level_description: "Rename a snippet",
        child_description_template: None,
    }];
    let tree = build(&sample_catalog(), &verbs, false);
    assert_eq!(tree.root.children.len(), 3);
    assert_eq!(tree.root.children[2].name, "rename");
    assert_eq!(tree.root.children[2].help, "Rename a snippet");
    assert_eq!(tree.root.children[2].children.len(), 2);
}

#[test]
fn edit_child_help_comes_from_the_verbs_template() {
    let verbs = vec![VerbDefinition {
        verb_name: "edit",
        top_level_description: "Edit a snippet",
        child_description_template: Some("Delete the '{name}' snippet ({description})"),
    }];
    let tree = build(&sample_catalog(), &verbs, true);
    let edit = &tree.root.children[2];
    assert_eq!(edit.name, "edit");
    assert_eq!(edit.children[0].name, "build");
    assert_eq!(edit.children[0].help, "Delete the 'build' snippet (Builds the project)");
    assert_eq!(edit.children[1].help, "Delete the 'test' snippet (Runs tests)");
}

#[test]
fn standard_tree_renders_each_verbs_own_template() {
    let tree = build(&sample_catalog(), &standard_verbs(), true);
    let delete = &tree.root.children[2];
    let edit = &tree.root.children[3];
    let exec = &tree.root.children[4];
    assert_eq!(delete.children[0].help, "Delete the 'build' snippet (Builds the project)");
    assert_eq!(edit.children[1].help, "Edit the 'test' snippet (Runs tests)");
    assert_eq!(exec.children[0].help, "Builds the project");
}

#[test]
fn empty_catalog_leaves_verbs_without_children() {
    let tree = build(&Vec::new(), &standard_verbs(), true);
    assert_eq!(tree.root.children.len(), 5);
    let delete = &tree.root.children[2];
    assert_eq!(delete.name, "delete");
    assert!(delete.children.is_empty());
    assert!(delete.requires_subcommand);
}

#[test]
fn roots_show_help_and_require_a_subcommand_only_without_the_flag() {
    let with_flag = build(&sample_catalog(), &standard_verbs(), true);
    assert_eq!(with_flag.root.name, PRIMARY_ROOT_NAME);
    assert_eq!(with_flag.root.help, ROOT_DESCRIPTION);
    assert!(with_flag.completions_flag);
    assert!(with_flag.root.shows_help_if_no_args);
    assert!(!with_flag.root.requires_subcommand);
    let without = build_flat(&sample_catalog(), false);
    assert_eq!(without.root.name, FLAT_ROOT_NAME);
    assert!(!without.completions_flag);
    assert!(without.root.shows_help_if_no_args);
    assert!(without.root.requires_subcommand);
}

#[test]
fn flat_tree_has_one_child_per_entry_with_its_description() {
    let tree = build_flat(&sample_catalog(), true);
    assert_eq!(tree.mode, TreeMode::Flat);
    assert_eq!(
        tree.root.children,
        vec![
            CommandNode::leaf("build".to_string(), "Builds the project".to_string()),
            CommandNode::leaf("test".to_string(), "Runs tests".to_string()),
        ]
    );
}

#[test]
fn flat_tree_keeps_an_entry_named_like_a_builtin() {
    let tree = build_flat(&vec![entry("list", "Mine"), entry("new", "Also mine")], true);
    assert_eq!(names(&tree.root.children), vec!["list", "new"]);
    assert_eq!(tree.root.children[0].help, "Mine");
}
