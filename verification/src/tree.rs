//! The command tree: what can be typed on the command line, built anew from
//! the catalog on every run.

use crate::catalog::{
    catalog_model, verbs_model, CatalogEntry, EntryModel, VerbDefinition, VerbModel,
    LIST_COMMAND_DESCRIPTION, LIST_COMMAND_NAME, NEW_COMMAND_DESCRIPTION, NEW_COMMAND_NAME,
};
use crate::template::{render, render_text, template_text};
use vstd::prelude::*;

verus! {

/// One command: its name, its help text, the commands below it, and two
/// flags. `requires_subcommand` says that the command can only be used to
/// choose one of its children; `shows_help_if_no_args` says that help is
/// shown when nothing follows it.
#[derive(Debug, PartialEq, Eq)]
pub struct CommandNode {
    pub name: String,
    pub help: String,
    pub children: Vec<CommandNode>,
    pub requires_subcommand: bool,
    pub shows_help_if_no_args: bool,
}

/// What a command node holds.
#[verifier::ext_equal]
pub struct NodeModel {
    pub name: Seq<char>,
    pub help: Seq<char>,
    pub children: Seq<NodeModel>,
    pub requires_subcommand: bool,
    pub shows_help_if_no_args: bool,
}

/// What `node` holds.
pub open spec fn node_model(node: CommandNode) -> NodeModel
    decreases node,
{
    NodeModel {
        name: node.name@,
        help: node.help@,
        children: Seq::new(
            node.children@.len(),
            |i: int|
                if 0 <= i < node.children@.len() {
                    node_model(node.children@[i])
                } else {
                    arbitrary()
                },
        ),
        requires_subcommand: node.requires_subcommand,
        shows_help_if_no_args: node.shows_help_if_no_args,
    }
}

impl View for CommandNode {
    type V = NodeModel;

    open spec fn view(&self) -> NodeModel {
        node_model(*self)
    }
}

/// What a list of command nodes holds, in its order.
pub open spec fn nodes_model(nodes: Seq<CommandNode>) -> Seq<NodeModel> {
    Seq::new(nodes.len(), |i: int| nodes[i]@)
}

/// What a node holds, field by field.
pub proof fn lemma_node_view(node: CommandNode)
    ensures
        node@.name == node.name@,
        node@.help == node.help@,
        node@.children == nodes_model(node.children@),
        node@.requires_subcommand == node.requires_subcommand,
        node@.shows_help_if_no_args == node.shows_help_if_no_args,
{
    assert(node@.children =~= nodes_model(node.children@));
}

/// Which tree a command tree is: the primary one, with the built-in
/// commands, or the flat one, where each snippet is a command of its own.
#[derive(Clone, Copy, Debug, PartialEq, Eq, Structural)]
pub enum TreeMode {
    Primary,
    Flat,
}

/// A command tree: its root, its kind, and whether the root takes the flag
/// that asks for a shell-completion script.
#[derive(Debug, PartialEq, Eq)]
pub struct CommandTree {
    pub root: CommandNode,
    pub mode: TreeMode,
    pub completions_flag: bool,
}

/// What a command tree holds.
#[verifier::ext_equal]
pub struct TreeModel {
    pub root: NodeModel,
    pub mode: TreeMode,
    pub completions_flag: bool,
}

impl View for CommandTree {
    type V = TreeModel;

    open spec fn view(&self) -> TreeModel {
        TreeModel { root: self.root@, mode: self.mode, completions_flag: self.completions_flag }
    }
}

/// The name of the primary tree's root.
pub const PRIMARY_ROOT_NAME: &'static str = "Shnippet";

/// The name of the flat tree's root.
pub const FLAT_ROOT_NAME: &'static str = "shnippet-exec";

/// The help text of either root.
pub const ROOT_DESCRIPTION: &'static str = "Commandline snippet manager";

/// A command with nothing below it, which acts when it is chosen.
pub open spec fn leaf(name: Seq<char>, help: Seq<char>) -> NodeModel {
    NodeModel {
        name,
        help,
        children: Seq::empty(),
        requires_subcommand: false,
        shows_help_if_no_args: false,
    }
}

/// `node`, made a command that only chooses among its children and shows
/// help when nothing follows it.
pub open spec fn with_required_subcommand(node: NodeModel) -> NodeModel {
    NodeModel { requires_subcommand: true, shows_help_if_no_args: true, ..node }
}

/// One leaf per catalog entry, in the catalog's order: named as the snippet,
/// with the help text that the template gives for it.
pub open spec fn snippet_leaves(
    catalog: Seq<EntryModel>,
    template: Option<Seq<char>>,
) -> Seq<NodeModel> {
    Seq::new(
        catalog.len(),
        |i: int|
            leaf(catalog[i].name, render_text(template, catalog[i].name, catalog[i].description)),
    )
}

/// The command of one verb: one child per catalog entry, and a child must
/// be chosen.
pub open spec fn verb_node(
    name: Seq<char>,
    description: Seq<char>,
    catalog: Seq<EntryModel>,
    template: Option<Seq<char>>,
) -> NodeModel {
    NodeModel {
        name,
        help: description,
        children: snippet_leaves(catalog, template),
        requires_subcommand: true,
        shows_help_if_no_args: true,
    }
}

/// The children of the primary root: `list`, `new`, then one command per
/// verb, in the order of the definitions.
pub open spec fn primary_children(
    catalog: Seq<EntryModel>,
    verbs: Seq<VerbModel>,
) -> Seq<NodeModel> {
    seq![
        leaf(LIST_COMMAND_NAME@, LIST_COMMAND_DESCRIPTION@),
        leaf(NEW_COMMAND_NAME@, NEW_COMMAND_DESCRIPTION@),
    ] + Seq::new(
        verbs.len(),
        |k: int| verb_node(verbs[k].name, verbs[k].description, catalog, verbs[k].template),
    )
}

/// A root. It shows help when nothing follows it. It can be used on its
/// own only to ask for a completion script, so without that flag a child
/// must be chosen.
pub open spec fn root_node(
    name: Seq<char>,
    children: Seq<NodeModel>,
    completions_flag: bool,
) -> NodeModel {
    NodeModel {
        name,
        help: ROOT_DESCRIPTION@,
        children,
        requires_subcommand: !completions_flag,
        shows_help_if_no_args: true,
    }
}

/// The primary tree for a catalog and a list of verbs.
pub open spec fn primary_tree(
    catalog: Seq<EntryModel>,
    verbs: Seq<VerbModel>,
    completions_flag: bool,
) -> TreeModel {
    TreeModel {
        root: root_node(PRIMARY_ROOT_NAME@, primary_children(catalog, verbs), completions_flag),
        mode: TreeMode::Primary,
        completions_flag,
    }
}

/// The flat tree for a catalog: each snippet is a child of the root and
/// shows its own description.
pub open spec fn flat_tree(catalog: Seq<EntryModel>, completions_flag: bool) -> TreeModel {
    TreeModel {
        root: root_node(FLAT_ROOT_NAME@, snippet_leaves(catalog, None), completions_flag),
        mode: TreeMode::Flat,
        completions_flag,
    }
}

/// Below and at `node`, a command that has children can only be used to
/// choose one of them.
pub open spec fn parents_require_subcommand(node: NodeModel) -> bool
    decreases node,
{
    &&& node.children.len() > 0 ==> node.requires_subcommand
    &&& forall|i: int|
        0 <= i < node.children.len() ==> #[trigger] parents_require_subcommand(node.children[i])
}

/// The invariant of a command tree. The root shows help when nothing follows
/// it. A command with children requires that one is chosen; the one
/// exception is a root that takes the completions flag, which has a use of
/// its own.
pub open spec fn well_formed(tree: TreeModel) -> bool {
    &&& tree.root.shows_help_if_no_args
    &&& tree.root.requires_subcommand == !tree.completions_flag
    &&& forall|i: int|
        0 <= i < tree.root.children.len() ==> #[trigger] parents_require_subcommand(
            tree.root.children[i],
        )
}

impl CommandNode {
    /// A command with nothing below it.
    pub fn leaf(name: String, help: String) -> (node: CommandNode)
        ensures
            node@ == leaf(name@, help@),
    {
        let node = CommandNode {
            name,
            help,
            children: Vec::new(),
            requires_subcommand: false,
            shows_help_if_no_args: false,
        };
        proof {
            lemma_node_view(node);
            assert(node@.children =~= Seq::<NodeModel>::empty());
        }
        node
    }
}

/// Marks `node` as a command that only chooses among its children, and that
/// shows help when nothing follows it.
pub fn require_subcommands(node: CommandNode) -> (out: CommandNode)
    ensures
        out@ == with_required_subcommand(node@),
{
    let out = CommandNode {
        name: node.name,
        help: node.help,
        children: node.children,
        requires_subcommand: true,
        shows_help_if_no_args: true,
    };
    proof {
        lemma_node_view(node);
        lemma_node_view(out);
    }
    assert(out@ =~= with_required_subcommand(node@));
    out
}

/// One leaf per catalog entry, in the catalog's order. Each is named as its
/// snippet; its help text is rendered from `template`, or is the snippet's
/// description where there is no template.
pub fn shnippet_sub_commands(catalog: &[CatalogEntry], template: Option<&str>) -> (nodes: Vec<
    CommandNode,
>)
    ensures
        nodes_model(nodes@) == snippet_leaves(catalog_model(catalog@), template_text(template)),
        nodes@.len() == catalog@.len(),
{
    let mut nodes: Vec<CommandNode> = Vec::new();
    let mut i: usize = 0;
    while i < catalog.len()
        invariant
            i <= catalog.len(),
            nodes@.len() == i,
            forall|j: int|
                0 <= j < i ==> (#[trigger] nodes@[j])@ == snippet_leaves(
                    catalog_model(catalog@),
                    template_text(template),
                )[j],
        decreases catalog.len() - i,
    {
        let entry = &catalog[i];
        let about = render(template, entry.name.as_str(), entry.description.as_str());
        nodes.push(CommandNode::leaf(entry.name.clone(), about));
        i += 1;
    }
    assert(nodes_model(nodes@) =~= snippet_leaves(
        catalog_model(catalog@),
        template_text(template),
    ));
    nodes
}

/// The command of one verb: named `name`, with `description` as its help
/// text and one child per catalog entry, whose help text is rendered from
/// `template`. A child must be chosen.
pub fn shnippet_list_command(
    name: &str,
    description: &str,
    catalog: &[CatalogEntry],
    template: Option<&str>,
) -> (node: CommandNode)
    ensures
        node@ == verb_node(
            name@,
            description@,
            catalog_model(catalog@),
            template_text(template),
        ),
        node@.children.len() == catalog@.len(),
{
    let plain = CommandNode {
        name: name.to_owned(),
        help: description.to_owned(),
        children: shnippet_sub_commands(catalog, template),
        requires_subcommand: false,
        shows_help_if_no_args: false,
    };
    proof {
        lemma_node_view(plain);
    }
    let node = require_subcommands(plain);
    assert(node@ =~= verb_node(
        name@,
        description@,
        catalog_model(catalog@),
        template_text(template),
    ));
    node
}

/// The root of a tree, with the given children.
fn root_of(name: &str, children: Vec<CommandNode>, completions_flag: bool) -> (root: CommandNode)
    ensures
        root@ == root_node(name@, nodes_model(children@), completions_flag),
{
    let root = CommandNode {
        name: name.to_owned(),
        help: ROOT_DESCRIPTION.to_owned(),
        children,
        requires_subcommand: !completions_flag,
        shows_help_if_no_args: true,
    };
    proof {
        lemma_node_view(root);
    }
    assert(root@ =~= root_node(name@, nodes_model(children@), completions_flag));
    root
}

/// Builds the primary tree: below the root stand `list`, `new` and one
/// command per verb; below each verb stands one command per catalog entry,
/// with the help text that the verb's template gives for it.
pub fn build(catalog: &[CatalogEntry], verbs: &[VerbDefinition], completions_flag: bool) -> (tree:
    CommandTree)
    ensures
        tree@ == primary_tree(catalog_model(catalog@), verbs_model(verbs@), completions_flag),
        tree@.root.children.len() == 2 + verbs@.len(),
        forall|k: int|
            0 <= k < verbs@.len() ==> (#[trigger] tree@.root.children[2 + k]).children.len()
                == catalog@.len(),
        well_formed(tree@),
{
    let ghost want = primary_children(catalog_model(catalog@), verbs_model(verbs@));
    let mut children: Vec<CommandNode> = Vec::new();
    children.push(
        CommandNode::leaf(LIST_COMMAND_NAME.to_owned(), LIST_COMMAND_DESCRIPTION.to_owned()),
    );
    children.push(
        CommandNode::leaf(NEW_COMMAND_NAME.to_owned(), NEW_COMMAND_DESCRIPTION.to_owned()),
    );
    let mut k: usize = 0;
    while k < verbs.len()
        invariant
            k <= verbs.len(),
            children@.len() == 2 + k,
            want == primary_children(catalog_model(catalog@), verbs_model(verbs@)),
            forall|j: int| 0 <= j < 2 + k ==> (#[trigger] children@[j])@ == want[j],
        decreases verbs.len() - k,
    {
        let verb = &verbs[k];
        children.push(
            shnippet_list_command(
                verb.verb_name,
                verb.top_level_description,
                catalog,
                verb.child_description_template,
            ),
        );
        k += 1;
    }
    assert(nodes_model(children@) =~= want);
    let tree = CommandTree {
        root: root_of(PRIMARY_ROOT_NAME, children, completions_flag),
        mode: TreeMode::Primary,
        completions_flag,
    };
    proof {
        law_tree_completeness(
            catalog_model(catalog@),
            verbs_model(verbs@),
            completions_flag,
        );
    }
    tree
}

/// Builds the flat tree: each catalog entry is a command directly below the
/// root, named as the snippet and showing the snippet's description.
pub fn build_flat(catalog: &[CatalogEntry], completions_flag: bool) -> (tree: CommandTree)
    ensures
        tree@ == flat_tree(catalog_model(catalog@), completions_flag),
        tree@.root.children.len() == catalog@.len(),
        well_formed(tree@),
{
    let children = shnippet_sub_commands(catalog, None);
    let tree = CommandTree {
        root: root_of(FLAT_ROOT_NAME, children, completions_flag),
        mode: TreeMode::Flat,
        completions_flag,
    };
    proof {
        law_flat_tree_shape(catalog_model(catalog@), completions_flag);
    }
    tree
}

/// Tree completeness. For a catalog of N entries and V verbs, the root of
/// the primary tree has 2 + V children, and each verb's command has N
/// children. The tree is well formed.
pub proof fn law_tree_completeness(
    catalog: Seq<EntryModel>,
    verbs: Seq<VerbModel>,
    completions_flag: bool,
)
    ensures
        primary_tree(catalog, verbs, completions_flag).root.children.len() == 2 + verbs.len(),
        forall|k: int|
            0 <= k < verbs.len() ==> (#[trigger] primary_tree(
                catalog,
                verbs,
                completions_flag,
            ).root.children[2 + k]).children.len() == catalog.len(),
        well_formed(primary_tree(catalog, verbs, completions_flag)),
{
    reveal_with_fuel(parents_require_subcommand, 2);
}

/// The root of the flat tree has one child per catalog entry, and the tree
/// is well formed.
pub proof fn law_flat_tree_shape(catalog: Seq<EntryModel>, completions_flag: bool)
    ensures
        flat_tree(catalog, completions_flag).root.children.len() == catalog.len(),
        well_formed(flat_tree(catalog, completions_flag)),
{
}

} // verus!
