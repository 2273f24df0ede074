//! Resolution: from the words of an invocation to the one thing it asks for.

use crate::catalog::{
    has_entry, law_verb_names, EntryModel, Verb, VerbModel, DELETE_COMMAND_NAME,
    EDIT_COMMAND_NAME, EXEC_COMMAND_NAME, LIST_COMMAND_NAME, NEW_COMMAND_NAME,
};
use crate::tree::{
    flat_tree, lemma_node_view, nodes_model, primary_tree, CommandNode, CommandTree, NodeModel,
    TreeMode, TreeModel,
};
use vstd::prelude::*;

verus! {

/// What an invocation asks for. `Unresolved` stands for every invocation
/// that names no command of the tree or stops before an action is reached.
#[derive(Clone, Debug, PartialEq, Eq)]
pub enum ResolutionOutcome {
    ListRequested,
    NewRequested,
    VerbOnSnippet(Verb, String),
    Unresolved,
}

/// What a resolution outcome holds.
pub enum OutcomeModel {
    ListRequested,
    NewRequested,
    VerbOnSnippet(Verb, Seq<char>),
    Unresolved,
}

impl View for ResolutionOutcome {
    type V = OutcomeModel;

    open spec fn view(&self) -> OutcomeModel {
        match self {
            ResolutionOutcome::ListRequested => OutcomeModel::ListRequested,
            ResolutionOutcome::NewRequested => OutcomeModel::NewRequested,
            ResolutionOutcome::VerbOnSnippet(verb, name) => OutcomeModel::VerbOnSnippet(
                *verb,
                name@,
            ),
            ResolutionOutcome::Unresolved => OutcomeModel::Unresolved,
        }
    }
}

/// The words of an invocation, each as its text.
pub open spec fn tokens_model(argv: Seq<String>) -> Seq<Seq<char>> {
    Seq::new(argv.len(), |i: int| argv[i]@)
}

/// The child at `at` is named `token`, letter for letter, and no child
/// before it is.
pub open spec fn is_first_named(children: Seq<NodeModel>, token: Seq<char>, at: int) -> bool {
    &&& 0 <= at < children.len()
    &&& children[at].name == token
    &&& forall|j: int| 0 <= j < at ==> children[j].name != token
}

/// The position of the first child named `token`, if there is one.
pub open spec fn first_named(children: Seq<NodeModel>, token: Seq<char>) -> Option<int> {
    if exists|at: int| is_first_named(children, token, at) {
        Some(choose|at: int| is_first_named(children, token, at))
    } else {
        None
    }
}

/// Why the walk down the tree ended.
#[derive(Clone, Copy, Debug, PartialEq, Eq, Structural)]
pub enum Stop {
    /// Every word named a child, and the command reached can act.
    Complete,
    /// Every word named a child, but the command reached requires that one
    /// of its children be chosen.
    MissingSubcommand,
    /// A word named no child of the command reached before it.
    UnknownWord,
}

/// The walk that the words of an invocation make down a tree: the positions
/// of the children that were chosen, one per word that named a child, and
/// why the walk ended. The command reached last is the one whose help is
/// the context of an unresolved invocation.
#[derive(Debug, PartialEq, Eq)]
pub struct Walk {
    pub path: Vec<usize>,
    pub stop: Stop,
}

/// What a walk holds.
#[verifier::ext_equal]
pub struct WalkModel {
    pub path: Seq<int>,
    pub stop: Stop,
}

impl View for Walk {
    type V = WalkModel;

    open spec fn view(&self) -> WalkModel {
        WalkModel { path: Seq::new(self.path@.len(), |i: int| self.path@[i] as int), stop: self.stop }
    }
}

/// The walk that `tokens` make from `node` down. Each token chooses the
/// first child of that name of the command reached so far. The walk ends
/// where a token names no child, or with the last token: then the command
/// reached either can act or still requires a subcommand.
pub open spec fn walk_model(node: NodeModel, tokens: Seq<Seq<char>>) -> WalkModel
    decreases tokens.len(),
{
    if tokens.len() == 0 {
        WalkModel {
            path: Seq::empty(),
            stop: if node.requires_subcommand {
                Stop::MissingSubcommand
            } else {
                Stop::Complete
            },
        }
    } else {
        match first_named(node.children, tokens[0]) {
            Some(at) => {
                let below = walk_model(node.children[at], tokens.skip(1));
                WalkModel { path: seq![at] + below.path, stop: below.stop }
            },
            None => WalkModel { path: Seq::empty(), stop: Stop::UnknownWord },
        }
    }
}

/// Whether `tokens` lead from `node` down to a command that can act: each
/// token names a child of the command reached so far, and the command
/// reached by the last one does not require that a child be chosen.
pub open spec fn accepts(node: NodeModel, tokens: Seq<Seq<char>>) -> bool {
    walk_model(node, tokens).stop is Complete
}

/// What accepted tokens ask for. In the primary tree, `list` and `new`
/// stand alone and a verb is followed by the name of a snippet. In the flat
/// tree, the one token is the name of a snippet to execute.
pub open spec fn outcome_of(mode: TreeMode, tokens: Seq<Seq<char>>) -> OutcomeModel {
    match mode {
        TreeMode::Primary => {
            if tokens.len() == 1 && tokens[0] == LIST_COMMAND_NAME@ {
                OutcomeModel::ListRequested
            } else if tokens.len() == 1 && tokens[0] == NEW_COMMAND_NAME@ {
                OutcomeModel::NewRequested
            } else if tokens.len() == 2 && Verb::named(tokens[0]) is Some {
                OutcomeModel::VerbOnSnippet(Verb::named(tokens[0])->0, tokens[1])
            } else {
                OutcomeModel::Unresolved
            }
        },
        TreeMode::Flat => {
            if tokens.len() == 1 {
                OutcomeModel::VerbOnSnippet(Verb::Exec, tokens[0])
            } else {
                OutcomeModel::Unresolved
            }
        },
    }
}

/// What the invocation `argv` asks of `tree`.
pub open spec fn resolve_model(tree: TreeModel, argv: Seq<Seq<char>>) -> OutcomeModel {
    if accepts(tree.root, argv) {
        outcome_of(tree.mode, argv)
    } else {
        OutcomeModel::Unresolved
    }
}

/// The first child named `token` is the one at `at`.
pub proof fn lemma_first_named(children: Seq<NodeModel>, token: Seq<char>, at: int)
    requires
        is_first_named(children, token, at),
    ensures
        first_named(children, token) == Some(at),
{
    let chosen = choose|k: int| is_first_named(children, token, k);
    assert(is_first_named(children, token, chosen));
    if chosen < at {
        assert(children[chosen].name != token);
    }
    if at < chosen {
        assert(children[at].name != token);
    }
}

/// No child is named `token`.
pub proof fn lemma_none_named(children: Seq<NodeModel>, token: Seq<char>)
    requires
        forall|j: int| 0 <= j < children.len() ==> children[j].name != token,
    ensures
        first_named(children, token) is None,
{
}

/// Where some child is named `token`, there is a first one.
pub proof fn lemma_some_named(children: Seq<NodeModel>, token: Seq<char>, at: int)
    requires
        0 <= at < children.len(),
        children[at].name == token,
    ensures
        first_named(children, token) is Some,
        is_first_named(children, token, first_named(children, token)->0),
        first_named(children, token)->0 <= at,
    decreases at,
{
    if exists|j: int| 0 <= j < at && children[j].name == token {
        let j = choose|j: int| 0 <= j < at && children[j].name == token;
        lemma_some_named(children, token, j);
    } else {
        lemma_first_named(children, token, at);
    }
}

/// The names of the built-in commands differ from one another.
pub proof fn lemma_builtin_names()
    ensures
        Verb::named(LIST_COMMAND_NAME@) is None,
        Verb::named(NEW_COMMAND_NAME@) is None,
        LIST_COMMAND_NAME@ != NEW_COMMAND_NAME@,
        Verb::named(EXEC_COMMAND_NAME@) == Some(Verb::Exec),
{
    reveal_strlit("list");
    reveal_strlit("new");
    reveal_strlit("delete");
    reveal_strlit("edit");
    reveal_strlit("exec");
    assert(LIST_COMMAND_NAME@.len() == 4);
    assert(NEW_COMMAND_NAME@.len() == 3);
    assert(DELETE_COMMAND_NAME@.len() == 6);
    assert(LIST_COMMAND_NAME@[0] == 'l');
    assert(EDIT_COMMAND_NAME@[0] == 'e');
    assert(EXEC_COMMAND_NAME@[0] == 'e');
    assert(EDIT_COMMAND_NAME@[1] == 'd');
    assert(EXEC_COMMAND_NAME@[1] == 'x');
}

/// The first child of a name, where there is one, is a child of that name.
pub proof fn lemma_first_named_is_named(children: Seq<NodeModel>, token: Seq<char>)
    ensures
        first_named(children, token) matches Some(at) ==> is_first_named(children, token, at),
        first_named(children, token) is None ==> forall|j: int|
            0 <= j < children.len() ==> (#[trigger] children[j]).name != token,
{
    if first_named(children, token) is None {
        assert forall|j: int| 0 <= j < children.len() implies (#[trigger] children[j]).name
            != token by {
            if children[j].name == token {
                lemma_some_named(children, token, j);
            }
        }
    }
}

/// `list` and `new` are requests on every primary tree, whatever the
/// catalog and the verbs are.
pub proof fn law_builtins_resolve(
    catalog: Seq<EntryModel>,
    verbs: Seq<VerbModel>,
    completions_flag: bool,
)
    ensures
        resolve_model(primary_tree(catalog, verbs, completions_flag), seq![LIST_COMMAND_NAME@])
            == OutcomeModel::ListRequested,
        resolve_model(primary_tree(catalog, verbs, completions_flag), seq![NEW_COMMAND_NAME@])
            == OutcomeModel::NewRequested,
{
    lemma_builtin_names();
    reveal_with_fuel(walk_model, 2);
    let root = primary_tree(catalog, verbs, completions_flag).root;
    lemma_first_named(root.children, LIST_COMMAND_NAME@, 0);
    lemma_first_named(root.children, NEW_COMMAND_NAME@, 1);
    assert(seq![LIST_COMMAND_NAME@].skip(1).len() == 0);
    assert(seq![NEW_COMMAND_NAME@].skip(1).len() == 0);
}

/// A verb and a stored snippet are a request. On a primary tree that has
/// the verb, the verb's name followed by the name of a snippet of the
/// catalog asks for that verb on that snippet.
pub proof fn law_verb_on_stored_snippet_resolves(
    catalog: Seq<EntryModel>,
    verbs: Seq<VerbModel>,
    completions_flag: bool,
    verb: Verb,
    snippet: Seq<char>,
)
    requires
        exists|i: int| 0 <= i < catalog.len() && catalog[i].name == snippet,
        exists|k: int| 0 <= k < verbs.len() && verbs[k].name == verb.name_text(),
    ensures
        resolve_model(
            primary_tree(catalog, verbs, completions_flag),
            seq![verb.name_text(), snippet],
        ) == OutcomeModel::VerbOnSnippet(verb, snippet),
{
    lemma_builtin_names();
    law_verb_names(verb);
    let name = verb.name_text();
    let i = choose|i: int| 0 <= i < catalog.len() && catalog[i].name == snippet;
    let k = choose|k: int| 0 <= k < verbs.len() && verbs[k].name == name;
    reveal_with_fuel(walk_model, 3);
    let root = primary_tree(catalog, verbs, completions_flag).root;
    let two = seq![name, snippet];
    assert(root.children[2 + k].name == name);
    lemma_some_named(root.children, name, 2 + k);
    let at = first_named(root.children, name)->0;
    assert(at >= 2) by {
        assert(root.children[0].name == LIST_COMMAND_NAME@);
        assert(root.children[1].name == NEW_COMMAND_NAME@);
    }
    lemma_some_named(root.children[at].children, snippet, i);
    assert(two.skip(1) =~= seq![snippet]);
    assert(two.skip(1).skip(1).len() == 0);
}

/// A stored snippet is a request on the flat tree: its name alone asks to
/// execute it.
pub proof fn law_stored_snippet_resolves_on_flat_tree(
    catalog: Seq<EntryModel>,
    completions_flag: bool,
    snippet: Seq<char>,
)
    requires
        exists|i: int| 0 <= i < catalog.len() && catalog[i].name == snippet,
    ensures
        resolve_model(flat_tree(catalog, completions_flag), seq![snippet])
            == OutcomeModel::VerbOnSnippet(Verb::Exec, snippet),
{
    let i = choose|i: int| 0 <= i < catalog.len() && catalog[i].name == snippet;
    reveal_with_fuel(walk_model, 2);
    lemma_some_named(flat_tree(catalog, completions_flag).root.children, snippet, i);
    assert(seq![snippet].skip(1).len() == 0);
}

/// Flat and primary trees agree. For a snippet of the catalog, `exec` and the
/// snippet's name on a primary tree that has the verb `exec`, and the
/// snippet's name alone on the flat tree, both ask to execute that snippet.
pub proof fn law_flat_matches_primary(
    catalog: Seq<EntryModel>,
    verbs: Seq<VerbModel>,
    completions_flag: bool,
    snippet: Seq<char>,
)
    requires
        exists|i: int| 0 <= i < catalog.len() && catalog[i].name == snippet,
        exists|k: int| 0 <= k < verbs.len() && verbs[k].name == EXEC_COMMAND_NAME@,
    ensures
        resolve_model(
            primary_tree(catalog, verbs, completions_flag),
            seq![EXEC_COMMAND_NAME@, snippet],
        ) == OutcomeModel::VerbOnSnippet(Verb::Exec, snippet),
        resolve_model(flat_tree(catalog, completions_flag), seq![snippet])
            == OutcomeModel::VerbOnSnippet(Verb::Exec, snippet),
{
    law_verb_on_stored_snippet_resolves(catalog, verbs, completions_flag, Verb::Exec, snippet);
    law_stored_snippet_resolves_on_flat_tree(catalog, completions_flag, snippet);
}

/// Only what is offered is asked for. Where an invocation on the primary
/// tree asks for a verb on a snippet, the tree has that verb and the
/// catalog has that snippet; on the flat tree, the verb is `exec` and the
/// catalog has that snippet.
pub proof fn law_resolved_snippet_is_stored(
    catalog: Seq<EntryModel>,
    verbs: Seq<VerbModel>,
    completions_flag: bool,
    argv: Seq<Seq<char>>,
)
    ensures
        resolve_model(primary_tree(catalog, verbs, completions_flag), argv) matches OutcomeModel::VerbOnSnippet(
            verb,
            snippet,
        ) ==> has_entry(catalog, snippet) && exists|k: int|
            0 <= k < verbs.len() && (#[trigger] verbs[k]).name == verb.name_text(),
        resolve_model(flat_tree(catalog, completions_flag), argv) matches OutcomeModel::VerbOnSnippet(
            verb,
            snippet,
        ) ==> verb == Verb::Exec && has_entry(catalog, snippet),
{
    lemma_builtin_names();
    reveal_with_fuel(walk_model, 3);
    let primary = primary_tree(catalog, verbs, completions_flag);
    if resolve_model(primary, argv) is VerbOnSnippet {
        let root = primary.root;
        lemma_first_named_is_named(root.children, argv[0]);
        let at = first_named(root.children, argv[0])->0;
        assert(at >= 2) by {
            assert(root.children[0].name == LIST_COMMAND_NAME@);
            assert(root.children[1].name == NEW_COMMAND_NAME@);
        }
        assert(verbs[at - 2].name == argv[0]);
        assert(argv.skip(1)[0] == argv[1]);
        lemma_first_named_is_named(root.children[at].children, argv[1]);
        let found = first_named(root.children[at].children, argv[1])->0;
        assert(catalog[found].name == argv[1]);
    }
    let flat = flat_tree(catalog, completions_flag);
    if resolve_model(flat, argv) is VerbOnSnippet {
        lemma_first_named_is_named(flat.root.children, argv[0]);
        let found = first_named(flat.root.children, argv[0])->0;
        assert(catalog[found].name == argv[0]);
    }
}

/// A verb alone is not a request: on the primary tree the name of a verb
/// with nothing behind it is unresolved, whatever the catalog holds. (A verb
/// that is named like `list` or `new` is never reached: those come first.)
pub proof fn law_verb_alone_unresolved(
    catalog: Seq<EntryModel>,
    verbs: Seq<VerbModel>,
    completions_flag: bool,
    k: int,
)
    requires
        0 <= k < verbs.len(),
        verbs[k].name != LIST_COMMAND_NAME@,
        verbs[k].name != NEW_COMMAND_NAME@,
    ensures
        resolve_model(primary_tree(catalog, verbs, completions_flag), seq![verbs[k].name])
            == OutcomeModel::Unresolved,
        walk_model(primary_tree(catalog, verbs, completions_flag).root, seq![verbs[k].name]).stop
            == Stop::MissingSubcommand,
{
    let name = verbs[k].name;
    let root = primary_tree(catalog, verbs, completions_flag).root;
    assert(root.children[2 + k].name == name);
    lemma_some_named(root.children, name, 2 + k);
    let at = first_named(root.children, name)->0;
    assert(at >= 2) by {
        assert(root.children[0].name == LIST_COMMAND_NAME@);
        assert(root.children[1].name == NEW_COMMAND_NAME@);
    }
    assert(root.children[at].requires_subcommand);
    reveal_with_fuel(walk_model, 2);
    assert(seq![name].skip(1).len() == 0);
}

/// An unknown word is unresolved: where the first word names no child of
/// the root, the outcome is `Unresolved`.
pub proof fn law_unknown_word_unresolved(tree: TreeModel, argv: Seq<Seq<char>>)
    requires
        argv.len() > 0,
        forall|j: int| 0 <= j < tree.root.children.len() ==> tree.root.children[j].name != argv[0],
    ensures
        resolve_model(tree, argv) == OutcomeModel::Unresolved,
{
    lemma_none_named(tree.root.children, argv[0]);
}

/// The empty invocation is unresolved on every tree.
pub proof fn law_empty_unresolved(tree: TreeModel)
    ensures
        resolve_model(tree, Seq::empty()) == OutcomeModel::Unresolved,
{
}

/// The position of the first of `children` that is named `token`.
pub fn find_child(children: &Vec<CommandNode>, token: &String) -> (found: Option<usize>)
    ensures
        match found {
            Some(at) => first_named(nodes_model(children@), token@) == Some(at as int),
            None => first_named(nodes_model(children@), token@) is None,
        },
{
    let ghost models = nodes_model(children@);
    let mut at: usize = 0;
    while at < children.len()
        invariant
            at <= children.len(),
            models == nodes_model(children@),
            forall|j: int| 0 <= j < at ==> models[j].name != token@,
        decreases children.len() - at,
    {
        proof {
            lemma_node_view(children@[at as int]);
        }
        if children[at].name == *token {
            proof {
                lemma_first_named(models, token@, at as int);
            }
            return Some(at);
        }
        at += 1;
    }
    proof {
        lemma_none_named(models, token@);
    }
    None
}

/// Walks from `node` down the tree, one word of `argv` after the other.
pub fn walk(node: &CommandNode, argv: &[String]) -> (walked: Walk)
    ensures
        walked@ == walk_model(node@, tokens_model(argv@)),
        walked.path@.len() <= argv@.len(),
{
    let ghost tokens = tokens_model(argv@);
    let mut path: Vec<usize> = Vec::new();
    let mut reached = node;
    let mut i: usize = 0;
    assert(tokens.skip(0) =~= tokens);
    while i < argv.len()
        invariant
            i <= argv.len(),
            path@.len() == i,
            tokens == tokens_model(argv@),
            walk_model(node@, tokens) == (WalkModel {
                path: Seq::new(path@.len(), |k: int| path@[k] as int) + walk_model(
                    reached@,
                    tokens.skip(i as int),
                ).path,
                stop: walk_model(reached@, tokens.skip(i as int)).stop,
            }),
        decreases argv.len() - i,
    {
        let ghost before = Seq::new(path@.len(), |k: int| path@[k] as int);
        proof {
            lemma_node_view(*reached);
            assert(tokens.skip(i as int)[0] == argv@[i as int]@);
            assert(tokens.skip(i as int).skip(1) =~= tokens.skip(i + 1));
        }
        match find_child(&reached.children, &argv[i]) {
            None => {
                let walked = Walk { path, stop: Stop::UnknownWord };
                assert(walked@ =~= walk_model(node@, tokens));
                return walked;
            },
            Some(at) => {
                reached = &reached.children[at];
                path.push(at);
                assert(Seq::new(path@.len(), |k: int| path@[k] as int) =~= before + seq![
                    at as int,
                ]);
            },
        }
        i += 1;
    }
    let stop = if reached.requires_subcommand {
        Stop::MissingSubcommand
    } else {
        Stop::Complete
    };
    let walked = Walk { path, stop };
    assert(walked@ =~= walk_model(node@, tokens));
    walked
}

/// Whether `argv` leads from `node` down to a command that can act.
pub fn accepted(node: &CommandNode, argv: &[String]) -> (ok: bool)
    ensures
        ok == accepts(node@, tokens_model(argv@)),
{
    match walk(node, argv).stop {
        Stop::Complete => true,
        _ => false,
    }
}

/// Resolves the invocation `argv` against `tree`.
///
/// The first word must name a child of the root, letter for letter; each
/// further word must name a child of the command reached so far. Where a
/// word names no child, or the words end at a command that requires a
/// subcommand, or they do not make up a request, the outcome is
/// `Unresolved`. Every invocation, the empty one too, has exactly one
/// outcome.
pub fn resolve(tree: &CommandTree, argv: &[String]) -> (outcome: ResolutionOutcome)
    ensures
        outcome@ == resolve_model(tree@, tokens_model(argv@)),
        argv@.len() == 0 ==> outcome is Unresolved,
{
    let ghost tokens = tokens_model(argv@);
    if !accepted(&tree.root, argv) {
        return ResolutionOutcome::Unresolved;
    }
    match tree.mode {
        TreeMode::Primary => {
            if argv.len() == 1 {
                assert(tokens[0] == argv@[0]@);
                if argv[0] == String::from_str(LIST_COMMAND_NAME) {
                    ResolutionOutcome::ListRequested
                } else if argv[0] == String::from_str(NEW_COMMAND_NAME) {
                    ResolutionOutcome::NewRequested
                } else {
                    ResolutionOutcome::Unresolved
                }
            } else if argv.len() == 2 {
                assert(tokens[0] == argv@[0]@);
                assert(tokens[1] == argv@[1]@);
                match Verb::from_name(&argv[0]) {
                    Some(verb) => ResolutionOutcome::VerbOnSnippet(verb, argv[1].clone()),
                    None => ResolutionOutcome::Unresolved,
                }
            } else {
                ResolutionOutcome::Unresolved
            }
        },
        TreeMode::Flat => {
            if argv.len() == 1 {
                assert(tokens[0] == argv@[0]@);
                ResolutionOutcome::VerbOnSnippet(Verb::Exec, argv[0].clone())
            } else {
                ResolutionOutcome::Unresolved
            }
        },
    }
}

} // verus!
