//! The snippets that are stored, and the built-in verbs that act on one.

use vstd::prelude::*;

verus! {

/// One stored snippet. Names are unique within a catalog and not empty; the
/// store that hands the catalog out sees to that.
#[derive(Clone, Debug, PartialEq, Eq)]
pub struct CatalogEntry {
    pub name: String,
    pub description: String,
}

/// What a catalog entry holds.
pub struct EntryModel {
    pub name: Seq<char>,
    pub description: Seq<char>,
}

impl View for CatalogEntry {
    type V = EntryModel;

    open spec fn view(&self) -> EntryModel {
        EntryModel { name: self.name@, description: self.description@ }
    }
}

/// What the entries of a catalog hold, in the catalog's order.
pub open spec fn catalog_model(catalog: Seq<CatalogEntry>) -> Seq<EntryModel> {
    Seq::new(catalog.len(), |i: int| catalog[i]@)
}

/// The invariant of a catalog: no name is empty and no name occurs twice.
/// The store keeps it; the tree is built from any catalog, so it is not
/// asked for there.
pub open spec fn catalog_well_formed(catalog: Seq<EntryModel>) -> bool {
    &&& forall|i: int| 0 <= i < catalog.len() ==> (#[trigger] catalog[i]).name.len() > 0
    &&& forall|i: int, j: int|
        0 <= i < j < catalog.len() ==> (#[trigger] catalog[i]).name != (#[trigger] catalog[j]).name
}

/// The entry at `at` is named `name`, and no entry before it is.
pub open spec fn is_first_entry(catalog: Seq<EntryModel>, name: Seq<char>, at: int) -> bool {
    &&& 0 <= at < catalog.len()
    &&& catalog[at].name == name
    &&& forall|j: int| 0 <= j < at ==> (#[trigger] catalog[j]).name != name
}

/// Some entry is named `name`.
pub open spec fn has_entry(catalog: Seq<EntryModel>, name: Seq<char>) -> bool {
    exists|at: int| 0 <= at < catalog.len() && (#[trigger] catalog[at]).name == name
}

/// What pairs of a name and a description hold, each as an entry.
pub open spec fn pairs_model(pairs: Seq<(String, String)>) -> Seq<EntryModel> {
    Seq::new(pairs.len(), |i: int| EntryModel { name: pairs[i].0@, description: pairs[i].1@ })
}

/// The catalog that holds one entry per pair of a name and a description,
/// in the order of the pairs.
pub fn catalog_from_pairs(pairs: Vec<(String, String)>) -> (catalog: Vec<CatalogEntry>)
    ensures
        catalog_model(catalog@) == pairs_model(pairs@),
{
    let mut catalog: Vec<CatalogEntry> = Vec::new();
    let mut i: usize = 0;
    while i < pairs.len()
        invariant
            i <= pairs.len(),
            catalog@.len() == i,
            forall|j: int|
                0 <= j < i ==> (#[trigger] catalog@[j]).name@ == pairs@[j].0@
                    && catalog@[j].description@ == pairs@[j].1@,
        decreases pairs.len() - i,
    {
        let pair = &pairs[i];
        catalog.push(CatalogEntry { name: pair.0.clone(), description: pair.1.clone() });
        i += 1;
    }
    assert(catalog_model(catalog@) =~= pairs_model(pairs@));
    catalog
}

/// The position of the first entry named `name`, letter for letter.
pub fn find_entry(catalog: &[CatalogEntry], name: &String) -> (found: Option<usize>)
    ensures
        match found {
            Some(at) => is_first_entry(catalog_model(catalog@), name@, at as int),
            None => !has_entry(catalog_model(catalog@), name@),
        },
{
    let mut at: usize = 0;
    while at < catalog.len()
        invariant
            at <= catalog.len(),
            forall|j: int| 0 <= j < at ==> (#[trigger] catalog_model(catalog@)[j]).name != name@,
        decreases catalog.len() - at,
    {
        if catalog[at].name == *name {
            return Some(at);
        }
        at += 1;
    }
    None
}

/// Whether the catalog keeps its invariant: no empty name, no name twice.
pub fn is_well_formed(catalog: &[CatalogEntry]) -> (ok: bool)
    ensures
        ok == catalog_well_formed(catalog_model(catalog@)),
{
    let ghost model = catalog_model(catalog@);
    let mut i: usize = 0;
    while i < catalog.len()
        invariant
            i <= catalog.len(),
            model == catalog_model(catalog@),
            forall|a: int| 0 <= a < i ==> (#[trigger] model[a]).name.len() > 0,
            forall|a: int, b: int|
                0 <= a < b < i ==> (#[trigger] model[a]).name != (#[trigger] model[b]).name,
        decreases catalog.len() - i,
    {
        if catalog[i].name.as_str().is_empty() {
            assert(model[i as int].name.len() == 0);
            return false;
        }
        let first = find_entry(catalog, &catalog[i].name);
        assert(has_entry(model, catalog@[i as int].name@)) by {
            assert(model[i as int].name == catalog@[i as int].name@);
        }
        if first.unwrap() != i {
            assert(model[first->0 as int].name == model[i as int].name);
            return false;
        }
        i += 1;
    }
    true
}

/// An action on one snippet, chosen by name.
#[derive(Clone, Copy, Debug, PartialEq, Eq, Structural)]
pub enum Verb {
    Delete,
    Edit,
    Exec,
}

/// How a built-in verb shows on the command line: its own name and help
/// text, and the template from which the help text of each snippet below it
/// is rendered. Without a template a snippet shows its own description.
#[derive(Clone, Copy, Debug, PartialEq, Eq)]
pub struct VerbDefinition {
    pub verb_name: &'static str,
    pub top_level_description: &'static str,
    pub child_description_template: Option<&'static str>,
}

/// What a verb definition holds.
pub struct VerbModel {
    pub name: Seq<char>,
    pub description: Seq<char>,
    pub template: Option<Seq<char>>,
}

impl View for VerbDefinition {
    type V = VerbModel;

    open spec fn view(&self) -> VerbModel {
        VerbModel {
            name: self.verb_name@,
            description: self.top_level_description@,
            template: match self.child_description_template {
                Some(t) => Some(t@),
                None => None,
            },
        }
    }
}

/// What a list of verb definitions holds, in its order.
pub open spec fn verbs_model(verbs: Seq<VerbDefinition>) -> Seq<VerbModel> {
    Seq::new(verbs.len(), |k: int| verbs[k]@)
}

/// The command that lists the catalog.
pub const LIST_COMMAND_NAME: &'static str = "list";

pub const LIST_COMMAND_DESCRIPTION: &'static str = "List the stored snippets";

/// The command that creates a snippet.
pub const NEW_COMMAND_NAME: &'static str = "new";

pub const NEW_COMMAND_DESCRIPTION: &'static str = "Create a new snippet";

/// The verb that deletes a snippet.
pub const DELETE_COMMAND_NAME: &'static str = "delete";

pub const DELETE_COMMAND_DESCRIPTION: &'static str = "Delete a snippet";

pub const DELETE_DESCRIPTION_TEMPLATE: &'static str = "Delete the '{name}' snippet ({description})";

/// The verb that opens a snippet in the editor.
pub const EDIT_COMMAND_NAME: &'static str = "edit";

pub const EDIT_COMMAND_DESCRIPTION: &'static str = "Edit a snippet";

pub const EDIT_DESCRIPTION_TEMPLATE: &'static str = "Edit the '{name}' snippet ({description})";

/// The verb that executes a snippet.
pub const EXEC_COMMAND_NAME: &'static str = "exec";

pub const EXEC_COMMAND_DESCRIPTION: &'static str = "Execute a snippet";

impl Verb {
    /// The name by which the verb is chosen on the command line.
    pub open spec fn name_text(self) -> Seq<char> {
        match self {
            Verb::Delete => DELETE_COMMAND_NAME@,
            Verb::Edit => EDIT_COMMAND_NAME@,
            Verb::Exec => EXEC_COMMAND_NAME@,
        }
    }

    /// The verb that `name` chooses, if it chooses one.
    pub open spec fn named(name: Seq<char>) -> Option<Verb> {
        if name == DELETE_COMMAND_NAME@ {
            Some(Verb::Delete)
        } else if name == EDIT_COMMAND_NAME@ {
            Some(Verb::Edit)
        } else if name == EXEC_COMMAND_NAME@ {
            Some(Verb::Exec)
        } else {
            None
        }
    }

    /// The name by which the verb is chosen on the command line.
    pub fn name(self) -> (name: &'static str)
        ensures
            name@ == self.name_text(),
    {
        match self {
            Verb::Delete => DELETE_COMMAND_NAME,
            Verb::Edit => EDIT_COMMAND_NAME,
            Verb::Exec => EXEC_COMMAND_NAME,
        }
    }

    /// The verb that `name` chooses: the one whose name it is, letter for
    /// letter.
    pub fn from_name(name: &String) -> (verb: Option<Verb>)
        ensures
            verb == Verb::named(name@),
    {
        if *name == String::from_str(DELETE_COMMAND_NAME) {
            Some(Verb::Delete)
        } else if *name == String::from_str(EDIT_COMMAND_NAME) {
            Some(Verb::Edit)
        } else if *name == String::from_str(EXEC_COMMAND_NAME) {
            Some(Verb::Exec)
        } else {
            None
        }
    }
}

/// Each verb is chosen by its own name.
pub proof fn law_verb_names(verb: Verb)
    ensures
        Verb::named(verb.name_text()) == Some(verb),
{
    reveal_strlit("delete");
    reveal_strlit("edit");
    reveal_strlit("exec");
    assert(DELETE_COMMAND_NAME@.len() == 6);
    assert(EDIT_COMMAND_NAME@[1] == 'd');
    assert(EXEC_COMMAND_NAME@[1] == 'x');
}

/// The three built-in verbs: `delete` and `edit`, each with a template for
/// the help text of the snippets below it, and `exec`, below which a snippet
/// shows its own description.
pub open spec fn standard_verb_models() -> Seq<VerbModel> {
    seq![
        VerbModel {
            name: DELETE_COMMAND_NAME@,
            description: DELETE_COMMAND_DESCRIPTION@,
            template: Some(DELETE_DESCRIPTION_TEMPLATE@),
        },
        VerbModel {
            name: EDIT_COMMAND_NAME@,
            description: EDIT_COMMAND_DESCRIPTION@,
            template: Some(EDIT_DESCRIPTION_TEMPLATE@),
        },
        VerbModel {
            name: EXEC_COMMAND_NAME@,
            description: EXEC_COMMAND_DESCRIPTION@,
            template: None,
        },
    ]
}

/// Every verb has its definition among the built-in ones.
pub proof fn law_standard_verbs_offer_every_verb(verb: Verb)
    ensures
        exists|k: int|
            0 <= k < standard_verb_models().len() && (#[trigger] standard_verb_models()[k]).name
                == verb.name_text(),
{
    let k: int = match verb {
        Verb::Delete => 0,
        Verb::Edit => 1,
        Verb::Exec => 2,
    };
    assert(standard_verb_models()[k].name == verb.name_text());
}

/// The definitions of the three built-in verbs, in the order `delete`,
/// `edit`, `exec`.
pub fn standard_verbs() -> (verbs: Vec<VerbDefinition>)
    ensures
        verbs_model(verbs@) == standard_verb_models(),
{
    let mut verbs: Vec<VerbDefinition> = Vec::new();
    verbs.push(
        VerbDefinition {
            verb_name: DELETE_COMMAND_NAME,
            top_level_description: DELETE_COMMAND_DESCRIPTION,
            child_description_template: Some(DELETE_DESCRIPTION_TEMPLATE),
        },
    );
    verbs.push(
        VerbDefinition {
            verb_name: EDIT_COMMAND_NAME,
            top_level_description: EDIT_COMMAND_DESCRIPTION,
            child_description_template: Some(EDIT_DESCRIPTION_TEMPLATE),
        },
    );
    verbs.push(
        VerbDefinition {
            verb_name: EXEC_COMMAND_NAME,
            top_level_description: EXEC_COMMAND_DESCRIPTION,
            child_description_template: None,
        },
    );
    assert(verbs_model(verbs@) =~= standard_verb_models());
    verbs
}

/// Why a name cannot be given to a new snippet.
#[derive(Clone, Copy, Debug, PartialEq, Eq, Structural)]
pub enum NameProblem {
    /// The name is empty.
    Empty,
    /// The name is that of a built-in command.
    Reserved,
    /// A snippet of that name is in the catalog.
    Taken,
}

/// `name` is the name of a built-in command: `list`, `new` or a verb.
pub open spec fn is_reserved_name(name: Seq<char>) -> bool {
    name == LIST_COMMAND_NAME@ || name == NEW_COMMAND_NAME@ || Verb::named(name) is Some
}

/// What stands against giving `name` to a new snippet of `catalog`; the
/// first of the three problems that holds.
pub open spec fn name_problem(catalog: Seq<EntryModel>, name: Seq<char>) -> Option<NameProblem> {
    if name.len() == 0 {
        Some(NameProblem::Empty)
    } else if is_reserved_name(name) {
        Some(NameProblem::Reserved)
    } else if has_entry(catalog, name) {
        Some(NameProblem::Taken)
    } else {
        None
    }
}

/// Whether `name` is the name of a built-in command.
pub fn is_reserved(name: &String) -> (reserved: bool)
    ensures
        reserved == is_reserved_name(name@),
{
    *name == String::from_str(LIST_COMMAND_NAME) || *name == String::from_str(NEW_COMMAND_NAME)
        || Verb::from_name(name).is_some()
}

/// Checks whether a new snippet of `catalog` may be named `name`, for the
/// store to ask before it adds one.
pub fn check_new_name(catalog: &[CatalogEntry], name: &String) -> (checked: Result<
    (),
    NameProblem,
>)
    ensures
        checked == (match name_problem(catalog_model(catalog@), name@) {
            Some(problem) => Err::<(), NameProblem>(problem),
            None => Ok(()),
        }),
{
    if name.as_str().is_empty() {
        Err(NameProblem::Empty)
    } else if is_reserved(name) {
        Err(NameProblem::Reserved)
    } else if find_entry(catalog, name).is_some() {
        Err(NameProblem::Taken)
    } else {
        Ok(())
    }
}

/// A catalog that keeps its invariant still keeps it with one more entry
/// whose name passed the check.
pub proof fn law_checked_name_keeps_invariant(
    catalog: Seq<EntryModel>,
    name: Seq<char>,
    description: Seq<char>,
)
    requires
        catalog_well_formed(catalog),
        name_problem(catalog, name) is None,
    ensures
        catalog_well_formed(catalog.push(EntryModel { name, description })),
{
    let longer = catalog.push(EntryModel { name, description });
    assert forall|i: int, j: int| 0 <= i < j < longer.len() implies (#[trigger] longer[i]).name
        != (#[trigger] longer[j]).name by {
        if j < catalog.len() {
            assert(longer[i] == catalog[i] && longer[j] == catalog[j]);
        } else {
            assert(longer[i] == catalog[i]);
        }
    }
}

} // verus!
