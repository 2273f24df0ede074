use shnippet::catalog::{
    catalog_from_pairs, check_new_name, find_entry, is_reserved, is_well_formed, CatalogEntry,
    NameProblem,
};

fn entry(name: &str, description: &str) -> CatalogEntry {
    CatalogEntry { name: name.to_string(), description: description.to_string() }
}

fn sample() -> Vec<CatalogEntry> {
    vec![entry("build", "Builds the project"), entry("test", "Runs tests")]
}

#[test]
fn catalog_from_pairs_keeps_order_and_texts() {
    let pairs = vec![
        ("test".to_string(), "Runs tests".to_string()),
        ("build".to_string(), "".to_string()),
    ];
    assert_eq!(catalog_from_pairs(pairs), vec![entry("test", "Runs tests"), entry("build", "")]);
    assert_eq!(catalog_from_pairs(Vec::new()), Vec::new());
}

#[test]
fn find_entry_gives_the_first_of_that_name() {
    let catalog = vec![entry("a", "1"), entry("b", "2"), entry("a", "3")];
    assert_eq!(find_entry(&catalog, &"a".to_string()), Some(0));
    assert_eq!(find_entry(&catalog, &"b".to_string()), Some(1));
    assert_eq!(find_entry(&catalog, &"A".to_string()), None);
    assert_eq!(find_entry(&[], &"a".to_string()), None);
}

#[test]
fn well_formed_catalogs_have_no_empty_and_no_repeated_name() {
    assert!(is_well_formed(&sample()));
    assert!(is_well_formed(&[]));
    assert!(is_well_formed(&[entry("a", ""), entry("A", "")]));
    assert!(!is_well_formed(&[entry("a", "1"), entry("b", "2"), entry("a", "3")]));
    assert!(!is_well_formed(&[entry("a", "1"), entry("", "2")]));
    assert!(!is_well_formed(&[entry("", "")]));
}

#[test]
fn builtin_names_are_reserved() {
    for name in ["list", "new", "delete", "edit", "exec"] {
        assert!(is_reserved(&name.to_string()));
    }
    for name in ["List", "build", "", "execute", "exec "] {
        assert!(!is_reserved(&name.to_string()));
    }
}

#[test]
fn new_names_are_checked_in_order_of_the_problems() {
    let catalog = sample();
    assert_eq!(check_new_name(&catalog, &"deploy".to_string()), Ok(()));
    assert_eq!(check_new_name(&catalog, &"".to_string()), Err(NameProblem::Empty));
    assert_eq!(check_new_name(&catalog, &"list".to_string()), Err(NameProblem::Reserved));
    assert_eq!(check_new_name(&catalog, &"exec".to_string()), Err(NameProblem::Reserved));
    assert_eq!(check_new_name(&catalog, &"build".to_string()), Err(NameProblem::Taken));
    assert_eq!(check_new_name(&[], &"build".to_string()), Ok(()));
}

#[test]
fn a_reserved_name_that_is_also_taken_is_reported_as_reserved() {
    let catalog = vec![entry("new", "Mine")];
    assert_eq!(check_new_name(&catalog, &"new".to_string()), Err(NameProblem::Reserved));
}

#[test]
fn a_checked_name_keeps_the_catalog_well_formed() {
    let mut catalog = sample();
    let name = "deploy".to_string();
    assert_eq!(check_new_name(&catalog, &name), Ok(()));
    catalog.push(entry("deploy", "Ships it"));
    assert!(is_well_formed(&catalog));
    assert_eq!(check_new_name(&catalog, &name), Err(NameProblem::Taken));
}
