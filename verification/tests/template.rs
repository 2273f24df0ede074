use shnippet::template::{render, string_of, DESCRIPTION_PLACEHOLDER, NAME_PLACEHOLDER};
use shnippet::text::{chars_of, extend_chars, matches_at, replace_chars};

fn chars(s: &str) -> Vec<char> {
    s.chars().collect()
}

fn replaced(text: &str, pattern: &str, with: &str) -> String {
    replace_chars(&chars(text), &chars(pattern), &chars(with)).into_iter().collect()
}

#[test]
fn placeholders_are_the_braced_words() {
    assert_eq!(NAME_PLACEHOLDER, "{name}");
    assert_eq!(DESCRIPTION_PLACEHOLDER, "{description}");
}

#[test]
fn render_without_template_is_the_description() {
    assert_eq!(render(None, "build", "Builds the project"), "Builds the project");
    assert_eq!(render(None, "", "Runs tests"), "Runs tests");
    assert_eq!(render(None, "{name}", "{description} of {name}"), "{description} of {name}");
}

#[test]
fn render_without_template_and_empty_description_is_empty() {
    assert_eq!(render(None, "build", ""), "");
    assert_eq!(render(None, "", ""), "");
}

#[test]
fn render_puts_name_and_description_into_the_template() {
    let out = render(
        Some("Delete the '{name}' snippet ({description})"),
        "build",
        "Builds the project",
    );
    assert_eq!(out, "Delete the 'build' snippet (Builds the project)");
}

#[test]
fn render_replaces_every_occurrence() {
    let out = render(Some("{name}{name} {description}/{description} {name}"), "a", "b");
    assert_eq!(out, "aa b/b a");
}

#[test]
fn render_with_a_template_without_placeholders_is_the_template() {
    assert_eq!(render(Some("Just text"), "build", "Builds"), "Just text");
    assert_eq!(render(Some(""), "build", "Builds"), "");
}

#[test]
fn render_with_empty_name_and_description_removes_the_placeholders() {
    assert_eq!(render(Some("[{name}] <{description}>"), "", ""), "[] <>");
}

#[test]
fn render_does_not_look_into_the_description_again() {
    let out = render(Some("{name}: {description}"), "build", "uses {name} and {description}");
    assert_eq!(out, "build: uses {name} and {description}");
}

#[test]
fn render_replaces_a_description_placeholder_that_the_name_brings() {
    let out = render(Some("{name} {description}"), "{description}", "x");
    assert_eq!(out, "x x");
}

#[test]
fn render_keeps_text_that_only_looks_like_a_placeholder() {
    let out = render(Some("{Name} {names} { name } {name}"), "n", "d");
    assert_eq!(out, "{Name} {names} { name } n");
}

#[test]
fn render_round_trip_leaves_no_placeholder() {
    let out = render(Some("Edit '{name}': {description}."), "deploy", "Ships it");
    assert!(out.contains("deploy"));
    assert!(out.contains("Ships it"));
    assert!(!out.contains("{name}"));
    assert!(!out.contains("{description}"));
    assert_eq!(out, "Edit 'deploy': Ships it.");
}

#[test]
fn render_handles_characters_outside_ascii() {
    let out = render(Some("«{name}» — {description}"), "größe", "mißt ␣ Länge");
    assert_eq!(out, "«größe» — mißt ␣ Länge");
}

#[test]
fn replace_counts_occurrences_from_the_left_without_overlap() {
    assert_eq!(replaced("aaa", "aa", "b"), "ba");
    assert_eq!(replaced("aaaa", "aa", "b"), "bb");
    assert_eq!(replaced("abab", "aba", "x"), "xb");
}

#[test]
fn replace_with_an_empty_pattern_puts_the_replacement_round_every_character() {
    assert_eq!(replaced("abc", "", "-"), "-a-b-c-");
    assert_eq!(replaced("", "", "-"), "-");
}

#[test]
fn replace_agrees_with_the_standard_library() {
    let cases = [
        ("hello world", "o", "0"),
        ("{name}{name}", "{name}", "{name}{name}"),
        ("xyz", "xyz", ""),
        ("xyz", "xyzw", "!"),
        ("", "a", "b"),
        ("aXbXc", "X", "XX"),
        ("abc", "", "::"),
    ];
    for (text, pattern, with) in cases {
        assert_eq!(replaced(text, pattern, with), text.replace(pattern, with));
    }
}

#[test]
fn matches_at_finds_a_pattern_only_where_it_stands() {
    let text = chars("say {name} twice");
    let pattern = chars("{name}");
    assert!(matches_at(&text, &pattern, 4));
    assert!(!matches_at(&text, &pattern, 3));
    assert!(!matches_at(&text, &pattern, 5));
    assert!(!matches_at(&text, &pattern, 11));
    assert!(!matches_at(&text, &pattern, 16));
    assert!(!matches_at(&text, &pattern, 17));
    assert!(!matches_at(&text, &pattern, usize::MAX));
    assert!(matches_at(&text, &chars(""), 16));
}

#[test]
fn chars_and_strings_convert_both_ways() {
    assert_eq!(chars_of("a{b}ç"), vec!['a', '{', 'b', '}', 'ç']);
    assert_eq!(chars_of(""), Vec::<char>::new());
    assert_eq!(string_of(&vec!['o', 'k', '!']), "ok!");
    assert_eq!(string_of(&Vec::new()), "");
    assert_eq!(string_of(&chars_of("round trip")), "round trip");
}

#[test]
fn extend_chars_appends_in_order() {
    let mut out = vec!['a'];
    extend_chars(&mut out, &vec!['b', 'c']);
    extend_chars(&mut out, &Vec::new());
    assert_eq!(out, vec!['a', 'b', 'c']);
}

#[test]
fn render_can_build_a_placeholder_round_an_open_brace() {
    assert_eq!(render(Some("{na{name}me} {description}"), "", "d"), "{name} d");
    assert_eq!(render(Some("{n{name}e} {description}"), "am", "d"), "{name} d");
    assert_eq!(render(Some("{des{name}ion} {description}"), "cript", "X"), "X X");
}

#[test]
fn render_keeps_braces_that_are_closed_before_a_placeholder() {
    assert_eq!(render(Some("{x} {name} }{ {y}{description} {"), "n", "d}"), "{x} n }{ {y}d} {");
}

fn count(text: &str, pattern: &str) -> usize {
    (0..=text.len()).filter(|&at| text[at..].starts_with(pattern)).count()
}

fn closed_before(text: &str, at: usize) -> bool {
    let bytes = text.as_bytes();
    (0..at).all(|i| bytes[i] != b'{' || (i + 1..at).any(|c| bytes[c] == b'}'))
}

fn stands_free(template: &str) -> bool {
    (0..template.len()).all(|at| {
        let here = &template[at..];
        !(here.starts_with("{name}") || here.starts_with("{description}"))
            || closed_before(template, at)
    })
}

#[test]
fn round_trip_holds_on_generated_templates() {
    let pieces = ["{", "}", "n", "am", "e", "descrip", "tion", " ", "{name}", "{description}", "x"];
    let values = ["", "n", "am", "build", "}", "e}", "descrip", "a b", "}}"];
    let mut state: u64 = 0x2545_f491_4f6c_dd1d;
    let mut next = |bound: usize| {
        state = state.wrapping_mul(6364136223846793005).wrapping_add(1442695040888963407);
        ((state >> 33) as usize) % bound
    };
    let mut held = 0;
    for _ in 0..20000 {
        let mut template = String::new();
        for _ in 0..next(7) {
            template.push_str(pieces[next(pieces.len())]);
        }
        let name = values[next(values.len())];
        let description = values[next(values.len())];
        if count(&template, "{name}") != 1
            || count(&template, "{description}") != 1
            || !stands_free(&template)
        {
            continue;
        }
        held += 1;
        let out = render(Some(&template), name, description);
        assert!(out.contains(name), "{:?} {:?} {:?}", template, name, description);
        assert!(out.contains(description), "{:?} {:?} {:?}", template, name, description);
        assert!(!out.contains("{name}"), "{:?} {:?} {:?}", template, name, description);
        assert!(!out.contains("{description}"), "{:?} {:?} {:?}", template, name, description);
    }
    assert!(held > 100);
}

#[test]
fn rendered_text_holds_the_description_whatever_the_values_are() {
    let values = ["", "{name}", "{description}", "{", "}{", "descrip", "tion}", "{na", "me}"];
    let templates = ["{name}{description}", "{description} of {name}", "{na{name}me} {description}"];
    for template in templates {
        for name in values {
            for description in values {
                let out = render(Some(template), name, description);
                assert!(out.contains(description), "{:?} {:?} {:?}", template, name, description);
            }
        }
    }
}
