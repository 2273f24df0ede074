//! Help texts: a description taken as it is, or a template in which the
//! snippet's name and description take the place of two placeholders.

use crate::text::{
    chars_of, contains, lacks, lemma_replace_absent, lemma_replace_holds_replacement,
    lemma_replace_only_at, occurs_at, occurs_once, only_at, replace_all, replace_chars,
};
use vstd::prelude::*;

verus! {

/// Where a template wants the snippet's name.
pub const NAME_PLACEHOLDER: &'static str = "{name}";

/// Where a template wants the snippet's description.
pub const DESCRIPTION_PLACEHOLDER: &'static str = "{description}";

/// The text of a template, where there is one.
pub open spec fn template_text(template: Option<&str>) -> Option<Seq<char>> {
    match template {
        Some(t) => Some(t@),
        None => None,
    }
}

/// The help text of a snippet: its description where there is no template;
/// else the template with the name put in for every name placeholder and
/// then, in what that gives, the description for every description
/// placeholder.
pub open spec fn render_text(
    template: Option<Seq<char>>,
    name: Seq<char>,
    description: Seq<char>,
) -> Seq<char> {
    match template {
        None => description,
        Some(t) => replace_all(
            replace_all(t, NAME_PLACEHOLDER@, name),
            DESCRIPTION_PLACEHOLDER@,
            description,
        ),
    }
}

/// Before position `at`, every opening brace of `text` is followed by a
/// closing one: no brace is still open at `at`.
pub open spec fn closed_before(text: Seq<char>, at: int) -> bool {
    forall|i: int|
        0 <= i < at && i < text.len() && text[i] == '{' ==> exists|c: int|
            i < c < at && c < text.len() && text[c] == '}'
}

/// No brace is still open where a placeholder begins in `template`.
pub open spec fn placeholders_stand_free(template: Seq<char>) -> bool {
    forall|at: int|
        occurs_at(template, NAME_PLACEHOLDER@, at) || occurs_at(
            template,
            DESCRIPTION_PLACEHOLDER@,
            at,
        ) ==> closed_before(template, at)
}

/// The characters of an occurrence are those of the pattern.
proof fn lemma_occurrence_chars(text: Seq<char>, pattern: Seq<char>, at: int, k: int)
    requires
        occurs_at(text, pattern, at),
        0 <= k < pattern.len(),
    ensures
        text[at + k] == pattern[k],
{
    assert(text.subrange(at, at + pattern.len())[k] == text[at + k]);
}

/// What the two placeholders are made of: each begins with an opening brace
/// and holds no other, holds no closing brace before its last character,
/// and they differ in their second character.
proof fn lemma_placeholder_shape()
    ensures
        NAME_PLACEHOLDER@.len() == 6,
        DESCRIPTION_PLACEHOLDER@.len() == 13,
        NAME_PLACEHOLDER@[0] == '{',
        DESCRIPTION_PLACEHOLDER@[0] == '{',
        NAME_PLACEHOLDER@[1] != DESCRIPTION_PLACEHOLDER@[1],
        forall|k: int| 1 <= k < 6 ==> NAME_PLACEHOLDER@[k] != '{',
        forall|k: int| 1 <= k < 13 ==> DESCRIPTION_PLACEHOLDER@[k] != '{',
        forall|k: int| 0 <= k < 5 ==> NAME_PLACEHOLDER@[k] != '}',
        forall|k: int| 0 <= k < 12 ==> DESCRIPTION_PLACEHOLDER@[k] != '}',
{
    reveal_strlit("{name}");
    reveal_strlit("{description}");
}

/// An occurrence of one placeholder ends before an occurrence of the other
/// begins.
proof fn lemma_placeholders_apart(text: Seq<char>, n: int, d: int)
    requires
        occurs_at(text, NAME_PLACEHOLDER@, n),
        occurs_at(text, DESCRIPTION_PLACEHOLDER@, d),
    ensures
        d + 13 <= n || n + 6 <= d,
{
    lemma_placeholder_shape();
    lemma_occurrence_chars(text, NAME_PLACEHOLDER@, n, 0);
    lemma_occurrence_chars(text, NAME_PLACEHOLDER@, n, 1);
    lemma_occurrence_chars(text, DESCRIPTION_PLACEHOLDER@, d, 0);
    lemma_occurrence_chars(text, DESCRIPTION_PLACEHOLDER@, d, 1);
    if n < d < n + 6 {
        lemma_occurrence_chars(text, NAME_PLACEHOLDER@, n, d - n);
    }
    if d < n < d + 13 {
        lemma_occurrence_chars(text, DESCRIPTION_PLACEHOLDER@, d, n - d);
    }
}

/// A template that holds neither placeholder is rendered as it is.
pub proof fn law_template_without_placeholders(
    template: Seq<char>,
    name: Seq<char>,
    description: Seq<char>,
)
    requires
        !contains(template, NAME_PLACEHOLDER@),
        !contains(template, DESCRIPTION_PLACEHOLDER@),
    ensures
        render_text(Some(template), name, description) == template,
{
    lemma_placeholder_shape();
    lemma_replace_absent(template, NAME_PLACEHOLDER@, name);
    lemma_replace_absent(template, DESCRIPTION_PLACEHOLDER@, description);
}

/// Where a template holds each placeholder exactly once, the rendered text
/// holds the description, whatever the name and the description are.
pub proof fn law_rendered_text_holds_description(
    template: Seq<char>,
    name: Seq<char>,
    description: Seq<char>,
)
    requires
        occurs_once(template, NAME_PLACEHOLDER@),
        occurs_once(template, DESCRIPTION_PLACEHOLDER@),
    ensures
        contains(render_text(Some(template), name, description), description),
{
    let np = NAME_PLACEHOLDER@;
    let dp = DESCRIPTION_PLACEHOLDER@;
    lemma_placeholder_shape();
    let n = choose|at: int| only_at(template, np, at);
    let d = choose|at: int| only_at(template, dp, at);
    lemma_placeholders_apart(template, n, d);
    // The description placeholder is still there when the name has been put
    // in, before the name or moved along with the text behind it.
    let named = replace_all(template, np, name);
    lemma_replace_only_at(template, np, name, n);
    let d1 = if d < n {
        d
    } else {
        d + name.len() - 6
    };
    assert(named.subrange(d1, d1 + 13) =~= template.subrange(d, d + 13));
    assert(occurs_at(named, dp, d1));
    lemma_replace_holds_replacement(named, dp, description);
}

/// An occurrence of a placeholder that begins before a position at which no
/// brace is open also ends before it.
proof fn lemma_ends_before(text: Seq<char>, placeholder: Seq<char>, at: int, bound: int)
    requires
        placeholder == NAME_PLACEHOLDER@ || placeholder == DESCRIPTION_PLACEHOLDER@,
        occurs_at(text, placeholder, at),
        at < bound,
        closed_before(text, bound),
    ensures
        at + placeholder.len() <= bound,
{
    lemma_placeholder_shape();
    lemma_occurrence_chars(text, placeholder, at, 0);
    let c = choose|c: int| at < c < bound && c < text.len() && text[c] == '}';
    if at + placeholder.len() > bound {
        lemma_occurrence_chars(text, placeholder, at, c - at);
    }
}

/// Put `put`, which holds no opening brace, in place of `gone` characters
/// at `cut`, where no brace is open. Then a placeholder occurs in the new
/// text only where it occurred in the old one: wholly before the cut, or
/// behind what was taken out.
proof fn lemma_occurrence_is_inherited(
    text: Seq<char>,
    cut: int,
    gone: int,
    put: Seq<char>,
    placeholder: Seq<char>,
    at: int,
)
    requires
        placeholder == NAME_PLACEHOLDER@ || placeholder == DESCRIPTION_PLACEHOLDER@,
        0 <= cut,
        0 <= gone,
        cut + gone <= text.len(),
        closed_before(text, cut),
        lacks(put, '{'),
        occurs_at(text.take(cut) + put + text.skip(cut + gone), placeholder, at),
    ensures
        (at + placeholder.len() <= cut && occurs_at(text, placeholder, at)) || (at >= cut
            + put.len() && occurs_at(text, placeholder, at - put.len() + gone)),
{
    let new = text.take(cut) + put + text.skip(cut + gone);
    let len = placeholder.len() as int;
    lemma_placeholder_shape();
    lemma_occurrence_chars(new, placeholder, at, 0);
    if at < cut {
        assert(closed_before(new, cut)) by {
            assert forall|i: int| 0 <= i < cut && i < new.len() && new[i] == '{' implies exists|
                c: int,
            |
                i < c < cut && c < new.len() && new[c] == '}' by {
                assert(new[i] == text[i]);
                let c = choose|c: int| i < c < cut && c < text.len() && text[c] == '}';
                assert(new[c] == '}');
            }
        }
        lemma_ends_before(new, placeholder, at, cut);
        assert(text.subrange(at, at + len) =~= new.subrange(at, at + len));
    } else if at < cut + put.len() {
        assert(new[at] == put[at - cut]);
    } else {
        assert(text.subrange(at - put.len() + gone, at - put.len() + gone + len) =~= new.subrange(
            at,
            at + len,
        ));
    }
}

/// Template round trip. Take a template that holds each placeholder exactly
/// once, with no brace still open where either begins, and a name and a
/// description without an opening brace. Then the rendered text holds the
/// name and the description, and neither placeholder is left in it.
pub proof fn law_template_round_trip(
    template: Seq<char>,
    name: Seq<char>,
    description: Seq<char>,
)
    requires
        occurs_once(template, NAME_PLACEHOLDER@),
        occurs_once(template, DESCRIPTION_PLACEHOLDER@),
        placeholders_stand_free(template),
        lacks(name, '{'),
        lacks(description, '{'),
    ensures
        contains(render_text(Some(template), name, description), name),
        contains(render_text(Some(template), name, description), description),
        !contains(render_text(Some(template), name, description), NAME_PLACEHOLDER@),
        !contains(render_text(Some(template), name, description), DESCRIPTION_PLACEHOLDER@),
{
    let np = NAME_PLACEHOLDER@;
    let dp = DESCRIPTION_PLACEHOLDER@;
    lemma_placeholder_shape();
    let n = choose|at: int| only_at(template, np, at);
    let d = choose|at: int| only_at(template, dp, at);
    lemma_placeholders_apart(template, n, d);
    assert(occurs_at(template, np, n) && occurs_at(template, dp, d));
    assert(closed_before(template, n) && closed_before(template, d));

    // The name takes the place of its placeholder. What that gives holds
    // no name placeholder, and the description placeholder only at `d1`.
    let named = replace_all(template, np, name);
    lemma_replace_only_at(template, np, name, n);
    let shift = name.len() - 6;
    let d1 = if d < n {
        d
    } else {
        d + shift
    };
    assert(named.subrange(d1, d1 + 13) =~= template.subrange(d, d + 13));
    assert forall|other: int| occurs_at(named, dp, other) implies other == d1 by {
        lemma_occurrence_is_inherited(template, n, 6, name, dp, other);
    }
    assert forall|at: int| !occurs_at(named, np, at) by {
        if occurs_at(named, np, at) {
            lemma_occurrence_is_inherited(template, n, 6, name, np, at);
        }
    }

    // No brace is open in it where the description placeholder begins.
    assert forall|i: int| 0 <= i < d1 && i < named.len() && named[i] == '{' implies exists|c: int|
        i < c < d1 && c < named.len() && named[c] == '}' by {
        if i < n {
            let bound = if d < n {
                d
            } else {
                n
            };
            assert(named[i] == template[i]);
            let c = choose|c: int| i < c < bound && c < template.len() && template[c] == '}';
            assert(named[c] == '}');
        } else if i < n + name.len() {
            assert(named[i] == name[i - n]);
        } else {
            assert(named[i] == template[i - shift]);
            let c = choose|c: int| i - shift < c < d && c < template.len() && template[c] == '}';
            assert(named[c + shift] == '}');
        }
    }

    // The description takes the place of its placeholder. Neither
    // placeholder occurs in what that gives, for it occurs nowhere else
    // before.
    let out = render_text(Some(template), name, description);
    lemma_replace_only_at(named, dp, description, d1);
    assert forall|at: int| !occurs_at(out, np, at) by {
        if occurs_at(out, np, at) {
            lemma_occurrence_is_inherited(named, d1, 13, description, np, at);
        }
    }
    assert forall|at: int| !occurs_at(out, dp, at) by {
        if occurs_at(out, dp, at) {
            lemma_occurrence_is_inherited(named, d1, 13, description, dp, at);
        }
    }

    // The description stands where its placeholder stood; the name stands
    // where it was put, moved along if the description came before it.
    assert(out.subrange(d1, d1 + description.len()) =~= description);
    assert(occurs_at(out, description, d1));
    let n1 = if d < n {
        n - 13 + description.len()
    } else {
        n
    };
    assert(named.subrange(n, n + name.len()) =~= name);
    assert(out.subrange(n1, n1 + name.len()) =~= name);
    assert(occurs_at(out, name, n1));
}

/// Without a template the help text is the description, whatever the name
/// and the description hold.
pub proof fn law_no_template_identity(name: Seq<char>, description: Seq<char>)
    ensures
        render_text(None, name, description) == description,
{
}

/// `String::push` of std: the character is appended to the end of the string,
/// and what the string held before stays in front of it.
#[verifier::external_body]
fn push_char(s: &mut String, c: char)
    ensures
        final(s)@ == old(s)@.push(c),
{
    s.push(c)
}

/// The string made of `chars`, in order.
pub fn string_of(chars: &Vec<char>) -> (s: String)
    ensures
        s@ == chars@,
{
    let mut s = String::new();
    let mut k: usize = 0;
    while k < chars.len()
        invariant
            k <= chars.len(),
            s@ == chars@.take(k as int),
        decreases chars.len() - k,
    {
        push_char(&mut s, chars[k]);
        k += 1;
        assert(chars@.take(k as int) =~= chars@.take(k - 1).push(chars@[k - 1]));
    }
    assert(chars@.take(k as int) =~= chars@);
    s
}

/// Renders the help text of the snippet `name` with the given `description`.
///
/// Without a template the description is returned unchanged. With one, every
/// name placeholder is replaced by `name` and then every description
/// placeholder by `description`; what the description holds is not looked at
/// again.
pub fn render(template: Option<&str>, name: &str, description: &str) -> (out: String)
    ensures
        out@ == render_text(template_text(template), name@, description@),
        template is None ==> out@ == description@,
{
    match template {
        None => description.to_owned(),
        Some(t) => {
            let named = replace_chars(&chars_of(t), &chars_of(NAME_PLACEHOLDER), &chars_of(name));
            let described = replace_chars(
                &named,
                &chars_of(DESCRIPTION_PLACEHOLDER),
                &chars_of(description),
            );
            string_of(&described)
        },
    }
}

} // verus!
