//! Sequences of characters: where a pattern occurs in a text, and the text
//! with every occurrence of a pattern replaced.

use vstd::prelude::*;

verus! {

/// `pattern` stands in `text` at position `at`.
pub open spec fn occurs_at(text: Seq<char>, pattern: Seq<char>, at: int) -> bool {
    &&& 0 <= at
    &&& at + pattern.len() <= text.len()
    &&& text.subrange(at, at + pattern.len()) == pattern
}

/// `pattern` stands somewhere in `text`.
pub open spec fn contains(text: Seq<char>, pattern: Seq<char>) -> bool {
    exists|at: int| occurs_at(text, pattern, at)
}

/// `pattern` stands in `text` at exactly one position.
pub open spec fn occurs_once(text: Seq<char>, pattern: Seq<char>) -> bool {
    exists|at: int| only_at(text, pattern, at)
}

/// `pattern` stands in `text` at position `at` and nowhere else.
pub open spec fn only_at(text: Seq<char>, pattern: Seq<char>, at: int) -> bool {
    &&& occurs_at(text, pattern, at)
    &&& forall|other: int| occurs_at(text, pattern, other) ==> other == at
}

/// The character `c` does not stand in `text`.
pub open spec fn lacks(text: Seq<char>, c: char) -> bool {
    forall|i: int| 0 <= i < text.len() ==> text[i] != c
}

/// `text` with every occurrence of `pattern` replaced by `with`, reading from
/// the left; an occurrence that starts inside an earlier one is not counted.
/// The empty pattern occurs before every character and after the last one.
pub open spec fn replace_all(text: Seq<char>, pattern: Seq<char>, with: Seq<char>) -> Seq<char>
    decreases text.len(),
{
    if text.len() == 0 {
        if pattern.len() == 0 {
            with
        } else {
            text
        }
    } else if pattern.len() == 0 {
        with + seq![text[0]] + replace_all(text.skip(1), pattern, with)
    } else if occurs_at(text, pattern, 0) {
        with + replace_all(text.skip(pattern.len() as int), pattern, with)
    } else {
        seq![text[0]] + replace_all(text.skip(1), pattern, with)
    }
}

/// An occurrence in the rest of a text is an occurrence in the text, further on.
pub proof fn lemma_occurs_at_skip(text: Seq<char>, pattern: Seq<char>, from: int, at: int)
    requires
        0 <= from <= text.len(),
        0 <= at,
    ensures
        occurs_at(text.skip(from), pattern, at) <==> occurs_at(text, pattern, from + at),
{
    if at + pattern.len() <= text.len() - from {
        assert(text.skip(from).subrange(at, at + pattern.len()) =~= text.subrange(
            from + at,
            from + at + pattern.len(),
        ));
    }
}

/// A text in which the pattern does not occur is left as it is.
pub proof fn lemma_replace_absent(text: Seq<char>, pattern: Seq<char>, with: Seq<char>)
    requires
        pattern.len() > 0,
        !contains(text, pattern),
    ensures
        replace_all(text, pattern, with) == text,
    decreases text.len(),
{
    if text.len() > 0 {
        let rest = text.skip(1);
        assert forall|at: int| !occurs_at(rest, pattern, at) by {
            if 0 <= at {
                lemma_occurs_at_skip(text, pattern, 1, at);
            }
        }
        lemma_replace_absent(rest, pattern, with);
        assert(seq![text[0]] + rest =~= text);
    }
}

/// Where the pattern occurs at one position only, the text before and after
/// that occurrence is kept and the replacement stands between them.
pub proof fn lemma_replace_only_at(text: Seq<char>, pattern: Seq<char>, with: Seq<char>, at: int)
    requires
        pattern.len() > 0,
        only_at(text, pattern, at),
    ensures
        replace_all(text, pattern, with) == text.take(at) + with + text.skip(
            at + pattern.len(),
        ),
    decreases at,
{
    if at == 0 {
        let rest = text.skip(pattern.len() as int);
        assert forall|k: int| !occurs_at(rest, pattern, k) by {
            if 0 <= k {
                lemma_occurs_at_skip(text, pattern, pattern.len() as int, k);
            }
        }
        lemma_replace_absent(rest, pattern, with);
        assert(text.take(0) + with + rest =~= with + rest);
    } else {
        let rest = text.skip(1);
        lemma_occurs_at_skip(text, pattern, 1, at - 1);
        assert forall|other: int| occurs_at(rest, pattern, other) implies other == at - 1 by {
            lemma_occurs_at_skip(text, pattern, 1, other);
        }
        lemma_replace_only_at(rest, pattern, with, at - 1);
        assert(rest.take(at - 1) =~= text.subrange(1, at));
        assert(rest.skip(at - 1 + pattern.len()) =~= text.skip(at + pattern.len()));
        assert(seq![text[0]] + (text.subrange(1, at) + with + text.skip(at + pattern.len()))
            =~= text.take(at) + with + text.skip(at + pattern.len()));
    }
}

/// Where the pattern occurs in a text, the replacement stands in what
/// replacing gives.
pub proof fn lemma_replace_holds_replacement(
    text: Seq<char>,
    pattern: Seq<char>,
    with: Seq<char>,
)
    requires
        pattern.len() > 0,
        contains(text, pattern),
    ensures
        contains(replace_all(text, pattern, with), with),
    decreases text.len(),
{
    let at = choose|at: int| occurs_at(text, pattern, at);
    let out = replace_all(text, pattern, with);
    if occurs_at(text, pattern, 0) {
        assert(out.subrange(0, with.len() as int) =~= with);
        assert(occurs_at(out, with, 0));
    } else {
        let rest = text.skip(1);
        lemma_occurs_at_skip(text, pattern, 1, at - 1);
        assert(occurs_at(rest, pattern, at - 1));
        lemma_replace_holds_replacement(rest, pattern, with);
        let below = replace_all(rest, pattern, with);
        let found = choose|found: int| occurs_at(below, with, found);
        assert(out == seq![text[0]] + below);
        assert(out.subrange(found + 1, found + 1 + with.len()) =~= below.subrange(
            found,
            found + with.len(),
        ));
        assert(occurs_at(out, with, found + 1));
    }
}

/// The characters of `s`, in order.
pub fn chars_of(s: &str) -> (out: Vec<char>)
    ensures
        out@ == s@,
{
    let mut out: Vec<char> = Vec::new();
    let chars = s.chars();
    for c in it: chars
        invariant
            out@ == it.seq().take(it.index() as int),
    {
        out.push(c);
    }
    out
}

/// Whether `pattern` stands in `text` at position `at`.
pub fn matches_at(text: &Vec<char>, pattern: &Vec<char>, at: usize) -> (found: bool)
    ensures
        found == occurs_at(text@, pattern@, at as int),
{
    if at > text.len() || pattern.len() > text.len() - at {
        return false;
    }
    let mut k: usize = 0;
    while k < pattern.len()
        invariant
            k <= pattern.len(),
            at + pattern.len() <= text.len(),
            forall|j: int| 0 <= j < k ==> text@[at + j] == pattern@[j],
        decreases pattern.len() - k,
    {
        if text[at + k] != pattern[k] {
            proof {
                let part = text@.subrange(at as int, at + pattern.len());
                assert(part[k as int] == text@[at + k]);
            }
            return false;
        }
        k += 1;
    }
    assert(text@.subrange(at as int, at + pattern.len()) =~= pattern@);
    true
}

/// Puts the characters of `more` behind those of `out`.
pub fn extend_chars(out: &mut Vec<char>, more: &Vec<char>)
    ensures
        final(out)@ == old(out)@ + more@,
{
    let mut k: usize = 0;
    while k < more.len()
        invariant
            k <= more.len(),
            out@ == old(out)@ + more@.take(k as int),
        decreases more.len() - k,
    {
        out.push(more[k]);
        k += 1;
        assert(more@.take(k as int) =~= more@.take(k - 1).push(more@[k - 1]));
    }
    assert(more@.take(k as int) =~= more@);
}

/// `text` with every occurrence of `pattern` replaced by `with`.
pub fn replace_chars(text: &Vec<char>, pattern: &Vec<char>, with: &Vec<char>) -> (out: Vec<char>)
    ensures
        out@ == replace_all(text@, pattern@, with@),
{
    let mut out: Vec<char> = Vec::new();
    let mut at: usize = 0;
    assert(text@.skip(0) =~= text@);
    assert(out@ + replace_all(text@, pattern@, with@) =~= replace_all(text@, pattern@, with@));
    while at < text.len()
        invariant
            at <= text.len(),
            out@ + replace_all(text@.skip(at as int), pattern@, with@) == replace_all(
                text@,
                pattern@,
                with@,
            ),
        decreases text.len() - at,
    {
        let ghost rest = text@.skip(at as int);
        let ghost before = out@;
        proof {
            lemma_occurs_at_skip(text@, pattern@, at as int, 0);
        }
        if pattern.len() == 0 {
            extend_chars(&mut out, with);
            out.push(text[at]);
            at += 1;
            proof {
                assert(rest.skip(1) =~= text@.skip(at as int));
                assert(out@ + replace_all(rest.skip(1), pattern@, with@) =~= before + (with@
                    + seq![rest[0]] + replace_all(rest.skip(1), pattern@, with@)));
            }
        } else if matches_at(text, pattern, at) {
            extend_chars(&mut out, with);
            at += pattern.len();
            proof {
                let tail = rest.skip(pattern@.len() as int);
                assert(tail =~= text@.skip(at as int));
                assert(out@ + replace_all(tail, pattern@, with@) =~= before + (with@
                    + replace_all(tail, pattern@, with@)));
            }
        } else {
            out.push(text[at]);
            at += 1;
            proof {
                assert(rest.skip(1) =~= text@.skip(at as int));
                assert(out@ + replace_all(rest.skip(1), pattern@, with@) =~= before + (seq![
                    rest[0],
                ] + replace_all(rest.skip(1), pattern@, with@)));
            }
        }
    }
    if pattern.len() == 0 {
        extend_chars(&mut out, with);
        assert(text@.skip(at as int).len() == 0);
    } else {
        assert(text@.skip(at as int).len() == 0);
        assert(out@ + text@.skip(at as int) =~= out@);
    }
    out
}

} // verus!
