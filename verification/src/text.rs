//! Searching, splitting and joining of text, over the characters that it holds.
use vstd::prelude::*;
use vstd::string::*;

verus! {

/// `pattern` stands in `text` at position `i`.
pub open spec fn occurs_at(text: Seq<char>, pattern: Seq<char>, i: int) -> bool {
    &&& 0 <= i
    &&& i + pattern.len() <= text.len()
    &&& text.subrange(i, i + pattern.len()) == pattern
}

/// `i` is the first position at which `pattern` stands in `text`.
pub open spec fn is_first_occurrence(text: Seq<char>, pattern: Seq<char>, i: int) -> bool {
    &&& occurs_at(text, pattern, i)
    &&& forall|j: int| j < i ==> !#[trigger] occurs_at(text, pattern, j)
}

/// The first position at which `pattern` stands in `text`, where there is one.
pub open spec fn first_occurrence(text: Seq<char>, pattern: Seq<char>) -> Option<int> {
    if exists|i: int| is_first_occurrence(text, pattern, i) {
        Some(choose|i: int| is_first_occurrence(text, pattern, i))
    } else {
        None
    }
}

/// The parts in order, with `separator` between each two of them.
pub open spec fn joined(parts: Seq<Seq<char>>, separator: Seq<char>) -> Seq<char>
    decreases parts.len(),
{
    if parts.len() == 0 {
        seq![]
    } else if parts.len() == 1 {
        parts[0]
    } else {
        joined(parts.drop_last(), separator) + separator + parts.last()
    }
}

/// The texts that a list of strings holds.
pub open spec fn texts(strings: Seq<String>) -> Seq<Seq<char>> {
    strings.map_values(|s: String| s@)
}

/// A position that is first is the first occurrence.
pub proof fn lemma_first_occurrence(text: Seq<char>, pattern: Seq<char>, i: int)
    requires
        is_first_occurrence(text, pattern, i),
    ensures
        first_occurrence(text, pattern) == Some(i),
{
    let k = choose|k: int| is_first_occurrence(text, pattern, k);
    assert(is_first_occurrence(text, pattern, k));
    assert(!(k < i) && !(i < k));
}

/// The first occurrence is a position that is first.
pub proof fn lemma_first_is_occurrence(text: Seq<char>, pattern: Seq<char>)
    requires
        first_occurrence(text, pattern) is Some,
    ensures
        is_first_occurrence(text, pattern, first_occurrence(text, pattern)->0),
{
}

/// Where there is an occurrence, there is a first one, which stands no later.
pub proof fn lemma_occurrence_has_first(text: Seq<char>, pattern: Seq<char>, i: int)
    requires
        occurs_at(text, pattern, i),
    ensures
        first_occurrence(text, pattern) is Some,
        first_occurrence(text, pattern)->0 <= i,
    decreases i,
{
    if is_first_occurrence(text, pattern, i) {
        lemma_first_occurrence(text, pattern, i);
    } else {
        let j = choose|j: int| j < i && #[trigger] occurs_at(text, pattern, j);
        lemma_occurrence_has_first(text, pattern, j);
    }
}

/// What stands inside one of two texts stands in both together, and what stands in both together
/// without crossing the seam stands inside one of them.
pub proof fn lemma_occurs_beside(left: Seq<char>, right: Seq<char>, pattern: Seq<char>, i: int)
    ensures
        i + pattern.len() <= left.len() ==> (occurs_at(left + right, pattern, i) <==> occurs_at(
            left,
            pattern,
            i,
        )),
        left.len() <= i ==> (occurs_at(left + right, pattern, i) <==> occurs_at(
            right,
            pattern,
            i - left.len(),
        )),
{
    let whole = left + right;
    if 0 <= i && i + pattern.len() <= left.len() {
        assert(whole.subrange(i, i + pattern.len()) =~= left.subrange(i, i + pattern.len()));
    }
    if left.len() <= i && i + pattern.len() <= whole.len() {
        assert(whole.subrange(i, i + pattern.len()) =~= right.subrange(
            i - left.len(),
            i - left.len() + pattern.len(),
        ));
    }
}

/// What stands first in a text still does where more follows.
pub proof fn lemma_first_stays_first(text: Seq<char>, more: Seq<char>, pattern: Seq<char>)
    requires
        first_occurrence(text, pattern) is Some,
    ensures
        first_occurrence(text + more, pattern) == first_occurrence(text, pattern),
{
    let start = first_occurrence(text, pattern)->0;
    lemma_first_is_occurrence(text, pattern);
    lemma_occurs_beside(text, more, pattern, start);
    assert forall|j: int| j < start implies !#[trigger] occurs_at(text + more, pattern, j) by {
        lemma_occurs_beside(text, more, pattern, j);
    }
    lemma_first_occurrence(text + more, pattern, start);
}

/// A text is found where it stands for the first time: the text around it is what is left of the
/// whole, and it stands nowhere further to the left.
pub proof fn law_found_where_it_first_stands(text: Seq<char>, pattern: Seq<char>)
    ensures
        first_occurrence(text, pattern) matches Some(i) ==> {
            &&& 0 <= i <= text.len() - pattern.len()
            &&& text == text.take(i) + pattern + text.skip(i + pattern.len())
        },
        forall|before: Seq<char>, after: Seq<char>|
            text == #[trigger] (before + pattern + after) ==> {
                &&& first_occurrence(text, pattern) is Some
                &&& first_occurrence(text, pattern)->0 <= before.len()
            },
{
    if first_occurrence(text, pattern) is Some {
        lemma_first_is_occurrence(text, pattern);
        let i = first_occurrence(text, pattern)->0;
        assert(text =~= text.take(i) + text.subrange(i, i + pattern.len()) + text.skip(
            i + pattern.len(),
        ));
    }
    assert forall|before: Seq<char>, after: Seq<char>|
        text == #[trigger] (before + pattern + after) implies {
        &&& first_occurrence(text, pattern) is Some
        &&& first_occurrence(text, pattern)->0 <= before.len()
    } by {
        let i = before.len() as int;
        assert(text.subrange(i, i + pattern.len()) =~= pattern);
        lemma_occurrence_has_first(text, pattern, i);
    }
}

/// Wherever a list is cut, the separator stands between the joined halves, and nowhere else.
pub proof fn law_joined_halves(parts: Seq<Seq<char>>, separator: Seq<char>, n: int)
    requires
        0 < n < parts.len(),
    ensures
        joined(parts, separator) == joined(parts.take(n), separator) + separator + joined(
            parts.skip(n),
            separator,
        ),
    decreases parts.len(),
{
    if n == parts.len() - 1 {
        assert(parts.take(n) =~= parts.drop_last());
        assert(parts.skip(n).len() == 1 && parts.skip(n)[0] == parts.last());
    } else {
        law_joined_halves(parts.drop_last(), separator, n);
        assert(parts.drop_last().take(n) =~= parts.take(n));
        assert(parts.drop_last().skip(n) =~= parts.skip(n).drop_last());
        assert(parts.skip(n).last() == parts.last());
        assert(joined(parts, separator) =~= joined(parts.take(n), separator) + separator + joined(
            parts.skip(n),
            separator,
        ));
    }
}

/// No part gives no text, one part itself, and two parts have the separator between them.
pub proof fn law_few_parts_joined(first: Seq<char>, second: Seq<char>, separator: Seq<char>)
    ensures
        joined(seq![], separator) == Seq::<char>::empty(),
        joined(seq![first], separator) == first,
        joined(seq![first, second], separator) == first + separator + second,
{
    law_joined_halves(seq![first, second], separator, 1);
    assert(seq![first, second].take(1) =~= seq![first]);
    assert(seq![first, second].skip(1) =~= seq![second]);
}

/// Each string of a list stands for the characters that it holds.
pub proof fn law_texts_are_held(strings: Seq<String>)
    ensures
        texts(strings).len() == strings.len(),
        forall|i: int| 0 <= i < strings.len() ==> (#[trigger] texts(strings)[i]) == strings[i]@,
{
}

/// The characters of a text.
pub(crate) fn chars_of(text: &str) -> (r: Vec<char>)
    ensures
        r@ == text@,
{
    let mut chars: Vec<char> = Vec::new();
    for c in iter: text.chars()
        invariant
            iter.seq() == text@,
            chars@ == text@.take(iter.index() as int),
    {
        chars.push(c);
    }
    assert(text@.take(text@.len() as int) =~= text@);
    chars
}

/// Whether `pattern` stands in `text` at position `i`.
pub(crate) fn stands_at(text: &Vec<char>, pattern: &Vec<char>, i: usize) -> (r: bool)
    ensures
        r == occurs_at(text@, pattern@, i as int),
{
    if i > text.len() || pattern.len() > text.len() - i {
        return false;
    }
    let mut k: usize = 0;
    while k < pattern.len()
        invariant
            i + pattern@.len() <= text.len(),
            k <= pattern@.len(),
            forall|j: int| 0 <= j < k ==> text@[i + j] == pattern@[j],
        decreases pattern@.len() - k,
    {
        if text[i + k] != pattern[k] {
            assert(text@.subrange(i as int, i + pattern@.len())[k as int] != pattern@[k as int]);
            return false;
        }
        k = k + 1;
    }
    assert(text@.subrange(i as int, i + pattern@.len()) =~= pattern@);
    true
}

/// The first position, counted in characters, at which `pattern` stands in `text`.
pub(crate) fn find(text: &str, pattern: &str) -> (r: Option<usize>)
    ensures
        r is Some <==> first_occurrence(text@, pattern@) is Some,
        r is Some ==> first_occurrence(text@, pattern@) == Some(r->0 as int),
        r is Some ==> r->0 + pattern@.len() <= text@.len(),
{
    let text_chars = chars_of(text);
    let pattern_chars = chars_of(pattern);
    let mut i: usize = 0;
    while i < text_chars.len()
        invariant
            text_chars@ == text@,
            pattern_chars@ == pattern@,
            i <= text@.len(),
            forall|j: int| j < i ==> !#[trigger] occurs_at(text@, pattern@, j),
        decreases text@.len() - i,
    {
        if stands_at(&text_chars, &pattern_chars, i) {
            proof {
                lemma_first_occurrence(text@, pattern@, i as int);
            }
            return Some(i);
        }
        i = i + 1;
    }
    if stands_at(&text_chars, &pattern_chars, i) {
        proof {
            lemma_first_occurrence(text@, pattern@, i as int);
        }
        return Some(i);
    }
    None
}

/// Whether a text begins with the given character.
pub(crate) fn starts_with_char(text: &str, c: char) -> (r: bool)
    ensures
        r == (text@.len() > 0 && text@[0] == c),
{
    text.unicode_len() > 0 && text.get_char(0) == c
}

/// The parts in order, with `separator` between each two of them.
pub(crate) fn join(parts: &Vec<String>, separator: &str) -> (r: String)
    ensures
        r@ == joined(texts(parts@), separator@),
{
    let mut out = String::new();
    let mut i: usize = 0;
    while i < parts.len()
        invariant
            i <= parts@.len(),
            out@ == joined(texts(parts@).take(i as int), separator@),
        decreases parts@.len() - i,
    {
        if i > 0 {
            out.append(separator);
        }
        out.append(parts[i].as_str());
        assert(texts(parts@).take(i + 1).drop_last() =~= texts(parts@).take(i as int));
        i = i + 1;
    }
    assert(texts(parts@).take(parts@.len() as int) =~= texts(parts@));
    out
}

/// Whether a list holds the given text.
pub(crate) fn contains_text(list: &Vec<String>, text: &str) -> (r: bool)
    ensures
        r == texts(list@).contains(text@),
{
    let wanted = text.to_owned();
    let mut i: usize = 0;
    while i < list.len()
        invariant
            i <= list@.len(),
            wanted@ == text@,
            forall|j: int| 0 <= j < i ==> texts(list@)[j] != text@,
        decreases list@.len() - i,
    {
        if list[i] == wanted {
            assert(texts(list@)[i as int] == text@);
            return true;
        }
        i = i + 1;
    }
    false
}

} // verus!
