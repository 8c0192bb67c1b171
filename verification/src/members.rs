//! References to cube members inside SQL expressions, written `${Cube.member}`, and the columns
//! that stand for them in a fixture.
use crate::text::{chars_of, occurs_at, stands_at, texts};
use vstd::prelude::*;
use vstd::string::*;

verus! {

/// The inline tables that stand for cubes.
#[derive(Clone, Copy, PartialEq, Eq, Structural)]
pub enum Fixture {
    /// Orders with two joined roles, each with an `id` and a `name`.
    Roles,
    /// Orders and buyers, each with an `id` and a value of its own.
    JoinedValues,
}

/// A member reference: the cube, the member, and the position behind the reference.
pub ghost struct Reference {
    pub cube: Seq<char>,
    pub member: Seq<char>,
    pub end: int,
}

/// The cubes that a fixture has tables for.
pub open spec fn cubes(fixture: Fixture) -> Seq<Seq<char>> {
    match fixture {
        Fixture::Roles => seq!["Orders"@, "Inspectors"@, "Buyers"@],
        Fixture::JoinedValues => seq!["Orders"@, "Buyers"@],
    }
}

/// The column that stands for a member in a fixture.
pub open spec fn fixture_column(
    fixture: Fixture,
    cube: Seq<char>,
    member: Seq<char>,
) -> Seq<char> {
    if member == "id"@ {
        "id"@
    } else {
        match fixture {
            Fixture::Roles => "name"@,
            Fixture::JoinedValues => if cube == "Orders"@ {
                "stored_value"@
            } else {
                "current_value"@
            },
        }
    }
}

/// The first of `names` that stands in `text` at position `i` with a dot behind it.
pub open spec fn cube_at(text: Seq<char>, names: Seq<Seq<char>>, i: int) -> Option<Seq<char>>
    decreases names.len(),
{
    if names.len() == 0 {
        None
    } else if occurs_at(text, names[0].push('.'), i) {
        Some(names[0])
    } else {
        cube_at(text, names.drop_first(), i)
    }
}

/// The first position from `i` on at which `text` holds `c`.
pub open spec fn next_char(text: Seq<char>, c: char, i: int) -> Option<int>
    decreases text.len() - i,
{
    if i < 0 || i >= text.len() {
        None
    } else if text[i] == c {
        Some(i)
    } else {
        next_char(text, c, i + 1)
    }
}

/// The reference that stands in `text` at position `i`: a dollar sign and an opening brace, the
/// name of a cube, a dot, a member name of at least one character, and a closing brace. The
/// member name goes up to the next closing brace.
pub open spec fn reference_at(text: Seq<char>, names: Seq<Seq<char>>, i: int) -> Option<Reference> {
    if !occurs_at(text, "${"@, i) {
        None
    } else {
        match cube_at(text, names, i + 2) {
            None => None,
            Some(cube) => {
                let from = i + 2 + cube.len() + 1;
                match next_char(text, '}', from) {
                    None => None,
                    Some(close) => if close > from {
                        Some(Reference { cube, member: text.subrange(from, close), end: close + 1 })
                    } else {
                        None
                    },
                }
            },
        }
    }
}

/// The quoted column that stands for a reference.
pub open spec fn quoted_column(fixture: Fixture, cube: Seq<char>, member: Seq<char>) -> Seq<char> {
    "\""@ + cube + "\".\""@ + fixture_column(fixture, cube, member) + "\""@
}

/// The name under which a referenced member is recorded.
pub open spec fn member_name(cube: Seq<char>, member: Seq<char>) -> Seq<char> {
    cube + "."@ + member
}

/// A position that was found lies in the text, at or behind the start of the search.
pub proof fn lemma_next_char(text: Seq<char>, c: char, i: int)
    ensures
        next_char(text, c, i) is Some ==> i <= next_char(text, c, i)->0 < text.len(),
    decreases text.len() - i,
{
    if 0 <= i < text.len() && text[i] != c {
        lemma_next_char(text, c, i + 1);
    }
}

/// `text` from position `i` on, with each reference replaced by its column, and the names of the
/// members referred to, both in order. References are found from the left and do not overlap.
pub open spec fn expanded_from(fixture: Fixture, text: Seq<char>, i: int) -> (
    Seq<char>,
    Seq<Seq<char>>,
)
    decreases text.len() - i,
{
    if i < 0 || i >= text.len() {
        (seq![], seq![])
    } else {
        match reference_at(text, cubes(fixture), i) {
            Some(reference) => {
                proof {
                    lemma_next_char(text, '}', i + 2 + reference.cube.len() + 1);
                }
                let rest = expanded_from(fixture, text, reference.end);
                (
                    quoted_column(fixture, reference.cube, reference.member) + rest.0,
                    seq![member_name(reference.cube, reference.member)] + rest.1,
                )
            },
            None => {
                let rest = expanded_from(fixture, text, i + 1);
                (seq![text[i]] + rest.0, rest.1)
            },
        }
    }
}

/// An expression with each member reference replaced by its column.
pub open spec fn expanded(fixture: Fixture, text: Seq<char>) -> Seq<char> {
    expanded_from(fixture, text, 0).0
}

/// The names of the members that an expression refers to, in order.
pub open spec fn members_of(fixture: Fixture, text: Seq<char>) -> Seq<Seq<char>> {
    expanded_from(fixture, text, 0).1
}

fn cube_names(fixture: Fixture) -> (r: Vec<String>)
    ensures
        texts(r@) == cubes(fixture),
{
    let mut names: Vec<String> = Vec::new();
    names.push("Orders".to_owned());
    if fixture == Fixture::Roles {
        names.push("Inspectors".to_owned());
    }
    names.push("Buyers".to_owned());
    assert(texts(names@) =~= cubes(fixture));
    names
}

/// The index in `names` of the cube whose name stands at position `i` with a dot behind it.
fn find_cube(text: &Vec<char>, names: &Vec<String>, i: usize) -> (r: Option<usize>)
    ensures
        r is Some <==> cube_at(text@, texts(names@), i as int) is Some,
        r is Some ==> r->0 < names@.len() && cube_at(text@, texts(names@), i as int) == Some(
            names@[r->0 as int]@,
        ) && occurs_at(text@, names@[r->0 as int]@.push('.'), i as int),
{
    let mut k: usize = 0;
    assert(texts(names@).skip(0) =~= texts(names@));
    while k < names.len()
        invariant
            k <= names@.len(),
            cube_at(text@, texts(names@), i as int) == cube_at(
                text@,
                texts(names@).skip(k as int),
                i as int,
            ),
        decreases names@.len() - k,
    {
        let mut pattern = chars_of(names[k].as_str());
        pattern.push('.');
        assert(texts(names@).skip(k as int)[0] == names@[k as int]@);
        if stands_at(text, &pattern, i) {
            return Some(k);
        }
        assert(texts(names@).skip(k as int).drop_first() =~= texts(names@).skip(k + 1));
        k = k + 1;
    }
    None
}

fn find_char(text: &Vec<char>, c: char, i: usize) -> (r: Option<usize>)
    ensures
        r is Some <==> next_char(text@, c, i as int) is Some,
        r is Some ==> next_char(text@, c, i as int) == Some(r->0 as int),
        r is Some ==> i <= r->0 < text@.len(),
{
    let mut k: usize = i;
    while k < text.len()
        invariant
            i <= k,
            next_char(text@, c, i as int) == next_char(text@, c, k as int),
        decreases text@.len() - k,
    {
        if text[k] == c {
            return Some(k);
        }
        k = k + 1;
    }
    None
}

/// A reference that was found: the index of its cube, its member, and the position behind it.
struct FoundReference {
    cube: usize,
    member: String,
    end: usize,
}

/// The reference at position `i`, its cube as an index into `names`.
fn find_reference(text: &str, chars: &Vec<char>, names: &Vec<String>, i: usize) -> (r: Option<
    FoundReference,
>)
    requires
        chars@ == text@,
    ensures
        r is Some <==> reference_at(text@, texts(names@), i as int) is Some,
        r matches Some(found) ==> found.cube < names@.len(),
        r matches Some(found) ==> i < found.end <= text@.len(),
        r matches Some(found) ==> reference_at(text@, texts(names@), i as int) == Some(
            (Reference {
                cube: names@[found.cube as int]@,
                member: found.member@,
                end: found.end as int,
            }),
        ),
{
    let opening = chars_of("${");
    proof {
        reveal_strlit("${");
    }
    if !stands_at(chars, &opening, i) {
        return None;
    }
    assert(i + 2 <= chars.len());
    match find_cube(chars, names, i + 2) {
        None => None,
        Some(k) => {
            let from = i + 2 + names[k].as_str().unicode_len() + 1;
            match find_char(chars, '}', from) {
                None => None,
                Some(close) => if close > from {
                    let member = text.substring_char(from, close).to_owned();
                    Some(FoundReference { cube: k, member, end: close + 1 })
                } else {
                    None
                },
            }
        },
    }
}

fn quote_column(fixture: Fixture, cube: &String, member: &String) -> (r: String)
    ensures
        r@ == quoted_column(fixture, cube@, member@),
{
    let column = if *member == "id".to_owned() {
        "id"
    } else {
        match fixture {
            Fixture::Roles => "name",
            Fixture::JoinedValues => if *cube == "Orders".to_owned() {
                "stored_value"
            } else {
                "current_value"
            },
        }
    };
    "\"".to_owned().concat(cube.as_str()).concat("\".\"").concat(column).concat("\"")
}

/// Replaces each member reference of an expression by its column. Returns the expression and the
/// names of the members referred to.
pub fn expand(fixture: Fixture, text: &str) -> (r: (String, Vec<String>))
    ensures
        r.0@ == expanded(fixture, text@),
        texts(r.1@) == members_of(fixture, text@),
{
    let chars = chars_of(text);
    let names = cube_names(fixture);
    let mut out = String::new();
    let mut members: Vec<String> = Vec::new();
    let mut i: usize = 0;
    let mut copied: usize = 0;
    assert(text@.subrange(0, 0) =~= seq![]);
    while i < chars.len()
        invariant
            chars@ == text@,
            texts(names@) == cubes(fixture),
            copied <= i <= text@.len(),
            expanded(fixture, text@) == out@ + text@.subrange(copied as int, i as int)
                + expanded_from(fixture, text@, i as int).0,
            members_of(fixture, text@) == texts(members@) + expanded_from(
                fixture,
                text@,
                i as int,
            ).1,
        decreases text@.len() - i,
    {
        match find_reference(text, &chars, &names, i) {
            Some(FoundReference { cube: k, member, end }) => {
                let ghost rest = expanded_from(fixture, text@, end as int);
                let name = names[k].clone().concat(".").concat(member.as_str());
                assert(texts(members@.push(name)) =~= texts(members@).push(name@));
                members.push(name);
                out.append(text.substring_char(copied, i));
                out.append(quote_column(fixture, &names[k], &member).as_str());
                i = end;
                copied = end;
                assert(text@.subrange(end as int, end as int) =~= seq![]);
                assert(expanded(fixture, text@) =~= out@ + rest.0);
                assert(members_of(fixture, text@) =~= texts(members@) + rest.1);
            },
            None => {
                assert(text@.subrange(copied as int, i + 1) =~= text@.subrange(
                    copied as int,
                    i as int,
                ).push(text@[i as int]));
                i = i + 1;
                assert(expanded(fixture, text@) =~= out@ + text@.subrange(copied as int, i as int)
                    + expanded_from(fixture, text@, i as int).0);
            },
        }
    }
    out.append(text.substring_char(copied, i));
    assert(expanded(fixture, text@) =~= out@);
    assert(members_of(fixture, text@) =~= texts(members@));
    (out, members)
}

} // verus!
