//! What holds of expanded expressions.
use crate::fixture_laws::lemma_found_cube_is_named;
use crate::members::{
    cube_at, cubes, expanded, expanded_from, lemma_next_char, members_of, next_char, quoted_column,
    reference_at, Fixture,
};
use crate::text::occurs_at;
use vstd::prelude::*;

verus! {

/// A reference to a member, as an expression holds it.
pub open spec fn written(cube: Seq<char>, member: Seq<char>) -> Seq<char> {
    "${"@ + cube + "."@ + member + "}"@
}

/// Whether an expression can refer to this member of this cube over a fixture.
pub open spec fn can_refer(fixture: Fixture, cube: Seq<char>, member: Seq<char>) -> bool {
    &&& cube == "Orders"@ || cube == "Buyers"@ || (cube == "Inspectors"@ && fixture
        == Fixture::Roles)
    &&& member.len() > 0
    &&& !member.contains('}')
}

proof fn lemma_occurs_behind(text: Seq<char>, pattern: Seq<char>, k: int, i: int)
    requires
        0 <= k <= text.len(),
        0 <= i,
    ensures
        occurs_at(text, pattern, k + i) == occurs_at(text.skip(k), pattern, i),
{
    if k + i + pattern.len() <= text.len() {
        assert(text.subrange(k + i, k + i + pattern.len()) =~= text.skip(k).subrange(
            i,
            i + pattern.len(),
        ));
    }
}

proof fn lemma_cube_behind(text: Seq<char>, names: Seq<Seq<char>>, k: int, i: int)
    requires
        0 <= k <= text.len(),
        0 <= i,
    ensures
        cube_at(text, names, k + i) == cube_at(text.skip(k), names, i),
    decreases names.len(),
{
    if names.len() > 0 {
        lemma_occurs_behind(text, names[0].push('.'), k, i);
        lemma_cube_behind(text, names.drop_first(), k, i);
    }
}

proof fn lemma_next_char_behind(text: Seq<char>, c: char, k: int, i: int)
    requires
        0 <= k <= text.len(),
        0 <= i,
    ensures
        next_char(text, c, k + i) == match next_char(text.skip(k), c, i) {
            None => None::<int>,
            Some(found) => Some(k + found),
        },
    decreases text.len() - k - i,
{
    if k + i < text.len() {
        assert(text.skip(k)[i] == text[k + i]);
        lemma_next_char_behind(text, c, k, i + 1);
    }
}

/// The position found is the first one from the start of the search on.
proof fn lemma_next_char_is_next(text: Seq<char>, c: char, i: int)
    requires
        0 <= i,
    ensures
        next_char(text, c, i) matches Some(found) ==> {
            &&& i <= found < text.len()
            &&& text[found] == c
            &&& forall|j: int| i <= j < found ==> text[j] != c
        },
        next_char(text, c, i) is None ==> forall|j: int| i <= j < text.len() ==> text[j] != c,
    decreases text.len() - i,
{
    if i < text.len() && text[i] != c {
        lemma_next_char_is_next(text, c, i + 1);
    }
}

proof fn lemma_expansion_behind(fixture: Fixture, text: Seq<char>, k: int, i: int)
    requires
        0 <= k <= text.len(),
        0 <= i,
    ensures
        expanded_from(fixture, text, k + i) == expanded_from(fixture, text.skip(k), i),
    decreases text.len() - k - i,
{
    if k + i < text.len() {
        let names = cubes(fixture);
        assert(text.skip(k)[i] == text[k + i]);
        lemma_occurs_behind(text, "${"@, k, i);
        lemma_cube_behind(text, names, k, i + 2);
        match reference_at(text, names, k + i) {
            Some(reference) => {
                let from = i + 2 + reference.cube.len() + 1;
                lemma_next_char_behind(text, '}', k, from);
                lemma_next_char(text, '}', k + from);
                let close = next_char(text.skip(k), '}', from)->0;
                assert(text.subrange(k + from, k + close) =~= text.skip(k).subrange(from, close));
                lemma_expansion_behind(fixture, text, k, close + 1);
            },
            None => {
                if cube_at(text, names, k + i + 2) is Some {
                    let from = i + 2 + cube_at(text, names, k + i + 2)->0.len() + 1;
                    lemma_next_char_behind(text, '}', k, from);
                }
                lemma_expansion_behind(fixture, text, k, i + 1);
            },
        }
    }
}

proof fn lemma_found_cube_stands(text: Seq<char>, names: Seq<Seq<char>>, i: int)
    ensures
        cube_at(text, names, i) matches Some(cube) ==> occurs_at(text, cube.push('.'), i),
    decreases names.len(),
{
    if names.len() > 0 {
        lemma_found_cube_stands(text, names.drop_first(), i);
    }
}

/// A cube that stands in a text with a dot behind it is the one that is found there.
proof fn lemma_standing_cube_is_found(
    fixture: Fixture,
    cube: Seq<char>,
    member: Seq<char>,
    text: Seq<char>,
    i: int,
)
    requires
        can_refer(fixture, cube, member),
        occurs_at(text, cube.push('.'), i),
    ensures
        cube_at(text, cubes(fixture), i) == Some(cube),
{
    reveal_strlit("Orders");
    reveal_strlit("Inspectors");
    reveal_strlit("Buyers");
    let names = cubes(fixture);
    let window = text.subrange(i, i + cube.len() + 1);
    assert(text[i] == window[0] && window[0] == cube[0]);
    assert forall|k: int| 0 <= k < names.len() && names[k][0] != cube[0] implies !occurs_at(
        text,
        #[trigger] names[k].push('.'),
        i,
    ) by {
        if occurs_at(text, names[k].push('.'), i) {
            assert(text.subrange(i, i + names[k].len() + 1)[0] == names[k].push('.')[0]);
        }
    }
    reveal_with_fuel(cube_at, 4);
    assert(names.drop_first()[0] == names[1]);
    if fixture == Fixture::Roles {
        assert(names.drop_first().drop_first()[0] == names[2]);
    }
}

/// A reference becomes the quoted column that stands for its member: over the role tables the id
/// or the name of the cube, over the joined values the id, the stored value of an order or the
/// current value of a buyer, whatever else the member is called. The member is recorded under the
/// name of its cube, and what follows is expanded on its own.
pub proof fn law_reference_becomes_column(
    fixture: Fixture,
    cube: Seq<char>,
    member: Seq<char>,
    after: Seq<char>,
)
    requires
        can_refer(fixture, cube, member),
    ensures
        member == "id"@ ==> expanded(fixture, written(cube, member) + after) == "\""@ + cube
            + "\".\"id\""@ + expanded(fixture, after),
        member != "id"@ && fixture == Fixture::Roles ==> expanded(
            fixture,
            written(cube, member) + after,
        ) == "\""@ + cube + "\".\"name\""@ + expanded(fixture, after),
        member != "id"@ && fixture == Fixture::JoinedValues && cube == "Orders"@ ==> expanded(
            fixture,
            written(cube, member) + after,
        ) == "\"Orders\".\"stored_value\""@ + expanded(fixture, after),
        member != "id"@ && fixture == Fixture::JoinedValues && cube == "Buyers"@ ==> expanded(
            fixture,
            written(cube, member) + after,
        ) == "\"Buyers\".\"current_value\""@ + expanded(fixture, after),
        members_of(fixture, written(cube, member) + after) == seq![cube + "."@ + member]
            + members_of(fixture, after),
{
    reveal_strlit("${");
    reveal_strlit(".");
    reveal_strlit("}");
    let text = written(cube, member) + after;
    let from: int = 2 + cube.len() as int + 1;
    let close: int = from + member.len();
    assert(text.subrange(0, 2) =~= "${"@);
    assert(text.subrange(2, from) =~= cube.push('.'));
    lemma_standing_cube_is_found(fixture, cube, member, text, 2);
    assert(text.subrange(from, close) =~= member);
    assert(text[close] == '}');
    assert forall|j: int| from <= j < close implies text[j] != '}' by {
        assert(text[j] == member[j - from]);
        assert(member.contains(member[j - from]));
    }
    lemma_next_char_is_next(text, '}', from);
    assert(next_char(text, '}', from) == Some(close));
    assert(text.skip(close + 1) =~= after);
    lemma_expansion_behind(fixture, text, close + 1, 0);
    let column = quoted_column(fixture, cube, member);
    assert(expanded(fixture, text) == column + expanded(fixture, after));
    reveal_strlit("\"");
    reveal_strlit("\".\"");
    reveal_strlit("id");
    reveal_strlit("name");
    reveal_strlit("stored_value");
    reveal_strlit("current_value");
    reveal_strlit("\".\"id\"");
    reveal_strlit("\".\"name\"");
    reveal_strlit("Orders");
    reveal_strlit("Buyers");
    reveal_strlit("\"Orders\".\"stored_value\"");
    reveal_strlit("\"Buyers\".\"current_value\"");
    assert("Orders"@[0] != "Buyers"@[0]);
    if member == "id"@ {
        assert(column =~= "\""@ + cube + "\".\"id\""@);
    } else if fixture == Fixture::Roles {
        assert(column =~= "\""@ + cube + "\".\"name\""@);
    } else if cube == "Orders"@ {
        assert(column =~= "\"Orders\".\"stored_value\""@);
    } else {
        assert(column =~= "\"Buyers\".\"current_value\""@);
    }
}

/// A text that begins with no reference keeps its first character, records nothing for it, and is
/// expanded behind it on its own. No text expands to none.
pub proof fn law_other_text_is_kept(fixture: Fixture, text: Seq<char>)
    requires
        forall|cube: Seq<char>, member: Seq<char>, after: Seq<char>|
            can_refer(fixture, cube, member) ==> text != #[trigger] (written(cube, member) + after),
    ensures
        text.len() > 0 ==> expanded(fixture, text) == seq![text[0]] + expanded(
            fixture,
            text.skip(1),
        ),
        text.len() > 0 ==> members_of(fixture, text) == members_of(fixture, text.skip(1)),
        text.len() == 0 ==> expanded(fixture, text) == text,
        text.len() == 0 ==> members_of(fixture, text) == Seq::<Seq<char>>::empty(),
{
    let names = cubes(fixture);
    if text.len() > 0 {
        if reference_at(text, names, 0) is Some {
            let reference = reference_at(text, names, 0)->0;
            let cube = reference.cube;
            let member = reference.member;
            let from: int = 2 + cube.len() as int + 1;
            reveal_strlit("${");
            reveal_strlit(".");
            reveal_strlit("}");
            lemma_found_cube_is_named(text, names, 2);
            lemma_found_cube_stands(text, names, 2);
            lemma_next_char_is_next(text, '}', from);
            assert(!member.contains('}')) by {
                if member.contains('}') {
                    let j = choose|j: int| 0 <= j < member.len() && member[j] == '}';
                    assert(text[from + j] == '}');
                }
            }
            let k = choose|k: int| 0 <= k < names.len() && names[k] == cube;
            assert(can_refer(fixture, cube, member));
            assert(text =~= text.subrange(0, 2) + text.subrange(2, from) + text.subrange(
                from,
                reference.end - 1,
            ) + seq!['}'] + text.skip(reference.end));
            assert(text =~= written(cube, member) + text.skip(reference.end));
        }
        lemma_expansion_behind(fixture, text, 1, 0);
    } else {
        assert(text =~= Seq::<char>::empty());
    }
}

} // verus!
