//! What holds of rendered wrapper SQL.
use crate::fixture::{
    column_members, continued, joins_rendering, request_rendering, requests_end_before,
    sql_rendering, value_rendering, value_select, Rendering,
};
use crate::json::{json_prefix, JsonTree};
use crate::members::{
    cube_at, cubes, expanded, expanded_from, lemma_next_char, member_name, members_of,
    reference_at, Fixture,
};
use crate::request::{joins_of, request_of, ColumnModel, JoinModel};
use crate::text::{
    first_occurrence, lemma_first_is_occurrence, lemma_first_occurrence, lemma_first_stays_first,
    lemma_occurrence_has_first, lemma_occurs_beside, occurs_at,
};
use vstd::prelude::*;

verus! {

/// Once a text can be rendered in some number of steps, more steps give the same rendering.
pub proof fn law_more_steps_change_nothing(sql: Seq<char>, steps: nat, more: nat)
    requires
        steps <= more,
        sql_rendering(sql, steps) is Some,
    ensures
        sql_rendering(sql, more) == sql_rendering(sql, steps),
    decreases steps, 0int, 0nat,
{
    match first_occurrence(sql, "SELECT * FROM {"@) {
        None => {},
        Some(start) => {
            let (input, rest) = json_prefix(sql.skip(start + "SELECT * FROM "@.len()))->0;
            let fewer = (steps - 1) as nat;
            let fewer_more = (more - 1) as nat;
            lemma_more_steps_for_request(input, fewer, fewer_more);
            let select = request_rendering(input, fewer)->0;
            law_more_steps_change_nothing(sql.take(start) + select.text + rest, fewer, fewer_more);
        },
    }
}

proof fn lemma_more_steps_for_request(input: JsonTree, steps: nat, more: nat)
    requires
        steps <= more,
        request_rendering(input, steps) is Some,
    ensures
        request_rendering(input, more) == request_rendering(input, steps),
    decreases steps, 2int, 0nat,
{
    lemma_more_steps_for_joins(joins_of(input)->0, steps, more);
}

proof fn lemma_more_steps_for_joins(list: Seq<JoinModel>, steps: nat, more: nat)
    requires
        steps <= more,
        joins_rendering(list, steps) is Some,
    ensures
        joins_rendering(list, more) == joins_rendering(list, steps),
    decreases steps, 1int, list.len(),
{
    if list.len() > 0 {
        lemma_more_steps_for_joins(list.drop_last(), steps, more);
        law_more_steps_change_nothing(list.last().sql, steps, more);
    }
}

/// A text that carries no load request is rendered as it is, and refers to no member.
pub proof fn law_plain_sql_is_kept(sql: Seq<char>, steps: nat)
    requires
        first_occurrence(sql, "SELECT * FROM {"@) is None,
    ensures
        sql_rendering(sql, steps) == Some((Rendering { text: sql, members: seq![] })),
{
}

/// A rendered text carries no load request any more.
pub proof fn law_no_request_is_left(sql: Seq<char>, steps: nat)
    requires
        sql_rendering(sql, steps) is Some,
    ensures
        first_occurrence(sql_rendering(sql, steps)->0.text, "SELECT * FROM {"@) is None,
    decreases steps,
{
    match first_occurrence(sql, "SELECT * FROM {"@) {
        None => {},
        Some(start) => {
            let (input, rest) = json_prefix(sql.skip(start + "SELECT * FROM "@.len()))->0;
            let fewer = (steps - 1) as nat;
            let select = request_rendering(input, fewer)->0;
            law_no_request_is_left(sql.take(start) + select.text + rest, fewer);
        },
    }
}

/// Rendering a rendered text changes nothing.
pub proof fn law_rendering_is_idempotent(sql: Seq<char>, steps: nat, again: nat)
    requires
        sql_rendering(sql, steps) is Some,
    ensures
        sql_rendering(sql_rendering(sql, steps)->0.text, again) == Some(
            (Rendering { text: sql_rendering(sql, steps)->0.text, members: seq![] }),
        ),
{
    law_no_request_is_left(sql, steps);
    law_plain_sql_is_kept(sql_rendering(sql, steps)->0.text, again);
}

/// The marker of a load request begins in `left` and ends in `right`, where the one follows on
/// the other.
pub open spec fn marker_straddles(left: Seq<char>, right: Seq<char>) -> bool {
    exists|i: int|
        {
            &&& i < left.len() < i + "SELECT * FROM {"@.len()
            &&& #[trigger] occurs_at(left + right, "SELECT * FROM {"@, i)
        }
}

/// Two renderings, one after the other.
pub open spec fn followed_by(first: Rendering, second: Rendering) -> Rendering {
    Rendering { text: first.text + second.text, members: first.members + second.members }
}

/// Where the marker straddles no seam, it stands first in the second text where it stands first in
/// both together, if the first text does not hold it.
proof fn lemma_first_marker_behind(left: Seq<char>, right: Seq<char>)
    requires
        first_occurrence(left, "SELECT * FROM {"@) is None,
        !marker_straddles(left, right),
    ensures
        first_occurrence(left + right, "SELECT * FROM {"@) == match first_occurrence(
            right,
            "SELECT * FROM {"@,
        ) {
            None => None::<int>,
            Some(start) => Some(left.len() + start),
        },
{
    let marker = "SELECT * FROM {"@;
    assert forall|i: int| #[trigger] occurs_at(left + right, marker, i) implies i >= left.len()
        && occurs_at(right, marker, i - left.len()) by {
        lemma_occurs_beside(left, right, marker, i);
        if i + marker.len() <= left.len() {
            lemma_occurrence_has_first(left, marker, i);
        }
        reveal_strlit("SELECT * FROM {");
    }
    match first_occurrence(right, marker) {
        None => {
            if first_occurrence(left + right, marker) is Some {
                lemma_first_is_occurrence(left + right, marker);
                let i = first_occurrence(left + right, marker)->0;
                lemma_occurrence_has_first(right, marker, i - left.len());
            }
        },
        Some(start) => {
            lemma_first_is_occurrence(right, marker);
            lemma_occurs_beside(left, right, marker, left.len() + start);
            lemma_first_occurrence(left + right, marker, left.len() + start);
        },
    }
}

/// Rendering a request of the second text lets no marker straddle the seam: what stands for the
/// request begins with the letter that a marker holds nowhere but at its beginning.
proof fn lemma_no_marker_straddles_later(
    left: Seq<char>,
    right: Seq<char>,
    start: int,
    select: Seq<char>,
    rest: Seq<char>,
)
    requires
        !marker_straddles(left, right),
        0 <= start <= right.len(),
        select.len() > 0,
        select[0] == 'S',
    ensures
        !marker_straddles(left, right.take(start) + select + rest),
{
    reveal_strlit("SELECT * FROM {");
    let marker = "SELECT * FROM {"@;
    let next = right.take(start) + select + rest;
    if marker_straddles(left, next) {
        let i = choose|i: int|
            i < left.len() < i + marker.len() && #[trigger] occurs_at(left + next, marker, i);
        let window = (left + next).subrange(i, i + marker.len());
        if left.len() + start < i + marker.len() {
            assert(window[left.len() + start - i] == 'S');
            assert(marker[left.len() + start - i] != 'S');
        } else {
            assert((left + right).subrange(i, i + marker.len()) =~= window);
            assert(occurs_at(left + right, marker, i));
        }
    }
}

/// A text that holds no load request is kept in front of what it precedes, where no marker
/// straddles the seam.
pub proof fn law_text_in_front_is_kept(left: Seq<char>, right: Seq<char>, steps: nat)
    requires
        first_occurrence(left, "SELECT * FROM {"@) is None,
        !marker_straddles(left, right),
        sql_rendering(right, steps) is Some,
    ensures
        sql_rendering(left + right, steps) == Some(
            followed_by(
                Rendering { text: left, members: seq![] },
                sql_rendering(right, steps)->0,
            ),
        ),
    decreases steps,
{
    let marker = "SELECT * FROM {"@;
    let whole = left + right;
    let skipped = "SELECT * FROM "@.len();
    lemma_first_marker_behind(left, right);
    let empty = Seq::<Seq<char>>::empty();
    let behind = sql_rendering(right, steps)->0;
    assert(empty + behind.members =~= behind.members);
    match first_occurrence(right, marker) {
        None => {},
        Some(start) => {
            reveal_strlit("SELECT * FROM ");
            reveal_strlit("SELECT * FROM {");
            reveal_strlit("SELECT ");
            lemma_first_is_occurrence(right, marker);
            let fewer = (steps - 1) as nat;
            assert(whole.skip(left.len() + start + skipped) =~= right.skip(start + skipped));
            let (input, rest) = json_prefix(right.skip(start + skipped))->0;
            let select = request_rendering(input, fewer)->0;
            let next = right.take(start) + select.text + rest;
            lemma_no_marker_straddles_later(left, right, start, select.text, rest);
            law_text_in_front_is_kept(left, next, fewer);
            assert(whole.take(left.len() + start) + select.text + rest =~= left + next);
            let after = sql_rendering(next, fewer)->0;
            assert(empty + after.members =~= after.members);
        },
    }
}

/// Over [`Fixture::JoinedValues`] too, a text that holds no load request is kept in front of what
/// it precedes, where no marker straddles the seam.
pub proof fn law_text_in_front_of_values_is_kept(left: Seq<char>, right: Seq<char>)
    requires
        first_occurrence(left, "SELECT * FROM {"@) is None,
        !marker_straddles(left, right),
    ensures
        value_rendering(left + right) == match value_rendering(right) {
            None => None::<Seq<char>>,
            Some(text) => Some(left + text),
        },
{
    let whole = left + right;
    let skipped = "SELECT * FROM "@.len();
    lemma_first_marker_behind(left, right);
    if first_occurrence(right, "SELECT * FROM {"@) is Some {
        reveal_strlit("SELECT * FROM ");
        reveal_strlit("SELECT * FROM {");
        lemma_first_is_occurrence(right, "SELECT * FROM {"@);
        let start = first_occurrence(right, "SELECT * FROM {"@)->0;
        assert(whole.skip(left.len() + start + skipped) =~= right.skip(start + skipped));
        assert(whole.take(left.len() + start) =~= left + right.take(start));
        if value_rendering(right) is Some {
            let rest = (json_prefix(right.skip(start + skipped))->0).1;
            let select = value_select(
                request_of((json_prefix(right.skip(start + skipped))->0).0)->0,
            );
            assert((left + right.take(start)) + select + rest =~= left + (right.take(start)
                + select + rest));
        }
    }
}

proof fn lemma_one_step(sql: Seq<char>, start: int, select: Rendering, rest: Seq<char>, steps: nat)
    requires
        steps > 0,
        first_occurrence(sql, "SELECT * FROM {"@) == Some(start),
        json_prefix(sql.skip(start + "SELECT * FROM "@.len())) is Some,
        (json_prefix(sql.skip(start + "SELECT * FROM "@.len()))->0).1 == rest,
        request_rendering(
            (json_prefix(sql.skip(start + "SELECT * FROM "@.len()))->0).0,
            (steps - 1) as nat,
        ) == Some(select),
    ensures
        sql_rendering(sql, steps) == continued(
            select.members,
            sql_rendering(sql.take(start) + select.text + rest, (steps - 1) as nat),
        ),
{
}

proof fn lemma_seam_stays(
    first: Seq<char>,
    second: Seq<char>,
    start: int,
    select: Seq<char>,
    rest: Seq<char>,
)
    requires
        0 <= start,
        start + "SELECT * FROM "@.len() <= first.len(),
    ensures
        (first + second).skip(start + "SELECT * FROM "@.len()) == first.skip(
            start + "SELECT * FROM "@.len(),
        ) + second,
        (first + second).take(start) + select + (rest + second) == first.take(start) + select + rest
            + second,
{
    let skipped = "SELECT * FROM "@.len();
    assert((first + second).skip(start + skipped) =~= first.skip(start + skipped) + second);
    assert((first + second).take(start) =~= first.take(start));
    assert((first + second).take(start) + select + (rest + second) =~= first.take(start) + select
        + rest + second);
}

proof fn lemma_rendering_joins(first: Seq<char>, second: Seq<char>, n: nat, m: nat)
    requires
        sql_rendering(first, n) is Some,
        sql_rendering(second, m) is Some,
        requests_end_before(first, second, n),
        !marker_straddles(sql_rendering(first, n)->0.text, second),
    ensures
        sql_rendering(first + second, n + m) == Some(
            followed_by(sql_rendering(first, n)->0, sql_rendering(second, m)->0),
        ),
    decreases n,
{
    let marker = "SELECT * FROM {"@;
    let whole = first + second;
    match first_occurrence(first, marker) {
        None => {
            law_text_in_front_is_kept(first, second, m);
            law_more_steps_change_nothing(whole, m, n + m);
        },
        Some(start) => {
            let tail = first.skip(start + "SELECT * FROM "@.len());
            let (input, rest) = json_prefix(tail)->0;
            let fewer = (n - 1) as nat;
            let select = request_rendering(input, fewer)->0;
            let next = first.take(start) + select.text + rest;
            assert(0 <= start && start + "SELECT * FROM "@.len() <= first.len()) by {
                reveal_strlit("SELECT * FROM ");
                reveal_strlit("SELECT * FROM {");
                lemma_first_is_occurrence(first, marker);
            }
            lemma_first_stays_first(first, second, marker);
            lemma_seam_stays(first, second, start, select.text, rest);
            lemma_more_steps_for_request(input, fewer, fewer + m);
            lemma_one_step(first, start, select, rest, n);
            assert((n + m - 1) as nat == fewer + m);
            lemma_one_step(whole, start, select, rest + second, n + m);
            lemma_rendering_joins(next, second, fewer, m);
            let after = sql_rendering(next, fewer)->0;
            let behind = sql_rendering(second, m)->0;
            assert(select.members + (after.members + behind.members) =~= (select.members
                + after.members) + behind.members);
        },
    }
}

/// Two texts are rendered together as each is on its own, one after the other, and their members
/// follow in the same order. The requests of the first text end within it, and no marker straddles
/// the seam between the first text, rendered, and the second.
pub proof fn law_rendering_distributes(
    first: Seq<char>,
    second: Seq<char>,
    n: nat,
    m: nat,
    steps: nat,
)
    requires
        sql_rendering(first, n) is Some,
        sql_rendering(second, m) is Some,
        requests_end_before(first, second, n),
        !marker_straddles(sql_rendering(first, n)->0.text, second),
    ensures
        n + m <= steps ==> sql_rendering(first + second, steps) is Some,
        sql_rendering(first + second, steps) is Some ==> sql_rendering(first + second, steps)
            == Some(followed_by(sql_rendering(first, n)->0, sql_rendering(second, m)->0)),
{
    lemma_rendering_joins(first, second, n, m);
    if n + m <= steps {
        law_more_steps_change_nothing(first + second, n + m, steps);
    } else if sql_rendering(first + second, steps) is Some {
        law_more_steps_change_nothing(first + second, steps, n + m);
    }
}

/// An expression without member references is kept, and refers to no member.
pub proof fn law_plain_expression_is_kept(fixture: Fixture, text: Seq<char>)
    requires
        forall|i: int| 0 <= i < text.len() ==> reference_at(text, cubes(fixture), i) is None,
    ensures
        expanded(fixture, text) == text,
        members_of(fixture, text) == Seq::<Seq<char>>::empty(),
{
    lemma_plain_suffix_is_kept(fixture, text, 0);
    assert(text.skip(0) =~= text);
}

proof fn lemma_plain_suffix_is_kept(fixture: Fixture, text: Seq<char>, i: int)
    requires
        0 <= i <= text.len(),
        forall|j: int| 0 <= j < text.len() ==> reference_at(text, cubes(fixture), j) is None,
    ensures
        expanded_from(fixture, text, i).0 == text.skip(i),
        expanded_from(fixture, text, i).1 == Seq::<Seq<char>>::empty(),
    decreases text.len() - i,
{
    if i < text.len() {
        lemma_plain_suffix_is_kept(fixture, text, i + 1);
        assert(text.skip(i) =~= seq![text[i]] + text.skip(i + 1));
    } else {
        assert(text.skip(i) =~= Seq::<char>::empty());
    }
}

/// `name` is that of a member of one of the fixture's cubes.
pub open spec fn names_fixture_member(fixture: Fixture, name: Seq<char>) -> bool {
    exists|cube: Seq<char>, member: Seq<char>|
        {
            &&& cubes(fixture).contains(cube)
            &&& member.len() > 0
            &&& name == #[trigger] member_name(cube, member)
        }
}

/// Each name in the list is that of a member of one of the fixture's cubes.
pub open spec fn all_name_fixture_members(fixture: Fixture, names: Seq<Seq<char>>) -> bool {
    forall|i: int| 0 <= i < names.len() ==> names_fixture_member(fixture, #[trigger] names[i])
}

pub proof fn lemma_found_cube_is_named(text: Seq<char>, names: Seq<Seq<char>>, i: int)
    ensures
        cube_at(text, names, i) is Some ==> names.contains(cube_at(text, names, i)->0),
    decreases names.len(),
{
    if names.len() > 0 {
        lemma_found_cube_is_named(text, names.drop_first(), i);
        let rest = names.drop_first();
        assert(names.contains(names[0]));
        if cube_at(text, rest, i) is Some {
            let k = choose|k: int| 0 <= k < rest.len() && rest[k] == cube_at(text, rest, i)->0;
            assert(names[k + 1] == rest[k]);
        }
    }
}

proof fn lemma_suffix_names_fixture_members(fixture: Fixture, text: Seq<char>, i: int)
    ensures
        all_name_fixture_members(fixture, expanded_from(fixture, text, i).1),
    decreases text.len() - i,
{
    if 0 <= i < text.len() {
        match reference_at(text, cubes(fixture), i) {
            Some(reference) => {
                let from = i + 2 + reference.cube.len() + 1;
                lemma_next_char(text, '}', from);
                lemma_found_cube_is_named(text, cubes(fixture), i + 2);
                lemma_suffix_names_fixture_members(fixture, text, reference.end);
                let first = member_name(reference.cube, reference.member);
                assert(reference.member.len() > 0);
                assert(names_fixture_member(fixture, first));
                let rest = expanded_from(fixture, text, reference.end).1;
                let all = expanded_from(fixture, text, i).1;
                assert forall|k: int| 0 <= k < all.len() implies names_fixture_member(
                    fixture,
                    #[trigger] all[k],
                ) by {
                    if k > 0 {
                        assert(all[k] == rest[k - 1]);
                    }
                }
            },
            None => {
                lemma_suffix_names_fixture_members(fixture, text, i + 1);
            },
        }
    }
}

/// An expression refers to members of the fixture's cubes only.
pub proof fn law_expression_names_fixture_members(fixture: Fixture, text: Seq<char>)
    ensures
        all_name_fixture_members(fixture, members_of(fixture, text)),
{
    lemma_suffix_names_fixture_members(fixture, text, 0);
}

proof fn lemma_concat_names_fixture_members(
    fixture: Fixture,
    first: Seq<Seq<char>>,
    second: Seq<Seq<char>>,
)
    requires
        all_name_fixture_members(fixture, first),
        all_name_fixture_members(fixture, second),
    ensures
        all_name_fixture_members(fixture, first + second),
{
    let all = first + second;
    assert forall|k: int| 0 <= k < all.len() implies names_fixture_member(
        fixture,
        #[trigger] all[k],
    ) by {
        if k < first.len() {
            assert(all[k] == first[k]);
        } else {
            assert(all[k] == second[k - first.len()]);
        }
    }
}

proof fn lemma_columns_name_fixture_members(fixture: Fixture, list: Seq<ColumnModel>)
    ensures
        all_name_fixture_members(fixture, column_members(fixture, list)),
    decreases list.len(),
{
    if list.len() > 0 {
        lemma_columns_name_fixture_members(fixture, list.drop_last());
        law_expression_names_fixture_members(fixture, list.last().expr);
        lemma_concat_names_fixture_members(
            fixture,
            column_members(fixture, list.drop_last()),
            members_of(fixture, list.last().expr),
        );
    }
}

/// Every member that a rendering records belongs to one of the fixture's cubes.
pub proof fn law_rendering_names_fixture_members(sql: Seq<char>, steps: nat)
    requires
        sql_rendering(sql, steps) is Some,
    ensures
        all_name_fixture_members(Fixture::Roles, sql_rendering(sql, steps)->0.members),
    decreases steps, 0int, 0nat,
{
    match first_occurrence(sql, "SELECT * FROM {"@) {
        None => {},
        Some(start) => {
            let (input, rest) = json_prefix(sql.skip(start + "SELECT * FROM "@.len()))->0;
            let fewer = (steps - 1) as nat;
            let select = request_rendering(input, fewer)->0;
            let next = sql.take(start) + select.text + rest;
            let request = request_of(input)->0;
            let clauses = joins_rendering(joins_of(input)->0, fewer)->0;
            let dimensions = column_members(Fixture::Roles, request.dimensions);
            let measures = column_members(Fixture::Roles, request.measures);
            lemma_columns_name_fixture_members(Fixture::Roles, request.dimensions);
            lemma_columns_name_fixture_members(Fixture::Roles, request.measures);
            lemma_joins_name_fixture_members(joins_of(input)->0, fewer);
            lemma_concat_names_fixture_members(Fixture::Roles, dimensions, measures);
            lemma_concat_names_fixture_members(
                Fixture::Roles,
                dimensions + measures,
                clauses.members,
            );
            law_rendering_names_fixture_members(next, fewer);
            lemma_concat_names_fixture_members(
                Fixture::Roles,
                select.members,
                sql_rendering(next, fewer)->0.members,
            );
        },
    }
}

proof fn lemma_joins_name_fixture_members(list: Seq<JoinModel>, steps: nat)
    requires
        joins_rendering(list, steps) is Some,
    ensures
        all_name_fixture_members(Fixture::Roles, joins_rendering(list, steps)->0.members),
    decreases steps, 1int, list.len(),
{
    if list.len() > 0 {
        let before = joins_rendering(list.drop_last(), steps)->0;
        let inner = sql_rendering(list.last().sql, steps)->0;
        lemma_joins_name_fixture_members(list.drop_last(), steps);
        law_rendering_names_fixture_members(list.last().sql, steps);
        law_expression_names_fixture_members(Fixture::Roles, list.last().on);
        lemma_concat_names_fixture_members(Fixture::Roles, before.members, inner.members);
        lemma_concat_names_fixture_members(
            Fixture::Roles,
            before.members + inner.members,
            members_of(Fixture::Roles, list.last().on),
        );
    }
}

} // verus!
