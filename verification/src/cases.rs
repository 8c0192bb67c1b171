//! Queries over the sample cubes, and what their results have to be.
use crate::text::texts;
use vstd::prelude::*;
use vstd::string::*;

verus! {

/// A query that joins orders and buyers and reads one member of each.
#[derive(Clone, Copy, PartialEq, Eq, Structural)]
pub struct JoinedMemberCase {
    pub grouped: bool,
    /// Whether the two members have the same short name. Else their names differ at the end only.
    pub same_name: bool,
    pub user_aliases: bool,
}

/// The member of buyers that a case reads.
pub open spec fn buyer_member(case: JoinedMemberCase) -> Seq<char> {
    if case.same_name {
        "name"@
    } else {
        "abcdefghijklmnop_left"@
    }
}

/// The member of orders that a case reads.
pub open spec fn order_member(case: JoinedMemberCase) -> Seq<char> {
    if case.same_name {
        "name"@
    } else {
        "abcdefghijklmnop_right"@
    }
}

/// `text` where the flag is set, and nothing else.
pub open spec fn text_if(flag: bool, text: Seq<char>) -> Seq<char> {
    if flag {
        text
    } else {
        ""@
    }
}

/// The join itself, without an order.
pub open spec fn joined_member_select(case: JoinedMemberCase) -> Seq<char> {
    "SELECT Orders.id, Buyers."@ + buyer_member(case) + text_if(
        case.user_aliases,
        " AS current_name"@,
    ) + ", Orders."@ + order_member(case) + text_if(case.user_aliases, " AS stored_name"@) + ", "@
        + (if case.grouped {
        "MIN(Orders.id)"@
    } else {
        "LOWER(Orders.id)"@
    }) + " AS extra FROM Orders CROSS JOIN Buyers "@ + text_if(case.grouped, "GROUP BY 1, 2, 3"@)
}

/// The query of a case, ordered by the member of orders.
pub open spec fn joined_member_query(case: JoinedMemberCase) -> Seq<char> {
    if case.user_aliases {
        "SELECT id, current_name, stored_name, extra FROM ("@ + joined_member_select(case)
            + ") q ORDER BY stored_name"@
    } else {
        joined_member_select(case) + " ORDER BY Orders."@ + order_member(case)
    }
}

/// Initial planning loses which cube a member comes from when a grouped query gives explicit
/// aliases to two members of the same short name.
pub open spec fn loses_source(case: JoinedMemberCase) -> bool {
    case.grouped && case.user_aliases && case.same_name
}

/// The eight cases: grouped ones first, then members of the same name, then without aliases.
pub open spec fn joined_member_cases() -> Seq<JoinedMemberCase> {
    Seq::new(
        8,
        |k: int|
            JoinedMemberCase {
                grouped: k < 4,
                same_name: k % 4 < 2,
                user_aliases: k % 2 == 1,
            },
    )
}

/// The queries of the cases that are known to lose the source, or of all others.
pub open spec fn selected_queries(known_limit: bool) -> Seq<Seq<char>> {
    joined_member_cases().filter(
        |case: JoinedMemberCase| loses_source(case) == known_limit,
    ).map_values(|case: JoinedMemberCase| joined_member_query(case))
}

fn optional_part(flag: bool, text: &'static str) -> (r: &'static str)
    ensures
        r@ == text_if(flag, text@),
{
    if flag {
        text
    } else {
        ""
    }
}

/// Writes the query of a case.
pub fn write_joined_member_query(case: JoinedMemberCase) -> (r: String)
    ensures
        r@ == joined_member_query(case),
{
    let buyer = if case.same_name {
        "name"
    } else {
        "abcdefghijklmnop_left"
    };
    let order = if case.same_name {
        "name"
    } else {
        "abcdefghijklmnop_right"
    };
    let extra = if case.grouped {
        "MIN(Orders.id)"
    } else {
        "LOWER(Orders.id)"
    };
    let inner = "SELECT Orders.id, Buyers.".to_owned().concat(buyer).concat(
        optional_part(case.user_aliases, " AS current_name"),
    ).concat(", Orders.").concat(order).concat(
        optional_part(case.user_aliases, " AS stored_name"),
    ).concat(", ").concat(extra).concat(" AS extra FROM Orders CROSS JOIN Buyers ").concat(
        optional_part(case.grouped, "GROUP BY 1, 2, 3"),
    );
    if case.user_aliases {
        "SELECT id, current_name, stored_name, extra FROM (".to_owned().concat(
            inner.as_str(),
        ).concat(") q ORDER BY stored_name")
    } else {
        inner.concat(" ORDER BY Orders.").concat(order)
    }
}

/// The queries that join orders and buyers: those that are known to lose the source of a member
/// in planning, or all others.
pub fn joined_member_queries(known_limit: bool) -> (r: Vec<String>)
    ensures
        texts(r@) == selected_queries(known_limit),
{
    let mut queries: Vec<String> = Vec::new();
    let ghost cases = joined_member_cases();
    let ghost wanted = |case: JoinedMemberCase| loses_source(case) == known_limit;
    let ghost query = |case: JoinedMemberCase| joined_member_query(case);
    let mut k: u64 = 0;
    proof {
        reveal(Seq::filter);
        assert(cases.take(0).filter(wanted).map_values(query) =~= Seq::<Seq<char>>::empty());
    }
    while k < 8
        invariant
            k <= 8,
            cases == joined_member_cases(),
            wanted == (|case: JoinedMemberCase| loses_source(case) == known_limit),
            query == (|case: JoinedMemberCase| joined_member_query(case)),
            texts(queries@) == cases.take(k as int).filter(wanted).map_values(query),
        decreases 8 - k,
    {
        let case = JoinedMemberCase {
            grouped: k < 4,
            same_name: k % 4 < 2,
            user_aliases: k % 2 == 1,
        };
        let ghost before = cases.take(k as int).filter(wanted);
        proof {
            reveal(Seq::filter);
            assert(cases.take(k + 1).drop_last() =~= cases.take(k as int));
            assert(cases.take(k + 1).last() == case);
        }
        if (case.grouped && case.user_aliases && case.same_name) == known_limit {
            let ghost old_queries = queries@;
            queries.push(write_joined_member_query(case));
            assert(before.push(case).map_values(query) =~= before.map_values(query).push(
                query(case),
            ));
            assert(texts(queries@) =~= texts(old_queries).push(query(case)));
        }
        k = k + 1;
    }
    assert(cases.take(8) =~= cases);
    queries
}

/// The rows of a query that joins orders and buyers, in order.
pub open spec fn joined_member_rows() -> Seq<Seq<Seq<char>>> {
    seq![seq!["2"@, "Current Z"@, "Stored A"@], seq!["1"@, "Current A"@, "Stored Z"@]]
}

/// The rows of a list, as texts.
pub open spec fn row_texts(rows: Seq<Vec<String>>) -> Seq<Seq<Seq<char>>> {
    rows.map_values(|row: Vec<String>| texts(row@))
}

pub(crate) fn is_row(row: &Vec<String>, first: &str, second: &str, third: &str) -> (r: bool)
    ensures
        r == (texts(row@) == seq![first@, second@, third@]),
{
    let ghost wanted = seq![first@, second@, third@];
    assert(wanted.len() == 3 && wanted[0] == first@ && wanted[1] == second@ && wanted[2]
        == third@);
    if row.len() != 3 {
        return false;
    }
    assert(texts(row@)[0] == row@[0]@ && texts(row@)[1] == row@[1]@ && texts(row@)[2]
        == row@[2]@);
    if row[0] == first.to_owned() && row[1] == second.to_owned() && row[2] == third.to_owned() {
        assert(texts(row@) =~= wanted);
        true
    } else {
        false
    }
}

/// The rows are those of a query that joins orders and buyers.
pub open spec fn accepted_joined_rows(rows: Seq<Seq<Seq<char>>>) -> bool {
    rows == joined_member_rows()
}

/// Whether the rows are those of a query that joins orders and buyers.
pub fn are_joined_member_rows(rows: &Vec<Vec<String>>) -> (r: bool)
    ensures
        r == accepted_joined_rows(row_texts(rows@)),
{
    let ghost wanted = joined_member_rows();
    assert(row_texts(rows@).len() == rows@.len() && wanted.len() == 2);
    if rows.len() != 2 {
        return false;
    }
    assert(row_texts(rows@)[0] == texts(rows@[0]@) && row_texts(rows@)[1] == texts(rows@[1]@));
    assert(wanted[0] == seq!["2"@, "Current Z"@, "Stored A"@]);
    assert(wanted[1] == seq!["1"@, "Current A"@, "Stored Z"@]);
    if is_row(&rows[0], "2", "Current Z", "Stored A") && is_row(
        &rows[1],
        "1",
        "Current A",
        "Stored Z",
    ) {
        assert(row_texts(rows@) =~= wanted);
        true
    } else {
        false
    }
}

/// Rows are accepted exactly where there is one for each id, of three values: the second order with
/// its buyer's current value first, which has the smaller stored value, and the first one behind
/// it. No row is accepted in another place, and no other value in any column.
pub proof fn law_joined_rows_are_ordered_by_stored_value(rows: Seq<Seq<Seq<char>>>)
    ensures
        accepted_joined_rows(rows) <==> {
            &&& rows.len() == 2
            &&& forall|i: int| 0 <= i < 2 ==> (#[trigger] rows[i]).len() == 3
            &&& rows[0][0] == "2"@ && rows[0][1] == "Current Z"@ && rows[0][2] == "Stored A"@
            &&& rows[1][0] == "1"@ && rows[1][1] == "Current A"@ && rows[1][2] == "Stored Z"@
        },
        accepted_joined_rows(rows) ==> !accepted_joined_rows(rows.reverse()),
{
    let second = seq!["2"@, "Current Z"@, "Stored A"@];
    let first = seq!["1"@, "Current A"@, "Stored Z"@];
    assert(joined_member_rows().len() == 2);
    assert(joined_member_rows()[0] == second && joined_member_rows()[1] == first);
    assert(second[0] == "2"@ && second[1] == "Current Z"@ && second[2] == "Stored A"@);
    assert(first[0] == "1"@ && first[1] == "Current A"@ && first[2] == "Stored Z"@);
    reveal_strlit("1");
    reveal_strlit("2");
    assert("1"@[0] != "2"@[0]);
    if rows.len() == 2 && (forall|i: int| 0 <= i < 2 ==> (#[trigger] rows[i]).len() == 3)
        && rows[0][0] == "2"@ && rows[0][1] == "Current Z"@ && rows[0][2] == "Stored A"@
        && rows[1][0] == "1"@ && rows[1][1] == "Current A"@ && rows[1][2] == "Stored Z"@ {
        assert(rows[0] =~= second);
        assert(rows[1] =~= first);
        assert(rows =~= joined_member_rows());
    }
    if accepted_joined_rows(rows) {
        assert(rows.reverse()[0] == first);
    }
}

/// Each row of a list stands for the texts of its cells, in order.
pub proof fn law_row_texts_are_held(rows: Seq<Vec<String>>)
    ensures
        row_texts(rows).len() == rows.len(),
        forall|i: int|
            0 <= i < rows.len() ==> (#[trigger] row_texts(rows)[i]).len() == rows[i]@.len(),
        forall|i: int, j: int|
            0 <= i < rows.len() && 0 <= j < rows[i]@.len() ==> (
            #[trigger] row_texts(rows)[i][j]) == rows[i]@[j]@,
{
}

/// Each case is among the queries of its kind.
pub proof fn law_every_case_is_selected(k: int)
    requires
        0 <= k < joined_member_cases().len(),
    ensures
        selected_queries(loses_source(joined_member_cases()[k])).contains(
            joined_member_query(joined_member_cases()[k]),
        ),
{
    let cases = joined_member_cases();
    let case = cases[k];
    let wanted = |c: JoinedMemberCase| loses_source(c) == loses_source(case);
    broadcast use vstd::seq_lib::group_filter_ensures;

    assert(wanted(case) && cases.contains(case));
    assert(cases.filter(wanted).contains(case));
    let j = choose|j: int| 0 <= j < cases.filter(wanted).len() && cases.filter(wanted)[j] == case;
    assert(selected_queries(loses_source(case))[j] == joined_member_query(case));
}

/// One case is known to lose the source of a member, and seven are not.
pub proof fn law_one_case_loses_its_source()
    ensures
        selected_queries(true).len() == 1,
        selected_queries(false).len() == 7,
{
    let cases = joined_member_cases();
    let loses = |case: JoinedMemberCase| loses_source(case) == true;
    let keeps = |case: JoinedMemberCase| loses_source(case) == false;
    lemma_selected_count(cases, loses, keeps, 8);
    assert(cases.take(8) =~= cases);
}

proof fn lemma_selected_count(
    cases: Seq<JoinedMemberCase>,
    loses: spec_fn(JoinedMemberCase) -> bool,
    keeps: spec_fn(JoinedMemberCase) -> bool,
    n: int,
)
    requires
        0 <= n <= 8,
        cases == joined_member_cases(),
        loses == (|case: JoinedMemberCase| loses_source(case) == true),
        keeps == (|case: JoinedMemberCase| loses_source(case) == false),
    ensures
        cases.take(n).filter(loses).len() == (if n >= 2 {
            1int
        } else {
            0
        }),
        cases.take(n).filter(keeps).len() == (if n >= 2 {
            n - 1
        } else {
            n
        }),
    decreases n,
{
    reveal(Seq::filter);
    if n > 0 {
        assert(cases.take(n).drop_last() =~= cases.take(n - 1));
        assert(cases.take(n).last() == cases[n - 1]);
        lemma_selected_count(cases, loses, keeps, n - 1);
    }
}

} // verus!
