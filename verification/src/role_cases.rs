//! Queries over orders and their two roles, and what their results have to be.
use crate::cases::{row_texts, is_row};
use crate::text::{contains_text, texts};
use vstd::prelude::*;
use vstd::string::*;

verus! {

/// A pair of members that a role query reads: what the query calls them, their full names, and
/// the values of the first in the rows with the ids 1 and 2.
#[derive(Clone, Copy, PartialEq, Eq, Structural)]
pub enum RolePair {
    /// The names of inspector and buyer.
    InspectorAndBuyer,
    /// The names of order and buyer.
    OrderAndBuyer,
    /// Two members of inspector and buyer whose names differ at the end only.
    LongNames,
}

/// A role query and what it has to read and return.
#[derive(Debug)]
pub struct RoleCase {
    pub query: String,
    pub first_member: String,
    pub second_member: String,
    pub reads_inspector: bool,
    pub first_values: (String, String),
}

pub ghost struct RoleModel {
    pub query: Seq<char>,
    pub first_member: Seq<char>,
    pub second_member: Seq<char>,
    pub reads_inspector: bool,
    pub first_values: (Seq<char>, Seq<char>),
}

impl View for RoleCase {
    type V = RoleModel;

    open spec fn view(&self) -> RoleModel {
        RoleModel {
            query: self.query@,
            first_member: self.first_member@,
            second_member: self.second_member@,
            reads_inspector: self.reads_inspector,
            first_values: (self.first_values.0@, self.first_values.1@),
        }
    }
}

/// What a query calls the first member of a pair.
pub open spec fn first_column(pair: RolePair) -> Seq<char> {
    match pair {
        RolePair::InspectorAndBuyer => "i.name"@,
        RolePair::OrderAndBuyer => "w.name"@,
        RolePair::LongNames => "i.abcdefghijklmnop_left"@,
    }
}

/// What a query calls the second member of a pair.
pub open spec fn second_column(pair: RolePair) -> Seq<char> {
    match pair {
        RolePair::LongNames => "c.abcdefghijklmnop_right"@,
        _ => "c.name"@,
    }
}

/// The full name of the first member of a pair.
pub open spec fn first_member(pair: RolePair) -> Seq<char> {
    match pair {
        RolePair::InspectorAndBuyer => "Inspectors.name"@,
        RolePair::OrderAndBuyer => "Orders.name"@,
        RolePair::LongNames => "Inspectors.abcdefghijklmnop_left"@,
    }
}

/// The full name of the second member of a pair.
pub open spec fn second_member(pair: RolePair) -> Seq<char> {
    match pair {
        RolePair::LongNames => "Buyers.abcdefghijklmnop_right"@,
        _ => "Buyers.name"@,
    }
}

/// The values of the first member of a pair in the rows with the ids 1 and 2.
pub open spec fn first_values(pair: RolePair) -> (Seq<char>, Seq<char>) {
    match pair {
        RolePair::OrderAndBuyer => ("Stored Z"@, "Stored A"@),
        _ => ("Inspector A"@, "Inspector Z"@),
    }
}

/// The query that reads a pair of members and joins the result with the ids of all orders.
pub open spec fn role_query(grouped: bool, join: Seq<char>, pair: RolePair) -> Seq<char> {
    "WITH role_names AS (
                SELECT w.id, "@ + first_column(pair) + " AS inspector_name, "@ + second_column(pair)
        + " AS buyer_name
                FROM Orders w LEFT JOIN Inspectors i ON w.__cubeJoinField = i.__cubeJoinField
                LEFT JOIN Buyers c ON w.__cubeJoinField = c.__cubeJoinField "@ + (if grouped {
        "GROUP BY w.id, "@ + first_column(pair) + ", "@ + second_column(pair)
    } else {
        ""@
    }) + "
            ), keys AS (SELECT w.id FROM Orders w GROUP BY w.id)
            SELECT r.id, r.inspector_name, r.buyer_name FROM role_names r
            "@ + join + " JOIN keys k ON r.id = k.id"@
}

/// The case of one query.
pub open spec fn role_model(grouped: bool, join: Seq<char>, pair: RolePair) -> RoleModel {
    RoleModel {
        query: role_query(grouped, join, pair),
        first_member: first_member(pair),
        second_member: second_member(pair),
        reads_inspector: pair != RolePair::OrderAndBuyer,
        first_values: first_values(pair),
    }
}

/// The cases of all queries: the three pairs under a left join, then under an inner join.
pub open spec fn role_models(grouped: bool) -> Seq<RoleModel> {
    seq![
        role_model(grouped, "LEFT"@, RolePair::InspectorAndBuyer),
        role_model(grouped, "LEFT"@, RolePair::OrderAndBuyer),
        role_model(grouped, "LEFT"@, RolePair::LongNames),
        role_model(grouped, "INNER"@, RolePair::InspectorAndBuyer),
        role_model(grouped, "INNER"@, RolePair::OrderAndBuyer),
        role_model(grouped, "INNER"@, RolePair::LongNames),
    ]
}

/// The members that a rendered case refers to: both of its own, and where it reads the
/// inspector, not the name of the order.
pub open spec fn expected_members(case: RoleModel, members: Seq<Seq<char>>) -> bool {
    &&& members.contains(case.first_member)
    &&& members.contains(case.second_member)
    &&& case.reads_inspector ==> !members.contains("Orders.name"@)
}

/// The rows of a case, by id.
pub open spec fn expected_rows(case: RoleModel) -> Seq<Seq<Seq<char>>> {
    seq![
        seq!["1"@, case.first_values.0, "Buyer Z"@],
        seq!["2"@, case.first_values.1, "Buyer A"@],
    ]
}

/// The rows of a case, in whatever order they came.
pub open spec fn accepted_rows(case: RoleModel, rows: Seq<Seq<Seq<char>>>) -> bool {
    rows == expected_rows(case) || rows == expected_rows(case).reverse()
}

fn build_role_case(grouped: bool, join: &str, pair: RolePair) -> (r: RoleCase)
    ensures
        r@ == role_model(grouped, join@, pair),
{
    let first = match pair {
        RolePair::InspectorAndBuyer => "i.name",
        RolePair::OrderAndBuyer => "w.name",
        RolePair::LongNames => "i.abcdefghijklmnop_left",
    };
    let second = match pair {
        RolePair::LongNames => "c.abcdefghijklmnop_right",
        _ => "c.name",
    };
    let first_full = match pair {
        RolePair::InspectorAndBuyer => "Inspectors.name",
        RolePair::OrderAndBuyer => "Orders.name",
        RolePair::LongNames => "Inspectors.abcdefghijklmnop_left",
    };
    let second_full = match pair {
        RolePair::LongNames => "Buyers.abcdefghijklmnop_right",
        _ => "Buyers.name",
    };
    let (value_one, value_two) = match pair {
        RolePair::OrderAndBuyer => ("Stored Z", "Stored A"),
        _ => ("Inspector A", "Inspector Z"),
    };
    let group = if grouped {
        "GROUP BY w.id, ".to_owned().concat(first).concat(", ").concat(second)
    } else {
        "".to_owned()
    };
    let query = "WITH role_names AS (
                SELECT w.id, ".to_owned().concat(first).concat(" AS inspector_name, ").concat(
        second,
    ).concat(
        " AS buyer_name
                FROM Orders w LEFT JOIN Inspectors i ON w.__cubeJoinField = i.__cubeJoinField
                LEFT JOIN Buyers c ON w.__cubeJoinField = c.__cubeJoinField ",
    ).concat(group.as_str()).concat(
        "
            ), keys AS (SELECT w.id FROM Orders w GROUP BY w.id)
            SELECT r.id, r.inspector_name, r.buyer_name FROM role_names r
            ",
    ).concat(join).concat(" JOIN keys k ON r.id = k.id");
    let reads_inspector = match pair {
        RolePair::OrderAndBuyer => false,
        _ => true,
    };
    RoleCase {
        query,
        first_member: first_full.to_owned(),
        second_member: second_full.to_owned(),
        reads_inspector,
        first_values: (value_one.to_owned(), value_two.to_owned()),
    }
}

/// The role queries, grouped by what they read or not, with what they have to read and return.
pub fn role_cases(grouped: bool) -> (r: Vec<RoleCase>)
    ensures
        r@.map_values(|case: RoleCase| case@) == role_models(grouped),
{
    let mut cases: Vec<RoleCase> = Vec::new();
    cases.push(build_role_case(grouped, "LEFT", RolePair::InspectorAndBuyer));
    cases.push(build_role_case(grouped, "LEFT", RolePair::OrderAndBuyer));
    cases.push(build_role_case(grouped, "LEFT", RolePair::LongNames));
    cases.push(build_role_case(grouped, "INNER", RolePair::InspectorAndBuyer));
    cases.push(build_role_case(grouped, "INNER", RolePair::OrderAndBuyer));
    cases.push(build_role_case(grouped, "INNER", RolePair::LongNames));
    assert(cases@.map_values(|case: RoleCase| case@) =~= role_models(grouped));
    cases
}

impl RoleCase {
    /// Whether the members that the rendered query refers to are those that it has to read.
    pub fn accepts_members(&self, members: &Vec<String>) -> (r: bool)
        ensures
            r == expected_members(self@, texts(members@)),
            r ==> texts(members@).contains(self.first_member@),
            r ==> texts(members@).contains(self.second_member@),
    {
        contains_text(members, self.first_member.as_str()) && contains_text(
            members,
            self.second_member.as_str(),
        ) && !(self.reads_inspector && contains_text(members, "Orders.name"))
    }

    /// Whether the rows, in whatever order they came, are those that the query has to return.
    pub fn accepts_rows(&self, rows: &Vec<Vec<String>>) -> (r: bool)
        ensures
            r == accepted_rows(self@, row_texts(rows@)),
    {
        let ghost wanted = expected_rows(self@);
        let ghost got = row_texts(rows@);
        assert(got.len() == rows@.len() && wanted.len() == 2 && wanted.reverse().len() == 2);
        if rows.len() != 2 {
            return false;
        }
        assert(got[0] == texts(rows@[0]@) && got[1] == texts(rows@[1]@));
        assert(wanted[0] == seq!["1"@, self@.first_values.0, "Buyer Z"@]);
        assert(wanted[1] == seq!["2"@, self@.first_values.1, "Buyer A"@]);
        assert(wanted.reverse()[0] == wanted[1] && wanted.reverse()[1] == wanted[0]);
        let one = self.first_values.0.as_str();
        let two = self.first_values.1.as_str();
        let ordered = is_row(&rows[0], "1", one, "Buyer Z") && is_row(
            &rows[1],
            "2",
            two,
            "Buyer A",
        );
        let reversed = is_row(&rows[0], "2", two, "Buyer A") && is_row(
            &rows[1],
            "1",
            one,
            "Buyer Z",
        );
        proof {
            if ordered {
                assert(got =~= wanted);
            }
            if reversed {
                assert(got =~= wanted.reverse());
            }
        }
        ordered || reversed
    }
}

/// Members that are accepted hold both members of the case, whatever the case reads, and where it
/// reads the inspector, they do not hold the name of the order. Nothing else is asked of them.
pub proof fn law_accepted_members_hold_both(case: RoleModel, members: Seq<Seq<char>>)
    ensures
        expected_members(case, members) ==> exists|i: int|
            0 <= i < members.len() && #[trigger] members[i] == case.first_member,
        expected_members(case, members) ==> exists|i: int|
            0 <= i < members.len() && #[trigger] members[i] == case.second_member,
        expected_members(case, members) && case.reads_inspector ==> forall|i: int|
            0 <= i < members.len() ==> #[trigger] members[i] != "Orders.name"@,
        !expected_members(case, members) ==> {
            ||| forall|i: int| 0 <= i < members.len() ==> #[trigger] members[i] != case.first_member
            ||| forall|i: int|
                0 <= i < members.len() ==> #[trigger] members[i] != case.second_member
            ||| case.reads_inspector && exists|i: int|
                0 <= i < members.len() && #[trigger] members[i] == "Orders.name"@
        },
{
}

/// Whether members are accepted rests on which they are, not on their order or how often they
/// come. Another member besides is accepted too, unless it is the name of the order and the case
/// reads the inspector. Without the first member of the case, or without the second, none are.
pub proof fn law_members_are_accepted_as_a_set(
    case: RoleModel,
    members: Seq<Seq<char>>,
    others: Seq<Seq<char>>,
    name: Seq<char>,
)
    ensures
        (forall|text: Seq<char>| #[trigger] members.contains(text) <==> others.contains(text))
            ==> expected_members(case, members) == expected_members(case, others),
        expected_members(case, members) && !(case.reads_inspector && name == "Orders.name"@)
            ==> expected_members(case, members.push(name)),
        case.reads_inspector ==> !expected_members(case, members.push("Orders.name"@)),
        !expected_members(
            case,
            members.filter(|text: Seq<char>| text != case.first_member),
        ),
        !expected_members(
            case,
            members.filter(|text: Seq<char>| text != case.second_member),
        ),
{
    broadcast use vstd::seq_lib::group_filter_ensures;

    let more = members.push(name);
    assert forall|text: Seq<char>| members.contains(text) implies #[trigger] more.contains(
        text,
    ) by {
        let i = choose|i: int| 0 <= i < members.len() && members[i] == text;
        assert(more[i] == text);
    }
    let with_order = members.push("Orders.name"@);
    assert(with_order[members.len() as int] == "Orders.name"@);
    let without_first = |text: Seq<char>| text != case.first_member;
    let without_second = |text: Seq<char>| text != case.second_member;
    assert(!members.filter(without_first).contains(case.first_member)) by {
        if members.filter(without_first).contains(case.first_member) {
            assert(without_first(case.first_member));
        }
    }
    assert(!members.filter(without_second).contains(case.second_member)) by {
        if members.filter(without_second).contains(case.second_member) {
            assert(without_second(case.second_member));
        }
    }
}

/// Rows are accepted exactly where there are two, and among them, in either order, the one of the
/// first order and the one of the second, each with its first value of the case and its buyer.
pub proof fn law_accepted_rows_are_one_for_each_order(
    case: RoleModel,
    rows: Seq<Seq<Seq<char>>>,
)
    ensures
        accepted_rows(case, rows) <==> {
            &&& rows.len() == 2
            &&& exists|i: int|
                0 <= i < 2 && #[trigger] rows[i] == seq!["1"@, case.first_values.0, "Buyer Z"@]
            &&& exists|i: int|
                0 <= i < 2 && #[trigger] rows[i] == seq!["2"@, case.first_values.1, "Buyer A"@]
        },
        accepted_rows(case, rows) == accepted_rows(case, rows.reverse()),
{
    let one = seq!["1"@, case.first_values.0, "Buyer Z"@];
    let two = seq!["2"@, case.first_values.1, "Buyer A"@];
    let wanted = expected_rows(case);
    reveal_strlit("1");
    reveal_strlit("2");
    assert("1"@[0] != "2"@[0]);
    assert(one[0] == "1"@ && two[0] == "2"@);
    assert(wanted.len() == 2 && wanted[0] == one && wanted[1] == two);
    assert(wanted.reverse()[0] == two && wanted.reverse()[1] == one);
    assert(rows.reverse().reverse() =~= rows);
    assert(wanted.reverse().reverse() =~= wanted);
    if rows.len() == 2 {
        if rows[0] == one && rows[1] == two {
            assert(rows =~= wanted);
        }
        if rows[0] == two && rows[1] == one {
            assert(rows =~= wanted.reverse());
        }
    }
    if accepted_rows(case, rows) {
        assert(rows[0] == one && rows[1] == two || rows[0] == two && rows[1] == one);
    }
}

/// Rows that are accepted determine the first values of the case.
pub proof fn law_accepted_rows_determine_first_values(
    case: RoleModel,
    other: RoleModel,
    rows: Seq<Seq<Seq<char>>>,
)
    requires
        accepted_rows(case, rows),
        accepted_rows(other, rows),
    ensures
        case.first_values == other.first_values,
{
    let one = seq!["1"@, case.first_values.0, "Buyer Z"@];
    let two = seq!["2"@, case.first_values.1, "Buyer A"@];
    let other_one = seq!["1"@, other.first_values.0, "Buyer Z"@];
    let other_two = seq!["2"@, other.first_values.1, "Buyer A"@];
    law_accepted_rows_are_one_for_each_order(case, rows);
    law_accepted_rows_are_one_for_each_order(other, rows);
    reveal_strlit("1");
    reveal_strlit("2");
    assert("1"@[0] != "2"@[0]);
    assert(one[0] == "1"@ && two[0] == "2"@ && other_one[0] == "1"@ && other_two[0] == "2"@);
    assert(one == other_one && two == other_two);
    assert(one[1] == other_one[1] && two[1] == other_two[1]);
}

} // verus!
