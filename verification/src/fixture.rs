//! Wrapper SQL over inline tables: each load request that the SQL carries gives way to a `SELECT`
//! over tables of fixed rows.
use crate::fixture_laws::law_more_steps_change_nothing;
use crate::json::{json_prefix, json_tree, parse_prefix, JsonTree};
use crate::members::{expand, expanded, members_of, Fixture};
use crate::request::{
    columns, has_join_hint, hints_at, joins, joins_of, read_joins, read_request, request_of,
    ColumnModel, JoinModel, LoadRequest, RequestColumn, RequestModel, SubqueryJoin,
};
use crate::text::{
    find, first_occurrence, join, joined, lemma_first_is_occurrence, lemma_first_stays_first, texts,
};
use serde_json::Value;
use vstd::hash_set::StringHashSet;
use vstd::prelude::*;
use vstd::string::*;

verus! {

/// The tables of [`Fixture::Roles`], with what stands round them in a `SELECT`.
pub const ROLE_TABLES: &'static str = " FROM
            (VALUES ('1', 'Stored Z'), ('2', 'Stored A')) AS \"Orders\"(id, name)
            LEFT JOIN (VALUES ('1', 'Inspector A'), ('2', 'Inspector Z')) AS \"Inspectors\"(id, name) ON \"Orders\".id = \"Inspectors\".id
            LEFT JOIN (VALUES ('1', 'Buyer Z'), ('2', 'Buyer A')) AS \"Buyers\"(id, name) ON \"Orders\".id = \"Buyers\".id
            ";

/// The tables of [`Fixture::JoinedValues`], with what stands round them in a `SELECT`.
pub const VALUE_TABLES: &'static str = " FROM (VALUES ('1', 'Stored Z'), ('2', 'Stored A')) AS \"Orders\"(id, stored_value) LEFT JOIN (VALUES ('1', 'Current A'), ('2', 'Current Z')) AS \"Buyers\"(id, current_value) ON \"Orders\".id = \"Buyers\".id";

/// A rendered text, and the names of the members that it refers to.
#[derive(Debug)]
pub struct Rendered {
    pub text: String,
    pub members: Vec<String>,
}

/// A rendered text with the members that it refers to.
pub ghost struct Rendering {
    pub text: Seq<char>,
    pub members: Seq<Seq<char>>,
}

impl View for Rendered {
    type V = Rendering;

    open spec fn view(&self) -> Rendering {
        Rendering { text: self.text@, members: texts(self.members@) }
    }
}

/// An item of a `SELECT` list: the column's expression, under its alias.
pub open spec fn column_text(fixture: Fixture, column: ColumnModel) -> Seq<char> {
    expanded(fixture, column.expr) + " AS \""@ + column.alias + "\""@
}

/// The items of a list of columns.
pub open spec fn column_texts(fixture: Fixture, list: Seq<ColumnModel>) -> Seq<Seq<char>> {
    list.map_values(|column: ColumnModel| column_text(fixture, column))
}

/// The expressions of a list of columns.
pub open spec fn column_exprs(fixture: Fixture, list: Seq<ColumnModel>) -> Seq<Seq<char>> {
    list.map_values(|column: ColumnModel| expanded(fixture, column.expr))
}

/// The names of the members that a list of columns refers to, in order.
pub open spec fn column_members(fixture: Fixture, list: Seq<ColumnModel>) -> Seq<Seq<char>>
    decreases list.len(),
{
    if list.len() == 0 {
        seq![]
    } else {
        column_members(fixture, list.drop_last()) + members_of(fixture, list.last().expr)
    }
}

/// The aliases of all columns of a request.
pub open spec fn aliases(request: RequestModel) -> Seq<Seq<char>> {
    (request.dimensions + request.measures).map_values(|column: ColumnModel| column.alias)
}

/// The `SELECT` list of a request: dimensions, then measures.
pub open spec fn select_list(fixture: Fixture, request: RequestModel) -> Seq<char> {
    joined(
        column_texts(fixture, request.dimensions) + column_texts(fixture, request.measures),
        ", "@,
    )
}

/// A `GROUP BY` over the dimensions of a request.
pub open spec fn group_by_dimensions(fixture: Fixture, request: RequestModel) -> Seq<char> {
    " GROUP BY "@ + joined(column_exprs(fixture, request.dimensions), ", "@)
}

/// The `SELECT` that stands for a request over [`Fixture::Roles`]. Grouped by its dimensions,
/// unless the request has none or asks for ungrouped rows.
pub open spec fn role_select(request: RequestModel, join_clauses: Seq<char>) -> Seq<char> {
    "SELECT "@ + select_list(Fixture::Roles, request) + ROLE_TABLES@ + join_clauses + (
    if request.ungrouped || request.dimensions.len() == 0 {
        ""@
    } else {
        group_by_dimensions(Fixture::Roles, request)
    })
}

/// The `SELECT` that stands for a request over [`Fixture::JoinedValues`]. Grouped by its
/// dimensions, unless the request asks for ungrouped rows.
pub open spec fn value_select(request: RequestModel) -> Seq<char> {
    "SELECT "@ + select_list(Fixture::JoinedValues, request) + VALUE_TABLES@ + (
    if request.ungrouped {
        ""@
    } else {
        group_by_dimensions(Fixture::JoinedValues, request)
    })
}

/// The clause that joins a rendered subquery.
pub open spec fn join_clause(join: JoinModel, inner: Seq<char>) -> Seq<char> {
    " "@ + join.join_type + " JOIN ("@ + inner + ") AS "@ + join.alias + " ON "@ + expanded(
        Fixture::Roles,
        join.on,
    )
}

/// The clauses of a request's subqueries, each rendered in at most `steps` steps.
pub open spec fn joins_rendering(list: Seq<JoinModel>, steps: nat) -> Option<Rendering>
    decreases steps, 1int, list.len(),
{
    if list.len() == 0 {
        Some(Rendering { text: seq![], members: seq![] })
    } else {
        match joins_rendering(list.drop_last(), steps) {
            None => None,
            Some(before) => match sql_rendering(list.last().sql, steps) {
                None => None,
                Some(inner) => Some(
                    Rendering {
                        text: before.text + join_clause(list.last(), inner.text),
                        members: before.members + inner.members + members_of(
                            Fixture::Roles,
                            list.last().on,
                        ),
                    },
                ),
            },
        }
    }
}

/// What stands for one load request, with its subqueries rendered in at most `steps` steps each.
pub open spec fn request_rendering(input: JsonTree, steps: nat) -> Option<Rendering>
    decreases steps, 2int, 0nat,
{
    match (request_of(input), joins_of(input)) {
        (Some(request), Some(list)) => match joins_rendering(list, steps) {
            None => None,
            Some(clauses) => Some(
                Rendering {
                    text: role_select(request, clauses.text),
                    members: column_members(Fixture::Roles, request.dimensions) + column_members(
                        Fixture::Roles,
                        request.measures,
                    ) + clauses.members,
                },
            ),
        },
        _ => None,
    }
}

/// `sql` with its load requests rendered one after the other, from the first one on, until none
/// is left. Nothing where a request cannot be read, or where one is left after `steps` steps.
pub open spec fn sql_rendering(sql: Seq<char>, steps: nat) -> Option<Rendering>
    decreases steps, 0int, 0nat,
{
    match first_occurrence(sql, "SELECT * FROM {"@) {
        None => Some(Rendering { text: sql, members: seq![] }),
        Some(start) => if steps == 0 {
            None
        } else {
            match json_prefix(sql.skip(start + "SELECT * FROM "@.len())) {
                None => None,
                Some((input, rest)) => match request_rendering(input, (steps - 1) as nat) {
                    None => None,
                    Some(select) => match sql_rendering(
                        sql.take(start) + select.text + rest,
                        (steps - 1) as nat,
                    ) {
                        None => None,
                        Some(after) => Some(
                            Rendering {
                                text: after.text,
                                members: select.members + after.members,
                            },
                        ),
                    },
                },
            }
        },
    }
}

/// Each load request that is rendered ends within `sql`, also where `more` follows it: the same
/// request is read then, and `more` is left over behind what is left over of `sql`.
pub open spec fn requests_end_before(sql: Seq<char>, more: Seq<char>, steps: nat) -> bool
    decreases steps,
{
    match first_occurrence(sql, "SELECT * FROM {"@) {
        None => true,
        Some(start) => if steps == 0 {
            true
        } else {
            let tail = sql.skip(start + "SELECT * FROM "@.len());
            match json_prefix(tail) {
                None => true,
                Some((input, rest)) => {
                    &&& json_prefix(tail + more) == Some((input, rest + more))
                    &&& request_rendering(input, (steps - 1) as nat) matches Some(select)
                        ==> requests_end_before(
                        sql.take(start) + select.text + rest,
                        more,
                        (steps - 1) as nat,
                    )
                },
            }
        },
    }
}

/// `sql` with its first load request rendered over [`Fixture::JoinedValues`]. Nothing where
/// there is no request or it cannot be read, where it asks for another join path than from
/// orders to buyers, or where two of its columns have one alias.
pub open spec fn value_rendering(sql: Seq<char>) -> Option<Seq<char>> {
    match first_occurrence(sql, "SELECT * FROM {"@) {
        None => None,
        Some(start) => match json_prefix(sql.skip(start + "SELECT * FROM "@.len())) {
            None => None,
            Some((input, rest)) => match request_of(input) {
                None => None,
                Some(request) => if hints_at(input, "Orders"@, "Buyers"@) && aliases(
                    request,
                ).no_duplicates() {
                    Some(sql.take(start) + value_select(request) + rest)
                } else {
                    None
                },
            },
        },
    }
}

/// A rendering that follows on members found before it.
pub open spec fn continued(before: Seq<Seq<char>>, rest: Option<Rendering>) -> Option<Rendering> {
    match rest {
        None => None,
        Some(rest) => Some(Rendering { text: rest.text, members: before + rest.members }),
    }
}

/// Where the first `n` subqueries cannot be rendered, the whole list cannot.
proof fn lemma_joins_fail_on_prefix(list: Seq<JoinModel>, steps: nat, n: int)
    requires
        0 <= n <= list.len(),
        joins_rendering(list.take(n), steps) is None,
    ensures
        joins_rendering(list, steps) is None,
    decreases list.len() - n,
{
    if n == list.len() {
        assert(list.take(n) =~= list);
    } else {
        assert(list.take(n + 1).drop_last() =~= list.take(n));
        lemma_joins_fail_on_prefix(list, steps, n + 1);
    }
}

/// A rendered list of columns: the items of the `SELECT` list, the bare expressions, and the
/// names of the members that they refer to.
struct RenderedColumns {
    items: Vec<String>,
    exprs: Vec<String>,
    members: Vec<String>,
}

/// Renders a list of columns.
fn render_columns(fixture: Fixture, list: &Vec<RequestColumn>) -> (r: RenderedColumns)
    ensures
        texts(r.items@) == column_texts(fixture, columns(list@)),
        texts(r.exprs@) == column_exprs(fixture, columns(list@)),
        texts(r.members@) == column_members(fixture, columns(list@)),
{
    let mut items: Vec<String> = Vec::new();
    let mut exprs: Vec<String> = Vec::new();
    let mut members: Vec<String> = Vec::new();
    let ghost models = columns(list@);
    let mut i: usize = 0;
    assert(texts(members@) =~= column_members(fixture, models.take(0)));
    while i < list.len()
        invariant
            i <= list@.len(),
            models == columns(list@),
            texts(items@) == column_texts(fixture, models.take(i as int)),
            texts(exprs@) == column_exprs(fixture, models.take(i as int)),
            texts(members@) == column_members(fixture, models.take(i as int)),
        decreases list@.len() - i,
    {
        let ghost before_items = items@;
        let ghost before_exprs = exprs@;
        let ghost before_members = members@;
        let (expr, mut referred) = expand(fixture, list[i].expr.as_str());
        let ghost new_members = referred@;
        let item = expr.clone().concat(" AS \"").concat(list[i].alias.as_str()).concat("\"");
        items.push(item);
        exprs.push(expr);
        members.append(&mut referred);
        proof {
            let taken = models.take(i + 1);
            assert(taken.drop_last() =~= models.take(i as int));
            assert(taken.last() == list@[i as int]@);
            assert(texts(items@) =~= texts(before_items).push(item@));
            assert(column_texts(fixture, taken) =~= column_texts(
                fixture,
                models.take(i as int),
            ).push(column_text(fixture, taken.last())));
            assert(texts(exprs@) =~= texts(before_exprs).push(expr@));
            assert(column_exprs(fixture, taken) =~= column_exprs(
                fixture,
                models.take(i as int),
            ).push(expr@));
            assert(texts(members@) =~= texts(before_members) + texts(new_members));
        }
        i = i + 1;
    }
    assert(models.take(list@.len() as int) =~= models);
    RenderedColumns { items, exprs, members }
}

/// Renders a request over [`Fixture::Roles`], with the given clauses for its subqueries.
pub fn render_role_request(request: &LoadRequest, join_clauses: &str) -> (r: Rendered)
    ensures
        r@.text == role_select(request@, join_clauses@),
        r@.members == column_members(Fixture::Roles, request@.dimensions) + column_members(
            Fixture::Roles,
            request@.measures,
        ),
{
    let dimensions = render_columns(Fixture::Roles, &request.dimensions);
    let measures = render_columns(Fixture::Roles, &request.measures);
    let mut items = dimensions.items;
    let mut measure_items = measures.items;
    items.append(&mut measure_items);
    assert(texts(items@) =~= column_texts(Fixture::Roles, request@.dimensions) + column_texts(
        Fixture::Roles,
        request@.measures,
    ));
    let mut text = "SELECT ".to_owned().concat(join(&items, ", ").as_str()).concat(ROLE_TABLES);
    text.append(join_clauses);
    if !(request.ungrouped || request.dimensions.len() == 0) {
        let group = " GROUP BY ".to_owned().concat(join(&dimensions.exprs, ", ").as_str());
        text.append(group.as_str());
    } else {
        proof {
            reveal_strlit("");
            assert(text@ + ""@ =~= text@);
        }
    }
    let mut members = dimensions.members;
    let mut measure_members = measures.members;
    members.append(&mut measure_members);
    assert(texts(members@) =~= column_members(Fixture::Roles, request@.dimensions)
        + column_members(Fixture::Roles, request@.measures));
    Rendered { text, members }
}

/// Whether no two of the texts are the same.
fn all_distinct(list: &Vec<String>) -> (r: bool)
    ensures
        r == texts(list@).no_duplicates(),
{
    let mut seen = StringHashSet::new();
    let ghost all = texts(list@);
    let mut i: usize = 0;
    while i < list.len()
        invariant
            i <= list@.len(),
            all == texts(list@),
            forall|text: Seq<char>|
                seen@.contains(text) <==> exists|j: int|
                    0 <= j < i && #[trigger] all[j] == text,
            forall|a: int, b: int| 0 <= a < b < i ==> all[a] != all[b],
        decreases list@.len() - i,
    {
        let ghost before = seen@;
        if !seen.insert(list[i].clone()) {
            assert(before.contains(all[i as int]));
            return false;
        }
        assert forall|text: Seq<char>| seen@.contains(text) implies exists|j: int|
            0 <= j < i + 1 && #[trigger] all[j] == text by {
            if text == all[i as int] {
                assert(all[i as int] == text);
            } else {
                assert(before.contains(text));
            }
        }
        i = i + 1;
    }
    true
}

/// The aliases of a list of columns.
fn column_aliases(list: &Vec<RequestColumn>) -> (r: Vec<String>)
    ensures
        texts(r@) == columns(list@).map_values(|column: ColumnModel| column.alias),
{
    let mut found: Vec<String> = Vec::new();
    let mut i: usize = 0;
    while i < list.len()
        invariant
            i <= list@.len(),
            found@.len() == i,
            forall|j: int| 0 <= j < i ==> (#[trigger] found@[j])@ == list@[j].alias@,
        decreases list@.len() - i,
    {
        found.push(list[i].alias.clone());
        i = i + 1;
    }
    assert(texts(found@) =~= columns(list@).map_values(|column: ColumnModel| column.alias));
    found
}

/// The aliases of all columns of a request.
fn request_aliases(request: &LoadRequest) -> (r: Vec<String>)
    ensures
        texts(r@) == aliases(request@),
{
    let mut found = column_aliases(&request.dimensions);
    let mut measure_aliases = column_aliases(&request.measures);
    let ghost dimensions = found@;
    let ghost measures = measure_aliases@;
    found.append(&mut measure_aliases);
    assert(texts(found@) =~= texts(dimensions) + texts(measures));
    assert(texts(found@) =~= aliases(request@));
    found
}

/// Renders a request over [`Fixture::JoinedValues`]. Nothing where two columns have one alias.
pub fn render_value_request(request: &LoadRequest) -> (r: Option<String>)
    ensures
        r is Some <==> aliases(request@).no_duplicates(),
        r is Some ==> r->0@ == value_select(request@),
{
    if !all_distinct(&request_aliases(request)) {
        return None;
    }
    let dimensions = render_columns(Fixture::JoinedValues, &request.dimensions);
    let measures = render_columns(Fixture::JoinedValues, &request.measures);
    let mut items = dimensions.items;
    let mut measure_items = measures.items;
    items.append(&mut measure_items);
    assert(texts(items@) =~= column_texts(Fixture::JoinedValues, request@.dimensions)
        + column_texts(Fixture::JoinedValues, request@.measures));
    let mut text = "SELECT ".to_owned().concat(join(&items, ", ").as_str()).concat(VALUE_TABLES);
    if !request.ungrouped {
        let group = " GROUP BY ".to_owned().concat(join(&dimensions.exprs, ", ").as_str());
        text.append(group.as_str());
    } else {
        proof {
            reveal_strlit("");
            assert(text@ + ""@ =~= text@);
        }
    }
    Some(text)
}

/// Renders the first load request of `sql` over [`Fixture::JoinedValues`]. Text that follows `sql`
/// changes nothing of that, and is kept behind it.
pub fn render_fixture_sql(sql: &str) -> (r: Option<String>)
    ensures
        r is Some <==> value_rendering(sql@) is Some,
        r is Some ==> value_rendering(sql@) == Some(r->0@),
        r is Some ==> forall|more: Seq<char>| #[trigger]
            value_rendering(sql@ + more) == Some(r->0@ + more),
{
    proof {
        reveal_strlit("SELECT * FROM {");
        reveal_strlit("SELECT * FROM ");
    }
    let start = match find(sql, "SELECT * FROM {") {
        Some(start) => start,
        None => return None,
    };
    let length = sql.unicode_len();
    let tail = sql.substring_char(start + 14, length);
    assert(tail@ =~= sql@.skip(start + 14));
    assert(tail@[0] == '{') by {
        lemma_first_is_occurrence(sql@, "SELECT * FROM {"@);
        assert(sql@.subrange(start as int, start + 15)[14] == '{');
    }
    match parse_prefix(tail) {
        Some(Ok((input, rest))) => {
            let request = match read_request(&input) {
                Some(request) => request,
                None => return None,
            };
            if !has_join_hint(&input, "Orders", "Buyers") {
                return None;
            }
            match render_value_request(&request) {
                Some(select) => {
                    let head = sql.substring_char(0, start);
                    assert(head@ =~= sql@.take(start as int));
                    let rendered = head.to_owned().concat(select.as_str()).concat(rest);
                    assert forall|more: Seq<char>| #[trigger]
                        value_rendering(sql@ + more) == Some(rendered@ + more) by {
                        let whole = sql@ + more;
                        lemma_first_stays_first(sql@, more, "SELECT * FROM {"@);
                        assert(whole.skip(start + 14) =~= tail@ + more);
                        assert(json_prefix(tail@ + more) == Some((json_tree(input), rest@ + more)));
                        assert(whole.take(start as int) =~= head@);
                        assert(head@ + select@ + (rest@ + more) =~= rendered@ + more);
                    }
                    Some(rendered)
                },
                None => None,
            }
        },
        _ => None,
    }
}

/// Renders the clauses of a request's subqueries.
fn render_joins(list: &Vec<SubqueryJoin>, steps: u64) -> (r: Option<Rendered>)
    ensures
        r is Some <==> joins_rendering(joins(list@), steps as nat) is Some,
        r is Some ==> joins_rendering(joins(list@), steps as nat) == Some(r->0@),
    decreases steps, 1int,
{
    let mut text = String::new();
    let mut members: Vec<String> = Vec::new();
    let ghost models = joins(list@);
    let mut i: usize = 0;
    assert(texts(members@) =~= seq![]);
    while i < list.len()
        invariant
            i <= list@.len(),
            models == joins(list@),
            joins_rendering(models.take(i as int), steps as nat) == Some(
                (Rendering { text: text@, members: texts(members@) }),
            ),
        decreases list@.len() - i,
    {
        proof {
            assert(models.take(i + 1).drop_last() =~= models.take(i as int));
            assert(models.take(i + 1).last() == list@[i as int]@);
        }
        let entry = &list[i];
        let inner = match render_sql(entry.sql.as_str(), steps) {
            Some(inner) => inner,
            None => {
                proof {
                    lemma_joins_fail_on_prefix(models, steps as nat, i + 1);
                }
                return None;
            },
        };
        let ghost before = members@;
        let (on, mut on_members) = expand(Fixture::Roles, entry.on.as_str());
        let mut inner_members = inner.members;
        let clause = " ".to_owned().concat(entry.join_type.as_str()).concat(" JOIN (").concat(
            inner.text.as_str(),
        ).concat(") AS ").concat(entry.alias.as_str()).concat(" ON ").concat(on.as_str());
        text.append(clause.as_str());
        members.append(&mut inner_members);
        members.append(&mut on_members);
        assert(texts(members@) =~= texts(before) + inner@.members + members_of(
            Fixture::Roles,
            entry.on@,
        ));
        i = i + 1;
    }
    assert(models.take(list@.len() as int) =~= models);
    Some(Rendered { text, members })
}

/// Renders one load request.
fn render_request(input: &Value, steps: u64) -> (r: Option<Rendered>)
    ensures
        r is Some <==> request_rendering(json_tree(*input), steps as nat) is Some,
        r is Some ==> request_rendering(json_tree(*input), steps as nat) == Some(r->0@),
    decreases steps, 2int,
{
    let request = match read_request(input) {
        Some(request) => request,
        None => return None,
    };
    let list = match read_joins(input) {
        Some(list) => list,
        None => return None,
    };
    let clauses = match render_joins(&list, steps) {
        Some(clauses) => clauses,
        None => return None,
    };
    let select = render_role_request(&request, clauses.text.as_str());
    let mut members = select.members;
    let mut clause_members = clauses.members;
    members.append(&mut clause_members);
    assert(texts(members@) =~= select@.members + clauses@.members);
    Some(Rendered { text: select.text, members })
}

/// Renders the load requests of a text.
fn render_sql(sql: &str, steps: u64) -> (r: Option<Rendered>)
    ensures
        r is Some <==> sql_rendering(sql@, steps as nat) is Some,
        r is Some ==> sql_rendering(sql@, steps as nat) == Some(r->0@),
        r is Some ==> forall|more: Seq<char>| #[trigger]
            requests_end_before(sql@, more, steps as nat),
    decreases steps, 0int,
{
    proof {
        reveal_strlit("SELECT * FROM {");
        reveal_strlit("SELECT * FROM ");
    }
    let mut text = sql.to_owned();
    let mut members: Vec<String> = Vec::new();
    let mut left: u64 = steps;
    assert(continued(texts(members@), sql_rendering(text@, left as nat)) == sql_rendering(
        sql@,
        steps as nat,
    )) by {
        let whole = sql_rendering(sql@, steps as nat);
        if whole is Some {
            assert(texts(members@) + whole->0.members =~= whole->0.members);
        }
    }
    loop
        invariant
            left <= steps,
            "SELECT * FROM {"@.len() == 15,
            "SELECT * FROM "@.len() == 14,
            "SELECT * FROM {"@[14] == '{',
            continued(texts(members@), sql_rendering(text@, left as nat)) == sql_rendering(
                sql@,
                steps as nat,
            ),
            forall|more: Seq<char>|
                requests_end_before(text@, more, left as nat) ==> #[trigger] requests_end_before(
                    sql@,
                    more,
                    steps as nat,
                ),
        decreases left,
    {
        let start = match find(text.as_str(), "SELECT * FROM {") {
            Some(start) => start,
            None => {
                assert(texts(members@) + Seq::<Seq<char>>::empty() =~= texts(members@));
                return Some(Rendered { text, members });
            },
        };
        if left == 0 {
            return None;
        }
        let ghost whole = text@;
        let length = text.as_str().unicode_len();
        let tail = text.as_str().substring_char(start + 14, length);
        assert(tail@ =~= whole.skip(start + 14));
        assert(tail@[0] == '{') by {
            lemma_first_is_occurrence(whole, "SELECT * FROM {"@);
            assert(whole.subrange(start as int, start + 15)[14] == '{');
        }
        match parse_prefix(tail) {
            Some(Ok((input, rest))) => {
                let select = match render_request(&input, left - 1) {
                    Some(select) => select,
                    None => return None,
                };
                let head = text.as_str().substring_char(0, start);
                assert(head@ =~= whole.take(start as int));
                let next = head.to_owned().concat(select.text.as_str()).concat(rest);
                let ghost before = texts(members@);
                let ghost after = sql_rendering(next@, (left - 1) as nat);
                assert forall|more: Seq<char>|
                    requests_end_before(next@, more, (left - 1) as nat) implies #[trigger]
                    requests_end_before(sql@, more, steps as nat) by {
                    assert(json_prefix(tail@ + more) == Some((json_tree(input), rest@ + more)));
                    assert(requests_end_before(whole, more, left as nat));
                }
                let mut select_members = select.members;
                members.append(&mut select_members);
                proof {
                    assert(texts(members@) =~= before + select@.members);
                    if after is Some {
                        assert(before + (select@.members + after->0.members) =~= texts(members@)
                            + after->0.members);
                    }
                }
                text = next;
                left = left - 1;
            },
            _ => return None,
        }
    }
}

/// Renders the load requests of `sql` over [`Fixture::Roles`], those inside joined subqueries
/// too, and adds the names of the members that they refer to. Nothing is returned or added where
/// a request cannot be read, or where the rendering does not end within `u64::MAX` steps. Where
/// something is returned, each request ends within `sql`, whatever may follow it.
pub fn fixture_sql(sql: &str, members: &mut Vec<String>) -> (r: Option<String>)
    ensures
        r is Some <==> sql_rendering(sql@, u64::MAX as nat) is Some,
        r is Some ==> r->0@ == sql_rendering(sql@, u64::MAX as nat)->0.text,
        r is Some ==> texts(final(members)@) == texts(old(members)@) + sql_rendering(
            sql@,
            u64::MAX as nat,
        )->0.members,
        r is None ==> final(members)@ == old(members)@,
        r is Some ==> forall|more: Seq<char>| #[trigger]
            requests_end_before(sql@, more, u64::MAX as nat),
        r is None ==> forall|steps: nat|
            steps <= u64::MAX ==> #[trigger] sql_rendering(sql@, steps) is None,
{
    proof {
        assert forall|steps: nat| steps <= u64::MAX && sql_rendering(sql@, u64::MAX as nat)
            is None implies #[trigger] sql_rendering(sql@, steps) is None by {
            if sql_rendering(sql@, steps) is Some {
                law_more_steps_change_nothing(sql@, steps, u64::MAX as nat);
            }
        }
    }
    match render_sql(sql, u64::MAX) {
        Some(rendered) => {
            let mut added = rendered.members;
            let ghost new_members = added@;
            members.append(&mut added);
            assert(texts(members@) =~= texts(old(members)@) + texts(new_members));
            Some(rendered.text)
        },
        None => None,
    }
}

} // verus!
