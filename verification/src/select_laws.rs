//! What the `SELECT` that stands for a load request consists of.
use crate::fixture::{
    aliases, column_exprs, column_members, column_texts, joins_rendering, request_rendering,
    role_select, sql_rendering, value_rendering, value_select, Rendering, ROLE_TABLES,
    VALUE_TABLES,
};
use crate::fixture_laws::followed_by;
use crate::json::{json_prefix, JsonTree};
use crate::member_laws::{
    can_refer, law_other_text_is_kept, law_reference_becomes_column, written,
};
use crate::members::{expanded, members_of, Fixture};
use crate::request::{joins_of, request_of, ColumnModel, JoinModel, RequestModel};
use crate::request_laws::{holds_within, law_join_path_is_listed};
use crate::text::{
    first_occurrence, joined, law_few_parts_joined, law_found_where_it_first_stands,
    lemma_first_occurrence, occurs_at,
};
use vstd::prelude::*;

verus! {

/// `items` are the columns of a list as a `SELECT` names them: each expression with its members
/// expanded, under its quoted alias.
pub open spec fn name_columns(
    fixture: Fixture,
    list: Seq<ColumnModel>,
    items: Seq<Seq<char>>,
) -> bool {
    &&& items.len() == list.len()
    &&& forall|i: int|
        0 <= i < list.len() ==> (#[trigger] items[i]) == expanded(fixture, list[i].expr)
            + " AS \""@ + list[i].alias + "\""@
}

/// `exprs` are the expressions of a list of columns, with their members expanded.
pub open spec fn expand_columns(
    fixture: Fixture,
    list: Seq<ColumnModel>,
    exprs: Seq<Seq<char>>,
) -> bool {
    &&& exprs.len() == list.len()
    &&& forall|i: int| 0 <= i < list.len() ==> (#[trigger] exprs[i]) == expanded(
        fixture,
        list[i].expr,
    )
}

/// A request over the role tables selects its dimensions, then its measures, with commas between
/// them. The clauses of its subqueries stand right behind the tables. It is grouped by all its
/// dimensions in order, with commas between them, unless there are none or it asks for ungrouped
/// rows.
pub proof fn law_role_request_selects_its_columns(
    request: RequestModel,
    clauses: Seq<char>,
    items: Seq<Seq<char>>,
    exprs: Seq<Seq<char>>,
)
    requires
        name_columns(Fixture::Roles, request.dimensions + request.measures, items),
        expand_columns(Fixture::Roles, request.dimensions, exprs),
    ensures
        request.ungrouped || request.dimensions.len() == 0 ==> role_select(request, clauses)
            == "SELECT "@ + joined(items, ", "@) + ROLE_TABLES@ + clauses,
        !request.ungrouped && request.dimensions.len() > 0 ==> role_select(request, clauses)
            == "SELECT "@ + joined(items, ", "@) + ROLE_TABLES@ + clauses + " GROUP BY "@ + joined(
            exprs,
            ", "@,
        ),
{
    reveal_strlit("");
    lemma_columns_are_named(Fixture::Roles, request, items, exprs);
    let head = "SELECT "@ + joined(items, ", "@) + ROLE_TABLES@ + clauses;
    assert(head + ""@ =~= head);
    let list = joined(exprs, ", "@);
    assert(head + (" GROUP BY "@ + list) =~= head + " GROUP BY "@ + list);
}

/// A request over the joined values selects its dimensions, then its measures, with commas between
/// them. It is grouped by all its dimensions in order, with commas between them, unless it asks
/// for ungrouped rows.
pub proof fn law_value_request_selects_its_columns(
    request: RequestModel,
    items: Seq<Seq<char>>,
    exprs: Seq<Seq<char>>,
)
    requires
        name_columns(Fixture::JoinedValues, request.dimensions + request.measures, items),
        expand_columns(Fixture::JoinedValues, request.dimensions, exprs),
    ensures
        request.ungrouped ==> value_select(request) == "SELECT "@ + joined(items, ", "@)
            + VALUE_TABLES@,
        !request.ungrouped ==> value_select(request) == "SELECT "@ + joined(items, ", "@)
            + VALUE_TABLES@ + " GROUP BY "@ + joined(exprs, ", "@),
{
    reveal_strlit("");
    lemma_columns_are_named(Fixture::JoinedValues, request, items, exprs);
    let head = "SELECT "@ + joined(items, ", "@) + VALUE_TABLES@;
    assert(head + ""@ =~= head);
    let list = joined(exprs, ", "@);
    assert(head + (" GROUP BY "@ + list) =~= head + " GROUP BY "@ + list);
}

proof fn lemma_columns_are_named(
    fixture: Fixture,
    request: RequestModel,
    items: Seq<Seq<char>>,
    exprs: Seq<Seq<char>>,
)
    requires
        name_columns(fixture, request.dimensions + request.measures, items),
        expand_columns(fixture, request.dimensions, exprs),
    ensures
        items == column_texts(fixture, request.dimensions) + column_texts(
            fixture,
            request.measures,
        ),
        exprs == column_exprs(fixture, request.dimensions),
{
    let list = request.dimensions + request.measures;
    let named = column_texts(fixture, request.dimensions) + column_texts(
        fixture,
        request.measures,
    );
    assert forall|i: int| 0 <= i < items.len() implies items[i] == named[i] by {
        assert(items[i] == expanded(fixture, list[i].expr) + " AS \""@ + list[i].alias + "\""@);
    }
    assert(items =~= named);
    assert(exprs =~= column_exprs(fixture, request.dimensions));
}

/// A grouped request for two dimensions names both in the `SELECT` list and in the `GROUP BY`
/// list, each time with one comma between them, over either fixture.
pub proof fn law_two_dimensions_are_grouped(first: ColumnModel, second: ColumnModel)
    ensures
        ({
            let request = RequestModel {
                dimensions: seq![first, second],
                measures: seq![],
                ungrouped: false,
            };
            let one = expanded(Fixture::Roles, first.expr);
            let two = expanded(Fixture::Roles, second.expr);
            role_select(request, seq![]) == "SELECT "@ + (one + " AS \""@ + first.alias + "\""@
                + ", "@ + (two + " AS \""@ + second.alias + "\""@)) + ROLE_TABLES@ + " GROUP BY "@
                + (one + ", "@ + two)
        }),
        ({
            let request = RequestModel {
                dimensions: seq![first, second],
                measures: seq![],
                ungrouped: false,
            };
            let one = expanded(Fixture::JoinedValues, first.expr);
            let two = expanded(Fixture::JoinedValues, second.expr);
            value_select(request) == "SELECT "@ + (one + " AS \""@ + first.alias + "\""@ + ", "@ + (
            two + " AS \""@ + second.alias + "\""@)) + VALUE_TABLES@ + " GROUP BY "@ + (one + ", "@
                + two)
        }),
{
    let request = RequestModel {
        dimensions: seq![first, second],
        measures: seq![],
        ungrouped: false,
    };
    assert(request.dimensions + request.measures =~= request.dimensions);
    let one = expanded(Fixture::Roles, first.expr);
    let two = expanded(Fixture::Roles, second.expr);
    let one_item = one + " AS \""@ + first.alias + "\""@;
    let two_item = two + " AS \""@ + second.alias + "\""@;
    law_few_parts_joined(one, two, ", "@);
    law_few_parts_joined(one_item, two_item, ", "@);
    law_role_request_selects_its_columns(
        request,
        seq![],
        seq![one_item, two_item],
        seq![one, two],
    );
    let head = "SELECT "@ + (one_item + ", "@ + two_item) + ROLE_TABLES@;
    assert(head + Seq::<char>::empty() =~= head);
    let one = expanded(Fixture::JoinedValues, first.expr);
    let two = expanded(Fixture::JoinedValues, second.expr);
    let one_item = one + " AS \""@ + first.alias + "\""@;
    let two_item = two + " AS \""@ + second.alias + "\""@;
    law_few_parts_joined(one, two, ", "@);
    law_few_parts_joined(one_item, two_item, ", "@);
    law_value_request_selects_its_columns(request, seq![one_item, two_item], seq![one, two]);
}

/// `tables` declare a table under the given name with the two given columns.
pub open spec fn declare(
    tables: Seq<char>,
    name: Seq<char>,
    first: Seq<char>,
    second: Seq<char>,
) -> bool {
    exists|before: Seq<char>, after: Seq<char>|
        tables == #[trigger] (before + (" AS \""@ + name + "\"("@ + first + ", "@ + second + ")"@)
            + after)
}

/// Each cube that an expression can refer to has a table, which declares the columns that
/// references to that cube become.
pub proof fn law_references_become_declared_columns(
    fixture: Fixture,
    cube: Seq<char>,
    member: Seq<char>,
    tables: Seq<char>,
)
    requires
        can_refer(fixture, cube, member),
        tables == match fixture {
            Fixture::Roles => ROLE_TABLES@,
            Fixture::JoinedValues => VALUE_TABLES@,
        },
    ensures
        exists|first: Seq<char>, second: Seq<char>|
            {
                &&& #[trigger] declare(tables, cube, first, second)
                &&& expanded(fixture, written(cube, member)) == "\""@ + cube + "\".\""@ + (
                if member == "id"@ {
                    first
                } else {
                    second
                }) + "\""@
            },
{
    lemma_tables_declare_columns();
    law_reference_becomes_column(fixture, cube, member, seq![]);
    law_other_text_is_kept(fixture, seq![]);
    let text = written(cube, member);
    assert(text + Seq::<char>::empty() =~= text);
    let second = if fixture == Fixture::Roles {
        "name"@
    } else if cube == "Orders"@ {
        "stored_value"@
    } else {
        "current_value"@
    };
    assert(declare(tables, cube, "id"@, second));
    reveal_strlit("\"");
    reveal_strlit("\".\"");
    reveal_strlit("id");
    reveal_strlit("name");
    reveal_strlit("stored_value");
    reveal_strlit("current_value");
    reveal_strlit("\".\"id\"");
    reveal_strlit("\".\"name\"");
    reveal_strlit("Orders");
    reveal_strlit("Buyers");
    reveal_strlit("\"Orders\".\"stored_value\"");
    reveal_strlit("\"Buyers\".\"current_value\"");
    assert(expanded(fixture, text) =~= "\""@ + cube + "\".\""@ + (if member == "id"@ {
        "id"@
    } else {
        second
    }) + "\""@);
}

proof fn lemma_declared(
    tables: Seq<char>,
    i: int,
    name: Seq<char>,
    first: Seq<char>,
    second: Seq<char>,
)
    requires
        occurs_at(
            tables,
            " AS \""@ + name + "\"("@ + first + ", "@ + second + ")"@,
            i,
        ),
    ensures
        declare(tables, name, first, second),
{
    let declaration = " AS \""@ + name + "\"("@ + first + ", "@ + second + ")"@;
    assert(tables =~= tables.take(i) + declaration + tables.skip(i + declaration.len()));
}

proof fn lemma_tables_declare_columns()
    ensures
        declare(VALUE_TABLES@, "Orders"@, "id"@, "stored_value"@),
        declare(VALUE_TABLES@, "Buyers"@, "id"@, "current_value"@),
        declare(ROLE_TABLES@, "Orders"@, "id"@, "name"@),
        declare(ROLE_TABLES@, "Inspectors"@, "id"@, "name"@),
        declare(ROLE_TABLES@, "Buyers"@, "id"@, "name"@),
{
    reveal_strlit(" AS \"");
    reveal_strlit("\"(");
    reveal_strlit(", ");
    reveal_strlit(")");
    reveal_strlit("id");
    reveal_strlit("name");
    reveal_strlit("stored_value");
    reveal_strlit("current_value");
    reveal_strlit("Orders");
    reveal_strlit("Inspectors");
    reveal_strlit("Buyers");
    reveal_strlit(" FROM (VALUES ('1', 'Stored Z'), ('2', 'Stored A')) AS \"Orders\"(id, stored_value) LEFT JOIN (VALUES ('1', 'Current A'), ('2', 'Current Z')) AS \"Buyers\"(id, current_value) ON \"Orders\".id = \"Buyers\".id");
    assert(VALUE_TABLES@.subrange(51, 81) =~= " AS \""@ + "Orders"@ + "\"("@ + "id"@ + ", "@
        + "stored_value"@ + ")"@);
    lemma_declared(VALUE_TABLES@, 51, "Orders"@, "id"@, "stored_value"@);
    assert(VALUE_TABLES@.subrange(139, 170) =~= " AS \""@ + "Buyers"@ + "\"("@ + "id"@ + ", "@
        + "current_value"@ + ")"@);
    lemma_declared(VALUE_TABLES@, 139, "Buyers"@, "id"@, "current_value"@);
    reveal_strlit(" FROM
            (VALUES ('1', 'Stored Z'), ('2', 'Stored A')) AS \"Orders\"(id, name)
            LEFT JOIN (VALUES ('1', 'Inspector A'), ('2', 'Inspector Z')) AS \"Inspectors\"(id, name) ON \"Orders\".id = \"Inspectors\".id
            LEFT JOIN (VALUES ('1', 'Buyer Z'), ('2', 'Buyer A')) AS \"Buyers\"(id, name) ON \"Orders\".id = \"Buyers\".id
            ");
    assert(ROLE_TABLES@.subrange(63, 85) =~= " AS \""@ + "Orders"@ + "\"("@ + "id"@ + ", "@
        + "name"@ + ")"@);
    lemma_declared(ROLE_TABLES@, 63, "Orders"@, "id"@, "name"@);
    assert(ROLE_TABLES@.subrange(159, 185) =~= " AS \""@ + "Inspectors"@ + "\"("@ + "id"@ + ", "@
        + "name"@ + ")"@);
    lemma_declared(ROLE_TABLES@, 159, "Inspectors"@, "id"@, "name"@);
    assert(ROLE_TABLES@.subrange(284, 306) =~= " AS \""@ + "Buyers"@ + "\"("@ + "id"@ + ", "@
        + "name"@ + ")"@);
    lemma_declared(ROLE_TABLES@, 284, "Buyers"@, "id"@, "name"@);
}

/// The members of a list of columns are those of each column's expression, one column after the
/// other.
pub proof fn law_columns_refer_in_order(
    fixture: Fixture,
    first: Seq<ColumnModel>,
    second: Seq<ColumnModel>,
    column: ColumnModel,
)
    ensures
        column_members(fixture, first + second) == column_members(fixture, first)
            + column_members(fixture, second),
        column_members(fixture, seq![column]) == members_of(fixture, column.expr),
        column_members(fixture, seq![]) == Seq::<Seq<char>>::empty(),
    decreases second.len(),
{
    reveal_with_fuel(column_members, 2);
    assert(seq![column].drop_last() =~= Seq::<ColumnModel>::empty());
    assert(Seq::<Seq<char>>::empty() + members_of(fixture, column.expr) =~= members_of(
        fixture,
        column.expr,
    ));
    if second.len() == 0 {
        assert(first + second =~= first);
        assert(column_members(fixture, first) + column_members(fixture, second)
            =~= column_members(fixture, first));
    } else {
        law_columns_refer_in_order(fixture, first, second.drop_last(), column);
        assert((first + second).drop_last() =~= first + second.drop_last());
        assert((first + second).last() == second.last());
        assert(column_members(fixture, first) + (column_members(fixture, second.drop_last())
            + members_of(fixture, second.last().expr)) =~= (column_members(fixture, first)
            + column_members(fixture, second.drop_last())) + members_of(
            fixture,
            second.last().expr,
        ));
    }
}

/// A single joined subquery becomes a clause of its own join type, with its SQL rendered in
/// brackets, under its own alias and on its own condition. Its members come first, then those of
/// the condition. It cannot be rendered exactly where its SQL cannot.
pub proof fn law_join_is_written_with_its_type(join: JoinModel, steps: nat)
    ensures
        joins_rendering(seq![join], steps) is Some <==> sql_rendering(join.sql, steps) is Some,
        sql_rendering(join.sql, steps) matches Some(inner) ==> joins_rendering(seq![join], steps)
            == Some(
            Rendering {
                text: " "@ + join.join_type + " JOIN ("@ + inner.text + ") AS "@ + join.alias
                    + " ON "@ + expanded(Fixture::Roles, join.on),
                members: inner.members + members_of(Fixture::Roles, join.on),
            },
        ),
        joins_rendering(seq![], steps) == Some(
            (Rendering { text: seq![], members: seq![] }),
        ),
{
    reveal_with_fuel(joins_rendering, 2);
    let none = Seq::<JoinModel>::empty();
    assert(seq![join].drop_last() =~= none);
    assert(joins_rendering(none, steps) == Some((Rendering { text: seq![], members: seq![] })));
    if sql_rendering(join.sql, steps) is Some {
        let inner = sql_rendering(join.sql, steps)->0;
        let clause = " "@ + join.join_type + " JOIN ("@ + inner.text + ") AS "@ + join.alias
            + " ON "@ + expanded(Fixture::Roles, join.on);
        assert(Seq::<char>::empty() + clause =~= clause);
        assert(Seq::<Seq<char>>::empty() + inner.members =~= inner.members);
    }
}

/// The clauses of joined subqueries stand one after the other, each as it is written on its own.
/// They cannot be rendered exactly where one of them cannot.
pub proof fn law_joins_are_written_one_by_one(
    first: Seq<JoinModel>,
    second: Seq<JoinModel>,
    steps: nat,
)
    ensures
        joins_rendering(first + second, steps) is Some <==> joins_rendering(first, steps) is Some
            && joins_rendering(second, steps) is Some,
        joins_rendering(first + second, steps) is Some ==> joins_rendering(first + second, steps)
            == Some(
            followed_by(joins_rendering(first, steps)->0, joins_rendering(second, steps)->0),
        ),
    decreases second.len(),
{
    if second.len() == 0 {
        assert(first + second =~= first);
        if joins_rendering(first, steps) is Some {
            let rendering = joins_rendering(first, steps)->0;
            assert(rendering.text + Seq::<char>::empty() =~= rendering.text);
            assert(rendering.members + Seq::<Seq<char>>::empty() =~= rendering.members);
        }
    } else {
        let list = first + second;
        let last = seq![second.last()];
        let fewer = second.drop_last();
        law_joins_are_written_one_by_one(first, fewer, steps);
        assert(list.drop_last() =~= first + fewer);
        assert(list.last() == second.last());
        if joins_rendering(list, steps) is Some || joins_rendering(second, steps) is Some && (
        joins_rendering(first, steps) is Some) {
            let before = joins_rendering(first, steps)->0;
            let middle = joins_rendering(fewer, steps)->0;
            let inner = sql_rendering(second.last().sql, steps)->0;
            let behind = joins_rendering(second, steps)->0;
            let whole = joins_rendering(list, steps)->0;
            assert(whole.text =~= before.text + behind.text);
            assert(whole.members =~= before.members + behind.members);
        }
    }
}

/// Two lists of subqueries that differ in the join type of one of them only are written alike but
/// for that type, which stands between a space and the word for the join.
pub proof fn law_join_type_alone_differs(
    list: Seq<JoinModel>,
    k: int,
    join_type: Seq<char>,
    steps: nat,
)
    requires
        0 <= k < list.len(),
        joins_rendering(list, steps) is Some,
    ensures
        ({
            let other = list.update(k, JoinModel { join_type, ..list[k] });
            &&& joins_rendering(other, steps) is Some
            &&& joins_rendering(other, steps)->0.members == joins_rendering(
                list,
                steps,
            )->0.members
            &&& exists|head: Seq<char>, tail: Seq<char>|
                {
                    &&& joins_rendering(list, steps)->0.text == #[trigger] (head + " "@
                        + list[k].join_type + " JOIN ("@ + tail)
                    &&& joins_rendering(other, steps)->0.text == head + " "@ + join_type
                        + " JOIN ("@ + tail
                }
        }),
{
    let changed = JoinModel { join_type, ..list[k] };
    let other = list.update(k, changed);
    let before = list.take(k);
    let behind = list.skip(k + 1);
    assert(list =~= before + (seq![list[k]] + behind));
    assert(other =~= before + (seq![changed] + behind));
    lemma_join_among_others(before, list[k], behind, steps);
    lemma_join_among_others(before, changed, behind, steps);
    let head = joins_rendering(before, steps)->0.text;
    let tail = clause_end(list[k], joins_rendering(behind, steps)->0.text, steps);
    assert(joins_rendering(list, steps)->0.text == head + " "@ + list[k].join_type + " JOIN ("@
        + tail);
    assert(clause_end(changed, joins_rendering(behind, steps)->0.text, steps) == tail);
}

/// What stands behind the opening bracket of a subquery's clause, up to `end`.
spec fn clause_end(join: JoinModel, end: Seq<char>, steps: nat) -> Seq<char> {
    sql_rendering(join.sql, steps)->0.text + ") AS "@ + join.alias + " ON "@ + expanded(
        Fixture::Roles,
        join.on,
    ) + end
}

proof fn lemma_join_among_others(
    before: Seq<JoinModel>,
    join: JoinModel,
    behind: Seq<JoinModel>,
    steps: nat,
)
    ensures
        ({
            let list = before + (seq![join] + behind);
            let front = joins_rendering(before, steps);
            let back = joins_rendering(behind, steps);
            &&& joins_rendering(list, steps) is Some <==> front is Some && sql_rendering(
                join.sql,
                steps,
            ) is Some && back is Some
            &&& joins_rendering(list, steps) is Some ==> joins_rendering(list, steps)->0.text
                == front->0.text + " "@ + join.join_type + " JOIN ("@ + clause_end(
                join,
                back->0.text,
                steps,
            )
            &&& joins_rendering(list, steps) is Some ==> joins_rendering(list, steps)->0.members
                == front->0.members + (sql_rendering(join.sql, steps)->0.members + members_of(
                Fixture::Roles,
                join.on,
            ) + back->0.members)
        }),
{
    law_joins_are_written_one_by_one(before, seq![join] + behind, steps);
    law_joins_are_written_one_by_one(seq![join], behind, steps);
    law_join_is_written_with_its_type(join, steps);
    if joins_rendering(before + (seq![join] + behind), steps) is Some {
        let head = joins_rendering(before, steps)->0.text;
        let end = joins_rendering(behind, steps)->0.text;
        let inner = sql_rendering(join.sql, steps)->0.text;
        let condition = expanded(Fixture::Roles, join.on);
        let clause = " "@ + join.join_type + " JOIN ("@ + inner + ") AS "@ + join.alias + " ON "@
            + condition;
        assert(head + (clause + end) =~= head + " "@ + join.join_type + " JOIN ("@ + clause_end(
            join,
            end,
            steps,
        ));
    }
}

/// A request is rendered where it, its subqueries and their SQL can be read: as the `SELECT` of
/// its columns with the clauses of its subqueries. The members of its columns come first, then
/// those of its subqueries.
pub proof fn law_request_is_rendered_with_its_joins(input: JsonTree, steps: nat)
    ensures
        request_rendering(input, steps) is Some <==> request_of(input) is Some && joins_of(
            input,
        ) is Some && joins_rendering(joins_of(input)->0, steps) is Some,
        request_rendering(input, steps) matches Some(rendering) ==> {
            let request = request_of(input)->0;
            let clauses = joins_rendering(joins_of(input)->0, steps)->0;
            &&& rendering.text == role_select(request, clauses.text)
            &&& rendering.members == column_members(
                Fixture::Roles,
                request.dimensions + request.measures,
            ) + clauses.members
        },
{
    if request_rendering(input, steps) is Some {
        let request = request_of(input)->0;
        law_columns_refer_in_order(
            Fixture::Roles,
            request.dimensions,
            request.measures,
            arbitrary(),
        );
    }
}

/// Where a request joins a single subquery, its join type stands right behind the tables, between
/// a space and the word for the join.
pub proof fn law_join_type_stands_behind_the_tables(
    input: JsonTree,
    join: JoinModel,
    items: Seq<Seq<char>>,
    exprs: Seq<Seq<char>>,
    steps: nat,
)
    requires
        request_of(input) is Some,
        joins_of(input) == Some(seq![join]),
        sql_rendering(join.sql, steps) is Some,
        name_columns(
            Fixture::Roles,
            request_of(input)->0.dimensions + request_of(input)->0.measures,
            items,
        ),
        expand_columns(Fixture::Roles, request_of(input)->0.dimensions, exprs),
    ensures
        request_rendering(input, steps) is Some,
        ({
            let request = request_of(input)->0;
            let group = if request.ungrouped || request.dimensions.len() == 0 {
                Seq::<char>::empty()
            } else {
                " GROUP BY "@ + joined(exprs, ", "@)
            };
            request_rendering(input, steps)->0.text == "SELECT "@ + joined(items, ", "@)
                + ROLE_TABLES@ + " "@ + join.join_type + " JOIN ("@ + sql_rendering(
                join.sql,
                steps,
            )->0.text + ") AS "@ + join.alias + " ON "@ + expanded(Fixture::Roles, join.on) + group
        }),
{
    let request = request_of(input)->0;
    law_join_is_written_with_its_type(join, steps);
    law_request_is_rendered_with_its_joins(input, steps);
    let clauses = joins_rendering(seq![join], steps)->0.text;
    law_role_request_selects_its_columns(request, clauses, items, exprs);
    let head = "SELECT "@ + joined(items, ", "@) + ROLE_TABLES@;
    let group = if request.ungrouped || request.dimensions.len() == 0 {
        Seq::<char>::empty()
    } else {
        " GROUP BY "@ + joined(exprs, ", "@)
    };
    assert(request_rendering(input, steps)->0.text =~= head + clauses + group);
    assert(head + clauses =~= head + " "@ + join.join_type + " JOIN ("@ + sql_rendering(
        join.sql,
        steps,
    )->0.text + ") AS "@ + join.alias + " ON "@ + expanded(Fixture::Roles, join.on));
}

/// Two requests that differ in the join type of one subquery only are rendered alike but for that
/// type, which stands between a space and the word for the join.
pub proof fn law_requests_differ_in_join_type_alone(
    input: JsonTree,
    other: JsonTree,
    k: int,
    join_type: Seq<char>,
    steps: nat,
)
    requires
        request_rendering(input, steps) is Some,
        request_of(other) == request_of(input),
        0 <= k < joins_of(input)->0.len(),
        joins_of(other) == Some(
            joins_of(input)->0.update(k, JoinModel { join_type, ..joins_of(input)->0[k] }),
        ),
    ensures
        request_rendering(other, steps) is Some,
        request_rendering(other, steps)->0.members == request_rendering(input, steps)->0.members,
        exists|head: Seq<char>, tail: Seq<char>|
            {
                &&& request_rendering(input, steps)->0.text == #[trigger] (head + " "@
                    + joins_of(input)->0[k].join_type + " JOIN ("@ + tail)
                &&& request_rendering(other, steps)->0.text == head + " "@ + join_type + " JOIN ("@
                    + tail
            },
{
    let request = request_of(input)->0;
    let list = joins_of(input)->0;
    let changed = joins_of(other)->0;
    law_request_is_rendered_with_its_joins(input, steps);
    law_request_is_rendered_with_its_joins(other, steps);
    law_join_type_alone_differs(list, k, join_type, steps);
    let clauses = joins_rendering(list, steps)->0.text;
    let other_clauses = joins_rendering(changed, steps)->0.text;
    let (head, tail) = choose|head: Seq<char>, tail: Seq<char>|
        {
            &&& clauses == #[trigger] (head + " "@ + list[k].join_type + " JOIN ("@ + tail)
            &&& other_clauses == head + " "@ + join_type + " JOIN ("@ + tail
        };
    let items = column_texts(Fixture::Roles, request.dimensions) + column_texts(
        Fixture::Roles,
        request.measures,
    );
    let exprs = column_exprs(Fixture::Roles, request.dimensions);
    law_role_request_selects_its_columns(request, clauses, items, exprs);
    law_role_request_selects_its_columns(request, other_clauses, items, exprs);
    let front = "SELECT "@ + joined(items, ", "@) + ROLE_TABLES@;
    let group = if request.ungrouped || request.dimensions.len() == 0 {
        Seq::<char>::empty()
    } else {
        " GROUP BY "@ + joined(exprs, ", "@)
    };
    lemma_inside(front, head, list[k].join_type, tail, group);
    lemma_inside(front, head, join_type, tail, group);
    assert(request_rendering(input, steps)->0.text =~= front + clauses + group);
    assert(request_rendering(other, steps)->0.text =~= front + other_clauses + group);
    assert(request_rendering(input, steps)->0.text == (front + head) + " "@ + list[k].join_type
        + " JOIN ("@ + (tail + group));
}

proof fn lemma_inside(
    front: Seq<char>,
    head: Seq<char>,
    join_type: Seq<char>,
    tail: Seq<char>,
    group: Seq<char>,
)
    ensures
        front + (head + " "@ + join_type + " JOIN ("@ + tail) + group == (front + head) + " "@
            + join_type + " JOIN ("@ + (tail + group),
{
    assert(front + (head + " "@ + join_type + " JOIN ("@ + tail) + group =~= (front + head) + " "@
        + join_type + " JOIN ("@ + (tail + group));
}

/// No marker of a load request stands in the text.
pub open spec fn holds_no_marker(text: Seq<char>) -> bool {
    forall|before: Seq<char>, after: Seq<char>|
        text != #[trigger] (before + "SELECT * FROM {"@ + after)
}

proof fn lemma_marker_stands_first(before: Seq<char>, body: Seq<char>)
    requires
        holds_no_marker(before),
        body.len() > 0,
        body[0] == '{',
    ensures
        first_occurrence(before + "SELECT * FROM "@ + body, "SELECT * FROM {"@) == Some(
            before.len() as int,
        ),
        (before + "SELECT * FROM "@ + body).take(before.len() as int) == before,
        (before + "SELECT * FROM "@ + body).skip(before.len() as int + "SELECT * FROM "@.len())
            == body,
{
    reveal_strlit("SELECT * FROM {");
    reveal_strlit("SELECT * FROM ");
    let marker = "SELECT * FROM {"@;
    let text = before + "SELECT * FROM "@ + body;
    let start = before.len() as int;
    assert(text.subrange(start, start + 15) =~= marker);
    assert forall|j: int| j < start implies !#[trigger] occurs_at(text, marker, j) by {
        if occurs_at(text, marker, j) {
            if j + 15 <= start {
                assert(text.subrange(j, j + 15) =~= before.subrange(j, j + 15));
                assert(before =~= before.take(j) + marker + before.skip(j + 15));
            } else {
                assert(text.subrange(j, j + 15)[start - j] == 'S');
                assert(marker[start - j] != 'S');
            }
        }
    }
    lemma_first_occurrence(text, marker, start);
    assert(text.take(start) =~= before);
    assert(text.skip(start + 14) =~= body);
}

/// The first load request of a text gives way to what stands for it: the text in front of it and
/// behind it stays, and rendering goes on with the whole. The members of this request come first,
/// then those of the rest. There is no rendering where the JSON behind the marker cannot be read
/// as a request, where the rest has none, or where no step is left.
pub proof fn law_first_request_gives_way(before: Seq<char>, body: Seq<char>, steps: nat)
    requires
        holds_no_marker(before),
        body.len() > 0,
        body[0] == '{',
    ensures
        sql_rendering(before + "SELECT * FROM "@ + body, 0) is None,
        json_prefix(body) is None ==> sql_rendering(
            before + "SELECT * FROM "@ + body,
            steps + 1,
        ) is None,
        json_prefix(body) matches Some((input, rest)) ==> match request_rendering(input, steps) {
            None => sql_rendering(before + "SELECT * FROM "@ + body, steps + 1) is None,
            Some(select) => match sql_rendering(before + select.text + rest, steps) {
                None => sql_rendering(before + "SELECT * FROM "@ + body, steps + 1) is None,
                Some(after) => sql_rendering(before + "SELECT * FROM "@ + body, steps + 1) == Some(
                    Rendering { text: after.text, members: select.members + after.members },
                ),
            },
        },
{
    lemma_marker_stands_first(before, body);
}

/// A text without a marker is rendered over the role tables as it is, refers to no member, and is
/// not rendered over the joined values.
pub proof fn law_text_without_marker_is_no_request(text: Seq<char>, steps: nat)
    requires
        holds_no_marker(text),
    ensures
        sql_rendering(text, steps) == Some((Rendering { text, members: seq![] })),
        value_rendering(text) is None,
{
    law_found_where_it_first_stands(text, "SELECT * FROM {"@);
    if first_occurrence(text, "SELECT * FROM {"@) is Some {
        let i = first_occurrence(text, "SELECT * FROM {"@)->0;
        assert(text == text.take(i) + "SELECT * FROM {"@ + text.skip(
            i + "SELECT * FROM {"@.len(),
        ));
    }
}

/// Any two columns of a request have different aliases.
pub open spec fn aliases_differ(request: RequestModel) -> bool {
    let list = request.dimensions + request.measures;
    forall|i: int, j: int| 0 <= i < j < list.len() ==> (#[trigger] list[i]).alias != (
    #[trigger] list[j]).alias
}

/// The aliases of a request hold no duplicate exactly where any two of its columns, dimensions and
/// measures taken together, have different aliases.
pub proof fn law_shared_alias_is_a_duplicate(request: RequestModel)
    ensures
        aliases(request).no_duplicates() <==> aliases_differ(request),
{
    let list = request.dimensions + request.measures;
    let names = aliases(request);
    if aliases_differ(request) {
        assert forall|i: int, j: int| 0 <= i < names.len() && 0 <= j < names.len() && i
            != j implies names[i] != names[j] by {
            if i < j {
                assert(list[i].alias != list[j].alias);
            } else {
                assert(list[j].alias != list[i].alias);
            }
        }
    }
    if names.no_duplicates() {
        assert forall|i: int, j: int| 0 <= i < j < list.len() implies (#[trigger] list[i]).alias != (
        #[trigger] list[j]).alias by {
            assert(names[i] != names[j]);
        }
    }
}

/// Over the joined values the first load request gives way to its `SELECT`, and the text in front
/// of it and behind it stays. That is so exactly where the JSON behind the marker can be read as a
/// request, lists the path from orders to buyers as its only join path, and gives no two columns
/// one alias.
pub proof fn law_first_value_request_gives_way(before: Seq<char>, body: Seq<char>)
    requires
        holds_no_marker(before),
        body.len() > 0,
        body[0] == '{',
    ensures
        json_prefix(body) is None ==> value_rendering(before + "SELECT * FROM "@ + body) is None,
        json_prefix(body) matches Some((input, rest)) ==> {
            let path = JsonTree::List(
                seq![
                    JsonTree::List(
                        seq![JsonTree::Text("Orders"@), JsonTree::Text("Buyers"@)],
                    ),
                ],
            );
            if request_of(input) is Some && holds_within(input, "query"@, "joinHints"@, path)
                && aliases_differ(request_of(input)->0) {
                value_rendering(before + "SELECT * FROM "@ + body) == Some(
                    before + value_select(request_of(input)->0) + rest,
                )
            } else {
                value_rendering(before + "SELECT * FROM "@ + body) is None
            }
        },
{
    lemma_marker_stands_first(before, body);
    if json_prefix(body) is Some {
        let (input, rest) = json_prefix(body)->0;
        law_join_path_is_listed(input, "Orders"@, "Buyers"@, "Orders"@, "Buyers"@);
        if request_of(input) is Some {
            law_shared_alias_is_a_duplicate(request_of(input)->0);
        }
    }
}

} // verus!
