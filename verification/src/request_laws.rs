//! What holds of load requests that are read out of JSON.
use crate::json::{json_document, json_field, json_items, json_text, JsonTree};
use crate::request::{
    column_of, hints_at, join_of, joins_of, request_of, ColumnModel, JoinModel,
};
use vstd::prelude::*;

verus! {

/// An object holds a value under a key.
pub open spec fn holds(tree: JsonTree, key: Seq<char>, value: JsonTree) -> bool {
    tree matches JsonTree::Object(fields) && fields.contains_key(key) && fields[key] == value
}

/// An object holds a value under a key, in an object that it holds under another.
pub open spec fn holds_within(
    tree: JsonTree,
    outer: Seq<char>,
    key: Seq<char>,
    value: JsonTree,
) -> bool {
    exists|inner: JsonTree| #[trigger] holds(tree, outer, inner) && holds(inner, key, value)
}

/// The query of a request holds a list under a key, or `items` is empty and it holds none there.
pub open spec fn lists(input: JsonTree, key: Seq<char>, items: Seq<JsonTree>) -> bool {
    ||| holds_within(input, "query"@, key, JsonTree::List(items))
    ||| items.len() == 0 && forall|other: Seq<JsonTree>|
        !#[trigger] holds_within(input, "query"@, key, JsonTree::List(other))
}

proof fn lemma_field_is_held(tree: JsonTree, key: Seq<char>, value: JsonTree)
    ensures
        holds(tree, key, value) ==> json_field(tree, key) == value,
        json_field(tree, key) != JsonTree::Null ==> holds(tree, key, json_field(tree, key)),
{
}

proof fn lemma_inner_field_is_held(
    tree: JsonTree,
    outer: Seq<char>,
    key: Seq<char>,
    value: JsonTree,
)
    ensures
        holds_within(tree, outer, key, value) ==> json_field(json_field(tree, outer), key)
            == value,
        value != JsonTree::Null && json_field(json_field(tree, outer), key) == value
            ==> holds_within(tree, outer, key, value),
{
    lemma_field_is_held(tree, outer, json_field(tree, outer));
    lemma_field_is_held(json_field(tree, outer), key, value);
    if holds_within(tree, outer, key, value) {
        let inner = choose|inner: JsonTree| #[trigger]
            holds(tree, outer, inner) && holds(inner, key, value);
        lemma_field_is_held(inner, key, value);
    }
    if value != JsonTree::Null && json_field(json_field(tree, outer), key) == value {
        assert(holds(tree, outer, json_field(tree, outer)));
    }
}

proof fn lemma_items_are_listed(input: JsonTree, key: Seq<char>, items: Seq<JsonTree>)
    ensures
        lists(input, key, items) <==> items == json_items(
            json_field(json_field(input, "query"@), key),
        ),
{
    let value = json_field(json_field(input, "query"@), key);
    lemma_inner_field_is_held(input, "query"@, key, JsonTree::List(items));
    assert forall|other: Seq<JsonTree>| #[trigger]
        holds_within(input, "query"@, key, JsonTree::List(other)) <==> value == JsonTree::List(
            other,
        ) by {
        lemma_inner_field_is_held(input, "query"@, key, JsonTree::List(other));
    }
    if items.len() == 0 {
        assert(items =~= Seq::<JsonTree>::empty());
    }
    if value is List {
        assert(holds_within(input, "query"@, key, JsonTree::List(value->List_0)));
    }
}

/// A member that is named stands for a reference to that name, under the alias that the request
/// lists for it. Without such an alias it stands for nothing.
pub proof fn law_named_member_is_referred_to(input: JsonTree, name: Seq<char>, alias: Seq<char>)
    requires
        name.len() == 0 || name[0] != '{',
    ensures
        column_of(input, JsonTree::Text(name)) matches Some(column) ==> column.expr == "${"@ + name
            + "}"@ && holds_within(
            input,
            "member_to_alias"@,
            name,
            JsonTree::Text(column.alias),
        ),
        holds_within(input, "member_to_alias"@, name, JsonTree::Text(alias)) ==> column_of(
            input,
            JsonTree::Text(name),
        ) is Some && column_of(input, JsonTree::Text(name))->0.alias == alias,
{
    lemma_inner_field_is_held(input, "member_to_alias"@, name, JsonTree::Text(alias));
    if column_of(input, JsonTree::Text(name)) is Some {
        lemma_inner_field_is_held(
            input,
            "member_to_alias"@,
            name,
            JsonTree::Text(column_of(input, JsonTree::Text(name))->0.alias),
        );
    }
}

/// A member that is written as an expression stands for the SQL and the alias that it brings,
/// whatever else the request holds. Without either it stands for nothing, and neither does a
/// member that is no JSON or no text.
pub proof fn law_expression_brings_sql_and_alias(
    input: JsonTree,
    member: JsonTree,
    text: Seq<char>,
    sql: Seq<char>,
    alias: Seq<char>,
)
    requires
        text.len() > 0,
        text[0] == '{',
    ensures
        column_of(input, JsonTree::Text(text)) matches Some(column) ==> {
            &&& json_document(text) is Some
            &&& holds_within(
                json_document(text)->0,
                "expr"@,
                "sql"@,
                JsonTree::Text(column.expr),
            )
            &&& holds(json_document(text)->0, "alias"@, JsonTree::Text(column.alias))
        },
        (json_document(text) matches Some(definition) && holds_within(
            definition,
            "expr"@,
            "sql"@,
            JsonTree::Text(sql),
        ) && holds(definition, "alias"@, JsonTree::Text(alias))) ==> column_of(
            input,
            JsonTree::Text(text),
        ) == Some(ColumnModel { expr: sql, alias }),
        column_of(input, member) is Some ==> member is Text,
{
    if json_document(text) is Some {
        let definition = json_document(text)->0;
        lemma_inner_field_is_held(definition, "expr"@, "sql"@, JsonTree::Text(sql));
        lemma_field_is_held(definition, "alias"@, JsonTree::Text(alias));
        if column_of(input, JsonTree::Text(text)) is Some {
            let column = column_of(input, JsonTree::Text(text))->0;
            lemma_inner_field_is_held(definition, "expr"@, "sql"@, JsonTree::Text(column.expr));
            lemma_field_is_held(definition, "alias"@, JsonTree::Text(column.alias));
        }
    }
}

/// A request has one dimension for each member under `dimensions` of its query, one measure for
/// each under `measures`, in order, and is ungrouped exactly where the query says so. It cannot be
/// read exactly where one of these members stands for nothing.
pub proof fn law_request_has_what_its_query_lists(
    input: JsonTree,
    dimensions: Seq<JsonTree>,
    measures: Seq<JsonTree>,
)
    requires
        lists(input, "dimensions"@, dimensions),
        lists(input, "measures"@, measures),
    ensures
        request_of(input) matches Some(request) ==> {
            &&& request.dimensions.len() == dimensions.len()
            &&& request.measures.len() == measures.len()
            &&& forall|i: int|
                0 <= i < dimensions.len() ==> column_of(input, #[trigger] dimensions[i]) == Some(
                    request.dimensions[i],
                )
            &&& forall|i: int|
                0 <= i < measures.len() ==> column_of(input, #[trigger] measures[i]) == Some(
                    request.measures[i],
                )
            &&& request.ungrouped <==> holds_within(
                input,
                "query"@,
                "ungrouped"@,
                JsonTree::Bool(true),
            )
        },
        request_of(input) is None ==> (exists|i: int|
            0 <= i < dimensions.len() && column_of(input, #[trigger] dimensions[i]) is None) || (
        exists|i: int|
            0 <= i < measures.len() && column_of(input, #[trigger] measures[i]) is None),
{
    lemma_items_are_listed(input, "dimensions"@, dimensions);
    lemma_items_are_listed(input, "measures"@, measures);
    lemma_inner_field_is_held(input, "query"@, "ungrouped"@, JsonTree::Bool(true));
}

/// An entry of the joined subqueries stands for the SQL, join type and alias that it holds under
/// those names, and for the SQL of its condition. Without one of these it stands for nothing.
pub proof fn law_join_has_what_its_entry_holds(
    entry: JsonTree,
    join: JoinModel,
    condition: Seq<char>,
)
    ensures
        join_of(entry) matches Some(found) ==> {
            &&& holds(entry, "sql"@, JsonTree::Text(found.sql))
            &&& holds(entry, "joinType"@, JsonTree::Text(found.join_type))
            &&& holds(entry, "alias"@, JsonTree::Text(found.alias))
            &&& exists|text: Seq<char>|
                {
                    &&& #[trigger] holds(entry, "on"@, JsonTree::Text(text))
                    &&& json_document(text) is Some
                    &&& holds_within(
                        json_document(text)->0,
                        "expr"@,
                        "sql"@,
                        JsonTree::Text(found.on),
                    )
                }
        },
        ({
            &&& holds(entry, "sql"@, JsonTree::Text(join.sql))
            &&& holds(entry, "joinType"@, JsonTree::Text(join.join_type))
            &&& holds(entry, "alias"@, JsonTree::Text(join.alias))
            &&& holds(entry, "on"@, JsonTree::Text(condition))
            &&& json_document(condition) is Some
            &&& holds_within(
                json_document(condition)->0,
                "expr"@,
                "sql"@,
                JsonTree::Text(join.on),
            )
        }) ==> join_of(entry) == Some(join),
{
    if json_document(condition) is Some {
        let definition = json_document(condition)->0;
        lemma_inner_field_is_held(definition, "expr"@, "sql"@, JsonTree::Text(join.on));
    }
    if join_of(entry) is Some {
        let found = join_of(entry)->0;
        let text = json_text(json_field(entry, "on"@))->0;
        assert(holds(entry, "on"@, JsonTree::Text(text)));
        lemma_inner_field_is_held(
            json_document(text)->0,
            "expr"@,
            "sql"@,
            JsonTree::Text(found.on),
        );
    }
}

/// A request joins one subquery for each entry under `subqueryJoins` of its query, in order. They
/// cannot be read exactly where one of the entries stands for nothing.
pub proof fn law_joins_are_what_the_query_lists(input: JsonTree, entries: Seq<JsonTree>)
    requires
        lists(input, "subqueryJoins"@, entries),
    ensures
        joins_of(input) matches Some(list) ==> {
            &&& list.len() == entries.len()
            &&& forall|i: int|
                0 <= i < entries.len() ==> join_of(#[trigger] entries[i]) == Some(list[i])
        },
        joins_of(input) is None ==> exists|i: int|
            0 <= i < entries.len() && join_of(#[trigger] entries[i]) is None,
{
    lemma_items_are_listed(input, "subqueryJoins"@, entries);
}

/// The query of a request lists the one path from one cube to another exactly where it is asked
/// for, and at most one path is.
pub proof fn law_join_path_is_listed(
    input: JsonTree,
    from: Seq<char>,
    to: Seq<char>,
    other_from: Seq<char>,
    other_to: Seq<char>,
)
    ensures
        hints_at(input, from, to) <==> holds_within(
            input,
            "query"@,
            "joinHints"@,
            JsonTree::List(
                seq![JsonTree::List(seq![JsonTree::Text(from), JsonTree::Text(to)])],
            ),
        ),
        hints_at(input, from, to) && hints_at(input, other_from, other_to) ==> from == other_from
            && to == other_to,
{
    let path = seq![JsonTree::Text(from), JsonTree::Text(to)];
    let other_path = seq![JsonTree::Text(other_from), JsonTree::Text(other_to)];
    lemma_inner_field_is_held(
        input,
        "query"@,
        "joinHints"@,
        JsonTree::List(seq![JsonTree::List(path)]),
    );
    if hints_at(input, from, to) && hints_at(input, other_from, other_to) {
        assert(seq![JsonTree::List(path)][0] == seq![JsonTree::List(other_path)][0]);
        assert(path[0] == other_path[0] && path[1] == other_path[1]);
    }
}

} // verus!
