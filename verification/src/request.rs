//! Load requests, read out of the JSON in which the wrapper SQL carries them.
use crate::json::{
    field, json_document, json_field, json_items, json_text, json_tree, parse_document, JsonTree,
};
use crate::text::starts_with_char;
use serde_json::Value;
use vstd::prelude::*;
use vstd::string::*;

verus! {

/// A column that a load request asks for: an expression over cube members, and its name.
#[derive(Debug)]
pub struct RequestColumn {
    pub expr: String,
    pub alias: String,
}

/// The columns that a load request asks for, and whether it asks for ungrouped rows.
#[derive(Debug)]
pub struct LoadRequest {
    pub dimensions: Vec<RequestColumn>,
    pub measures: Vec<RequestColumn>,
    pub ungrouped: bool,
}

/// A subquery that a load request joins to the cubes.
#[derive(Debug)]
pub struct SubqueryJoin {
    pub sql: String,
    pub on: String,
    pub join_type: String,
    pub alias: String,
}

/// A column of a request.
pub ghost struct ColumnModel {
    pub expr: Seq<char>,
    pub alias: Seq<char>,
}

/// A load request.
pub ghost struct RequestModel {
    pub dimensions: Seq<ColumnModel>,
    pub measures: Seq<ColumnModel>,
    pub ungrouped: bool,
}

/// A joined subquery.
pub ghost struct JoinModel {
    pub sql: Seq<char>,
    pub on: Seq<char>,
    pub join_type: Seq<char>,
    pub alias: Seq<char>,
}

impl View for RequestColumn {
    type V = ColumnModel;

    open spec fn view(&self) -> ColumnModel {
        ColumnModel { expr: self.expr@, alias: self.alias@ }
    }
}

/// The columns of a list, as models.
pub open spec fn columns(list: Seq<RequestColumn>) -> Seq<ColumnModel> {
    list.map_values(|column: RequestColumn| column@)
}

impl View for LoadRequest {
    type V = RequestModel;

    open spec fn view(&self) -> RequestModel {
        RequestModel {
            dimensions: columns(self.dimensions@),
            measures: columns(self.measures@),
            ungrouped: self.ungrouped,
        }
    }
}

impl View for SubqueryJoin {
    type V = JoinModel;

    open spec fn view(&self) -> JoinModel {
        JoinModel {
            sql: self.sql@,
            on: self.on@,
            join_type: self.join_type@,
            alias: self.alias@,
        }
    }
}

/// The joins of a list, as models.
pub open spec fn joins(list: Seq<SubqueryJoin>) -> Seq<JoinModel> {
    list.map_values(|join: SubqueryJoin| join@)
}

/// The SQL of a member expression: what it holds under `sql` of its `expr`.
pub open spec fn expression_sql(definition: JsonTree) -> Option<Seq<char>> {
    json_text(json_field(json_field(definition, "expr"@), "sql"@))
}

/// The column that one member of a request asks for. A member is either the JSON of a member
/// expression, which brings its own SQL and alias, or the name of a cube member, whose alias the
/// request lists under `member_to_alias`.
pub open spec fn column_of(input: JsonTree, member: JsonTree) -> Option<ColumnModel> {
    match json_text(member) {
        None => None,
        Some(text) => if text.len() > 0 && text[0] == '{' {
            match json_document(text) {
                None => None,
                Some(definition) => match (
                    expression_sql(definition),
                    json_text(json_field(definition, "alias"@)),
                ) {
                    (Some(expr), Some(alias)) => Some(ColumnModel { expr, alias }),
                    _ => None,
                },
            }
        } else {
            match json_text(json_field(json_field(input, "member_to_alias"@), text)) {
                None => None,
                Some(alias) => Some(ColumnModel { expr: "${"@ + text + "}"@, alias }),
            }
        },
    }
}

/// The columns that the members of a request ask for, where each of them asks for one.
pub open spec fn columns_of(input: JsonTree, members: Seq<JsonTree>) -> Option<Seq<ColumnModel>> {
    if forall|i: int| 0 <= i < members.len() ==> column_of(input, #[trigger] members[i]) is Some {
        Some(members.map_values(|member: JsonTree| column_of(input, member)->0))
    } else {
        None
    }
}

/// The load request that a JSON value describes.
pub open spec fn request_of(input: JsonTree) -> Option<RequestModel> {
    let query = json_field(input, "query"@);
    match (
        columns_of(input, json_items(json_field(query, "dimensions"@))),
        columns_of(input, json_items(json_field(query, "measures"@))),
    ) {
        (Some(dimensions), Some(measures)) => Some(
            RequestModel {
                dimensions,
                measures,
                ungrouped: json_field(query, "ungrouped"@) == JsonTree::Bool(true),
            },
        ),
        _ => None,
    }
}

/// The subquery that one entry of `subqueryJoins` describes.
pub open spec fn join_of(join: JsonTree) -> Option<JoinModel> {
    match (
        json_text(json_field(join, "sql"@)),
        json_text(json_field(join, "on"@)),
        json_text(json_field(join, "joinType"@)),
        json_text(json_field(join, "alias"@)),
    ) {
        (Some(sql), Some(on), Some(join_type), Some(alias)) => match json_document(on) {
            None => None,
            Some(definition) => match expression_sql(definition) {
                None => None,
                Some(on) => Some(JoinModel { sql, on, join_type, alias }),
            },
        },
        _ => None,
    }
}

/// The subqueries that a request joins, where each entry describes one.
pub open spec fn joins_of(input: JsonTree) -> Option<Seq<JoinModel>> {
    let entries = json_items(json_field(json_field(input, "query"@), "subqueryJoins"@));
    if forall|i: int| 0 <= i < entries.len() ==> join_of(#[trigger] entries[i]) is Some {
        Some(entries.map_values(|entry: JsonTree| join_of(entry)->0))
    } else {
        None
    }
}

/// The request asks for exactly one join path, from the first cube to the second.
pub open spec fn hints_at(input: JsonTree, from: Seq<char>, to: Seq<char>) -> bool {
    json_field(json_field(input, "query"@), "joinHints"@) == JsonTree::List(
        seq![JsonTree::List(seq![JsonTree::Text(from), JsonTree::Text(to)])],
    )
}

/// The text under a key.
fn text_field(value: &Value, key: &str) -> (r: Option<String>)
    ensures
        r is Some <==> json_text(json_field(json_tree(*value), key@)) is Some,
        r is Some ==> json_text(json_field(json_tree(*value), key@)) == Some(r->0@),
{
    match field(value, key).as_str() {
        Some(text) => Some(text.to_owned()),
        None => None,
    }
}

/// Reads the SQL of a member expression.
fn read_expression_sql(definition: &Value) -> (r: Option<String>)
    ensures
        r is Some <==> expression_sql(json_tree(*definition)) is Some,
        r is Some ==> expression_sql(json_tree(*definition)) == Some(r->0@),
{
    text_field(field(definition, "expr"), "sql")
}

/// Reads the column that one member of a request asks for.
fn read_column(input: &Value, member: &Value) -> (r: Option<RequestColumn>)
    ensures
        r is Some <==> column_of(json_tree(*input), json_tree(*member)) is Some,
        r is Some ==> column_of(json_tree(*input), json_tree(*member)) == Some(r->0@),
{
    let text = match member.as_str() {
        Some(text) => text,
        None => return None,
    };
    if starts_with_char(text, '{') {
        match parse_document(text) {
            Ok(definition) => match (
                read_expression_sql(&definition),
                text_field(&definition, "alias"),
            ) {
                (Some(expr), Some(alias)) => Some(RequestColumn { expr, alias }),
                _ => None,
            },
            Err(_) => None,
        }
    } else {
        match text_field(field(input, "member_to_alias"), text) {
            Some(alias) => {
                let expr = "${".to_owned().concat(text).concat("}");
                Some(RequestColumn { expr, alias })
            },
            None => None,
        }
    }
}

/// The items under a key; none where the key holds no list.
fn items_field<'a>(value: &'a Value, key: &str) -> (r: Option<&'a Vec<Value>>)
    ensures
        r is Some ==> json_items(json_field(json_tree(*value), key@)) == r->0@.map_values(
            |item: Value| json_tree(item),
        ),
        r is None ==> json_items(json_field(json_tree(*value), key@)).len() == 0,
{
    field(value, key).as_array()
}

/// Reads the columns that the members under a key of the query ask for.
fn read_columns(input: &Value, key: &str) -> (r: Option<Vec<RequestColumn>>)
    ensures
        r is Some <==> columns_of(
            json_tree(*input),
            json_items(json_field(json_field(json_tree(*input), "query"@), key@)),
        ) is Some,
        r is Some ==> columns_of(
            json_tree(*input),
            json_items(json_field(json_field(json_tree(*input), "query"@), key@)),
        ) == Some(columns(r->0@)),
{
    let mut list: Vec<RequestColumn> = Vec::new();
    let ghost trees = json_items(json_field(json_field(json_tree(*input), "query"@), key@));
    if let Some(members) = items_field(field(input, "query"), key) {
        let mut i: usize = 0;
        while i < members.len()
            invariant
                i <= members@.len(),
                trees == json_items(json_field(json_field(json_tree(*input), "query"@), key@)),
                trees == members@.map_values(|item: Value| json_tree(item)),
                list@.len() == i,
                forall|j: int|
                    0 <= j < i ==> column_of(json_tree(*input), #[trigger] trees[j]) == Some(
                        list@[j]@,
                    ),
            decreases members@.len() - i,
        {
            assert(trees[i as int] == json_tree(members@[i as int]));
            match read_column(input, &members[i]) {
                Some(column) => list.push(column),
                None => return None,
            }
            i = i + 1;
        }
    }
    assert(columns(list@) =~= trees.map_values(
        |member: JsonTree| column_of(json_tree(*input), member)->0,
    ));
    Some(list)
}

/// Reads the load request that a JSON value describes.
pub fn read_request(input: &Value) -> (r: Option<LoadRequest>)
    ensures
        r is Some <==> request_of(json_tree(*input)) is Some,
        r is Some ==> request_of(json_tree(*input)) == Some(r->0@),
{
    let dimensions = match read_columns(input, "dimensions") {
        Some(list) => list,
        None => return None,
    };
    let measures = match read_columns(input, "measures") {
        Some(list) => list,
        None => return None,
    };
    let ungrouped = match field(field(input, "query"), "ungrouped").as_bool() {
        Some(flag) => flag,
        None => false,
    };
    Some(LoadRequest { dimensions, measures, ungrouped })
}

/// Reads the subquery that one entry describes.
fn read_join(join: &Value) -> (r: Option<SubqueryJoin>)
    ensures
        r is Some <==> join_of(json_tree(*join)) is Some,
        r is Some ==> join_of(json_tree(*join)) == Some(r->0@),
{
    match (
        text_field(join, "sql"),
        text_field(join, "on"),
        text_field(join, "joinType"),
        text_field(join, "alias"),
    ) {
        (Some(sql), Some(on), Some(join_type), Some(alias)) => match parse_document(on.as_str()) {
            Ok(definition) => match read_expression_sql(&definition) {
                Some(on) => Some(SubqueryJoin { sql, on, join_type, alias }),
                None => None,
            },
            Err(_) => None,
        },
        _ => None,
    }
}

/// Reads the subqueries that a request joins.
pub fn read_joins(input: &Value) -> (r: Option<Vec<SubqueryJoin>>)
    ensures
        r is Some <==> joins_of(json_tree(*input)) is Some,
        r is Some ==> joins_of(json_tree(*input)) == Some(joins(r->0@)),
{
    let mut list: Vec<SubqueryJoin> = Vec::new();
    let ghost trees = json_items(
        json_field(json_field(json_tree(*input), "query"@), "subqueryJoins"@),
    );
    if let Some(entries) = items_field(field(input, "query"), "subqueryJoins") {
        let mut i: usize = 0;
        while i < entries.len()
            invariant
                i <= entries@.len(),
                trees == json_items(
                    json_field(json_field(json_tree(*input), "query"@), "subqueryJoins"@),
                ),
                trees == entries@.map_values(|item: Value| json_tree(item)),
                list@.len() == i,
                forall|j: int| 0 <= j < i ==> join_of(#[trigger] trees[j]) == Some(list@[j]@),
            decreases entries@.len() - i,
        {
            assert(trees[i as int] == json_tree(entries@[i as int]));
            match read_join(&entries[i]) {
                Some(join) => list.push(join),
                None => return None,
            }
            i = i + 1;
        }
    }
    assert(joins(list@) =~= trees.map_values(|entry: JsonTree| join_of(entry)->0));
    Some(list)
}

/// Whether a value is the given text.
fn is_text(value: &Value, text: &str) -> (r: bool)
    ensures
        r == (json_tree(*value) == JsonTree::Text(text@)),
{
    match value.as_str() {
        Some(held) => held.to_owned() == text.to_owned(),
        None => false,
    }
}

/// Whether the request asks for exactly one join path, from the first cube to the second.
pub fn has_join_hint(input: &Value, from: &str, to: &str) -> (r: bool)
    ensures
        r == hints_at(json_tree(*input), from@, to@),
{
    let ghost wanted = seq![JsonTree::List(seq![JsonTree::Text(from@), JsonTree::Text(to@)])];
    assert(wanted.len() == 1 && wanted[0] == JsonTree::List(
        seq![JsonTree::Text(from@), JsonTree::Text(to@)],
    ));
    let paths = match field(field(input, "query"), "joinHints").as_array() {
        Some(paths) => paths,
        None => return false,
    };
    let ghost path_trees = paths@.map_values(|item: Value| json_tree(item));
    assert(path_trees.len() == paths@.len());
    if paths.len() != 1 {
        return false;
    }
    assert(path_trees[0] == json_tree(paths@[0]));
    let path = match paths[0].as_array() {
        Some(path) => path,
        None => return false,
    };
    let ghost steps = path@.map_values(|item: Value| json_tree(item));
    let ghost wanted_steps = seq![JsonTree::Text(from@), JsonTree::Text(to@)];
    assert(steps.len() == path@.len() && wanted_steps.len() == 2);
    if path.len() != 2 {
        return false;
    }
    assert(steps[0] == json_tree(path@[0]) && steps[1] == json_tree(path@[1]));
    assert(wanted_steps[0] == JsonTree::Text(from@) && wanted_steps[1] == JsonTree::Text(to@));
    if is_text(&path[0], from) && is_text(&path[1], to) {
        assert(steps =~= wanted_steps);
        assert(path_trees =~= wanted);
        true
    } else {
        false
    }
}

} // verus!
