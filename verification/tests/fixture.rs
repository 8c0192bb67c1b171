use cubesql::fixture::{
    fixture_sql, render_fixture_sql, render_role_request, render_value_request,
};
use cubesql::members::{expand, Fixture};
use cubesql::request::{
    has_join_hint, read_joins, read_request, LoadRequest, RequestColumn,
};
use cubesql::results::append_rows;
use cubesql::role_cases::role_cases;
use datafusion::arrow::array::StringArray;
use datafusion::execution::context::SessionContext;
use serde_json::Value;

const ROLES: &str = " FROM
            (VALUES ('1', 'Stored Z'), ('2', 'Stored A')) AS \"Orders\"(id, name)
            LEFT JOIN (VALUES ('1', 'Inspector A'), ('2', 'Inspector Z')) AS \"Inspectors\"(id, name) ON \"Orders\".id = \"Inspectors\".id
            LEFT JOIN (VALUES ('1', 'Buyer Z'), ('2', 'Buyer A')) AS \"Buyers\"(id, name) ON \"Orders\".id = \"Buyers\".id
            ";

const VALUES: &str = " FROM \
    (VALUES ('1', 'Stored Z'), ('2', 'Stored A')) AS \"Orders\"(id, stored_value) \
    LEFT JOIN (VALUES ('1', 'Current A'), ('2', 'Current Z')) AS \"Buyers\"(id, current_value) \
    ON \"Orders\".id = \"Buyers\".id";

fn column(expr: &str, alias: &str) -> RequestColumn {
    RequestColumn {
        expr: expr.to_string(),
        alias: alias.to_string(),
    }
}

fn quoted(text: &str) -> String {
    Value::String(text.to_string()).to_string()
}

fn rows(sql: &str, names: &[&str]) -> Vec<Vec<String>> {
    let runtime = tokio::runtime::Builder::new_multi_thread().build().unwrap();
    let context = SessionContext::new();
    let batches = runtime.block_on(async {
        context
            .sql(sql)
            .await
            .unwrap()
            .collect()
            .await
            .unwrap()
    });
    let mut rows = vec![];
    for batch in batches {
        let columns: Vec<Vec<String>> = names
            .iter()
            .map(|name| {
                let index = batch.schema().index_of(name).unwrap();
                let column = batch.column(index).as_any().downcast_ref::<StringArray>();
                let column = column.unwrap();
                (0..batch.num_rows())
                    .map(|row| column.value(row).to_string())
                    .collect()
            })
            .collect();
        append_rows(&columns, batch.num_rows(), &mut rows);
    }
    rows
}

#[test]
fn references_become_columns() {
    let (text, members) = expand(Fixture::Roles, "LOWER(${Inspectors.name}) || ${Orders.id}");
    assert_eq!(text, "LOWER(\"Inspectors\".\"name\") || \"Orders\".\"id\"");
    assert_eq!(members, vec!["Inspectors.name", "Orders.id"]);
    let (text, members) = expand(
        Fixture::JoinedValues,
        "${Orders.name}, ${Buyers.name}, ${Buyers.id}, ${Inspectors.name}",
    );
    assert_eq!(
        text,
        "\"Orders\".\"stored_value\", \"Buyers\".\"current_value\", \"Buyers\".\"id\", ${Inspectors.name}"
    );
    assert_eq!(members, vec!["Orders.name", "Buyers.name", "Buyers.id"]);
}

#[test]
fn plain_expressions_are_kept() {
    for text in ["", "1 + 1", "$", "${", "${Orders}", "${Orders.}", "${Orders.id", "été ${x}"] {
        let (expanded, members) = expand(Fixture::Roles, text);
        assert_eq!(expanded, text);
        assert!(members.is_empty());
    }
}

#[test]
fn references_agree_with_the_pattern() {
    let pattern = regex::Regex::new(r"\$\{(Orders|Inspectors|Buyers)\.([^}]+)\}").unwrap();
    for text in [
        "${Orders.id}${Orders.name}",
        "${Orders.id}}",
        "${Orders.${Buyers.id}}",
        "${${Orders.id}",
        "$${Orders.id}",
        "${Orders.}${Orders.id}",
        "${Orders.}x}",
        "${Orders .id} ${Buyers.a\nb}",
        "${OrdersX.id} ${Order.id} ${ Orders.id}",
        "\u{e9}${Inspectors.\u{e9}t\u{e9}}\u{e9}",
        "${Inspectors.a.b} ${Buyers..}",
        "${Orders.{}}",
        "${Orders.id",
    ] {
        let mut found = vec![];
        let replaced = pattern.replace_all(text, |caps: &regex::Captures| {
            found.push(format!("{}.{}", &caps[1], &caps[2]));
            let name = if &caps[2] == "id" { "id" } else { "name" };
            format!("\"{}\".\"{}\"", &caps[1], name)
        });
        let (expanded, members) = expand(Fixture::Roles, text);
        assert_eq!(expanded, replaced, "{}", text);
        assert_eq!(members, found, "{}", text);
    }
}

#[test]
fn role_requests_are_rendered() {
    let mut request = LoadRequest {
        dimensions: vec![column("${Orders.id}", "a"), column("${Buyers.name}", "b")],
        measures: vec![column("MIN(${Inspectors.name})", "c")],
        ungrouped: false,
    };
    let rendered = render_role_request(&request, " JOIN x");
    let list = "SELECT \"Orders\".\"id\" AS \"a\", \"Buyers\".\"name\" AS \"b\", MIN(\"Inspectors\".\"name\") AS \"c\"";
    assert_eq!(
        rendered.text,
        format!("{list}{ROLES} JOIN x GROUP BY \"Orders\".\"id\", \"Buyers\".\"name\"")
    );
    assert_eq!(
        rendered.members,
        vec!["Orders.id", "Buyers.name", "Inspectors.name"]
    );
    request.ungrouped = true;
    assert_eq!(render_role_request(&request, "").text, format!("{list}{ROLES}"));
    request.ungrouped = false;
    request.dimensions = vec![];
    assert_eq!(
        render_role_request(&request, "").text,
        format!("SELECT MIN(\"Inspectors\".\"name\") AS \"c\"{ROLES}")
    );
}

#[test]
fn value_requests_are_rendered() {
    let mut request = LoadRequest {
        dimensions: vec![column("${Orders.name}", "a")],
        measures: vec![column("1", "b")],
        ungrouped: true,
    };
    let list = "SELECT \"Orders\".\"stored_value\" AS \"a\", 1 AS \"b\"";
    assert_eq!(render_value_request(&request), Some(format!("{list}{VALUES}")));
    request.ungrouped = false;
    assert_eq!(
        render_value_request(&request),
        Some(format!("{list}{VALUES} GROUP BY \"Orders\".\"stored_value\""))
    );
    request.dimensions = vec![];
    assert_eq!(
        render_value_request(&request),
        Some(format!("SELECT 1 AS \"b\"{VALUES} GROUP BY "))
    );
}

#[test]
fn shared_aliases_are_refused() {
    let request = LoadRequest {
        dimensions: vec![column("${Orders.name}", "a"), column("1", "b")],
        measures: vec![column("2", "a")],
        ungrouped: true,
    };
    assert_eq!(render_value_request(&request), None);
}

fn value_request(query: &str) -> String {
    format!(
        "{{\"query\": {query}, \"member_to_alias\": {{\"Orders.id\": \"id\", \"Orders.name\": \"stored\", \"Buyers.name\": \"current\"}}}}"
    )
}

#[test]
fn wrapper_sql_keeps_what_surrounds_the_request() {
    let input = value_request(
        r#"{"joinHints": [["Orders", "Buyers"]], "dimensions": ["Orders.id", "Buyers.name", "Orders.name"], "ungrouped": true}"#,
    );
    let sql = format!("SELECT q.* FROM (SELECT * FROM {input}) AS q ORDER BY q.stored -- \u{e9}");
    let rendered = render_fixture_sql(&sql).unwrap();
    assert_eq!(
        rendered,
        format!(
            "SELECT q.* FROM (SELECT \"Orders\".\"id\" AS \"id\", \"Buyers\".\"current_value\" AS \"current\", \"Orders\".\"stored_value\" AS \"stored\"{VALUES}) AS q ORDER BY q.stored -- \u{e9}"
        )
    );
    let rendered = rendered.replace(" -- \u{e9}", "");
    let rows = rows(&rendered, &["id", "current", "stored"]);
    assert!(cubesql::cases::are_joined_member_rows(&rows));
}

#[test]
fn text_around_a_value_request_changes_nothing_of_it() {
    let request = value_request(
        r#"{"joinHints": [["Orders", "Buyers"]], "dimensions": ["Orders.id"], "ungrouped": true}"#,
    );
    let sql = format!("SELECT * FROM {request}");
    let rendered = render_fixture_sql(&sql).unwrap();
    assert_eq!(
        rendered,
        format!("SELECT \"Orders\".\"id\" AS \"id\"{VALUES}")
    );
    for more in ["}", " {\"query\": 1}", " UNION ALL SELECT * FROM {oops", "1", ""] {
        assert_eq!(
            render_fixture_sql(&format!("{sql}{more}")),
            Some(format!("{rendered}{more}"))
        );
    }
    assert_eq!(
        render_fixture_sql(&format!("SELECT * FROM {sql}")),
        Some(format!("SELECT * FROM {rendered}"))
    );
}

#[test]
fn member_expressions_bring_their_own_sql() {
    let member = quoted(r#"{"expr": {"sql": "LOWER(${Orders.id})"}, "alias": "low"}"#);
    let input = value_request(&format!(
        "{{\"joinHints\": [[\"Orders\", \"Buyers\"]], \"measures\": [{member}], \"dimensions\": [\"Orders.name\"]}}"
    ));
    let rendered = render_fixture_sql(&format!("SELECT * FROM {input}")).unwrap();
    assert_eq!(
        rendered,
        format!(
            "SELECT \"Orders\".\"stored_value\" AS \"stored\", LOWER(\"Orders\".\"id\") AS \"low\"{VALUES} GROUP BY \"Orders\".\"stored_value\""
        )
    );
}

#[test]
fn unreadable_requests_are_refused() {
    let hints = r#""joinHints": [["Orders", "Buyers"]]"#;
    for query in [
        r#"{"dimensions": ["Orders.id"]}"#.to_string(),
        r#"{"joinHints": [["Buyers", "Orders"]]}"#.to_string(),
        r#"{"joinHints": [["Orders", "Buyers"], []]}"#.to_string(),
        r#"{"joinHints": [["Orders", "Buyers", "Buyers"]]}"#.to_string(),
        format!(r#"{{{hints}, "dimensions": ["Orders.missing"]}}"#),
        format!(r#"{{{hints}, "dimensions": [1]}}"#),
        format!(r#"{{{hints}, "dimensions": ["{{"]}}"#),
        format!(r#"{{{hints}, "dimensions": ["{{}}"]}}"#),
        format!(r#"{{{hints}, "dimensions": ["Orders.id", "Orders.id"]}}"#),
    ] {
        let sql = format!("SELECT * FROM {}", value_request(&query));
        assert_eq!(render_fixture_sql(&sql), None, "{}", sql);
    }
    assert_eq!(render_fixture_sql("SELECT 1"), None);
    assert_eq!(render_fixture_sql("SELECT * FROM {"), None);
    assert!(render_fixture_sql(&format!(
        "SELECT * FROM {}",
        value_request(&format!("{{{hints}, \"dimensions\": \"none\"}}"))
    ))
    .is_some());
}

#[test]
fn plain_sql_is_kept() {
    let mut members = vec!["before".to_string()];
    assert_eq!(
        fixture_sql("SELECT * FROM orders", &mut members),
        Some("SELECT * FROM orders".to_string())
    );
    assert_eq!(members, vec!["before"]);
}

#[test]
fn refused_sql_adds_no_members() {
    let mut members = vec![];
    let good = value_request(r#"{"dimensions": ["Orders.id"]}"#);
    let sql = format!("SELECT * FROM {good} UNION ALL SELECT * FROM {{");
    assert_eq!(fixture_sql(&sql, &mut members), None);
    assert!(members.is_empty());
    let sql = format!(
        "SELECT * FROM {}",
        value_request(r#"{"subqueryJoins": [{"sql": "SELECT 1"}]}"#)
    );
    assert_eq!(fixture_sql(&sql, &mut members), None);
}

#[test]
fn every_request_is_rendered() {
    let first = value_request(r#"{"dimensions": ["Orders.id"], "ungrouped": true}"#);
    let second = value_request(r#"{"dimensions": ["Buyers.name"], "ungrouped": false}"#);
    let mut members = vec!["before".to_string()];
    let sql = format!("(SELECT * FROM {first}) UNION ALL (SELECT * FROM {second})");
    let rendered = fixture_sql(&sql, &mut members).unwrap();
    assert_eq!(
        rendered,
        format!(
            "(SELECT \"Orders\".\"id\" AS \"id\"{ROLES}) UNION ALL (SELECT \"Buyers\".\"name\" AS \"current\"{ROLES} GROUP BY \"Buyers\".\"name\")"
        )
    );
    assert_eq!(members, vec!["before", "Orders.id", "Buyers.name"]);
    assert_eq!(fixture_sql(&rendered, &mut members), Some(rendered.clone()));
    assert_eq!(members.len(), 3);
}

#[test]
fn texts_are_rendered_one_after_the_other() {
    let first = value_request(r#"{"dimensions": ["Orders.id"], "ungrouped": true}"#);
    let second = value_request(r#"{"dimensions": ["Buyers.name"]}"#);
    let left = format!("(SELECT * FROM {first})");
    let right = format!(" UNION ALL (SELECT * FROM {second}) ORDER BY 1");
    let mut members = vec![];
    let mut left_members = vec![];
    let mut right_members = vec![];
    let whole = fixture_sql(&format!("{left}{right}"), &mut members).unwrap();
    let left_rendered = fixture_sql(&left, &mut left_members).unwrap();
    let right_rendered = fixture_sql(&right, &mut right_members).unwrap();
    assert_eq!(whole, format!("{left_rendered}{right_rendered}"));
    assert_eq!(left_members, vec!["Orders.id"]);
    assert_eq!(right_members, vec!["Buyers.name"]);
    assert_eq!(members, vec!["Orders.id", "Buyers.name"]);
}

#[test]
fn a_marker_across_the_seam_is_a_request() {
    let request = value_request(r#"{"dimensions": ["Orders.id"], "ungrouped": true}"#);
    let mut members = vec![];
    let left = "SELECT * ";
    let right = format!("FROM {request}");
    assert_eq!(fixture_sql(left, &mut members), Some(left.to_string()));
    assert_eq!(fixture_sql(&right, &mut members), Some(right.clone()));
    assert!(members.is_empty());
    assert_eq!(
        fixture_sql(&format!("{left}{right}"), &mut members),
        Some(format!("SELECT \"Orders\".\"id\" AS \"id\"{ROLES}"))
    );
    assert_eq!(members, vec!["Orders.id"]);
}

#[test]
fn joined_subqueries_are_rendered() {
    let inner = value_request(r#"{"dimensions": ["Orders.id"]}"#);
    let on = quoted(r#"{"expr": {"sql": "${Orders.id} = k.id"}}"#);
    let join = format!(
        r#"{{"sql": {}, "on": {on}, "joinType": "LEFT", "alias": "k"}}"#,
        quoted(&format!("SELECT * FROM {inner}"))
    );
    let outer = format!(
        r#"{{"query": {{"dimensions": ["Orders.id", "Inspectors.name", "Buyers.name"], "ungrouped": true, "subqueryJoins": [{join}]}},
            "member_to_alias": {{"Orders.id": "id", "Inspectors.name": "inspector_name", "Buyers.name": "buyer_name"}}}}"#
    );
    let mut members = vec![];
    let sql = format!("SELECT * FROM {outer}");
    let rendered = fixture_sql(&sql, &mut members).unwrap();
    assert_eq!(
        rendered,
        format!(
            "SELECT \"Orders\".\"id\" AS \"id\", \"Inspectors\".\"name\" AS \"inspector_name\", \"Buyers\".\"name\" AS \"buyer_name\"{ROLES} \
             LEFT JOIN (SELECT \"Orders\".\"id\" AS \"id\"{ROLES} GROUP BY \"Orders\".\"id\") AS k ON \"Orders\".\"id\" = k.id"
        )
    );
    assert_eq!(
        members,
        vec!["Orders.id", "Inspectors.name", "Buyers.name", "Orders.id", "Orders.id"]
    );
    let case = &role_cases(false)[0];
    assert!(case.accepts_members(&members));
    let flat = rendered.split(" LEFT JOIN (SELECT").next().unwrap();
    let got = rows(flat, &["id", "inspector_name", "buyer_name"]);
    assert!(case.accepts_rows(&got));
}

#[test]
fn requests_are_read() {
    let input: Value = serde_json::from_str(&value_request(
        r#"{"joinHints": [["Orders", "Buyers"]], "dimensions": ["Orders.id"], "measures": null, "ungrouped": "true"}"#,
    ))
    .unwrap();
    let request = read_request(&input).unwrap();
    assert_eq!(request.dimensions.len(), 1);
    assert_eq!(request.dimensions[0].expr, "${Orders.id}");
    assert_eq!(request.dimensions[0].alias, "id");
    assert!(request.measures.is_empty());
    assert!(!request.ungrouped);
    assert!(read_joins(&input).unwrap().is_empty());
    assert!(has_join_hint(&input, "Orders", "Buyers"));
    assert!(!has_join_hint(&input, "Orders", "Orders"));
}

#[test]
fn joins_are_read() {
    let input: Value = serde_json::from_str(
        r#"{"query": {"subqueryJoins": [{"sql": "S", "on": "{\"expr\": {\"sql\": \"O\"}}", "joinType": "INNER", "alias": "a"}]}}"#,
    )
    .unwrap();
    let joins = read_joins(&input).unwrap();
    assert_eq!(joins.len(), 1);
    assert_eq!(joins[0].sql, "S");
    assert_eq!(joins[0].on, "O");
    assert_eq!(joins[0].join_type, "INNER");
    assert_eq!(joins[0].alias, "a");
    let input: Value =
        serde_json::from_str(r#"{"query": {"subqueryJoins": [{"on": "{}"}]}}"#).unwrap();
    assert!(read_joins(&input).is_none());
}
