use cubesql::cases::{are_joined_member_rows, joined_member_queries};
use cubesql::meta::{alias_meta, role_meta, CubeMeta, CubeMetaType};
use cubesql::results::{append_rows, single_row_matches, ColumnType, ResultBatch, ResultColumn};
use cubesql::role_cases::role_cases;
use cubesql::templates::mssql_trim_templates;

fn strings(list: &[&str]) -> Vec<String> {
    list.iter().map(|text| text.to_string()).collect()
}

fn dimension_names(cube: &CubeMeta) -> Vec<String> {
    cube.dimensions.iter().map(|dimension| dimension.name.clone()).collect()
}

fn join_names(cube: &CubeMeta) -> Option<Vec<String>> {
    cube.joins
        .as_ref()
        .map(|joins| joins.iter().map(|join| join.name.clone()).collect())
}

fn check_sample(cube: &CubeMeta, name: &str, joins: Option<Vec<String>>) {
    assert_eq!(cube.name, name);
    assert_eq!(
        dimension_names(cube),
        vec![
            format!("{name}.id"),
            format!("{name}.name"),
            format!("{name}.abcdefghijklmnop_left"),
            format!("{name}.abcdefghijklmnop_right"),
        ]
    );
    for dimension in &cube.dimensions {
        assert_eq!(dimension.value_type, "string");
    }
    assert_eq!(join_names(cube), joins);
    for join in cube.joins.iter().flatten() {
        assert_eq!(join.relationship, "belongsTo");
    }
    assert_eq!(cube.cube_type, CubeMetaType::Cube);
    assert!(cube.measures.is_empty() && cube.segments.is_empty());
    assert!(cube.title.is_none() && cube.description.is_none() && cube.meta.is_none());
    assert!(cube.folders.is_none() && cube.nested_folders.is_none() && cube.hierarchies.is_none());
}

#[test]
fn alias_cubes_are_orders_and_buyers() {
    let cubes = alias_meta();
    assert_eq!(cubes.len(), 2);
    check_sample(&cubes[0], "Orders", Some(strings(&["Buyers"])));
    check_sample(&cubes[1], "Buyers", None);
}

#[test]
fn role_cubes_are_orders_and_two_roles() {
    let cubes = role_meta();
    assert_eq!(cubes.len(), 3);
    check_sample(&cubes[0], "Orders", Some(strings(&["Inspectors", "Buyers"])));
    check_sample(&cubes[1], "Inspectors", None);
    check_sample(&cubes[2], "Buyers", None);
}

#[test]
fn trim_templates_take_one_argument() {
    let templates = mssql_trim_templates();
    let expected = [
        ("functions/TRIM_1", "LTRIM(RTRIM({{ args[0] }}))"),
        ("functions/BTRIM_1", "LTRIM(RTRIM({{ args[0] }}))"),
        ("functions/LTRIM_1", "LTRIM({{ args[0] }})"),
        ("functions/RTRIM_1", "RTRIM({{ args[0] }})"),
    ];
    assert_eq!(templates.len(), expected.len());
    for (template, (key, sql)) in templates.iter().zip(expected) {
        assert_eq!(template.0, key);
        assert_eq!(template.1, sql);
    }
    for name in ["TRIM", "BTRIM", "LTRIM", "RTRIM"] {
        assert!(templates.iter().all(|entry| entry.0 != format!("functions/{name}")));
    }
}

#[test]
fn joined_member_queries_are_split() {
    assert_eq!(
        joined_member_queries(true),
        vec![
            "SELECT id, current_name, stored_name, extra FROM (SELECT Orders.id, Buyers.name AS current_name, Orders.name AS stored_name, MIN(Orders.id) AS extra FROM Orders CROSS JOIN Buyers GROUP BY 1, 2, 3) q ORDER BY stored_name",
        ]
    );
    let others = joined_member_queries(false);
    assert_eq!(others.len(), 7);
    assert_eq!(
        others[0],
        "SELECT Orders.id, Buyers.name, Orders.name, MIN(Orders.id) AS extra FROM Orders CROSS JOIN Buyers GROUP BY 1, 2, 3 ORDER BY Orders.name"
    );
    assert_eq!(
        others[2],
        "SELECT id, current_name, stored_name, extra FROM (SELECT Orders.id, Buyers.abcdefghijklmnop_left AS current_name, Orders.abcdefghijklmnop_right AS stored_name, MIN(Orders.id) AS extra FROM Orders CROSS JOIN Buyers GROUP BY 1, 2, 3) q ORDER BY stored_name"
    );
    assert_eq!(
        others[3],
        "SELECT Orders.id, Buyers.name, Orders.name, LOWER(Orders.id) AS extra FROM Orders CROSS JOIN Buyers  ORDER BY Orders.name"
    );
}

/// The queries once more, by formatting.
fn formatted_joined_member_queries(known_limit: bool) -> Vec<String> {
    let mut queries = vec![];
    for grouped in [true, false] {
        for (buyer_member, order_member) in [
            ("name", "name"),
            ("abcdefghijklmnop_left", "abcdefghijklmnop_right"),
        ] {
            for user_aliases in [false, true] {
                if (grouped && user_aliases && buyer_member == order_member) != known_limit {
                    continue;
                }
                let buyer_alias = if user_aliases { " AS current_name" } else { "" };
                let order_alias = if user_aliases { " AS stored_name" } else { "" };
                let extra = if grouped {
                    "MIN(Orders.id)"
                } else {
                    "LOWER(Orders.id)"
                };
                let group = if grouped { "GROUP BY 1, 2, 3" } else { "" };
                let inner = format!(
                    "SELECT Orders.id, Buyers.{buyer_member}{buyer_alias}, Orders.{order_member}{order_alias}, {extra} AS extra \
                     FROM Orders CROSS JOIN Buyers {group}"
                );
                queries.push(if user_aliases {
                    format!("SELECT id, current_name, stored_name, extra FROM ({inner}) q ORDER BY stored_name")
                } else {
                    format!("{inner} ORDER BY Orders.{order_member}")
                });
            }
        }
    }
    queries
}

#[test]
fn joined_member_queries_are_written_out() {
    for known_limit in [true, false] {
        assert_eq!(
            joined_member_queries(known_limit),
            formatted_joined_member_queries(known_limit)
        );
    }
}

#[test]
fn joined_member_rows_are_ordered() {
    let first = strings(&["2", "Current Z", "Stored A"]);
    let second = strings(&["1", "Current A", "Stored Z"]);
    assert!(are_joined_member_rows(&vec![first.clone(), second.clone()]));
    assert!(!are_joined_member_rows(&vec![second.clone(), first.clone()]));
    assert!(!are_joined_member_rows(&vec![first.clone()]));
    assert!(!are_joined_member_rows(&vec![first.clone(), second, first]));
}

#[test]
fn role_queries_are_written_out() {
    for grouped in [true, false] {
        let cases = role_cases(grouped);
        let mut i = 0;
        for join in ["LEFT", "INNER"] {
            for (first, second, expected_first) in [
                ("i.name", "c.name", ["Inspector A", "Inspector Z"]),
                ("w.name", "c.name", ["Stored Z", "Stored A"]),
                (
                    "i.abcdefghijklmnop_left",
                    "c.abcdefghijklmnop_right",
                    ["Inspector A", "Inspector Z"],
                ),
            ] {
                let group = if grouped {
                    format!("GROUP BY w.id, {first}, {second}")
                } else {
                    String::new()
                };
                let query = format!(
                    "WITH role_names AS (
                SELECT w.id, {first} AS inspector_name, {second} AS buyer_name
                FROM Orders w LEFT JOIN Inspectors i ON w.__cubeJoinField = i.__cubeJoinField
                LEFT JOIN Buyers c ON w.__cubeJoinField = c.__cubeJoinField {group}
            ), keys AS (SELECT w.id FROM Orders w GROUP BY w.id)
            SELECT r.id, r.inspector_name, r.buyer_name FROM role_names r
            {join} JOIN keys k ON r.id = k.id"
                );
                let first_member = first.replace("i.", "Inspectors.").replace("w.", "Orders.");
                let second_member = second.replace("c.", "Buyers.");
                assert_eq!(cases[i].query, query);
                assert_eq!(cases[i].first_member, first_member);
                assert_eq!(cases[i].second_member, second_member);
                assert_eq!(cases[i].reads_inspector, first.starts_with("i."));
                assert_eq!(cases[i].first_values.0, expected_first[0]);
                assert_eq!(cases[i].first_values.1, expected_first[1]);
                i += 1;
            }
        }
        assert_eq!(cases.len(), i);
    }
}

#[test]
fn role_cases_accept_their_members() {
    let cases = role_cases(true);
    let both = strings(&["Buyers.name", "Inspectors.name"]);
    assert!(cases[0].accepts_members(&both));
    assert!(!cases[1].accepts_members(&both));
    assert!(!cases[0].accepts_members(&strings(&["Inspectors.name"])));
    let stored = strings(&["Buyers.name", "Inspectors.name", "Orders.name"]);
    assert!(!cases[0].accepts_members(&stored));
    assert!(cases[1].accepts_members(&stored));
}

#[test]
fn role_cases_accept_their_rows_in_any_order() {
    let case = &role_cases(false)[1];
    let one = strings(&["1", "Stored Z", "Buyer Z"]);
    let two = strings(&["2", "Stored A", "Buyer A"]);
    assert!(case.accepts_rows(&vec![one.clone(), two.clone()]));
    assert!(case.accepts_rows(&vec![two.clone(), one.clone()]));
    assert!(!case.accepts_rows(&vec![one.clone(), one.clone()]));
    assert!(!case.accepts_rows(&vec![one, strings(&["2", "Stored Z", "Buyer A"])]));
}

#[test]
fn rows_are_read_across_columns() {
    let mut rows = vec![strings(&["before"])];
    let columns = vec![strings(&["a", "b", "c"]), strings(&["d", "e"])];
    append_rows(&columns, 2, &mut rows);
    assert_eq!(
        rows,
        vec![strings(&["before"]), strings(&["a", "d"]), strings(&["b", "e"])]
    );
    let mut rows = vec![];
    append_rows(&vec![], 2, &mut rows);
    assert_eq!(rows, vec![strings(&[]), strings(&[])]);
}

fn integer(name: &str, value: Option<i64>) -> ResultColumn {
    ResultColumn {
        name: name.to_string(),
        column_type: ColumnType::Int64,
        value,
    }
}

#[test]
fn single_rows_are_compared() {
    let batches = vec![ResultBatch {
        row_count: 1,
        columns: vec![integer("a", Some(3)), integer("b", None)],
    }];
    let names = strings(&["a", "b"]);
    assert!(single_row_matches(&batches, &names, &vec![Some(3), None]));
    assert!(single_row_matches(&batches, &names, &vec![Some(3)]));
    assert!(!single_row_matches(&batches, &names, &vec![Some(3), Some(0)]));
    assert!(!single_row_matches(&batches, &names, &vec![Some(1), None]));
    assert!(!single_row_matches(&batches, &strings(&["a", "c"]), &vec![Some(3), None]));
    assert!(!single_row_matches(&batches, &strings(&["a"]), &vec![Some(3)]));
    assert!(!single_row_matches(&vec![], &strings(&[]), &vec![]));
}

#[test]
fn other_types_and_counts_do_not_match() {
    let mut column = integer("a", Some(3));
    column.column_type = ColumnType::Other;
    let batch = ResultBatch {
        row_count: 1,
        columns: vec![column],
    };
    assert!(!single_row_matches(&vec![batch], &strings(&["a"]), &vec![Some(3)]));
    let batch = ResultBatch {
        row_count: 2,
        columns: vec![integer("a", Some(3))],
    };
    assert!(!single_row_matches(&vec![batch], &strings(&["a"]), &vec![Some(3)]));
}
