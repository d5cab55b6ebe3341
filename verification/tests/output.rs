use sntry::json::Json;
use sntry::output::{extract, headers_of, layout, ndjson_items, render_text, table_output, Cell, Column, Layout};

fn s(x: &str) -> String {
    x.to_string()
}

fn issue(short: &str, count: &str) -> Json {
    Json::Object(vec![
        (s("shortId"), Json::Str(s(short))),
        (s("count"), Json::Number(s(count))),
        (s("metadata"), Json::Object(vec![(s("function"), Json::Str(s("f")))])),
        (s("isMuted"), Json::Bool(false)),
        (s("tags"), Json::Array(vec![])),
        (s("owner"), Json::Null),
    ])
}

fn text_of(c: &Cell) -> String {
    match c {
        Cell::Text(t) => t.clone(),
        Cell::Nested(_) => s("<nested>"),
    }
}

#[test]
fn cells_from_paths() {
    let v = issue("A-1", "12");
    assert_eq!(text_of(&extract(&v, &vec![s("shortId")])), "A-1");
    assert_eq!(text_of(&extract(&v, &vec![s("count")])), "12");
    assert_eq!(text_of(&extract(&v, &vec![s("metadata"), s("function")])), "f");
    assert_eq!(text_of(&extract(&v, &vec![s("isMuted")])), "false");
    assert_eq!(text_of(&extract(&v, &vec![s("owner")])), "");
    assert_eq!(text_of(&extract(&v, &vec![s("missing"), s("x")])), "");
    assert!(matches!(extract(&v, &vec![s("tags")]), Cell::Nested(Json::Array(_))));
}

#[test]
fn column_constructor() {
    let c = Column::new("USER_ID", &["user", "id"]);
    assert_eq!(c.header, "USER_ID");
    assert_eq!(c.path, vec![s("user"), s("id")]);
}

#[test]
fn layout_rows_and_shapes() {
    let cols = vec![Column::new("SHORT_ID", &["shortId"]), Column::new("COUNT", &["count"])];
    match layout(&Json::Array(vec![issue("A-1", "12"), issue("A-2", "3")]), &cols) {
        Layout::Rows(rows) => {
            assert_eq!(rows.len(), 2);
            assert_eq!(text_of(&rows[1][0]), "A-2");
        },
        _ => panic!("expected rows"),
    }
    assert!(matches!(layout(&issue("A-1", "1"), &cols), Layout::Rows(r) if r.len() == 1));
    assert!(matches!(layout(&Json::Str(s("x")), &cols), Layout::Nothing));
    assert!(matches!(layout(&issue("A-1", "1"), &vec![]), Layout::WholeJson));
}

#[test]
fn text_columns_are_padded() {
    let headers = vec![s("SHORT_ID"), s("COUNT")];
    let cells = vec![vec![s("ACME-API-1A2"), s("1204")], vec![s("X"), s("7")]];
    let lines = render_text(&headers, &cells);
    assert_eq!(lines, vec![s("SHORT_ID      COUNT"), s("ACME-API-1A2  1204 "), s("X             7    ")]);
}

#[test]
fn text_cells_are_cut_at_120_chars() {
    let long = "y".repeat(130);
    let lines = render_text(&vec![s("T")], &vec![vec![long]]);
    assert_eq!(lines[0].chars().count(), 120);
    assert_eq!(lines[1], "y".repeat(120));
}

#[test]
fn table_has_headers_and_cells() {
    let cols = vec![Column::new("SLUG", &["slug"]), Column::new("NAME", &["name"])];
    assert_eq!(headers_of(&cols), vec![s("SLUG"), s("NAME")]);
    let t = table_output(&cols, &vec![vec![s("acme"), s("Acme Co")]]);
    assert!(t.contains("SLUG"));
    assert!(t.contains("Acme Co"));
    assert!(t.lines().count() >= 3);
}

#[test]
fn ndjson_lines() {
    assert_eq!(ndjson_items(Json::Array(vec![Json::Null, Json::Null])).len(), 2);
    assert_eq!(ndjson_items(Json::Bool(true)).len(), 1);
}
