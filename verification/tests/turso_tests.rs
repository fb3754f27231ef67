use theguardian_rss_bot::json::{get_element, get_member, json_to_text, Json};
use theguardian_rss_bot::turso::{
    build_pipeline, create_table_statement, database_base_url, kv_table_name, pipeline_endpoint,
    pipeline_headers, select_value_statement, statement_response, text_arg, upsert_statement,
    value_from_response, DbError,
};
use theguardian_rss_bot::text::string_of;

fn obj(members: Vec<(&str, Json)>) -> Json {
    Json::Object(members.into_iter().map(|(k, v)| (k.to_string(), v)).collect())
}

fn text(s: &str) -> Json {
    Json::Str(s.to_string())
}

fn select_response(cell: Json) -> Json {
    obj(vec![(
        "result",
        obj(vec![("cols", Json::Array(vec![])), ("rows", Json::Array(vec![Json::Array(vec![cell])]))]),
    )])
}

#[test]
fn table_name_defaults_and_trims() {
    assert_eq!(kv_table_name(None), "lachuoi_kv_store");
    assert_eq!(kv_table_name(Some("   ".to_string())), "lachuoi_kv_store");
    assert_eq!(kv_table_name(Some(" kv \n".to_string())), "kv");
}

#[test]
fn statements() {
    assert_eq!(
        create_table_statement("kv"),
        "CREATE TABLE IF NOT EXISTS kv (key TEXT PRIMARY KEY, value TEXT, created_at DATETIME DEFAULT CURRENT_TIMESTAMP, updated_at DATETIME DEFAULT CURRENT_TIMESTAMP)"
    );
    assert_eq!(select_value_statement("kv"), "SELECT value FROM kv WHERE key = ?");
    assert_eq!(
        upsert_statement("kv"),
        "INSERT INTO kv (key, value) VALUES (?, ?) ON CONFLICT(key) DO UPDATE SET value = excluded.value, updated_at = CURRENT_TIMESTAMP"
    );
}

#[test]
fn database_addresses_become_https() {
    assert_eq!(string_of(&database_base_url(" libsql://db.turso.io ")), "https://db.turso.io");
    assert_eq!(string_of(&database_base_url("db.turso.io")), "https://db.turso.io");
    assert_eq!(string_of(&database_base_url("http://localhost:8080")), "http://localhost:8080");
    assert_eq!(string_of(&database_base_url("")), "https://");
    let once = string_of(&database_base_url("  libsql://a/libsql://b "));
    assert_eq!(once, "https://a/https://b");
    assert_eq!(string_of(&database_base_url(&once)), once);
}

#[test]
fn pipeline_endpoint_drops_trailing_slashes() {
    assert_eq!(pipeline_endpoint("libsql://db.turso.io//"), "https://db.turso.io/v2/pipeline");
    assert_eq!(pipeline_endpoint("https://db.turso.io"), "https://db.turso.io/v2/pipeline");
}

#[test]
fn pipeline_request_headers() {
    let h = pipeline_headers("  secret\n");
    assert_eq!(h, vec![
        ("Authorization".to_string(), "Bearer secret".to_string()),
        ("Content-Type".to_string(), "application/json".to_string()),
    ]);
}

#[test]
fn pipeline_executes_then_closes() {
    let p = build_pipeline("SELECT 1", vec![text_arg("k")]);
    assert_eq!(p.requests.len(), 2);
    assert_eq!(p.requests[0].req_type, "execute");
    assert_eq!(p.requests[0].stmt.sql, "SELECT 1");
    assert_eq!(p.requests[0].stmt.args.len(), 1);
    assert_eq!(p.requests[0].stmt.args[0].value_type, "text");
    assert_eq!(p.requests[0].stmt.args[0].value, "k");
    assert_eq!(p.requests[1].req_type, "close");
    assert_eq!(p.requests[1].stmt.sql, "");
    assert!(p.requests[1].stmt.args.is_empty());
}

#[test]
fn the_first_result_gives_the_response() {
    let results = vec![
        obj(vec![("type", text("ok")), ("response", obj(vec![("type", text("execute"))]))]),
        obj(vec![("type", text("ok"))]),
    ];
    let r = statement_response(&results, "SELECT 1").ok().unwrap();
    assert_eq!(json_to_text(r), r#"{"type":"execute"}"#);
}

#[test]
fn a_reply_without_results_is_an_error() {
    match statement_response(&vec![], "SELECT 1") {
        Err(e @ DbError::NoResults { .. }) => {
            assert_eq!(e.message(), "No results in pipeline response for SQL: SELECT 1")
        }
        _ => panic!("expected NoResults"),
    }
}

#[test]
fn a_reported_error_is_an_error() {
    let results = vec![obj(vec![
        ("type", text("error")),
        ("error", obj(vec![("message", text("no such table"))])),
    ])];
    match statement_response(&results, "SELECT 1") {
        Err(e @ DbError::Turso { .. }) => assert_eq!(
            e.message(),
            r#"Turso error for SQL 'SELECT 1': {"message":"no such table"}"#
        ),
        _ => panic!("expected Turso"),
    }
}

#[test]
fn a_result_without_response_is_an_error() {
    let results = vec![obj(vec![("type", text("ok"))])];
    match statement_response(&results, "X") {
        Err(e @ DbError::NoResponse { .. }) => {
            assert_eq!(e.message(), "No response in pipeline result for SQL: X")
        }
        _ => panic!("expected NoResponse"),
    }
}

#[test]
fn typed_cells_give_their_value() {
    let cell = obj(vec![("type", text("text")), ("value", text("2024-05-01 12:00:00"))]);
    assert_eq!(value_from_response(&select_response(cell)), Some("2024-05-01 12:00:00".to_string()));
}

#[test]
fn non_text_cells_give_their_json() {
    let null_cell = obj(vec![("type", text("null"))]);
    assert_eq!(value_from_response(&select_response(null_cell)), Some(r#"{"type":"null"}"#.to_string()));
    let number = obj(vec![("type", text("integer")), ("value", Json::Number(serde_json::Number::from(42)))]);
    assert_eq!(value_from_response(&select_response(number)), Some("42".to_string()));
    assert_eq!(value_from_response(&select_response(text("plain"))), Some("plain".to_string()));
}

#[test]
fn no_rows_no_value() {
    let empty = obj(vec![("result", obj(vec![("rows", Json::Array(vec![]))]))]);
    assert_eq!(value_from_response(&empty), None);
    assert_eq!(value_from_response(&obj(vec![])), None);
    assert_eq!(value_from_response(&Json::Null), None);
}

#[test]
fn lookups_take_the_last_member_of_a_name() {
    let j = obj(vec![("a", text("1")), ("a", text("2"))]);
    assert_eq!(json_to_text(get_member(&j, "a").unwrap()), r#""2""#);
    assert!(get_member(&j, "b").is_none());
    let arr = Json::Array(vec![Json::Bool(true)]);
    assert!(get_element(&arr, 0).is_some());
    assert!(get_element(&arr, 1).is_none());
    assert!(get_member(&arr, "a").is_none());
}
