use theguardian_rss_bot::http::split_url;
use theguardian_rss_bot::mastodon::{status_payload, status_request};

#[test]
fn status_requests_go_to_the_statuses_endpoint() {
    let r = status_request(" tok ", None, &status_payload("Hello \"world\"")).ok().unwrap();
    assert_eq!(r.url, "https://mstd.seungjin.net/api/v1/statuses");
    let body = String::from_utf8(r.body.clone()).unwrap();
    assert_eq!(body, r#"{"status":"Hello \"world\"","visibility":"public"}"#);
    assert_eq!(r.headers, vec![
        ("Authorization".to_string(), "Bearer tok".to_string()),
        ("Content-Type".to_string(), "application/json".to_string()),
        ("Accept".to_string(), "application/json".to_string()),
        ("Content-Length".to_string(), body.len().to_string()),
        ("User-Agent".to_string(), "theguardian-rss-bot/1.0".to_string()),
    ]);
}

#[test]
fn configured_instances_lose_trailing_slashes() {
    let r = status_request("t", Some(" https://social.example/ \n".to_string()), &status_payload("x")).ok().unwrap();
    assert_eq!(r.url, "https://social.example/api/v1/statuses");
}

#[test]
fn addresses_are_taken_apart() {
    let p = split_url("https://db.turso.io/v2/pipeline?x=1").unwrap();
    assert!(p.secure);
    assert_eq!(p.authority, "db.turso.io");
    assert_eq!(p.path_with_query, "/v2/pipeline?x=1");
    let p = split_url("http://localhost:8080").unwrap();
    assert!(!p.secure);
    assert_eq!(p.authority, "localhost:8080");
    assert_eq!(p.path_with_query, "/");
    assert!(split_url("ftp://x").is_none());
}
