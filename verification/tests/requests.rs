use twapi_ureq::raw::{BodyKind, Method};
use twapi_ureq::{get_bearer_token, get_bearer_token_response, MultiPart};
use twapi_ureq::{v1, v2};

#[test]
fn v2_get_builds_url_and_bearer_header() {
    let client = v2::Client::new("token123");
    let r = client.get("https://x/y", &vec![("q", "a b"), ("count", "2")]);
    assert!(matches!(r.method, Method::Get));
    assert_eq!(r.url, "https://x/y?q=a%20b&count=2");
    assert_eq!(r.headers, vec![("Authorization".to_string(), "Bearer token123".to_string())]);
    assert!(r.query.is_empty());
    assert!(matches!(r.body, BodyKind::Empty));
}

#[test]
fn v2_get_without_query_keeps_url() {
    let client = v2::Client::new("tok");
    let r = client.get("https://x/y", &vec![]);
    assert_eq!(r.url, "https://x/y");
}

#[test]
fn v1_post_encodes_form_body() {
    let client = v1::Client::new("ck", "cs", "ak", "as");
    let r = client.post("https://x/update", &vec![("page", "2")], &vec![("status", "a b*c~d")]);
    assert!(matches!(r.method, Method::Post));
    assert_eq!(r.url, "https://x/update");
    assert_eq!(r.query, vec![("page".to_string(), "2".to_string())]);
    assert_eq!(r.headers[0].0, "Authorization");
    assert!(r.headers[0].1.starts_with("OAuth "));
    assert_eq!(
        r.headers[1],
        (
            "Content-Type".to_string(),
            "application/x-www-form-urlencoded;charset=UTF-8".to_string(),
        ),
    );
    match &r.body {
        BodyKind::Text(b) => assert_eq!(b, "status=a%20b%2Ac~d"),
        _ => panic!("form body expected"),
    }
}

#[test]
fn v1_delete_builds_url() {
    let client = v1::Client::new("ck", "cs", "ak", "as");
    let r = client.delete("https://x/d", &vec![("id", "1 2")]);
    assert!(matches!(r.method, Method::Delete));
    assert_eq!(r.url, "https://x/d?id=1%202");
    assert!(matches!(r.body, BodyKind::Empty));
}

#[test]
fn bearer_token_request_shape() {
    let r = get_bearer_token_response("key", "secret");
    assert!(matches!(r.method, Method::Post));
    assert_eq!(r.url, "https://api.twitter.com/oauth2/token");
    assert_eq!(
        r.headers[0],
        (
            "Content-Type".to_string(),
            "application/x-www-form-urlencoded;charset=UTF-8".to_string(),
        ),
    );
    assert_eq!(
        r.headers[1],
        ("Authorization".to_string(), "Basic a2V5OnNlY3JldA==".to_string()),
    );
    match &r.body {
        BodyKind::Text(b) => assert_eq!(b, "grant_type=client_credentials"),
        _ => panic!("text body expected"),
    }
}

#[test]
fn bearer_token_parsed_from_json() {
    let v: serde_json::Value = serde_json::from_str("{\"access_token\": \"abc\"}").unwrap();
    assert_eq!(get_bearer_token(&v), Some("abc".to_string()));
    let v: serde_json::Value = serde_json::from_str("{\"other\": 1}").unwrap();
    assert_eq!(get_bearer_token(&v), None);
    let v: serde_json::Value = serde_json::from_str("{\"access_token\": 5}").unwrap();
    assert_eq!(get_bearer_token(&v), None);
}

#[test]
fn token_response_bodies_parse_to_pairs() {
    let pairs = twapi_ureq::oauth::request_token("oauth_token=abc&oauth_token_secret=def").unwrap();
    assert_eq!(
        pairs,
        vec![
            ("oauth_token".to_string(), "abc".to_string()),
            ("oauth_token_secret".to_string(), "def".to_string()),
        ],
    );
    assert_eq!(
        twapi_ureq::oauth::access_token("a=b=c"),
        Some(vec![("a".to_string(), "b".to_string())]),
    );
    assert_eq!(twapi_ureq::oauth::request_token("nopair"), None);
    assert_eq!(twapi_ureq::oauth::access_token(""), None);
    assert_eq!(twapi_ureq::oauth::access_token("a=1&bad&c=3"), None);
    assert_eq!(
        twapi_ureq::oauth::access_token("k="),
        Some(vec![("k".to_string(), "".to_string())]),
    );
}

#[test]
fn multipart_request_content_type_echoes_boundary() {
    let m = MultiPart::new();
    let boundary = m.boundary.clone();
    let client = v2::Client::new("tok");
    let r = client.multipart("https://up/x", &vec![], m);
    assert_eq!(r.headers[1].0, "Content-Type");
    assert_eq!(r.headers[1].1, format!("multipart/form-data; boundary={}", boundary));
    match &r.body {
        BodyKind::Bytes(b) => assert_eq!(b, &format!("--{}--", boundary).into_bytes()),
        _ => panic!("byte body expected"),
    }
}

#[test]
fn oauth1_request_descriptors() {
    let r = twapi_ureq::get("https://x/a", &vec![("k", "v w")], "ck", "cs", "ak", "as");
    assert_eq!(r.url, "https://x/a?k=v%20w");
    assert!(r.headers[0].1.starts_with("OAuth "));
    let r = twapi_ureq::put("https://x/a", &vec![], "ck", "cs", "ak", "as");
    assert!(matches!(r.method, Method::Put));
    assert_eq!(r.url, "https://x/a");
    let r = twapi_ureq::oauth::request_token_response("ck", "cs", "https://cb", Some("read"));
    assert_eq!(r.url, "https://api.twitter.com/oauth/request_token");
    assert!(r.headers[0].1.starts_with("OAuth "));
    assert!(matches!(r.body, BodyKind::Empty));
    let r = twapi_ureq::oauth::access_token_response("ck", "cs", "t", "ts", "v");
    assert_eq!(r.url, "https://api.twitter.com/oauth/access_token");
    assert!(r.headers[0].1.starts_with("OAuth "));
}

#[test]
fn json_request_carries_value_through() {
    let data: serde_json::Value = serde_json::from_str("{\"text\": \"hello\"}").unwrap();
    let client = v2::Client::new("tok");
    let r = client.json("https://x/dm", &vec![], data.clone());
    assert_eq!(r.headers[1], ("Content-Type".to_string(), "application/json".to_string()));
    match &r.body {
        BodyKind::Json(v) => assert_eq!(v, &data),
        _ => panic!("json body expected"),
    }
}
