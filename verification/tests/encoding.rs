use twapi_ureq::encode::{append_query, encode, make_body, make_query};

#[test]
fn percent_encoding_keeps_unreserved_and_escapes_space() {
    assert_eq!(encode("AZaz09.-_~"), "AZaz09.-_~");
    assert_eq!(encode("a b"), "a%20b");
    assert_eq!(encode("+"), "%2B");
    assert_eq!(encode("*"), "%2A");
    assert_eq!(encode("~"), "~");
    assert_eq!(encode(""), "");
    assert!(!encode("a b+ *").contains('+'));
}

#[test]
fn multibyte_values_escaped_byte_by_byte() {
    assert_eq!(encode("東"), "%E6%9D%B1");
}

#[test]
fn form_body_substitution_pipeline() {
    assert_eq!(make_body(&vec![("status", "a b*c~d")]), "status=a%20b%2Ac~d");
}

#[test]
fn form_body_substitutions_separately() {
    assert_eq!(make_body(&vec![("k", "a b")]), "k=a%20b");
    assert_eq!(make_body(&vec![("k", "*")]), "k=%2A");
    assert_eq!(make_body(&vec![("k", "~")]), "k=~");
    assert_eq!(make_body(&vec![("k", "+")]), "k=%2B");
}

#[test]
fn form_body_joins_pairs() {
    let body = make_body(&vec![("status", "hello world"), ("count", "2")]);
    assert_eq!(body, "status=hello%20world&count=2");
}

#[test]
fn empty_form_body() {
    assert_eq!(make_body(&vec![]), "");
}

#[test]
fn query_string_appended_to_url() {
    let url = append_query("https://x/y", &vec![("q", "a b"), ("count", "2")]);
    assert_eq!(url, "https://x/y?q=a%20b&count=2");
}

#[test]
fn url_without_parameters_unchanged() {
    assert_eq!(append_query("https://x/y", &vec![]), "https://x/y");
}

#[test]
fn make_query_joins_with_separator() {
    assert_eq!(make_query(&vec![("a", "1"), ("b", "2")], "&"), "a=1&b=2");
    assert_eq!(make_query(&vec![], "&"), "");
    assert_eq!(make_query(&vec![("a", "x y")], "&"), "a=x%20y");
}
