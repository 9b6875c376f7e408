//! The request assembler: each body variant is turned into a concrete
//! outgoing request — method, URL with the query applied or carried, headers
//! with exactly one `Authorization`, and the encoded body — ready for a
//! transport to send.

use crate::encode::{append_query, body_chars, make_body, pair_bytes, query_chars};
use crate::form::{finalized_bytes, MultiPart};
use vstd::prelude::*;
use vstd::string::StringExecFns;

verus! {

#[verifier::external_type_specification]
#[verifier::external_body]
pub struct ExValue(serde_json::Value);

/// The HTTP method of an outgoing request.
#[derive(Debug, Clone, Copy, PartialEq, Eq, Structural)]
pub enum Method {
    Get,
    Post,
    Put,
    Delete,
}

/// The body of an outgoing request.
pub enum BodyKind {
    /// No body is sent.
    Empty,
    /// An `application/x-www-form-urlencoded` body.
    Text(String),
    /// A structured value serialized as JSON by the transport.
    Json(serde_json::Value),
    /// A raw byte body (a finalized multipart payload).
    Bytes(Vec<u8>),
}

/// One outgoing request, assembled and ready to send: the transport applies
/// the remaining `query` pairs to the URL, sets the headers, and sends the
/// body with the method.
pub struct Request {
    pub method: Method,
    pub url: String,
    pub query: Vec<(String, String)>,
    pub headers: Vec<(String, String)>,
    pub body: BodyKind,
}

/// The header list holds the pair (`name`, `value`) at index `i`.
pub open spec fn header_is(
    headers: Seq<(String, String)>,
    i: int,
    name: Seq<char>,
    value: Seq<char>,
) -> bool {
    0 <= i < headers.len() && headers[i].0@ == name && headers[i].1@ == value
}

/// The owned pairs mirror the given borrowed pairs, in order.
pub open spec fn pairs_match<'a>(
    owned: Seq<(String, String)>,
    given: Seq<(&'a str, &'a str)>,
) -> bool {
    &&& owned.len() == given.len()
    &&& forall|i: int|
        0 <= i < owned.len() ==> (#[trigger] owned[i]).0@ == given[i].0@ && owned[i].1@
            == given[i].1@
}

/// Copy a borrowed parameter list into an owned one, preserving the order.
fn copy_pairs(list: &Vec<(&str, &str)>) -> (r: Vec<(String, String)>)
    ensures
        pairs_match(r@, list@),
{
    let mut r: Vec<(String, String)> = Vec::new();
    let mut i: usize = 0;
    while i < list.len()
        invariant
            i <= list.len(),
            r@.len() == i,
            forall|j: int|
                0 <= j < i ==> (#[trigger] r@[j]).0@ == list@[j].0@ && r@[j].1@ == list@[j].1@,
        decreases list.len() - i,
    {
        r.push((list[i].0.to_owned(), list[i].1.to_owned()));
        i += 1;
    }
    r
}

/// One list holding the first list's pairs and then the second's, in order:
/// the parameter set a signer is given when query and form parameters are
/// combined for signing.
pub(crate) fn merge_pairs<'a>(
    a: &Vec<(&'a str, &'a str)>,
    b: &Vec<(&'a str, &'a str)>,
) -> (r: Vec<(&'a str, &'a str)>)
    ensures
        r@ == a@ + b@,
{
    let mut r: Vec<(&str, &str)> = Vec::new();
    let mut i: usize = 0;
    while i < a.len()
        invariant
            i <= a.len(),
            r@ == a@.take(i as int),
        decreases a.len() - i,
    {
        r.push(a[i]);
        proof {
            assert(a@.take(i as int + 1) =~= a@.take(i as int).push(a@[i as int]));
        }
        i += 1;
    }
    let mut j: usize = 0;
    proof {
        assert(a@.take(a@.len() as int) =~= a@);
        assert(b@.take(0) =~= Seq::<(&str, &str)>::empty());
        assert(r@ =~= a@ + b@.take(0));
    }
    while j < b.len()
        invariant
            j <= b.len(),
            r@ == a@ + b@.take(j as int),
        decreases b.len() - j,
    {
        r.push(b[j]);
        proof {
            assert(b@.take(j as int + 1) =~= b@.take(j as int).push(b@[j as int]));
            assert(a@ + b@.take(j as int + 1) =~= (a@ + b@.take(j as int)).push(b@[j as int]));
        }
        j += 1;
    }
    proof {
        assert(b@.take(b@.len() as int) =~= b@);
    }
    r
}

/// The one `Authorization` header every request carries.
fn auth_header(authorization: &str) -> (r: (String, String))
    ensures
        r.0@ == "Authorization"@,
        r.1@ == authorization@,
{
    ("Authorization".to_owned(), authorization.to_owned())
}

/// A GET request: the query parameters are percent-encoded and appended to
/// the URL (none means the URL is passed through, with no trailing `?`), and
/// no body is sent.
pub fn get(url: &str, query_options: &Vec<(&str, &str)>, authorization: &str) -> (r: Request)
    ensures
        r.method == Method::Get,
        query_options@.len() > 0 ==> r.url@ == url@ + seq!['?'] + query_chars(
            query_options@,
            seq!['&'],
        ),
        query_options@.len() == 0 ==> r.url@ == url@,
        r.query@.len() == 0,
        r.headers@.len() == 1,
        header_is(r.headers@, 0, "Authorization"@, authorization@),
        r.body is Empty,
{
    let full = append_query(url, query_options);
    let mut headers: Vec<(String, String)> = Vec::new();
    headers.push(auth_header(authorization));
    Request { method: Method::Get, url: full, query: Vec::new(), headers, body: BodyKind::Empty }
}

/// A form POST: the query parameters are carried for the transport's query
/// mechanism, and the form parameters are urlencoded into the body with the
/// corrective substitutions applied.
pub fn post(
    url: &str,
    query_options: &Vec<(&str, &str)>,
    form_options: &Vec<(&str, &str)>,
    authorization: &str,
) -> (r: Request)
    ensures
        r.method == Method::Post,
        r.url@ == url@,
        pairs_match(r.query@, query_options@),
        r.headers@.len() == 2,
        header_is(r.headers@, 0, "Authorization"@, authorization@),
        header_is(
            r.headers@,
            1,
            "Content-Type"@,
            "application/x-www-form-urlencoded;charset=UTF-8"@,
        ),
        r.body matches BodyKind::Text(b) && b@ == body_chars(pair_bytes(form_options@)),
{
    let body = make_body(form_options);
    let mut headers: Vec<(String, String)> = Vec::new();
    headers.push(auth_header(authorization));
    headers.push((
        "Content-Type".to_owned(),
        "application/x-www-form-urlencoded;charset=UTF-8".to_owned(),
    ));
    Request {
        method: Method::Post,
        url: url.to_owned(),
        query: copy_pairs(query_options),
        headers,
        body: BodyKind::Text(body),
    }
}

/// A JSON POST: the structured value is carried through untouched for the
/// transport to serialize, with no corrective substitution.
pub fn json(
    url: &str,
    query_options: &Vec<(&str, &str)>,
    data: serde_json::Value,
    authorization: &str,
) -> (r: Request)
    ensures
        r.method == Method::Post,
        r.url@ == url@,
        pairs_match(r.query@, query_options@),
        r.headers@.len() == 2,
        header_is(r.headers@, 0, "Authorization"@, authorization@),
        header_is(r.headers@, 1, "Content-Type"@, "application/json"@),
        r.body == BodyKind::Json(data),
{
    let mut headers: Vec<(String, String)> = Vec::new();
    headers.push(auth_header(authorization));
    headers.push(("Content-Type".to_owned(), "application/json".to_owned()));
    Request {
        method: Method::Post,
        url: url.to_owned(),
        query: copy_pairs(query_options),
        headers,
        body: BodyKind::Json(data),
    }
}

/// A PUT without body: query handling is GET-style.
pub fn put(url: &str, query_options: &Vec<(&str, &str)>, authorization: &str) -> (r: Request)
    ensures
        r.method == Method::Put,
        query_options@.len() > 0 ==> r.url@ == url@ + seq!['?'] + query_chars(
            query_options@,
            seq!['&'],
        ),
        query_options@.len() == 0 ==> r.url@ == url@,
        r.query@.len() == 0,
        r.headers@.len() == 1,
        header_is(r.headers@, 0, "Authorization"@, authorization@),
        r.body is Empty,
{
    let full = append_query(url, query_options);
    let mut headers: Vec<(String, String)> = Vec::new();
    headers.push(auth_header(authorization));
    Request { method: Method::Put, url: full, query: Vec::new(), headers, body: BodyKind::Empty }
}

/// A DELETE without body: query handling is GET-style.
pub fn delete(url: &str, query_options: &Vec<(&str, &str)>, authorization: &str) -> (r: Request)
    ensures
        r.method == Method::Delete,
        query_options@.len() > 0 ==> r.url@ == url@ + seq!['?'] + query_chars(
            query_options@,
            seq!['&'],
        ),
        query_options@.len() == 0 ==> r.url@ == url@,
        r.query@.len() == 0,
        r.headers@.len() == 1,
        header_is(r.headers@, 0, "Authorization"@, authorization@),
        r.body is Empty,
{
    let full = append_query(url, query_options);
    let mut headers: Vec<(String, String)> = Vec::new();
    headers.push(auth_header(authorization));
    Request {
        method: Method::Delete,
        url: full,
        query: Vec::new(),
        headers,
        body: BodyKind::Empty,
    }
}

/// A multipart POST: the body is the finalized multipart payload and the
/// `Content-Type` echoes the body's boundary.
pub fn multipart(
    url: &str,
    query_options: &Vec<(&str, &str)>,
    data: MultiPart,
    authorization: &str,
) -> (r: Request)
    requires
        data.wf(),
    ensures
        r.method == Method::Post,
        r.url@ == url@,
        pairs_match(r.query@, query_options@),
        r.headers@.len() == 2,
        header_is(r.headers@, 0, "Authorization"@, authorization@),
        r.headers@[1].0@ == "Content-Type"@,
        r.headers@[1].1@ == "multipart/form-data; boundary="@ + data.boundary_chars(),
        r.body matches BodyKind::Bytes(b) && b@ == finalized_bytes(
            data.boundary_bytes(),
            data.parts_seq(),
        ),
{
    let mut data = data;
    let mut content_type = "multipart/form-data; boundary=".to_owned();
    content_type.append(data.boundary_str());
    let bytes = data.to_bytes();
    let mut headers: Vec<(String, String)> = Vec::new();
    headers.push(auth_header(authorization));
    headers.push(("Content-Type".to_owned(), content_type));
    Request {
        method: Method::Post,
        url: url.to_owned(),
        query: copy_pairs(query_options),
        headers,
        body: BodyKind::Bytes(bytes),
    }
}

} // verus!