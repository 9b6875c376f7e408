//! A client library for an OAuth-protected REST API, centered on the parts
//! that must be byte-exact: the `multipart/form-data` encoder, the RFC 3986
//! percent-encoding of query strings, the urlencoded form bodies with their
//! corrective substitutions, and the assembly of each outgoing request. The
//! functions here build a [`raw::Request`] ready for a transport to send;
//! the signing of the `Authorization` value is the outside signer's work.

pub mod encode;
pub mod form;
pub mod oauth;
pub mod raw;
pub mod v1;
pub mod v2;

pub use form::FormError;
pub use form::MultiPart;
pub use oauth::get_bearer_token;
pub use oauth::get_bearer_token_response;

use crate::form::finalized_bytes;
use crate::oauth::{oauth1_header, oauth2_header};
use crate::raw::{header_is, pairs_match, BodyKind, Method, Request};
use crate::v1::one_oauth_header;
use vstd::prelude::*;

verus! {

broadcast use vstd::string::group_string_axioms;

/// An OAuth1-signed GET: the query is percent-encoded into the URL.
pub fn get(
    url: &str,
    query_options: &Vec<(&str, &str)>,
    consumer_key: &str,
    consumer_secret: &str,
    access_key: &str,
    access_secret: &str,
) -> (r: Request)
    ensures
        r.method == Method::Get,
        query_options@.len() > 0 ==> r.url@ == url@ + seq!['?'] + crate::encode::query_chars(
            query_options@,
            seq!['&'],
        ),
        query_options@.len() == 0 ==> r.url@ == url@,
        r.query@.len() == 0,
        r.headers@.len() == 1,
        one_oauth_header(r.headers@),
        r.body is Empty,
{
    let authorization = oauth1_header(
        consumer_key,
        consumer_secret,
        access_key,
        access_secret,
        "GET",
        url,
        query_options,
    );
    raw::get(url, query_options, authorization.as_str())
}

/// A bearer-token GET.
pub fn get_v2(url: &str, query_options: &Vec<(&str, &str)>, bearer_token: &str) -> (r: Request)
    ensures
        r.method == Method::Get,
        query_options@.len() > 0 ==> r.url@ == url@ + seq!['?'] + crate::encode::query_chars(
            query_options@,
            seq!['&'],
        ),
        query_options@.len() == 0 ==> r.url@ == url@,
        r.query@.len() == 0,
        r.headers@.len() == 1,
        header_is(r.headers@, 0, "Authorization"@, "Bearer "@ + bearer_token@),
        r.body is Empty,
{
    let authorization = oauth2_header(bearer_token);
    raw::get(url, query_options, authorization.as_str())
}

/// An OAuth1-signed form POST: query and form parameters are merged for the
/// signature only; the wire keeps the query in the URL mechanism and the form
/// parameters in the body.
pub fn post(
    url: &str,
    query_options: &Vec<(&str, &str)>,
    form_options: &Vec<(&str, &str)>,
    consumer_key: &str,
    consumer_secret: &str,
    access_key: &str,
    access_secret: &str,
) -> (r: Request)
    ensures
        r.method == Method::Post,
        r.url@ == url@,
        pairs_match(r.query@, query_options@),
        r.headers@.len() == 2,
        one_oauth_header(r.headers@),
        header_is(
            r.headers@,
            1,
            "Content-Type"@,
            "application/x-www-form-urlencoded;charset=UTF-8"@,
        ),
        r.body matches BodyKind::Text(b) && b@ == crate::encode::body_chars(
            crate::encode::pair_bytes(form_options@),
        ),
{
    let merged_options = raw::merge_pairs(query_options, form_options);
    let authorization = oauth1_header(
        consumer_key,
        consumer_secret,
        access_key,
        access_secret,
        "POST",
        url,
        &merged_options,
    );
    let r = raw::post(url, query_options, form_options, authorization.as_str());
    proof {
        reveal_strlit("Authorization");
        reveal_strlit("Content-Type");
        assert(("Content-Type"@).len() == 12);
        assert(("Authorization"@).len() == 13);
        assert(r.headers@[1].0@ != "Authorization"@);
    }
    r
}

/// An OAuth1-signed JSON POST: the value is carried through untouched.
pub fn json(
    url: &str,
    query_options: &Vec<(&str, &str)>,
    data: serde_json::Value,
    consumer_key: &str,
    consumer_secret: &str,
    access_key: &str,
    access_secret: &str,
) -> (r: Request)
    ensures
        r.method == Method::Post,
        r.url@ == url@,
        pairs_match(r.query@, query_options@),
        r.headers@.len() == 2,
        one_oauth_header(r.headers@),
        header_is(r.headers@, 1, "Content-Type"@, "application/json"@),
        r.body == BodyKind::Json(data),
{
    let authorization = oauth1_header(
        consumer_key,
        consumer_secret,
        access_key,
        access_secret,
        "POST",
        url,
        query_options,
    );
    let r = raw::json(url, query_options, data, authorization.as_str());
    proof {
        reveal_strlit("Authorization");
        reveal_strlit("Content-Type");
        assert(("Content-Type"@).len() == 12);
        assert(("Authorization"@).len() == 13);
        assert(r.headers@[1].0@ != "Authorization"@);
    }
    r
}

/// An OAuth1-signed PUT without body.
pub fn put(
    url: &str,
    query_options: &Vec<(&str, &str)>,
    consumer_key: &str,
    consumer_secret: &str,
    access_key: &str,
    access_secret: &str,
) -> (r: Request)
    ensures
        r.method == Method::Put,
        query_options@.len() > 0 ==> r.url@ == url@ + seq!['?'] + crate::encode::query_chars(
            query_options@,
            seq!['&'],
        ),
        query_options@.len() == 0 ==> r.url@ == url@,
        r.query@.len() == 0,
        r.headers@.len() == 1,
        one_oauth_header(r.headers@),
        r.body is Empty,
{
    let authorization = oauth1_header(
        consumer_key,
        consumer_secret,
        access_key,
        access_secret,
        "PUT",
        url,
        query_options,
    );
    raw::put(url, query_options, authorization.as_str())
}

/// An OAuth1-signed DELETE without body.
pub fn delete(
    url: &str,
    query_options: &Vec<(&str, &str)>,
    consumer_key: &str,
    consumer_secret: &str,
    access_key: &str,
    access_secret: &str,
) -> (r: Request)
    ensures
        r.method == Method::Delete,
        query_options@.len() > 0 ==> r.url@ == url@ + seq!['?'] + crate::encode::query_chars(
            query_options@,
            seq!['&'],
        ),
        query_options@.len() == 0 ==> r.url@ == url@,
        r.query@.len() == 0,
        r.headers@.len() == 1,
        one_oauth_header(r.headers@),
        r.body is Empty,
{
    let authorization = oauth1_header(
        consumer_key,
        consumer_secret,
        access_key,
        access_secret,
        "DELETE",
        url,
        query_options,
    );
    raw::delete(url, query_options, authorization.as_str())
}

/// An OAuth1-signed multipart POST: the body is the finalized multipart
/// payload and the `Content-Type` echoes its boundary.
pub fn multipart(
    url: &str,
    query_options: &Vec<(&str, &str)>,
    data: MultiPart,
    consumer_key: &str,
    consumer_secret: &str,
    access_key: &str,
    access_secret: &str,
) -> (r: Request)
    requires
        data.wf(),
    ensures
        r.method == Method::Post,
        r.url@ == url@,
        pairs_match(r.query@, query_options@),
        r.headers@.len() == 2,
        one_oauth_header(r.headers@),
        r.headers@[1].0@ == "Content-Type"@,
        r.headers@[1].1@ == "multipart/form-data; boundary="@ + data.boundary_chars(),
        r.body matches BodyKind::Bytes(b) && b@ == finalized_bytes(
            data.boundary_bytes(),
            data.parts_seq(),
        ),
{
    let authorization = oauth1_header(
        consumer_key,
        consumer_secret,
        access_key,
        access_secret,
        "POST",
        url,
        query_options,
    );
    let r = raw::multipart(url, query_options, data, authorization.as_str());
    proof {
        reveal_strlit("Authorization");
        reveal_strlit("Content-Type");
        assert(("Content-Type"@).len() == 12);
        assert(("Authorization"@).len() == 13);
        assert(r.headers@[1].0@ != "Authorization"@);
    }
    r
}

} // verus!