//! The OAuth2 client facade: it holds a bearer token and stamps each request
//! with the `Bearer` authorization the outside signer renders.

use crate::form::{finalized_bytes, MultiPart};
use crate::oauth::oauth2_header;
use crate::raw;
use crate::raw::{header_is, pairs_match, BodyKind, Method, Request};
use vstd::prelude::*;

verus! {

/// An OAuth2 bearer-token client.
pub struct Client {
    bearer_token: String,
}

/// The value of a bearer authorization for the given token.
pub open spec fn bearer_value(token: Seq<char>) -> Seq<char> {
    "Bearer "@ + token
}

impl Client {
    /// The stored bearer token.
    pub closed spec fn token_chars(&self) -> Seq<char> {
        self.bearer_token@
    }

    /// A client holding an already-obtained bearer token (obtaining one is a
    /// network exchange and stands with the caller, through
    /// `get_bearer_token_response` and `get_bearer_token`).
    pub fn new(bearer_token: &str) -> (r: Self)
        ensures
            r.token_chars() == bearer_token@,
    {
        Self { bearer_token: bearer_token.to_owned() }
    }

    /// The `Bearer` authorization value for the stored token.
    fn make_header(&self) -> (r: String)
        ensures
            r@ == bearer_value(self.token_chars()),
    {
        oauth2_header(self.bearer_token.as_str())
    }

    /// A bearer GET: the query is percent-encoded into the URL.
    pub fn get(&self, url: &str, query_options: &Vec<(&str, &str)>) -> (r: Request)
        ensures
            r.method == Method::Get,
            query_options@.len() > 0 ==> r.url@ == url@ + seq!['?'] + crate::encode::query_chars(
                query_options@,
                seq!['&'],
            ),
            query_options@.len() == 0 ==> r.url@ == url@,
            r.query@.len() == 0,
            r.headers@.len() == 1,
            header_is(r.headers@, 0, "Authorization"@, bearer_value(self.token_chars())),
            r.body is Empty,
    {
        let auth = self.make_header();
        raw::get(url, query_options, auth.as_str())
    }

    /// A bearer form POST.
    pub fn post(
        &self,
        url: &str,
        query_options: &Vec<(&str, &str)>,
        form_options: &Vec<(&str, &str)>,
    ) -> (r: Request)
        ensures
            r.method == Method::Post,
            r.url@ == url@,
            pairs_match(r.query@, query_options@),
            r.headers@.len() == 2,
            header_is(r.headers@, 0, "Authorization"@, bearer_value(self.token_chars())),
            header_is(
                r.headers@,
                1,
                "Content-Type"@,
                "application/x-www-form-urlencoded;charset=UTF-8"@,
            ),
            r.body matches BodyKind::Text(b) && b@ == crate::encode::body_chars(
                crate::encode::pair_bytes(form_options@),
            ),
    {
        let auth = self.make_header();
        raw::post(url, query_options, form_options, auth.as_str())
    }

    /// A bearer JSON POST.
    pub fn json(&self, url: &str, query_options: &Vec<(&str, &str)>, data: serde_json::Value) -> (r:
        Request)
        ensures
            r.method == Method::Post,
            r.url@ == url@,
            pairs_match(r.query@, query_options@),
            r.headers@.len() == 2,
            header_is(r.headers@, 0, "Authorization"@, bearer_value(self.token_chars())),
            header_is(r.headers@, 1, "Content-Type"@, "application/json"@),
            r.body == BodyKind::Json(data),
    {
        let auth = self.make_header();
        raw::json(url, query_options, data, auth.as_str())
    }

    /// A bearer PUT without body.
    pub fn put(&self, url: &str, query_options: &Vec<(&str, &str)>) -> (r: Request)
        ensures
            r.method == Method::Put,
            query_options@.len() > 0 ==> r.url@ == url@ + seq!['?'] + crate::encode::query_chars(
                query_options@,
                seq!['&'],
            ),
            query_options@.len() == 0 ==> r.url@ == url@,
            r.query@.len() == 0,
            r.headers@.len() == 1,
            header_is(r.headers@, 0, "Authorization"@, bearer_value(self.token_chars())),
            r.body is Empty,
    {
        let auth = self.make_header();
        raw::put(url, query_options, auth.as_str())
    }

    /// A bearer DELETE without body.
    pub fn delete(&self, url: &str, query_options: &Vec<(&str, &str)>) -> (r: Request)
        ensures
            r.method == Method::Delete,
            query_options@.len() > 0 ==> r.url@ == url@ + seq!['?'] + crate::encode::query_chars(
                query_options@,
                seq!['&'],
            ),
            query_options@.len() == 0 ==> r.url@ == url@,
            r.query@.len() == 0,
            r.headers@.len() == 1,
            header_is(r.headers@, 0, "Authorization"@, bearer_value(self.token_chars())),
            r.body is Empty,
    {
        let auth = self.make_header();
        raw::delete(url, query_options, auth.as_str())
    }

    /// A bearer multipart POST.
    pub fn multipart(&self, url: &str, query_options: &Vec<(&str, &str)>, data: MultiPart) -> (r:
        Request)
        requires
            data.wf(),
        ensures
            r.method == Method::Post,
            r.url@ == url@,
            pairs_match(r.query@, query_options@),
            r.headers@.len() == 2,
            header_is(r.headers@, 0, "Authorization"@, bearer_value(self.token_chars())),
            r.headers@[1].0@ == "Content-Type"@,
            r.headers@[1].1@ == "multipart/form-data; boundary="@ + data.boundary_chars(),
            r.body matches BodyKind::Bytes(b) && b@ == finalized_bytes(
                data.boundary_bytes(),
                data.parts_seq(),
            ),
    {
        let auth = self.make_header();
        raw::multipart(url, query_options, data, auth.as_str())
    }
}

} // verus!