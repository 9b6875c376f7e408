//! The OAuth1 client facade: it holds the four credentials, signs each
//! request through the outside signer, and assembles the outgoing request.

use crate::form::{finalized_bytes, MultiPart};
use crate::oauth::{auth_is_oauth, oauth1_header};
use crate::raw;
use crate::raw::{header_is, pairs_match, BodyKind, Method, Request};
use vstd::prelude::*;

verus! {

broadcast use vstd::string::group_string_axioms;

/// An OAuth1-signing client.
pub struct Client {
    consumer_key: String,
    consumer_secret: String,
    access_key: String,
    access_secret: String,
}

/// The request carries exactly one `Authorization` header, at index 0, of
/// the OAuth scheme.
pub open spec fn one_oauth_header(headers: Seq<(String, String)>) -> bool {
    &&& headers.len() >= 1
    &&& headers[0].0@ == "Authorization"@
    &&& auth_is_oauth(headers[0].1@)
    &&& forall|i: int| 1 <= i < headers.len() ==> (#[trigger] headers[i]).0@ != "Authorization"@
}

impl Client {
    /// The stored credentials, in the order they are given to `new`.
    pub closed spec fn credentials(&self) -> (Seq<char>, Seq<char>, Seq<char>, Seq<char>) {
        (self.consumer_key@, self.consumer_secret@, self.access_key@, self.access_secret@)
    }

    /// A client holding the four given credentials.
    pub fn new(
        consumer_key: &str,
        consumer_secret: &str,
        access_key: &str,
        access_secret: &str,
    ) -> (r: Self)
        ensures
            r.credentials() == (consumer_key@, consumer_secret@, access_key@, access_secret@),
    {
        Self {
            consumer_key: consumer_key.to_owned(),
            consumer_secret: consumer_secret.to_owned(),
            access_key: access_key.to_owned(),
            access_secret: access_secret.to_owned(),
        }
    }

    /// Sign one request with the stored credentials.
    fn calc_oauth(&self, method: &str, url: &str, query_options: &Vec<(&str, &str)>) -> (r:
        String)
        ensures
            auth_is_oauth(r@),
    {
        oauth1_header(
            self.consumer_key.as_str(),
            self.consumer_secret.as_str(),
            self.access_key.as_str(),
            self.access_secret.as_str(),
            method,
            url,
            query_options,
        )
    }

    /// A signed GET: the query is percent-encoded into the URL.
    pub fn get(&self, url: &str, query_options: &Vec<(&str, &str)>) -> (r: Request)
        ensures
            r.method == Method::Get,
            query_options@.len() > 0 ==> r.url@ == url@ + seq!['?'] + crate::encode::query_chars(
                query_options@,
                seq!['&'],
            ),
            query_options@.len() == 0 ==> r.url@ == url@,
            r.query@.len() == 0,
            r.headers@.len() == 1,
            one_oauth_header(r.headers@),
            r.body is Empty,
    {
        let auth = self.calc_oauth("GET", url, query_options);
        raw::get(url, query_options, auth.as_str())
    }

    /// A signed form POST: query and form parameters are merged for signing
    /// only; on the wire the query stays in the URL mechanism and the form
    /// parameters stand in the body.
    pub fn post(
        &self,
        url: &str,
        query_options: &Vec<(&str, &str)>,
        form_options: &Vec<(&str, &str)>,
    ) -> (r: Request)
        ensures
            r.method == Method::Post,
            r.url@ == url@,
            pairs_match(r.query@, query_options@),
            r.headers@.len() == 2,
            one_oauth_header(r.headers@),
            header_is(
                r.headers@,
                1,
                "Content-Type"@,
                "application/x-www-form-urlencoded;charset=UTF-8"@,
            ),
            r.body matches BodyKind::Text(b) && b@ == crate::encode::body_chars(
                crate::encode::pair_bytes(form_options@),
            ),
    {
        let merged = raw::merge_pairs(query_options, form_options);
        let auth = self.calc_oauth("POST", url, &merged);
        let r = raw::post(url, query_options, form_options, auth.as_str());
        proof {
            reveal_strlit("Authorization");
            reveal_strlit("Content-Type");
            assert(("Content-Type"@).len() == 12);
            assert(("Authorization"@).len() == 13);
            assert(r.headers@[1].0@ != "Authorization"@);
        }
        r
    }

    /// A signed JSON POST: the value is carried through untouched.
    pub fn json(&self, url: &str, query_options: &Vec<(&str, &str)>, data: serde_json::Value) -> (r:
        Request)
        ensures
            r.method == Method::Post,
            r.url@ == url@,
            pairs_match(r.query@, query_options@),
            r.headers@.len() == 2,
            one_oauth_header(r.headers@),
            header_is(r.headers@, 1, "Content-Type"@, "application/json"@),
            r.body == BodyKind::Json(data),
    {
        let auth = self.calc_oauth("POST", url, query_options);
        let r = raw::json(url, query_options, data, auth.as_str());
        proof {
            reveal_strlit("Authorization");
            reveal_strlit("Content-Type");
            assert(("Content-Type"@).len() == 12);
            assert(("Authorization"@).len() == 13);
            assert(r.headers@[1].0@ != "Authorization"@);
        }
        r
    }

    /// A signed PUT without body.
    pub fn put(&self, url: &str, query_options: &Vec<(&str, &str)>) -> (r: Request)
        ensures
            r.method == Method::Put,
            query_options@.len() > 0 ==> r.url@ == url@ + seq!['?'] + crate::encode::query_chars(
                query_options@,
                seq!['&'],
            ),
            query_options@.len() == 0 ==> r.url@ == url@,
            r.query@.len() == 0,
            r.headers@.len() == 1,
            one_oauth_header(r.headers@),
            r.body is Empty,
    {
        let auth = self.calc_oauth("PUT", url, query_options);
        raw::put(url, query_options, auth.as_str())
    }

    /// A signed DELETE without body.
    pub fn delete(&self, url: &str, query_options: &Vec<(&str, &str)>) -> (r: Request)
        ensures
            r.method == Method::Delete,
            query_options@.len() > 0 ==> r.url@ == url@ + seq!['?'] + crate::encode::query_chars(
                query_options@,
                seq!['&'],
            ),
            query_options@.len() == 0 ==> r.url@ == url@,
            r.query@.len() == 0,
            r.headers@.len() == 1,
            one_oauth_header(r.headers@),
            r.body is Empty,
    {
        let auth = self.calc_oauth("DELETE", url, query_options);
        raw::delete(url, query_options, auth.as_str())
    }

    /// A signed multipart POST.
    pub fn multipart(&self, url: &str, query_options: &Vec<(&str, &str)>, data: MultiPart) -> (r:
        Request)
        requires
            data.wf(),
        ensures
            r.method == Method::Post,
            r.url@ == url@,
            pairs_match(r.query@, query_options@),
            r.headers@.len() == 2,
            one_oauth_header(r.headers@),
            r.headers@[1].0@ == "Content-Type"@,
            r.headers@[1].1@ == "multipart/form-data; boundary="@ + data.boundary_chars(),
            r.body matches BodyKind::Bytes(b) && b@ == finalized_bytes(
                data.boundary_bytes(),
                data.parts_seq(),
            ),
    {
        let auth = self.calc_oauth("POST", url, query_options);
        let r = raw::multipart(url, query_options, data, auth.as_str());
        proof {
            reveal_strlit("Authorization");
            reveal_strlit("Content-Type");
            assert(("Content-Type"@).len() == 12);
            assert(("Authorization"@).len() == 13);
            assert(r.headers@[1].0@ != "Authorization"@);
        }
        r
    }
}

} // verus!