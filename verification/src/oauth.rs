//! The token endpoints: requests for bearer, request and access tokens, and
//! the parsing of their responses. The signature computation itself is the
//! outside signer's work; this module states only what it can of its results.

use crate::raw::{header_is, BodyKind, Method, Request};
use vstd::prelude::*;
use vstd::string::StrSliceExecFns;
use vstd::string::StringExecFns;
use vstd::utf8::encode_utf8;

verus! {

broadcast use vstd::seq_lib::group_seq_lib_default;

// ---------------------------------------------------------------------------
// Trusted boundary: the outside signers and the JSON value.
// ---------------------------------------------------------------------------

/// An `Authorization` value of the OAuth scheme: `OAuth ` and then the
/// signer's parameter list.
pub open spec fn auth_is_oauth(v: Seq<char>) -> bool {
    v.len() >= 6 && v.subrange(0, 6) == "OAuth "@
}

/// Relies on twapi_oauth::oauth1_authorization_header: it computes the OAuth1
/// signature over the given parameters (with a fresh nonce and timestamp, so
/// two calls on one input differ) and returns it prefixed with `OAuth `.
#[verifier::external_body]
pub(crate) fn oauth1_header(
    consumer_key: &str,
    consumer_secret: &str,
    access_key: &str,
    access_secret: &str,
    method: &str,
    url: &str,
    options: &Vec<(&str, &str)>,
) -> (r: String)
    ensures
        auth_is_oauth(r@),
{
    twapi_oauth::oauth1_authorization_header(
        consumer_key,
        consumer_secret,
        access_key,
        access_secret,
        method,
        url,
        options,
    )
}

/// Relies on twapi_oauth::oauth2_authorization_header: it returns exactly
/// `Bearer ` followed by the token.
#[verifier::external_body]
pub(crate) fn oauth2_header(bearer_token: &str) -> (r: String)
    ensures
        r@ == "Bearer "@ + bearer_token@,
{
    twapi_oauth::oauth2_authorization_header(bearer_token)
}

/// Relies on twapi_oauth::calc_oauth_header: it computes the signed OAuth1
/// parameter list for the given key and options (with a fresh nonce and
/// timestamp, so two calls on one input differ); nothing is promised of the
/// result.
#[verifier::external_body]
fn calc_oauth_header(
    sign_key: &str,
    consumer_key: &str,
    header_options: &Vec<(&str, &str)>,
    method: &str,
    uri: &str,
    options: &Vec<(&str, &str)>,
) -> String {
    twapi_oauth::calc_oauth_header(
        sign_key,
        consumer_key,
        header_options,
        method,
        uri,
        options,
    )
}

/// What base64::encode returns for the given bytes: a function of the bytes
/// alone.
pub uninterp spec fn base64_of(bytes: Seq<u8>) -> Seq<char>;

/// Relies on base64::encode: the standard base64 rendering of the bytes.
#[verifier::external_body]
fn base64_encode(data: &[u8]) -> (r: String)
    ensures
        r@ == base64_of(data@),
{
    base64::encode(data)
}

/// Relies on serde_json's Value::get: the member of an object under the key,
/// when there is one.
#[verifier::external_body]
fn json_get<'a>(v: &'a serde_json::Value, key: &str) -> Option<&'a serde_json::Value> {
    v.get(key)
}

/// Relies on serde_json's Value::as_str: the string a value holds, when it is
/// a string, copied out.
#[verifier::external_body]
fn json_as_string(v: &serde_json::Value) -> Option<String> {
    v.as_str().map(|s| s.to_owned())
}

/// Relies on String's FromIterator<char>: collecting characters yields the
/// string of exactly those characters.
#[verifier::external_body]
fn chars_to_string(v: &Vec<char>) -> (r: String)
    ensures
        r@ == v@,
{
    v.iter().collect()
}

// ---------------------------------------------------------------------------
// The token-endpoint requests.
// ---------------------------------------------------------------------------

/// The request that obtains an OAuth2 bearer token: a form POST to the token
/// endpoint whose `Authorization` is `Basic ` and the base64 of
/// `consumer_key:consumer_secret`.
pub fn get_bearer_token_response(consumer_key: &str, consumer_secret: &str) -> (r: Request)
    ensures
        r.method == Method::Post,
        r.url@ == "https://api.twitter.com/oauth2/token"@,
        r.query@.len() == 0,
        r.headers@.len() == 2,
        header_is(
            r.headers@,
            0,
            "Content-Type"@,
            "application/x-www-form-urlencoded;charset=UTF-8"@,
        ),
        r.headers@[1].0@ == "Authorization"@,
        r.headers@[1].1@ == "Basic "@ + base64_of(
            encode_utf8(consumer_key@ + seq![':'] + consumer_secret@),
        ),
        r.body matches BodyKind::Text(b) && b@ == "grant_type=client_credentials"@,
{
    let mut creds = consumer_key.to_owned();
    creds.append(":");
    creds.append(consumer_secret);
    proof {
        reveal_strlit(":");
        assert(":"@ =~= seq![':']);
    }
    let key = base64_encode(creds.as_str().as_bytes());
    let mut auth = "Basic ".to_owned();
    auth.append(key.as_str());
    let mut headers: Vec<(String, String)> = Vec::new();
    headers.push((
        "Content-Type".to_owned(),
        "application/x-www-form-urlencoded;charset=UTF-8".to_owned(),
    ));
    headers.push(("Authorization".to_owned(), auth));
    Request {
        method: Method::Post,
        url: "https://api.twitter.com/oauth2/token".to_owned(),
        query: Vec::new(),
        headers,
        body: BodyKind::Text("grant_type=client_credentials".to_owned()),
    }
}

/// The bearer token in the token endpoint's JSON response: the
/// `access_token` member, when it is present and a string. The value is
/// opaque structured data; nothing more can be stated of it.
pub fn get_bearer_token(response: &serde_json::Value) -> Option<String> {
    match json_get(response, "access_token") {
        Some(v) => json_as_string(v),
        None => None,
    }
}

/// The request of the OAuth1 request-token step: a POST whose authorization
/// is signed with `consumer_secret&` over `oauth_callback` and, when given,
/// `x_auth_access_type`.
pub fn request_token_response(
    consumer_key: &str,
    consumer_secret: &str,
    oauth_callback: &str,
    x_auth_access_type: Option<&str>,
) -> (r: Request)
    ensures
        r.method == Method::Post,
        r.url@ == "https://api.twitter.com/oauth/request_token"@,
        r.query@.len() == 0,
        r.headers@.len() == 1,
        r.headers@[0].0@ == "Authorization"@,
        auth_is_oauth(r.headers@[0].1@),
        r.body is Empty,
{
    let uri = "https://api.twitter.com/oauth/request_token";
    let mut sign_key = consumer_secret.to_owned();
    sign_key.append("&");
    let mut header_options: Vec<(&str, &str)> = Vec::new();
    header_options.push(("oauth_callback", oauth_callback));
    match x_auth_access_type {
        Some(x) => header_options.push(("x_auth_access_type", x)),
        None => {},
    }
    let empty: Vec<(&str, &str)> = Vec::new();
    let signed = calc_oauth_header(
        sign_key.as_str(),
        consumer_key,
        &header_options,
        "POST",
        uri,
        &empty,
    );
    let auth = oauth_value(&signed);
    let mut headers: Vec<(String, String)> = Vec::new();
    headers.push(("Authorization".to_owned(), auth));
    Request {
        method: Method::Post,
        url: uri.to_owned(),
        query: Vec::new(),
        headers,
        body: BodyKind::Empty,
    }
}

/// The request of the OAuth1 access-token step: a POST whose authorization is
/// signed with `consumer_secret&oauth_token_secret` over the token and the
/// verifier.
pub fn access_token_response(
    consumer_key: &str,
    consumer_secret: &str,
    oauth_token: &str,
    oauth_token_secret: &str,
    oauth_verifier: &str,
) -> (r: Request)
    ensures
        r.method == Method::Post,
        r.url@ == "https://api.twitter.com/oauth/access_token"@,
        r.query@.len() == 0,
        r.headers@.len() == 1,
        r.headers@[0].0@ == "Authorization"@,
        auth_is_oauth(r.headers@[0].1@),
        r.body is Empty,
{
    let uri = "https://api.twitter.com/oauth/access_token";
    let mut sign_key = consumer_secret.to_owned();
    sign_key.append("&");
    sign_key.append(oauth_token_secret);
    let mut header_options: Vec<(&str, &str)> = Vec::new();
    header_options.push(("oauth_token", oauth_token));
    header_options.push(("oauth_verifier", oauth_verifier));
    let empty: Vec<(&str, &str)> = Vec::new();
    let signed = calc_oauth_header(
        sign_key.as_str(),
        consumer_key,
        &header_options,
        "POST",
        uri,
        &empty,
    );
    let auth = oauth_value(&signed);
    let mut headers: Vec<(String, String)> = Vec::new();
    headers.push(("Authorization".to_owned(), auth));
    Request {
        method: Method::Post,
        url: uri.to_owned(),
        query: Vec::new(),
        headers,
        body: BodyKind::Empty,
    }
}

/// Prefix a signed parameter list with the `OAuth ` scheme.
fn oauth_value(signed: &str) -> (r: String)
    ensures
        auth_is_oauth(r@),
        r@ == "OAuth "@ + signed@,
{
    let mut auth = "OAuth ".to_owned();
    auth.append(signed);
    proof {
        reveal_strlit("OAuth ");
        assert(auth@.subrange(0, 6) =~= "OAuth "@);
    }
    auth
}

// ---------------------------------------------------------------------------
// Parsing the form-encoded token responses.
// ---------------------------------------------------------------------------

/// The items of `s` split on `sep`, as str::split yields them: an empty
/// string is one empty item, and every separator ends an item.
pub open spec fn split_on(s: Seq<char>, sep: char) -> Seq<Seq<char>>
    decreases s.len(),
{
    if s.len() == 0 {
        seq![Seq::<char>::empty()]
    } else if s.last() == sep {
        split_on(s.drop_last(), sep).push(Seq::<char>::empty())
    } else {
        let r = split_on(s.drop_last(), sep);
        r.update(r.len() - 1, r.last().push(s.last()))
    }
}

/// Splitting yields at least one item.
proof fn lemma_split_on_nonempty(s: Seq<char>, sep: char)
    ensures
        split_on(s, sep).len() >= 1,
    decreases s.len(),
{
    if s.len() > 0 {
        lemma_split_on_nonempty(s.drop_last(), sep);
    }
}

/// Every `&`-separated item of a well-formed token response body holds an
/// `=`: it splits into a key and at least one value piece.
pub open spec fn oauth_body_wf(body: Seq<char>) -> bool {
    forall|i: int|
        0 <= i < split_on(body, '&').len() ==> split_on(#[trigger] split_on(body, '&')[i], '=').len()
            >= 2
}

/// The characters of a string, one by one.
fn str_chars(s: &str) -> (r: Vec<char>)
    ensures
        r@ == s@,
{
    let n = s.unicode_len();
    let mut r: Vec<char> = Vec::new();
    let mut i: usize = 0;
    while i < n
        invariant
            i <= n,
            n == s@.len(),
            r@ == s@.take(i as int),
        decreases n - i,
    {
        let c = s.get_char(i);
        r.push(c);
        proof {
            assert(s@.take(i as int + 1) =~= s@.take(i as int).push(s@[i as int]));
        }
        i += 1;
    }
    proof {
        assert(s@.take(n as int) =~= s@);
    }
    r
}

/// Split a character list on a separator, as str::split does.
fn split_chars(v: &Vec<char>, sep: char) -> (r: Vec<Vec<char>>)
    ensures
        r@.map_values(|x: Vec<char>| x@) == split_on(v@, sep),
{
    let mut done: Vec<Vec<char>> = Vec::new();
    let mut cur: Vec<char> = Vec::new();
    let mut i: usize = 0;
    proof {
        assert(v@.take(0) =~= Seq::<char>::empty());
        assert(done@.map_values(|x: Vec<char>| x@).push(cur@) =~= split_on(v@.take(0), sep));
    }
    while i < v.len()
        invariant
            i <= v.len(),
            done@.map_values(|x: Vec<char>| x@).push(cur@) == split_on(v@.take(i as int), sep),
        decreases v.len() - i,
    {
        let ghost prev = split_on(v@.take(i as int), sep);
        proof {
            assert(v@.take(i as int + 1).drop_last() =~= v@.take(i as int));
            assert(v@.take(i as int + 1).last() == v@[i as int]);
            lemma_split_on_nonempty(v@.take(i as int), sep);
        }
        if v[i] == sep {
            done.push(cur);
            cur = Vec::new();
            proof {
                assert(split_on(v@.take(i as int + 1), sep) =~= prev.push(Seq::<char>::empty()));
                assert(done@.map_values(|x: Vec<char>| x@).push(cur@) =~= prev.push(
                    Seq::<char>::empty(),
                ));
            }
        } else {
            let ghost pcur = cur@;
            cur.push(v[i]);
            proof {
                assert(split_on(v@.take(i as int + 1), sep) =~= prev.update(
                    prev.len() - 1,
                    prev.last().push(v@[i as int]),
                ));
                assert(prev.last() == pcur);
                assert(done@.map_values(|x: Vec<char>| x@).push(cur@) =~= prev.update(
                    prev.len() - 1,
                    prev.last().push(v@[i as int]),
                ));
            }
        }
        i += 1;
    }
    proof {
        assert(v@.take(v@.len() as int) =~= v@);
    }
    done.push(cur);
    done
}

/// Parse a token response body of the form `k1=v1&k2=v2`: each `&`-separated
/// item yields its key and its first value piece (text after a second `=` in
/// an item is dropped). An item without `=` is a malformed body and yields
/// `None`.
fn parse_oauth_body(body: &str) -> (r: Option<Vec<(String, String)>>)
    ensures
        r is Some <==> oauth_body_wf(body@),
        r matches Some(ps) ==> {
            let items = split_on(body@, '&');
            &&& ps@.len() == items.len()
            &&& forall|i: int|
                0 <= i < items.len() ==> (#[trigger] ps@[i]).0@ == split_on(items[i], '=')[0]
                    && ps@[i].1@ == split_on(items[i], '=')[1]
        },
{
    let chars = str_chars(body);
    let items = split_chars(&chars, '&');
    let ghost gitems = split_on(body@, '&');
    let mut out: Vec<(String, String)> = Vec::new();
    let mut i: usize = 0;
    while i < items.len()
        invariant
            i <= items@.len(),
            gitems == split_on(body@, '&'),
            items@.map_values(|x: Vec<char>| x@) == gitems,
            out@.len() == i,
            forall|j: int|
                0 <= j < i ==> (#[trigger] out@[j]).0@ == split_on(gitems[j], '=')[0]
                    && out@[j].1@ == split_on(gitems[j], '=')[1],
            forall|j: int| 0 <= j < i ==> split_on(#[trigger] gitems[j], '=').len() >= 2,
        decreases items@.len() - i,
    {
        proof {
            assert(items@[i as int]@ == gitems[i as int]);
        }
        let pieces = split_chars(&items[i], '=');
        if pieces.len() < 2 {
            proof {
                assert(gitems.len() == items@.map_values(|x: Vec<char>| x@).len());
                assert(pieces@.map_values(|x: Vec<char>| x@).len() == pieces@.len());
                assert(split_on(items@[i as int]@, '=').len() < 2);
                assert(gitems == split_on(body@, '&'));
                assert(gitems[i as int] == items@[i as int]@);
                assert(split_on(body@, '&')[i as int] == items@[i as int]@);
                assert(split_on(split_on(body@, '&')[i as int], '=').len() < 2);
                assert(!oauth_body_wf(body@));
            }
            return None;
        }
        let key = chars_to_string(&pieces[0]);
        let value = chars_to_string(&pieces[1]);
        proof {
            assert(pieces@[0]@ == split_on(gitems[i as int], '=')[0]);
            assert(pieces@[1]@ == split_on(gitems[i as int], '=')[1]);
        }
        out.push((key, value));
        i += 1;
    }
    Some(out)
}

/// Parse the request-token step's response body into its key/value pairs, in
/// order; `None` when an item has no `=`.
pub fn request_token(body: &str) -> (r: Option<Vec<(String, String)>>)
    ensures
        r is Some <==> oauth_body_wf(body@),
        r matches Some(ps) ==> {
            let items = split_on(body@, '&');
            &&& ps@.len() == items.len()
            &&& forall|i: int|
                0 <= i < items.len() ==> (#[trigger] ps@[i]).0@ == split_on(items[i], '=')[0]
                    && ps@[i].1@ == split_on(items[i], '=')[1]
        },
{
    parse_oauth_body(body)
}

/// Parse the access-token step's response body into its key/value pairs, in
/// order; `None` when an item has no `=`.
pub fn access_token(body: &str) -> (r: Option<Vec<(String, String)>>)
    ensures
        r is Some <==> oauth_body_wf(body@),
        r matches Some(ps) ==> {
            let items = split_on(body@, '&');
            &&& ps@.len() == items.len()
            &&& forall|i: int|
                0 <= i < items.len() ==> (#[trigger] ps@[i]).0@ == split_on(items[i], '=')[0]
                    && ps@[i].1@ == split_on(items[i], '=')[1]
        },
{
    parse_oauth_body(body)
}

} // verus!