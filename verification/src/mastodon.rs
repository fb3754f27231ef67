//! The request that posts a status to Mastodon.

use vstd::prelude::*;
use crate::feed::{header_view, push_header};
use crate::json::{json_bytes, json_bytes_of, text_value, Json};
use crate::text::opt_text;
use crate::text::{
    append_all, append_str, chars_of, decimal, decimal_exec, lemma_trim_end_char_shape, string_of,
    trim, trim_end_char,
    trim_end_char_exec, trimmed,
};

verus! {

/// The body of a status: the object `{"status": message, "visibility":
/// "public"}`, its members in that order.
pub open spec fn is_status_payload(j: Json, message: Seq<char>) -> bool {
    match j {
        Json::Object(members) => {
            &&& members@.len() == 2
            &&& members@[0].0@ == "status"@
            &&& text_value(members@[0].1) == Some(message)
            &&& members@[1].0@ == "visibility"@
            &&& text_value(members@[1].1) == Some("public"@)
        },
        _ => false,
    }
}

/// The body of a status that posts `message` publicly.
pub fn status_payload(message: &str) -> (j: Json)
    ensures
        is_status_payload(j, message@),
{
    let mut members: Vec<(String, Json)> = Vec::new();
    members.push(("status".to_owned(), Json::Str(message.to_owned())));
    members.push(("visibility".to_owned(), Json::Str("public".to_owned())));
    Json::Object(members)
}

/// The instance used when none is configured.
pub open spec fn default_instance() -> Seq<char> {
    "https://mstd.seungjin.net"@
}

/// The address that statuses are posted to: the configured instance (or the
/// default) trimmed and without trailing slashes, then `/api/v1/statuses`.
pub open spec fn statuses_url(instance: Option<Seq<char>>) -> Seq<char> {
    let base = match instance {
        Some(i) => i,
        None => default_instance(),
    };
    trim_end_char(trim(base), '/') + "/api/v1/statuses"@
}

/// The headers of a status request with a body of `body_len` bytes.
pub open spec fn status_header_list(raw_token: Seq<char>, body_len: nat) -> Seq<(Seq<char>, Seq<char>)> {
    seq![
        ("Authorization"@, "Bearer "@ + trim(raw_token)),
        ("Content-Type"@, "application/json"@),
        ("Accept"@, "application/json"@),
        ("Content-Length"@, decimal(body_len)),
        ("User-Agent"@, "theguardian-rss-bot/1.0"@),
    ]
}

/// A status request: where it goes, its headers and its JSON body.
pub struct StatusRequest {
    pub url: String,
    pub headers: Vec<(String, String)>,
    pub body: Vec<u8>,
}

/// Why no status request was made.
#[derive(Debug, PartialEq, Eq, Structural)]
pub enum StatusError {
    /// serde_json could not write the body.
    BodyNotEncoded,
}

/// The request that posts the status `payload` (see `status_payload`),
/// given the configured access token and instance.
pub fn status_request(raw_token: &str, instance: Option<String>, payload: &Json) -> (r: Result<
    StatusRequest,
    StatusError,
>)
    ensures
        r is Ok <==> json_bytes_of(*payload) is Some,
        r matches Ok(req) ==> {
            &&& req.url@ == statuses_url(opt_text(instance))
            &&& req.body@ == json_bytes_of(*payload).unwrap()
            &&& header_view(req.headers@) == status_header_list(raw_token@, req.body@.len())
        },
        r matches Err(e) ==> e == StatusError::BodyNotEncoded,
{
    let body = match json_bytes(payload) {
        Ok(b) => b,
        Err(_) => {
            return Err(StatusError::BodyNotEncoded);
        },
    };
    let base = match instance {
        Some(i) => chars_of(i.as_str()),
        None => chars_of("https://mstd.seungjin.net"),
    };
    let mut url = trim_end_char_exec(&trimmed(&base), '/');
    append_str(&mut url, "/api/v1/statuses");
    let mut auth = chars_of("Bearer ");
    let token = trimmed(&chars_of(raw_token));
    append_all(&mut auth, &token);
    let length = decimal_exec(body.len());
    let mut headers: Vec<(String, String)> = Vec::new();
    push_header(&mut headers, "Authorization", string_of(&auth));
    push_header(&mut headers, "Content-Type", "application/json".to_owned());
    push_header(&mut headers, "Accept", "application/json".to_owned());
    push_header(&mut headers, "Content-Length", string_of(&length));
    push_header(&mut headers, "User-Agent", "theguardian-rss-bot/1.0".to_owned());
    assert(header_view(headers@) =~= status_header_list(raw_token@, body@.len()));
    Ok(StatusRequest { url: string_of(&url), headers, body })
}

// ---------------------------------------------------------------------------
// Laws
// ---------------------------------------------------------------------------

/// The statuses address is the configured instance (or the default),
/// trimmed and with its trailing `/` removed and nothing else, followed by
/// `/api/v1/statuses`: the address ends in `/api/v1/statuses`, what comes
/// before is a prefix of the trimmed instance that does not end in `/`,
/// and only `/` follows that prefix in the trimmed instance. In particular
/// an instance whose trimmed text does not end in `/` is kept whole.
pub proof fn law_statuses_url_keeps_instance(instance: Option<Seq<char>>)
    ensures
        ({
            let t = trim(
                match instance {
                    Some(i) => i,
                    None => default_instance(),
                },
            );
            let u = statuses_url(instance);
            let suffix = "/api/v1/statuses"@;
            let p = u.take(u.len() - suffix.len());
            &&& u.len() >= suffix.len()
            &&& u.skip(u.len() - suffix.len()) == suffix
            &&& p.is_prefix_of(t)
            &&& forall|k: int| p.len() <= k < t.len() ==> t[k] == '/'
            &&& (p.len() == 0 || p.last() != '/')
            &&& (t.len() == 0 || t.last() != '/') ==> u == t + suffix
        }),
{
    let t = trim(
        match instance {
            Some(i) => i,
            None => default_instance(),
        },
    );
    let q = trim_end_char(t, '/');
    lemma_trim_end_char_shape(t, '/');
    let u = statuses_url(instance);
    let suffix = "/api/v1/statuses"@;
    assert(u == q + suffix);
    assert(u.take(u.len() - suffix.len()) =~= q);
    assert(u.skip(u.len() - suffix.len()) =~= suffix);
    if t.len() == 0 || t.last() != '/' {
        assert(q == t);
    }
}

} // verus!
