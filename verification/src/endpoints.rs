//! The URLs of the requests that a client sends.

use crate::builder::{query_string, SearchOptions};
use crate::client_core::{
    base64_len, base64_standard, encode_refnr, path_input_len, url_cannot_be_base,
    url_with_segments, ClientCore, MAX_PATH_INPUT,
};
use vstd::prelude::*;
use vstd::string::StringExecFns;
use vstd::utf8::encode_utf8;

verus! {

/// A URL with a query string behind it, where there is one.
pub open spec fn with_query(url: Seq<char>, query: Option<Seq<char>>) -> Seq<char> {
    match query {
        Some(q) => url.push('?') + q,
        None => url,
    }
}

/// The segments of the path under which listings are searched.
pub open spec fn search_segments() -> Seq<Seq<char>> {
    seq!["pc"@, "v4"@, "jobs"@]
}

/// The segments of the path under which the details of the listing with
/// reference number `refnr` are found.
pub open spec fn details_segments(refnr: Seq<char>) -> Seq<Seq<char>> {
    seq!["pc"@, "v4"@, "jobdetails"@, base64_standard(encode_utf8(refnr))]
}

/// The segments of the path under which the logo of the employer with
/// `hash_id` is found.
pub open spec fn logo_segments(hash_id: Seq<char>) -> Seq<Seq<char>> {
    seq!["ed"@, "v1"@, "arbeitgeberlogo"@, hash_id]
}

/// Whether the host of `core` takes `segments`.
pub open spec fn takes_segments(core: ClientCore, segments: Seq<Seq<char>>) -> bool {
    url_cannot_be_base(core.host@) == Some(false) && path_input_len(core.host@, segments)
        <= MAX_PATH_INPUT
}

/// The URL of a search for `options`: the search path of the host, then `?`
/// and the query string where `options` assign anything. `None` where the
/// host takes no path.
pub fn search_url(core: &ClientCore, options: &SearchOptions) -> (out: Option<String>)
    ensures
        out is Some <==> takes_segments(*core, search_segments()),
        out matches Some(url) ==> url@ == with_query(
            url_with_segments(core.host@, search_segments()),
            query_string(options@),
        ),
{
    let segments = ["pc", "v4", "jobs"];
    proof {
        assert(crate::client_core::segment_texts(segments@) =~= search_segments());
    }
    match core.try_path(segments.as_slice()) {
        Some(path) => {
            let mut url = path;
            match options.serialize() {
                Some(query) => {
                    url.push('?');
                    url.append(query.as_str());
                },
                None => {},
            }
            Some(url)
        },
        None => None,
    }
}

/// The URL of the details of the listing with reference number `refnr`,
/// which goes into the path in base64. `None` where the host takes no path
/// or `refnr` is too long for one.
pub fn job_details_url(core: &ClientCore, refnr: &str) -> (out: Option<String>)
    ensures
        out is Some <==> encode_utf8(refnr@).len() <= MAX_PATH_INPUT && takes_segments(
            *core,
            details_segments(refnr@),
        ),
        out matches Some(url) ==> url@ == url_with_segments(core.host@, details_segments(refnr@)),
{
    if refnr.as_bytes().len() > MAX_PATH_INPUT {
        return None;
    }
    let encoded = encode_refnr(refnr);
    let segments = ["pc", "v4", "jobdetails", encoded.as_str()];
    proof {
        assert(crate::client_core::segment_texts(segments@) =~= details_segments(refnr@));
    }
    core.try_path(segments.as_slice())
}

/// The URL of the logo of the employer with `hash_id`. `None` where the
/// host takes no path or `hash_id` is too long for one.
pub fn employer_logo_url(core: &ClientCore, hash_id: &str) -> (out: Option<String>)
    ensures
        out is Some <==> takes_segments(*core, logo_segments(hash_id@)),
        out matches Some(url) ==> url@ == url_with_segments(core.host@, logo_segments(hash_id@)),
{
    let segments = ["ed", "v1", "arbeitgeberlogo", hash_id];
    proof {
        assert(crate::client_core::segment_texts(segments@) =~= logo_segments(hash_id@));
    }
    core.try_path(segments.as_slice())
}

/// The views of a list of headers.
pub open spec fn header_views(headers: Seq<(&'static str, String)>) -> Seq<(Seq<char>, Seq<char>)> {
    Seq::new(headers.len(), |i: int| (headers[i].0@, headers[i].1@))
}

/// The headers of a request for a JSON payload: the API key, and JSON as
/// the type of what is sent and of what is accepted.
pub fn json_headers(core: &ClientCore) -> (out: Vec<(&'static str, String)>)
    ensures
        header_views(out@) == seq![
            ("X-API-Key"@, core.credentials->ApiKey_0@),
            ("Content-Type"@, "application/json"@),
            ("Accept"@, "application/json"@),
        ],
{
    let mut out: Vec<(&'static str, String)> = Vec::new();
    out.push(("X-API-Key", core.api_key().to_string()));
    out.push(("Content-Type", "application/json".to_string()));
    out.push(("Accept", "application/json".to_string()));
    proof {
        assert(header_views(out@) =~= seq![
            ("X-API-Key"@, core.credentials->ApiKey_0@),
            ("Content-Type"@, "application/json"@),
            ("Accept"@, "application/json"@),
        ]);
    }
    out
}

/// The headers of a request for an employer's logo: the API key, and PNG
/// as the type of what is accepted.
pub fn logo_headers(core: &ClientCore) -> (out: Vec<(&'static str, String)>)
    ensures
        header_views(out@) == seq![
            ("X-API-Key"@, core.credentials->ApiKey_0@),
            ("Accept"@, "image/png"@),
        ],
{
    let mut out: Vec<(&'static str, String)> = Vec::new();
    out.push(("X-API-Key", core.api_key().to_string()));
    out.push(("Accept", "image/png".to_string()));
    proof {
        assert(header_views(out@) =~= seq![
            ("X-API-Key"@, core.credentials->ApiKey_0@),
            ("Accept"@, "image/png"@),
        ]);
    }
    out
}

} // verus!
