//! What every client needs: where the service is, how to identify to it,
//! and how a listing's reference number is written into a path.

use crate::errors::Error;
use crate::errors::ErrorView;
use vstd::prelude::*;
use vstd::string::StringSliceAdditionalSpecFns;
use vstd::utf8::{decode_utf8, encode_utf8, valid_utf8};

verus! {

/// The answer of an endpoint that sends no data.
#[derive(Debug)]
pub struct EmptyResponse;

/// How a client identifies to the service.
#[derive(Debug)]
pub enum Credentials {
    /// A key, sent along with each request.
    ApiKey(String),
}

impl Credentials {
    /// The key.
    pub fn key(&self) -> (out: &str)
        ensures
            out@ == self->ApiKey_0@,
    {
        match self {
            Credentials::ApiKey(key) => key.as_str(),
        }
    }
}

impl Clone for Credentials {
    fn clone(&self) -> (out: Credentials)
        ensures
            out == *self,
    {
        match self {
            Credentials::ApiKey(key) => Credentials::ApiKey(key.clone()),
        }
    }
}

impl Default for Credentials {
    /// The key that the service hands to everyone.
    fn default() -> (out: Credentials)
        ensures
            out->ApiKey_0@ == "jobboerse-jobsuche"@,
    {
        Credentials::ApiKey("jobboerse-jobsuche".to_string())
    }
}

/// The base64 text of `bytes`: standard alphabet, with padding, as the
/// `STANDARD` engine of the `base64` crate writes it.
pub uninterp spec fn base64_standard(bytes: Seq<u8>) -> Seq<char>;

/// The bytes that base64 `text` stands for, as the `STANDARD` engine of the
/// `base64` crate reads it; `None` where it rejects the text.
pub uninterp spec fn base64_standard_decoded(text: Seq<char>) -> Option<Seq<u8>>;

/// The text that `String::from_utf8_lossy` makes of bytes that are no UTF-8.
pub uninterp spec fn utf8_lossy(bytes: Seq<u8>) -> Seq<char>;

/// Length of the padded base64 text of `n` bytes.
pub open spec fn base64_len(n: nat) -> nat {
    (n / 3) * 4 + if n % 3 > 0 {
        4nat
    } else {
        0nat
    }
}

/// Calls `encode` of the `STANDARD` engine of the `base64` crate, which
/// panics where the length of the result does not fit in `usize`. The
/// contract names the result and claims that the engine's `decode` reads
/// back from it the bytes that were encoded.
#[verifier::external_body]
fn base64_encode(bytes: &[u8]) -> (out: String)
    requires
        base64_len(bytes@.len()) <= usize::MAX,
    ensures
        out@ == base64_standard(bytes@),
        base64_standard_decoded(out@) == Some(bytes@),
{
    base64::Engine::encode(&base64::engine::general_purpose::STANDARD, bytes)
}

/// Calls `decode` of the `STANDARD` engine of the `base64` crate. The
/// contract names the result.
#[verifier::external_body]
fn base64_decode(text: &str) -> (out: Result<Vec<u8>, base64::DecodeError>)
    ensures
        match out {
            Ok(bytes) => base64_standard_decoded(text@) == Some(bytes@),
            Err(_) => base64_standard_decoded(text@) is None,
        },
{
    base64::Engine::decode(&base64::engine::general_purpose::STANDARD, text)
}

/// Calls `String::from_utf8_lossy`, which gives valid UTF-8 back as the text
/// it encodes and puts U+FFFD in place of what is invalid.
#[verifier::external_body]
fn string_from_utf8_lossy(bytes: &Vec<u8>) -> (out: String)
    ensures
        valid_utf8(bytes@) ==> out@ == decode_utf8(bytes@),
        !valid_utf8(bytes@) ==> out@ == utf8_lossy(bytes@),
{
    String::from_utf8_lossy(bytes).into_owned()
}

/// The text that decoded bytes are read as.
pub open spec fn lossy_text(bytes: Seq<u8>) -> Seq<char> {
    if valid_utf8(bytes) {
        decode_utf8(bytes)
    } else {
        utf8_lossy(bytes)
    }
}

/// The reference number that an encoded path segment stands for.
pub open spec fn decoded_refnr(encoded: Seq<char>) -> Option<Seq<char>> {
    match base64_standard_decoded(encoded) {
        Some(bytes) => Some(lossy_text(bytes)),
        None => None,
    }
}

/// Encodes a reference number for use as a path segment: the base64 text of
/// its UTF-8 bytes. Decoding the result gives the reference number back.
pub fn encode_refnr(refnr: &str) -> (out: String)
    requires
        base64_len(encode_utf8(refnr@).len()) <= usize::MAX,
    ensures
        out@ == base64_standard(encode_utf8(refnr@)),
        decoded_refnr(out@) == Some(refnr@),
{
    proof {
        vstd::utf8::encode_utf8_valid_utf8(refnr@);
        vstd::utf8::encode_utf8_decode_utf8(refnr@);
    }
    base64_encode(refnr.as_bytes())
}

/// Decodes a reference number from a path segment. Fails where the segment
/// is no base64.
pub fn decode_refnr(encoded: &str) -> (out: Result<String, Error>)
    ensures
        match out {
            Ok(refnr) => decoded_refnr(encoded@) == Some(refnr@),
            Err(error) => decoded_refnr(encoded@) is None && error@ == ErrorView::Base64Error,
        },
{
    match base64_decode(encoded) {
        Ok(bytes) => Ok(string_from_utf8_lossy(&bytes)),
        Err(error) => Err(Error::Base64Error(error)),
    }
}

/// The text of the URL that `url::Url::parse` makes of `text`; `None` where
/// it returns an error.
pub uninterp spec fn parsed_url(text: Seq<char>) -> Option<Seq<char>>;

/// Whether `text`, parsed by `url::Url::parse`, is a URL that cannot be a
/// base, which has no path to add segments to; `None` where `text` is no URL.
pub uninterp spec fn url_cannot_be_base(text: Seq<char>) -> Option<bool>;

/// The text of the URL `host` after `segments` were appended to its path by
/// `url::PathSegmentsMut::extend`.
pub uninterp spec fn url_with_segments(host: Seq<char>, segments: Seq<Seq<char>>) -> Seq<char>;

/// Calls `url::Url::parse` and gives the URL back as text. The contract
/// names the result.
#[verifier::external_body]
fn parse_url(text: &str) -> (out: Result<String, url::ParseError>)
    ensures
        match out {
            Ok(url) => parsed_url(text@) == Some(url@),
            Err(_) => parsed_url(text@) is None,
        },
{
    match url::Url::parse(text) {
        Ok(url) => Ok(url.into()),
        Err(error) => Err(error),
    }
}

/// Calls `url::Url::parse`, then `cannot_be_a_base` on the URL. The contract
/// names the result.
#[verifier::external_body]
fn cannot_be_a_base(host: &str) -> (out: Option<bool>)
    ensures
        out == url_cannot_be_base(host@),
{
    match url::Url::parse(host) {
        Ok(url) => Some(url.cannot_be_a_base()),
        Err(_) => None,
    }
}

/// Calls `url::Url::parse`, then `path_segments_mut` and `extend` with
/// `segments`, and gives the URL back as text. The crate refuses the first
/// where `host` is no URL and the second where it cannot be a base, and it
/// panics where a URL grows beyond what 32 bits count: `requires` leaves
/// these out. The contract names the result.
#[verifier::external_body]
fn push_segments(host: &str, segments: &[&str]) -> (out: String)
    requires
        url_cannot_be_base(host@) == Some(false),
        path_input_len(host@, segment_texts(segments@)) <= MAX_PATH_INPUT,
    ensures
        out@ == url_with_segments(host@, segment_texts(segments@)),
{
    let mut url = url::Url::parse(host).unwrap();
    url.path_segments_mut().unwrap().extend(segments);
    url.into()
}

/// The most bytes that a host and the segments for its path may have
/// together. The `url` crate counts the bytes of a URL in 32 bits; this
/// bound leaves room for what escaping adds.
pub const MAX_PATH_INPUT: usize = 0x1000_0000;

/// The views of a list of path segments.
pub open spec fn segment_texts(segments: Seq<&str>) -> Seq<Seq<char>> {
    Seq::new(segments.len(), |i: int| segments[i]@)
}

/// Bytes of `segments`, one more for each.
pub open spec fn segments_len(segments: Seq<Seq<char>>) -> nat
    decreases segments.len(),
{
    if segments.len() == 0 {
        0
    } else {
        segments_len(segments.drop_last()) + encode_utf8(segments.last()).len() + 1
    }
}

/// Bytes of a host and of segments for its path.
pub open spec fn path_input_len(host: Seq<char>, segments: Seq<Seq<char>>) -> nat {
    encode_utf8(host).len() + segments_len(segments)
}

/// The base of every request: the host of the service and the credentials.
#[derive(Debug)]
pub struct ClientCore {
    /// The URL of the service, as text.
    pub host: String,
    pub credentials: Credentials,
}

impl Clone for ClientCore {
    fn clone(&self) -> (out: ClientCore)
        ensures
            out == *self,
    {
        ClientCore { host: self.host.clone(), credentials: self.credentials.clone() }
    }
}

impl ClientCore {
    /// A core for the service at `host`. Fails where `host` is no URL.
    pub fn new(host: &str, credentials: Credentials) -> (out: Result<ClientCore, Error>)
        ensures
            match out {
                Ok(core) => parsed_url(host@) == Some(core.host@) && core.credentials
                    == credentials,
                Err(error) => parsed_url(host@) is None && error@ == ErrorView::ParseError,
            },
    {
        match parse_url(host) {
            Ok(url) => Ok(ClientCore { host: url, credentials }),
            Err(error) => Err(Error::ParseError(error)),
        }
    }

    /// The key that requests are sent with.
    pub fn api_key(&self) -> (out: &str)
        ensures
            out@ == self.credentials->ApiKey_0@,
    {
        self.credentials.key()
    }

    /// Whether `segments` are few and short enough to be appended to the host.
    pub fn fits(&self, segments: &[&str]) -> (out: bool)
        ensures
            out <==> path_input_len(self.host@, segment_texts(segments@)) <= MAX_PATH_INPUT,
    {
        let ghost all = segment_texts(segments@);
        let host_len = self.host.as_str().as_bytes().len();
        if host_len > MAX_PATH_INPUT {
            return false;
        }
        let mut total: usize = host_len;
        let mut i: usize = 0;
        while i < segments.len()
            invariant
                i <= segments.len(),
                all == segment_texts(segments@),
                host_len == encode_utf8(self.host@).len(),
                total == host_len + segments_len(all.take(i as int)),
                total <= MAX_PATH_INPUT,
            decreases segments.len() - i,
        {
            let len = segments[i].as_bytes().len();
            proof {
                assert(all.take(i + 1).drop_last() =~= all.take(i as int));
                assert(all.take(i + 1).last() == segments@[i as int]@);
                lemma_segments_len_prefix(all, i + 1);
            }
            if len >= MAX_PATH_INPUT - total {
                return false;
            }
            total = total + len + 1;
            i = i + 1;
        }
        proof {
            assert(all.take(segments.len() as int) =~= all);
        }
        true
    }

    /// Whether the host has a path that segments can be appended to.
    pub fn can_have_path(&self) -> (out: bool)
        ensures
            out <==> url_cannot_be_base(self.host@) == Some(false),
    {
        match cannot_be_a_base(self.host.as_str()) {
            Some(cannot) => !cannot,
            None => false,
        }
    }

    /// The URL of the host with `segments` appended to its path.
    pub fn path(&self, segments: &[&str]) -> (out: String)
        requires
            url_cannot_be_base(self.host@) == Some(false),
            path_input_len(self.host@, segment_texts(segments@)) <= MAX_PATH_INPUT,
        ensures
            out@ == url_with_segments(self.host@, segment_texts(segments@)),
    {
        push_segments(self.host.as_str(), segments)
    }

    /// The URL of the host with `segments` appended to its path; `None`
    /// where the host has no path to append to or the whole is too long.
    pub fn try_path(&self, segments: &[&str]) -> (out: Option<String>)
        ensures
            out is Some <==> url_cannot_be_base(self.host@) == Some(false) && path_input_len(
                self.host@,
                segment_texts(segments@),
            ) <= MAX_PATH_INPUT,
            out matches Some(url) ==> url@ == url_with_segments(
                self.host@,
                segment_texts(segments@),
            ),
    {
        if self.fits(segments) && self.can_have_path() {
            Some(self.path(segments))
        } else {
            None
        }
    }
}

/// Segments take at least as many bytes as any of their prefixes.
pub proof fn lemma_segments_len_prefix(segments: Seq<Seq<char>>, k: int)
    requires
        0 <= k <= segments.len(),
    ensures
        segments_len(segments.take(k)) <= segments_len(segments),
    decreases segments.len() - k,
{
    if k < segments.len() {
        lemma_segments_len_prefix(segments, k + 1);
        assert(segments.take(k + 1).drop_last() =~= segments.take(k));
    } else {
        assert(segments.take(k) =~= segments);
    }
}

} // verus!
