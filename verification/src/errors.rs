//! The closed set of errors that a request can end in.

use crate::text::{decimal, u64_to_string};
use vstd::prelude::*;
use vstd::string::StringExecFns;

verus! {

/// Error type of `url::Url::parse`.
#[verifier::external_type_specification]
#[verifier::external_body]
pub struct ExUrlParseError(url::ParseError);

/// Error type of the decoders of the `base64` crate.
#[verifier::external_type_specification]
#[verifier::external_body]
pub struct ExBase64DecodeError(base64::DecodeError);

/// The views of a list of texts.
pub open spec fn texts(list: Seq<String>) -> Seq<Seq<char>> {
    Seq::new(list.len(), |i: int| list[i]@)
}

/// The structured payload that the service may send along with a failure.
#[derive(Debug)]
pub struct ApiErrors {
    pub errors: Vec<String>,
    pub error_messages: Vec<String>,
}

/// What an [`ApiErrors`] value holds.
pub struct ApiErrorsView {
    pub errors: Seq<Seq<char>>,
    pub error_messages: Seq<Seq<char>>,
}

impl View for ApiErrors {
    type V = ApiErrorsView;

    open spec fn view(&self) -> ApiErrorsView {
        ApiErrorsView { errors: texts(self.errors@), error_messages: texts(self.error_messages@) }
    }
}

impl ApiErrors {
    /// A payload without any message.
    pub fn empty() -> (out: ApiErrors)
        ensures
            out@.errors.len() == 0,
            out@.error_messages.len() == 0,
    {
        ApiErrors { errors: Vec::new(), error_messages: Vec::new() }
    }
}

/// How a request to the service can fail.
#[derive(Debug)]
pub enum Error {
    /// The request did not get an answer: refused connection, timeout, name
    /// resolution and the like. Holds the cause in words.
    Http(String),
    /// Reading or writing failed. Holds the cause in words.
    IO(String),
    /// A payload could not be decoded. Holds the cause in words.
    Serde(String),
    /// The service answered with a status that has no variant of its own.
    Fault { code: u16, errors: ApiErrors },
    /// The API key was not accepted.
    Unauthorized,
    /// The request was blocked.
    Forbidden,
    /// The resource does not exist (any more).
    NotFound,
    /// The HTTP method is not allowed on the resource.
    MethodNotAllowed,
    /// The service throttles the caller and may say how long to wait, in seconds.
    RateLimited { retry_after: Option<u64> },
    /// The host is no URL.
    ParseError(url::ParseError),
    /// The configuration cannot be used.
    ConfigError { message: String },
    /// A builder was given values it cannot use.
    BuilderError { message: String },
    /// A text is no base64.
    Base64Error(base64::DecodeError),
}

/// What an [`Error`] holds, without the payloads of other crates.
pub enum ErrorView {
    Http(Seq<char>),
    IO(Seq<char>),
    Serde(Seq<char>),
    Fault { code: u16, errors: ApiErrorsView },
    Unauthorized,
    Forbidden,
    NotFound,
    MethodNotAllowed,
    RateLimited { retry_after: Option<u64> },
    ParseError,
    ConfigError { message: Seq<char> },
    BuilderError { message: Seq<char> },
    Base64Error,
}

impl View for Error {
    type V = ErrorView;

    open spec fn view(&self) -> ErrorView {
        match self {
            Error::Http(cause) => ErrorView::Http(cause@),
            Error::IO(cause) => ErrorView::IO(cause@),
            Error::Serde(cause) => ErrorView::Serde(cause@),
            Error::Fault { code, errors } => ErrorView::Fault { code: *code, errors: errors@ },
            Error::Unauthorized => ErrorView::Unauthorized,
            Error::Forbidden => ErrorView::Forbidden,
            Error::NotFound => ErrorView::NotFound,
            Error::MethodNotAllowed => ErrorView::MethodNotAllowed,
            Error::RateLimited { retry_after } => ErrorView::RateLimited {
                retry_after: *retry_after,
            },
            Error::ParseError(_) => ErrorView::ParseError,
            Error::ConfigError { message } => ErrorView::ConfigError { message: message@ },
            Error::BuilderError { message } => ErrorView::BuilderError { message: message@ },
            Error::Base64Error(_) => ErrorView::Base64Error,
        }
    }
}

/// Each text of `lines` on a line of its own, a line break before each.
pub open spec fn lines_text(lines: Seq<Seq<char>>) -> Seq<char>
    decreases lines.len(),
{
    if lines.len() == 0 {
        Seq::empty()
    } else {
        lines_text(lines.drop_last()).push('\n') + lines.last()
    }
}

/// The message of an error, in words.
pub open spec fn message_text(error: ErrorView) -> Seq<char> {
    match error {
        ErrorView::Http(cause) => "HTTP error: "@ + cause,
        ErrorView::IO(cause) => "IO error: "@ + cause,
        ErrorView::Serde(cause) => "Serialization error: "@ + cause,
        ErrorView::Fault { code, errors } => "Jobsuche API error ("@ + decimal(code as nat) + ")"@
            + lines_text(errors.errors) + lines_text(errors.error_messages),
        ErrorView::Unauthorized => "Could not connect to Jobsuche API: Unauthorized (check your API key)"@,
        ErrorView::Forbidden => "Jobsuche API request blocked: Forbidden (possible rate limiting)"@,
        ErrorView::NotFound => "Resource not found (job may have expired or been removed)"@,
        ErrorView::MethodNotAllowed => "Jobsuche API error: MethodNotAllowed"@,
        ErrorView::RateLimited { retry_after } => match retry_after {
            Some(seconds) => "Rate limited by the Jobsuche API: retry after "@ + decimal(
                seconds as nat,
            ) + " seconds"@,
            None => "Rate limited by the Jobsuche API"@,
        },
        ErrorView::ParseError => "Could not connect to Jobsuche API: the host is no valid URL"@,
        ErrorView::ConfigError { message } => "Configuration error: "@ + message,
        ErrorView::BuilderError { message } => "Builder validation failed: "@ + message,
        ErrorView::Base64Error => "Base64 error: the text is no valid base64"@,
    }
}

/// Appends each text of `lines` to `out`, a line break before each.
fn append_lines(out: &mut String, lines: &Vec<String>)
    ensures
        final(out)@ == old(out)@ + lines_text(texts(lines@)),
{
    let ghost start = out@;
    let ghost all = texts(lines@);
    let mut i: usize = 0;
    while i < lines.len()
        invariant
            i <= lines.len(),
            all == texts(lines@),
            out@ == start + lines_text(all.take(i as int)),
        decreases lines.len() - i,
    {
        out.push('\n');
        out.append(lines[i].as_str());
        proof {
            let next = all.take(i + 1);
            assert(next.drop_last() =~= all.take(i as int));
            assert(next.last() == lines@[i as int]@);
            assert(out@ =~= start + lines_text(next));
        }
        i = i + 1;
    }
    proof {
        assert(all.take(lines.len() as int) =~= all);
        assert(lines_text(all.take(0)) =~= Seq::<char>::empty());
    }
}

impl Error {
    /// The message of the error, in words.
    pub fn message(&self) -> (out: String)
        ensures
            out@ == message_text(self@),
    {
        match self {
            Error::Http(cause) => "HTTP error: ".to_string().concat(cause.as_str()),
            Error::IO(cause) => "IO error: ".to_string().concat(cause.as_str()),
            Error::Serde(cause) => "Serialization error: ".to_string().concat(cause.as_str()),
            Error::Fault { code, errors } => {
                let mut out = "Jobsuche API error (".to_string();
                out.append(u64_to_string(*code as u64).as_str());
                out.append(")");
                append_lines(&mut out, &errors.errors);
                append_lines(&mut out, &errors.error_messages);
                out
            },
            Error::Unauthorized => {
                "Could not connect to Jobsuche API: Unauthorized (check your API key)".to_string()
            },
            Error::Forbidden => {
                "Jobsuche API request blocked: Forbidden (possible rate limiting)".to_string()
            },
            Error::NotFound => {
                "Resource not found (job may have expired or been removed)".to_string()
            },
            Error::MethodNotAllowed => "Jobsuche API error: MethodNotAllowed".to_string(),
            Error::RateLimited { retry_after } => match retry_after {
                Some(seconds) => {
                    let mut out = "Rate limited by the Jobsuche API: retry after ".to_string();
                    out.append(u64_to_string(*seconds).as_str());
                    out.append(" seconds");
                    out
                },
                None => "Rate limited by the Jobsuche API".to_string(),
            },
            Error::ParseError(_) => {
                "Could not connect to Jobsuche API: the host is no valid URL".to_string()
            },
            Error::ConfigError { message } => {
                "Configuration error: ".to_string().concat(message.as_str())
            },
            Error::BuilderError { message } => {
                "Builder validation failed: ".to_string().concat(message.as_str())
            },
            Error::Base64Error(_) => "Base64 error: the text is no valid base64".to_string(),
        }
    }
}

} // verus!
