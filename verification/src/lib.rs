//! Client-side logic for the job search service of the Bundesagentur für
//! Arbeit: search criteria and their canonical query string, the mapping of
//! HTTP outcomes onto a closed set of errors, the retry policy, and lazy
//! pagination over result sets.
//!
//! The crate sends nothing itself. It decides what to request, what an
//! answer means, whether to try again and when a result set ends; the caller
//! does the sending, the waiting and the decoding of payloads.

pub mod builder;
pub mod classify;
pub mod client_core;
pub mod endpoints;
pub mod errors;
pub mod pagination;
pub mod params;
pub mod query;
pub mod rep;
pub mod retry;
pub mod runs;
pub mod text;

pub use builder::{SearchOptions, SearchOptionsBuilder};
pub use classify::Timestamp;
pub use client_core::{decode_refnr, encode_refnr, ClientCore, Credentials, EmptyResponse};
pub use errors::{ApiErrors, Error};
pub use pagination::{JobIterator, JobSearchResponse, Phase, Step};
pub use params::Param;
pub use rep::{Angebotsart, Arbeitszeit, Befristung};
pub use retry::{ClientConfig, RetryDecision, RetryPolicy, RetryState};
