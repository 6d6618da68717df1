//! Error kinds shared by the whole library.
//!
//! `Config` is bad user input or an unsupported provider capability,
//! `Api` a non-success response from a remote source, `Parse` a
//! malformed response body, and `NoResults` a syntactically valid but
//! empty result set. Core operations surface errors unchanged; the one
//! intentional fallback is keyed on the window-unsupported `Config`
//! message (see [`crate::history`]).

use vstd::prelude::*;

use crate::strutil::{contains_seq, contains_str};

verus! {

/// An error surfaced by the library or by a provider collaborator.
#[derive(Debug, Clone)]
pub enum Error {
    /// Bad user input or unsupported provider capability.
    Config(String),
    /// Non-success HTTP status from a remote source.
    Api(String),
    /// Malformed response body.
    Parse(String),
    /// Syntactically valid but empty result set.
    NoResults,
}

/// Mathematical image of an [`Error`].
pub enum ErrorV {
    Config(Seq<char>),
    Api(Seq<char>),
    Parse(Seq<char>),
    NoResults,
}

impl View for Error {
    type V = ErrorV;

    open spec fn view(&self) -> ErrorV {
        match self {
            Error::Config(m) => ErrorV::Config(m@),
            Error::Api(m) => ErrorV::Api(m@),
            Error::Parse(m) => ErrorV::Parse(m@),
            Error::NoResults => ErrorV::NoResults,
        }
    }
}

/// The message substring by which a provider declines explicit chart
/// date windows; the window-to-day-count fallback triggers on it alone.
pub const WINDOW_UNSUPPORTED_MARKER: &'static str = "does not support explicit chart date windows";

/// The error is a `Config` whose message carries the window-unsupported
/// marker: the one condition under which the day-count fallback runs.
pub open spec fn is_window_unsupported(e: ErrorV) -> bool {
    match e {
        ErrorV::Config(m) => contains_seq(m, WINDOW_UNSUPPORTED_MARKER@),
        _ => false,
    }
}

impl Error {
    /// Decide whether this error is the window-unsupported `Config`
    /// signal that permits the day-count fallback.
    pub fn window_fallback_applies(&self) -> (r: bool)
        ensures
            r == is_window_unsupported(self@),
    {
        match self {
            Error::Config(m) => contains_str(m.as_str(), WINDOW_UNSUPPORTED_MARKER),
            _ => false,
        }
    }
}


/// Build the `Config` message `provider '<id>'<tail>`.
fn provider_config_error(id: &str, tail: &str) -> (r: Error)
    ensures
        r@ == ErrorV::Config("provider '"@ + id@ + tail@),
{
    let mut m = String::new();
    m.append("provider '");
    m.append(id);
    m.append(tail);
    proof {
        assert(m@ =~= "provider '"@ + id@ + tail@);
    }
    Error::Config(m)
}

/// The default answer of a provider that does not implement historical
/// fetching: a `Config` error naming the provider.
pub fn unsupported_history_error(id: &str) -> (r: Error)
    ensures
        r@ == ErrorV::Config("provider '"@ + id@ + "' does not support chart mode"@),
{
    provider_config_error(id, "' does not support chart mode")
}

/// The default answer of a provider that does not implement
/// explicit-window fetching: a `Config` error naming the provider. Its
/// message carries the window-unsupported marker, so the day-count
/// fallback recognizes it.
pub fn unsupported_window_error(id: &str) -> (r: Error)
    ensures
        r@ == ErrorV::Config(
            "provider '"@ + id@ + "' does not support explicit chart date windows"@,
        ),
        is_window_unsupported(r@),
{
    let e = provider_config_error(id, "' does not support explicit chart date windows");
    proof {
        let p = "provider '"@;
        let i = id@;
        let t = "' does not support explicit chart date windows"@;
        let m = p + i + t;
        let k = WINDOW_UNSUPPORTED_MARKER@;
        reveal_strlit("' does not support explicit chart date windows");
        reveal_strlit("does not support explicit chart date windows");
        assert(t.skip(2) =~= k);
        let pos: int = p.len() as int + i.len() as int + 2;
        assert(m.subrange(pos, pos + k.len() as int) =~= t.skip(2));
        assert(contains_seq(m, k));
    }
    e
}

/// The default answer of a provider that does not implement ticker
/// search: a `Config` error naming the provider.
pub fn unsupported_search_error(id: &str) -> (r: Error)
    ensures
        r@ == ErrorV::Config("provider '"@ + id@ + "' does not support ticker search"@),
{
    provider_config_error(id, "' does not support ticker search")
}

} // verus!
