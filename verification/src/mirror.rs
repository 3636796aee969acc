//! The mirror that Go releases are fetched from, and the URLs on it.
use vstd::prelude::*;

verus! {

/// The mirror used where none is configured.
pub open spec fn default_mirror() -> Seq<char> {
    "https://go.dev"@
}

/// The mirror to use: the configured one (the `FFG_MIRROR` variable) where there
/// is one, else `https://go.dev`.
pub fn resolve_mirror(configured: Option<String>) -> (mirror: String)
    ensures
        mirror@ == match configured {
            Some(m) => m@,
            None => default_mirror(),
        },
{
    match configured {
        Some(m) => m,
        None => String::from_str("https://go.dev"),
    }
}

/// The text of the URL that `reqwest::Url::parse` makes of `input`, or `None`
/// where it refuses `input`.
pub uninterp spec fn parsed_url(input: Seq<char>) -> Option<Seq<char>>;

/// The text of the URL that `reqwest::Url::join` makes of `reference` relative to
/// the URL that `base` parses to, or `None` where either step refuses its input.
pub uninterp spec fn joined_url(base: Seq<char>, reference: Seq<char>) -> Option<Seq<char>>;

/// Calls `reqwest::Url::parse` (the `url` crate's `Url::parse`) and gives back the
/// URL's text, or the parser's message. The contract claims only that the outcome
/// is `parsed_url(input)`; which URL that is, and the message, are not stated.
#[verifier::external_body]
pub(crate) fn parse_url(input: &str) -> (r: Result<String, String>)
    ensures
        match r {
            Ok(u) => parsed_url(input@) == Some(u@),
            Err(_) => parsed_url(input@) is None,
        },
{
    reqwest::Url::parse(input).map(|u| u.to_string()).map_err(|e| e.to_string())
}

/// Reads `base` back into a `reqwest::Url` and calls `Url::join` with `reference`;
/// gives back the URL's text, or the parser's message. The contract claims only
/// that the outcome is `joined_url(base, reference)`.
#[verifier::external_body]
pub(crate) fn join_url(base: &str, reference: &str) -> (r: Result<String, String>)
    ensures
        match r {
            Ok(u) => joined_url(base@, reference@) == Some(u@),
            Err(_) => joined_url(base@, reference@) is None,
        },
{
    reqwest::Url::parse(base).and_then(|u| u.join(reference)).map(|u| u.to_string()).map_err(
        |e| e.to_string(),
    )
}

/// The URL of `reference` on the mirror: the mirror's URL as parsed, then
/// `reference` resolved against it.
pub open spec fn mirror_url(mirror: Seq<char>, reference: Seq<char>) -> Option<Seq<char>> {
    match parsed_url(mirror) {
        Some(base) => joined_url(base, reference),
        None => None,
    }
}

/// A URL that could not be formed, with the parser's message.
#[derive(Debug)]
pub enum UrlError {
    /// The mirror is not a URL.
    InvalidMirror(String),
    /// The reference cannot be resolved against the mirror.
    InvalidReference(String),
}

/// Resolves `reference` against the mirror's URL, as
/// `Url::parse(mirror)?.join(reference)?` does.
pub fn resolve_on_mirror(mirror: &str, reference: &str) -> (r: Result<String, UrlError>)
    ensures
        match r {
            Ok(u) => mirror_url(mirror@, reference@) == Some(u@),
            Err(UrlError::InvalidMirror(_)) => parsed_url(mirror@) is None,
            Err(UrlError::InvalidReference(_)) => parsed_url(mirror@) is Some && mirror_url(
                mirror@,
                reference@,
            ) is None,
        },
{
    match parse_url(mirror) {
        Ok(base) => match join_url(base.as_str(), reference) {
            Ok(u) => Ok(u),
            Err(e) => Err(UrlError::InvalidReference(e)),
        },
        Err(e) => Err(UrlError::InvalidMirror(e)),
    }
}

/// The URL of the mirror's download page: `dl` resolved against the mirror.
pub fn release_page_url(mirror: &str) -> (r: Result<String, UrlError>)
    ensures
        match r {
            Ok(u) => mirror_url(mirror@, "dl"@) == Some(u@),
            Err(UrlError::InvalidMirror(_)) => parsed_url(mirror@) is None,
            Err(UrlError::InvalidReference(_)) => parsed_url(mirror@) is Some && mirror_url(
                mirror@,
                "dl"@,
            ) is None,
        },
{
    resolve_on_mirror(mirror, "dl")
}

} // verus!
