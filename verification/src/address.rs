//! URL syntax, as the `url` crate reads it.

use vstd::prelude::*;

verus! {

/// The parts of a parsed URL that this library reads.
#[derive(Debug, Clone)]
pub struct UrlParts {
    /// The scheme (`Url::scheme`).
    pub scheme: String,
    /// The host, if the URL has one (`Url::host_str`).
    pub host: Option<String>,
    /// The port, given or the scheme's default (`Url::port_or_known_default`).
    pub port: Option<u16>,
}

/// A `UrlParts` as plain values: scheme, host and port.
pub open spec fn parts_view(p: UrlParts) -> (Seq<char>, Option<Seq<char>>, Option<u16>) {
    (
        p.scheme@,
        match p.host {
            Some(h) => Some(h@),
            None => None,
        },
        p.port,
    )
}

/// The result of a parse as plain values.
pub open spec fn parsed_view(r: Result<UrlParts, String>) -> Result<(Seq<char>, Option<Seq<char>>, Option<u16>), Seq<char>> {
    match r {
        Ok(p) => Ok(parts_view(p)),
        Err(e) => Err(e@),
    }
}

/// What `url::Url::parse` makes of `text`: the scheme, host and port of
/// the URL, or the `Display` text of the parse error.
pub uninterp spec fn url_parts(text: Seq<char>) -> Result<(Seq<char>, Option<Seq<char>>, Option<u16>), Seq<char>>;

/// Parses `text` with `url::Url::parse` and returns the scheme, host and
/// port of the URL (`Url::scheme`, `Url::host_str`,
/// `Url::port_or_known_default`), or the error's `Display` text. The
/// contract only names the result: URL syntax is the `url` crate's.
#[verifier::external_body]
pub(crate) fn parse_url(text: &str) -> (r: Result<UrlParts, String>)
    ensures
        url_parts(text@) == parsed_view(r),
{
    match url::Url::parse(text) {
        Ok(u) => Ok(UrlParts {
            scheme: u.scheme().to_string(),
            host: match u.host_str() {
                Some(h) => Some(h.to_string()),
                None => None,
            },
            port: u.port_or_known_default(),
        }),
        Err(e) => Err(e.to_string()),
    }
}

} // verus!
