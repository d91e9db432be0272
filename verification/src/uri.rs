//! URI parsing, as the `http` crate does it.

use vstd::prelude::*;

verus! {

/// The longest URI that the parser takes, in bytes.
pub open spec fn max_uri_bytes() -> nat {
    65534
}

/// What parsing a text as a URI gives: the URI, or the message of the error.
pub uninterp spec fn uri_from_text(text: Seq<char>) -> Result<http::Uri, Seq<char>>;

/// A registered name or IPv4 address, made of ASCII letters, digits, hyphens and dots.
pub open spec fn is_plain_uri_host(host: Seq<char>) -> bool {
    forall|k: int|
        0 <= k < host.len() ==> crate::text::is_alphanumeric(#[trigger] host[k]) || host[k] == '-'
            || host[k] == '.'
}

/// An IPv6 address between brackets: hexadecimal digits, dots and at most eight colons.
pub open spec fn is_bracketed_uri_host(host: Seq<char>) -> bool {
    exists|inner: Seq<char>|
        {
            &&& #[trigger] ("["@ + inner + "]"@) == host
            &&& forall|k: int|
                0 <= k < inner.len() ==> crate::text::is_hex_digit(#[trigger] inner[k])
                    || inner[k] == ':' || inner[k] == '.'
            &&& crate::text::split_on(inner, ':').len() <= 9
        }
}

/// `http://`, a host, a colon and the digits of a port.
pub open spec fn is_http_origin(origin: Seq<char>) -> bool {
    exists|host: Seq<char>, port: Seq<char>|
        {
            &&& #[trigger] ("http://"@ + host + ":"@ + port) == origin
            &&& is_plain_uri_host(host) || is_bracketed_uri_host(host)
            &&& forall|k: int| 0 <= k < port.len() ==> crate::text::is_digit(#[trigger] port[k])
        }
}

/// A path, with or without a query, that is a URI by itself.
pub open spec fn is_uri_path(path: Seq<char>) -> bool {
    ||| path == "/"@
    ||| path.len() > 0 && path[0] == '/' && uri_from_text(path) is Ok
}

/// Declares `http::Uri`. Nothing is claimed of what is inside a URI.
#[verifier::external_type_specification]
#[verifier::external_body]
pub struct ExUri(http::Uri);

/// Parses a URI with `<http::Uri as FromStr>::from_str`, an error by its text.
///
/// Trusted: the outcome is a function of the text alone. It is a URI where the text is an HTTP
/// origin followed by a path that parses by itself (or by the root path), and the whole is no
/// longer than the parser allows. Which other texts it takes, and what it finds in them, is left
/// to the parser.
#[verifier::external_body]
pub(crate) fn parse_uri(text: &str) -> (parsed: Result<http::Uri, String>)
    ensures
        (match parsed {
            Ok(uri) => Ok(uri),
            Err(message) => Err(message@),
        }) == uri_from_text(text@),
        forall|origin: Seq<char>, path: Seq<char>|
            {
                &&& text@ == #[trigger] (origin + path)
                &&& is_http_origin(origin)
                &&& is_uri_path(path)
                &&& vstd::utf8::encode_utf8(text@).len() <= max_uri_bytes()
            } ==> parsed is Ok,
{
    text.parse::<http::Uri>().map_err(|error| error.to_string())
}

} // verus!
