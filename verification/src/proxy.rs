//! Reverse proxy: where a request goes, and under which URI.

use crate::host::render_origin;
use crate::reply::{error_response, ErrorReply};
use crate::text::same_text;
use crate::uri::parse_uri;
use vstd::prelude::*;

verus! {

/// The backend for a request, attached to the request by the middleware.
#[derive(Debug)]
pub struct ProxyTarget {
    pub port: u16,
    pub host: String,
}

/// The header that is not forwarded: the client of the backend writes its own.
pub const DROPPED_HEADER: &'static str = "host";

impl Clone for ProxyTarget {
    fn clone(&self) -> (target: ProxyTarget)
        ensures
            target == *self,
    {
        ProxyTarget { port: self.port, host: self.host.clone() }
    }
}

/// What the proxy does with a request.
#[derive(Debug)]
pub enum ProxyRoute {
    /// It forwards the request to a backend.
    Forward(ProxyTarget),
    /// It answers the request itself.
    Reply(ErrorReply),
}

/// The path and query under which a request is forwarded: its own, or the root path.
pub open spec fn forward_path(path_and_query: Option<Seq<char>>) -> Seq<char> {
    match path_and_query {
        Some(path) => path,
        None => "/"@,
    }
}

/// The URI of a forwarded request: the origin of the backend and the path of the request.
pub open spec fn forward_url(
    host: Seq<char>,
    port: u16,
    path_and_query: Option<Seq<char>>,
) -> Seq<char> {
    crate::host::origin_text(host, port) + forward_path(path_and_query)
}

/// The view of an optional string slice.
pub open spec fn text_of(text: Option<&str>) -> Option<Seq<char>> {
    match text {
        Some(text) => Some(text@),
        None => None,
    }
}

/// Routes a request by the target that the middleware attached to it.
pub fn route(target: Option<ProxyTarget>) -> (route: ProxyRoute)
    ensures
        match target {
            Some(target) => route == ProxyRoute::Forward(target),
            None => route matches ProxyRoute::Reply(reply) && reply.reports(
                404,
                "No model specified in request"@,
            ),
        },
{
    match target {
        Some(target) => ProxyRoute::Forward(target),
        None => ProxyRoute::Reply(error_response(404, "No model specified in request")),
    }
}

/// Whether a header of a request is forwarded, by its name in lower case: every one is but the
/// host header.
pub fn is_forwarded(header: &str) -> (kept: bool)
    ensures
        kept == (header@ != DROPPED_HEADER@),
        kept == (header@ != "host"@),
{
    !same_text(header, DROPPED_HEADER)
}

/// The reply to a request that the backend did not answer.
pub fn backend_error(detail: &str) -> (reply: ErrorReply)
    ensures
        reply.reports(502, "Backend error: "@ + detail@),
{
    error_response(502, "Backend error: ".to_owned().concat(detail).as_str())
}

/// The URI under which a request is forwarded to a backend, or the message of the parser where
/// there is none. There always is one where the host is valid, the path of the request is a URI
/// by itself and the whole is not too long.
pub fn forward_uri(host: &str, port: u16, path_and_query: Option<&str>) -> (uri: Result<
    http::Uri,
    String,
>)
    ensures
        (match uri {
            Ok(uri) => Ok(uri),
            Err(message) => Err(message@),
        }) == crate::uri::uri_from_text(forward_url(host@, port, text_of(path_and_query))),
        (match uri {
            Ok(uri) => Ok(uri),
            Err(message) => Err(message@),
        }) == crate::uri::uri_from_text(
            crate::host::origin_text(host@, port) + (if path_and_query is Some {
                path_and_query->0@
            } else {
                "/"@
            }),
        ),
        crate::host::is_valid_host(host@) && crate::uri::is_uri_path(
            forward_path(text_of(path_and_query)),
        ) && vstd::utf8::encode_utf8(forward_url(host@, port, text_of(path_and_query))).len()
            <= crate::uri::max_uri_bytes() ==> uri is Ok,
{
    let path: &str = match path_and_query {
        Some(path) => path,
        None => "/",
    };
    let url = render_origin(host, port).concat(path);
    proof {
        let origin = crate::host::origin_text(host@, port);
        if crate::host::is_valid_host(host@) {
            crate::host::law_origin_of_valid_host(host@, port);
        }
        assert(url@ == origin + path@);
    }
    parse_uri(url.as_str())
}

/// A request keeps its path and query, all of it, behind the origin of its backend; one without
/// gets the root path. So different paths stay different.
pub proof fn law_path_is_kept(host: Seq<char>, port: u16, path: Seq<char>, other: Seq<char>)
    ensures
        forward_url(host, port, Some(path)) == crate::host::origin_text(host, port) + path,
        forward_url(host, port, None) == crate::host::origin_text(host, port).push('/'),
        forward_url(host, port, Some(path)) == forward_url(host, port, Some(other)) ==> path
            == other,
{
    reveal_strlit("/");
    let origin = crate::host::origin_text(host, port);
    let url = forward_url(host, port, Some(path));
    let other_url = forward_url(host, port, Some(other));
    assert(path == url.skip(origin.len() as int));
    assert(other == other_url.skip(origin.len() as int));
}

/// Requests with a path of their own go under the same URI only if they go to the same backend
/// under the same path.
pub proof fn law_url_determines_backend_and_path(
    host: Seq<char>,
    port: u16,
    path: Seq<char>,
    other_host: Seq<char>,
    other_port: u16,
    other_path: Seq<char>,
)
    requires
        crate::host::is_valid_host(host),
        crate::host::is_valid_host(other_host),
        path.len() > 0 && path[0] == '/',
        other_path.len() > 0 && other_path[0] == '/',
        forward_url(host, port, Some(path)) == forward_url(
            other_host,
            other_port,
            Some(other_path),
        ),
    ensures
        host == other_host,
        port == other_port,
        path == other_path,
{
    let origin = crate::host::origin_text(host, port);
    let other_origin = crate::host::origin_text(other_host, other_port);
    let url = forward_url(host, port, Some(path));
    law_path_is_kept(host, port, path, path);
    law_path_is_kept(other_host, other_port, other_path, other_path);
    lemma_no_slash_behind_scheme(host, port);
    lemma_no_slash_behind_scheme(other_host, other_port);
    // The first slash behind the scheme begins the path.
    if origin.len() < other_origin.len() {
        assert(url[origin.len() as int] == '/');
        assert(url[origin.len() as int] == other_origin[origin.len() as int]);
    }
    if other_origin.len() < origin.len() {
        assert(url[other_origin.len() as int] == '/');
        assert(url[other_origin.len() as int] == origin[other_origin.len() as int]);
    }
    assert(origin == url.take(origin.len() as int));
    assert(other_origin == url.take(origin.len() as int));
    crate::host::law_origin_determines_backend(host, port, other_host, other_port);
    assert(path == url.skip(origin.len() as int));
    assert(other_path == url.skip(origin.len() as int));
}

proof fn lemma_no_slash_behind_scheme(host: Seq<char>, port: u16)
    requires
        crate::host::is_valid_host(host),
    ensures
        crate::host::origin_text(host, port).len() > 7,
        forall|k: int|
            7 <= k < crate::host::origin_text(host, port).len()
                ==> #[trigger] crate::host::origin_text(host, port)[k] != '/',
{
    let origin = crate::host::origin_text(host, port);
    let digits = crate::text::natural_text(port as nat);
    let shown = crate::host::url_host(host);
    crate::host::law_origin_parts(host, port);
    crate::host::law_url_host(host);
    crate::host::law_valid_host_characters(host);
    crate::text::lemma_natural_text_digits(port as nat);
    assert forall|k: int| 7 <= k < origin.len() implies #[trigger] origin[k] != '/' by {
        if k < 7 + shown.len() {
            assert(origin[k] == shown[k - 7]);
            if host.contains(':') && 7 < k < 6 + shown.len() {
                assert(shown[k - 7] == host[k - 8]);
            }
        } else if k > 7 + shown.len() {
            assert(origin[k] == digits[k - 8 - shown.len()]);
        }
    }
}

/// The URL that the validation of a model parses is the one under which a request without a path
/// is forwarded to the model.
pub proof fn law_validated_url_is_forwarded(config: crate::config::ModelConfig)
    ensures
        forward_url(config.host@, config.port, None) == config.base_url(),
        forward_url(config.host@, config.port, Some("/"@)) == config.base_url(),
{
}

} // verus!
