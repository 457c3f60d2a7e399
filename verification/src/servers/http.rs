//! HTTP server for safely forwarding HTTP requests that the client
//! makes along to the Pocket Relay server, since the game client
//! is only capable of communicating over SSLv3

use vstd::prelude::*;

use crate::text::{law_without_first, strip_first, without_first};
use crate::weburl::{join, text_result, url_join};

verus! {

/// The status of the response when there is no URL to proxy a request to
pub const SERVICE_UNAVAILABLE: u16 = 503;

/// The status of the response when a request could not be proxied
pub const INTERNAL_SERVER_ERROR: u16 = 500;

/// How a request is handled
#[derive(Debug)]
pub enum ProxyStep {
    /// Proxy the request to the URL
    Proxy(String),
    /// Respond with the status and without contents
    Respond(u16),
}

/// How a request is handled, with the URL as plain text
pub enum ProxyStepView {
    /// Proxy the request to the URL
    Proxy(Seq<char>),
    /// Respond with the status and without contents
    Respond(u16),
}

impl View for ProxyStep {
    type V = ProxyStepView;

    open spec fn view(&self) -> ProxyStepView {
        match *self {
            ProxyStep::Proxy(url) => ProxyStepView::Proxy(url@),
            ProxyStep::Respond(status) => ProxyStepView::Respond(status),
        }
    }
}

/// The path and query of a request, relative to the base URL: without the
/// leading slash if one is present, and empty if none is provided
pub open spec fn relative_path(path_and_query: Option<Seq<char>>) -> Seq<char> {
    match path_and_query {
        Some(path_and_query) => without_first(path_and_query, '/'),
        None => Seq::empty(),
    }
}

/// How a request is handled once its URL is known, or that there is none
pub open spec fn proxy_step(url: Result<Seq<char>, Seq<char>>) -> ProxyStepView {
    match url {
        Ok(url) => ProxyStepView::Proxy(url),
        Err(_) => ProxyStepView::Respond(SERVICE_UNAVAILABLE),
    }
}

/// Provides how a request is handled
///
/// ## Arguments
/// * `url` - The URL of the request, or the message why there is none
pub fn handle_url(url: Result<String, String>) -> (step: ProxyStep)
    ensures
        step@ == proxy_step(text_result(url)),
{
    match url {
        Ok(url) => ProxyStep::Proxy(url),
        Err(_) => ProxyStep::Respond(SERVICE_UNAVAILABLE),
    }
}

/// Provides how a request is handled
///
/// ## Arguments
/// * `base_url`       - The server base URL (Connection URL)
/// * `path_and_query` - The path and query of the request
pub fn handle_request(base_url: &str, path_and_query: Option<&str>) -> (step: ProxyStep)
    ensures
        step@ == proxy_step(
            url_join(
                base_url@,
                relative_path(
                    match path_and_query {
                        Some(path_and_query) => Some(path_and_query@),
                        None => None,
                    },
                ),
            ),
        ),
{
    // Fallback to empty path if none is provided
    let path_and_query = match path_and_query {
        Some(path_and_query) => path_and_query,
        None => {
            proof {
                reveal_strlit("");
                assert(""@ =~= Seq::<char>::empty());
            }
            ""
        },
    };
    assert(without_first(Seq::<char>::empty(), '/') =~= Seq::<char>::empty());

    // Strip the leading slash if one is present
    let path_and_query = strip_first(path_and_query, '/');

    // Create the new url from the path
    handle_url(join(base_url, path_and_query))
}

/// Provides the response that was proxied, or the status to respond with if the
/// request could not be proxied
///
/// ## Arguments
/// * `response` - The response of the server, or the error
pub fn handle_response<T, E>(response: Result<T, E>) -> (result: Result<T, u16>)
    ensures
        result == (match response {
            Ok(response) => Ok::<T, u16>(response),
            Err(_) => Err::<T, u16>(INTERNAL_SERVER_ERROR),
        }),
{
    match response {
        Ok(response) => Ok(response),
        Err(_) => Err(INTERNAL_SERVER_ERROR),
    }
}

/// A leading slash of a path is stripped, one only, and nothing else of it is.
/// Without a path the request is for the base URL itself.
pub proof fn law_relative_path(path: Seq<char>)
    ensures
        relative_path(Some(seq!['/'] + path)) == path,
        path.len() == 0 || path[0] != '/' ==> relative_path(Some(path)) == path,
        relative_path(None).len() == 0,
{
    law_without_first(path, '/');
}

/// A request is proxied to its URL whatever that is, and is unavailable exactly
/// when there is none
pub proof fn law_proxy_step(url: Seq<char>, message: Seq<char>)
    ensures
        proxy_step(Ok(url)) == ProxyStepView::Proxy(url),
        proxy_step(Err(message)) == ProxyStepView::Respond(503),
{
}

/// The plain value of how a request is handled holds the URL or the status
pub proof fn law_proxy_values(url: String, status: u16)
    ensures
        ProxyStep::Proxy(url)@ == ProxyStepView::Proxy(url@),
        ProxyStep::Respond(status)@ == ProxyStepView::Respond(status),
{
}

} // verus!
