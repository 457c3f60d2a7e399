//! URLs in text form
//!
//! The text form of a URL is what the `url` crate writes for it, which it reads
//! back as the same URL.

use url::Url;
use vstd::prelude::*;

verus! {

/// The text form of the URL that `Url::parse` makes of a text, or the message of
/// its error
pub uninterp spec fn url_parse(text: Seq<char>) -> Result<Seq<char>, Seq<char>>;

/// What `Url::port` gives for the URL in text form
pub uninterp spec fn url_port(url: Seq<char>) -> Option<u16>;

/// The text form of the URL after `Url::set_scheme`, or none if that is refused
pub uninterp spec fn url_with_scheme(url: Seq<char>, scheme: Seq<char>) -> Option<Seq<char>>;

/// The text form of the URL that `Url::join` makes, or the message of its error
pub uninterp spec fn url_join(base: Seq<char>, input: Seq<char>) -> Result<Seq<char>, Seq<char>>;

/// What `Url::host` gives for the URL in text form, as text
pub uninterp spec fn url_host(url: Seq<char>) -> Option<Seq<char>>;

/// The value of a result that holds text
pub open spec fn text_result(result: Result<String, String>) -> Result<Seq<char>, Seq<char>> {
    match result {
        Ok(text) => Ok(text@),
        Err(message) => Err(message@),
    }
}

/// The value of an optional text
pub open spec fn text_option(text: Option<String>) -> Option<Seq<char>> {
    match text {
        Some(text) => Some(text@),
        None => None,
    }
}

/// `url::Url::parse`: the text form of the URL that a text spells, or the
/// message of the error. Both are a function of the text. A text that starts with
/// `http://` spells a URL that does so too. A slash behind a bare `http://` makes
/// no difference: there is no host either way.
#[verifier::external_body]
pub(crate) fn parse_url(text: &str) -> (url: Result<String, String>)
    ensures
        text_result(url) == url_parse(text@),
        "http://"@.is_prefix_of(text@) && url is Ok ==> "http://"@.is_prefix_of(url->Ok_0@),
        text@ == "http://"@ ==> text_result(url) == url_parse("http:///"@),
{
    match Url::parse(text) {
        Ok(url) => Ok(url.to_string()),
        Err(error) => Err(error.to_string()),
    }
}

/// `url::Url::port`: the port of a URL if it has one that is not the default of
/// its scheme. It is a function of the text form. What is no URL has none.
#[verifier::external_body]
pub(crate) fn port(url: &str) -> (port: Option<u16>)
    ensures
        port == url_port(url@),
{
    match Url::parse(url) {
        Ok(url) => url.port(),
        Err(_) => None,
    }
}

/// `url::Url::set_scheme`: the text form of a URL with another scheme, or none
/// if the URL cannot have it. It is a function of the text form and the scheme.
/// What is no URL can have none.
#[verifier::external_body]
pub(crate) fn set_scheme(url: &str, scheme: &str) -> (changed: Option<String>)
    ensures
        text_option(changed) == url_with_scheme(url@, scheme@),
{
    let mut url = Url::parse(url).ok()?;
    url.set_scheme(scheme).ok()?;
    Some(url.to_string())
}

/// `url::Url::join`: the text form of the URL that an input spells when it is
/// read with a URL as the base, or the message of the error. Both are a function
/// of the two texts. What is no URL is no base either.
#[verifier::external_body]
pub(crate) fn join(base: &str, input: &str) -> (url: Result<String, String>)
    ensures
        text_result(url) == url_join(base@, input@),
{
    match Url::parse(base).and_then(|base| base.join(input)) {
        Ok(url) => Ok(url.to_string()),
        Err(error) => Err(error.to_string()),
    }
}

/// `url::Url::host`: the host of a URL if it has one. It is a function of the
/// text form. What is no URL has none.
#[verifier::external_body]
pub(crate) fn host(url: &str) -> (host: Option<String>)
    ensures
        text_option(host) == url_host(url@),
{
    Some(Url::parse(url).ok()?.host()?.to_string())
}

} // verus!
