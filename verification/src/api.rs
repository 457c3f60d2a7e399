//! The portions of the server API that the client uses

use vstd::prelude::*;

use crate::servers::HTTP_PORT;
use crate::text::{
    decimal, ends_with, law_decimal, push_decimal, spelled_number, starts_with,
};
use crate::weburl::{
    join, parse_url, port, set_scheme, text_result, url_join, url_parse, url_port, url_with_scheme,
};
use crate::version::{precedes, precedes_release, version_parts};
use crate::MIN_SERVER_VERSION;

verus! {

/// Endpoint used for requesting the server details
pub const DETAILS_ENDPOINT: &'static str = "api/server";

/// Endpoint used to publish telemetry events
pub const TELEMETRY_ENDPOINT: &'static str = "api/server/telemetry";

/// Endpoint for upgrading the server connection
pub const UPGRADE_ENDPOINT: &'static str = "api/server/upgrade";

/// Server identifier for validation
pub const SERVER_IDENT: &'static str = "POCKET_RELAY_SERVER";

/// Client user agent created from the name and version
pub const USER_AGENT: &'static str = "PocketRelayClient/v0.2.0";

/// Whether a host names its scheme
pub open spec fn has_scheme(host: Seq<char>) -> bool {
    "http://"@.is_prefix_of(host) || "https://"@.is_prefix_of(host)
}

/// A host with the scheme filled in if it is missing
pub open spec fn with_scheme(host: Seq<char>) -> Seq<char> {
    if has_scheme(host) {
        host
    } else {
        "http://"@ + host
    }
}

/// A text that ends with a slash, which is appended if it is missing
pub open spec fn with_slash(text: Seq<char>) -> Seq<char> {
    if text.len() > 0 && text.last() == '/' {
        text
    } else {
        text.push('/')
    }
}

/// The text of the URL that a host stands for
pub open spec fn connection_text(host: Seq<char>) -> Seq<char> {
    with_slash(with_scheme(host))
}

/// Provides the text of the URL that a host stands for, and whether the scheme
/// was inferred
///
/// ## Arguments
/// * `host` - The host that was entered
pub fn create_connection_text(host: &str) -> (result: (String, bool))
    ensures
        result.0@ == connection_text(host@),
        result.1 == !has_scheme(host@),
{
    let mut url = String::new();

    // Whether a scheme was inferred
    let mut inserted_scheme = false;

    // Fill in missing scheme portion
    if !starts_with(host, "http://") && !starts_with(host, "https://") {
        url.append("http://");

        inserted_scheme = true;
    }
    url.append(host);
    assert(url@ =~= with_scheme(host@));

    // Ensure theres a trailing slash (URL path will be interpeted incorrectly without)
    if !ends_with(&url, '/') {
        url.push('/');
    }
    (url, inserted_scheme)
}

/// Whether the scheme is updated to https: if the 443 port was specified and the
/// scheme was inferred as http://
pub open spec fn inferred_secure(port: Option<u16>, inserted_scheme: bool) -> bool {
    port == Some(443u16) && inserted_scheme
}

/// Whether to update the scheme to https
///
/// ## Arguments
/// * `port`            - The port of the URL
/// * `inserted_scheme` - Whether the scheme was inferred
pub fn is_inferred_secure(port: Option<u16>, inserted_scheme: bool) -> (secure: bool)
    ensures
        secure == inferred_secure(port, inserted_scheme),
{
    match port {
        Some(port) => port == 443 && inserted_scheme,
        None => false,
    }
}

/// The URL that a host stands for, or the message why there is none
pub open spec fn connection_url(host: Seq<char>) -> Result<Seq<char>, Seq<char>> {
    match url_parse(connection_text(host)) {
        Ok(url) => match url_with_scheme(url, "https"@) {
            Some(secure) if inferred_secure(url_port(url), !has_scheme(host)) => Ok(secure),
            _ => Ok(url),
        },
        Err(message) => Err(message),
    }
}

/// Whether a host has neither a scheme nor a trailing slash
pub open spec fn is_bare(host: Seq<char>) -> bool {
    !has_scheme(host) && (host.len() == 0 || host.last() != '/')
}

/// Whether a host names the port that makes an inferred scheme secure
pub open spec fn names_secure_port(host: Seq<char>) -> bool {
    url_parse(connection_text(host)) matches Ok(url) && url_port(url) == Some(443u16)
}

/// Provides the URL that a host stands for, or the message why there is none.
///
/// A bare host, the host with a trailing slash and, unless it names the secure
/// port, the host with the scheme http stand for the same URL, whose scheme is
/// then http.
///
/// ## Arguments
/// * `host` - The host that was entered
pub fn create_connection_url(host: &str) -> (url: Result<String, String>)
    ensures
        text_result(url) == connection_url(host@),
        is_bare(host@) ==> text_result(url) == connection_url(host@.push('/')),
        is_bare(host@) && !names_secure_port(host@) ==> {
            &&& text_result(url) == connection_url("http://"@ + host@)
            &&& url is Ok ==> "http://"@.is_prefix_of(url->Ok_0@)
        },
{
    proof {
        if is_bare(host@) {
            law_host_spellings(host@);
            law_inferred_scheme(host@);
        }
    }
    let (text, inserted_scheme) = create_connection_text(host);
    let url = match parse_url(&text) {
        Ok(url) => url,
        Err(message) => return Err(message),
    };

    // Update scheme to be https if the 443 port was specified and the scheme was inferred as http://
    if is_inferred_secure(port(&url), inserted_scheme) {
        if let Some(secure) = set_scheme(&url, "https") {
            return Ok(secure);
        }
    }
    Ok(url)
}

/// Provides the URL for requesting the server details, or the message why there
/// is none
///
/// ## Arguments
/// * `base_url` - The server base URL (Connection URL)
pub fn details_url(base_url: &str) -> (url: Result<String, String>)
    ensures
        text_result(url) == url_join(base_url@, DETAILS_ENDPOINT@),
{
    join(base_url, DETAILS_ENDPOINT)
}

/// Provides the URL to publish telemetry events, or the message why there is none
///
/// ## Arguments
/// * `base_url` - The server base URL (Connection URL)
pub fn telemetry_url(base_url: &str) -> (url: Result<String, String>)
    ensures
        text_result(url) == url_join(base_url@, TELEMETRY_ENDPOINT@),
{
    join(base_url, TELEMETRY_ENDPOINT)
}

/// Provides the URL for upgrading the server connection, or the message why there
/// is none
///
/// ## Arguments
/// * `base_url` - The server base URL (Connection URL)
pub fn upgrade_url(base_url: &str) -> (url: Result<String, String>)
    ensures
        text_result(url) == url_join(base_url@, UPGRADE_ENDPOINT@),
{
    join(base_url, UPGRADE_ENDPOINT)
}

/// Details provided by the server. These are the only fields
/// that we need the rest are ignored by this client.
pub struct ServerDetails {
    /// The Pocket Relay version of the server
    pub version: String,
    /// Server identifier checked to ensure its a proper server
    pub ident: Option<String>,
}

/// Data from completing a lookup contains the resolved address
/// from the connection to the server as well as the server
/// version obtained from the server
#[derive(Debug, Clone)]
pub struct LookupData {
    /// Server url
    pub url: String,
    /// The server version
    pub version: String,
}

/// Errors that can occur while looking up a server, with the kind of error that
/// requests report
#[derive(Debug)]
pub enum LookupError<E> {
    /// The server url was invalid
    InvalidHostTarget(String),
    /// The server connection failed
    ConnectionFailed(E),
    /// The server gave an invalid response likely not a PR server
    ErrorResponse(E),
    /// The server gave an invalid response likely not a PR server
    InvalidResponse(E),
    /// Server wasn't a valid pocket relay server
    NotPocketRelay,
    /// Server version is too old
    ServerOutdated(String, (u64, u64, u64)),
}

impl ServerDetails {
    /// Whether the server says that it is a Pocket Relay server
    pub open spec fn is_pocket_relay(self) -> bool {
        self.ident is Some && self.ident->0@ == SERVER_IDENT@
    }
}

/// What a lookup comes to with the details of the server
pub open spec fn lookup_verdict<E>(
    url: String,
    details: ServerDetails,
    outdated: bool,
) -> Result<LookupData, LookupError<E>> {
    if !details.is_pocket_relay() {
        Err(LookupError::NotPocketRelay)
    } else if outdated {
        Err(LookupError::ServerOutdated(details.version, MIN_SERVER_VERSION))
    } else {
        Ok(LookupData { url, version: details.version })
    }
}

/// Completes a lookup with the details that the server replied
///
/// ## Arguments
/// * `url`      - The server url
/// * `details`  - The details that the server replied
/// * `outdated` - Whether the version comes before the minimum version
pub fn complete_lookup<E>(url: String, details: ServerDetails, outdated: bool) -> (result: Result<
    LookupData,
    LookupError<E>,
>)
    ensures
        result == lookup_verdict::<E>(url, details, outdated),
        result is Ok <==> !outdated && details.ident is Some && details.ident->0@ == SERVER_IDENT@,
        result is Ok ==> result->Ok_0 == (LookupData { url, version: details.version }),
{
    // Handle invalid server ident
    let valid = match &details.ident {
        Some(ident) => *ident == SERVER_IDENT.to_string(),
        None => false,
    };
    if !valid {
        return Err(LookupError::NotPocketRelay);
    }

    // Ensure the server is a supported version
    if outdated {
        return Err(LookupError::ServerOutdated(details.version, MIN_SERVER_VERSION));
    }
    Ok(LookupData { url, version: details.version })
}

/// Completes a lookup with the details that the server replied, if their version
/// is one
///
/// ## Arguments
/// * `url`     - The server url
/// * `details` - The details that the server replied
pub fn check_server<E>(url: String, details: ServerDetails) -> (result: Option<
    Result<LookupData, LookupError<E>>,
>)
    ensures
        result == (match version_parts(details.version@) {
            Some(version) => Some(
                lookup_verdict::<E>(url, details, precedes(version, MIN_SERVER_VERSION)),
            ),
            None => None,
        }),
        result is Some <==> version_parts(details.version@) is Some,
        result is Some ==> {
            let version = version_parts(details.version@)->0;
            let outdated = precedes(version, MIN_SERVER_VERSION);
            &&& result->0 is Ok <==> !outdated && details.ident is Some && details.ident->0@
                == SERVER_IDENT@
            &&& result->0 is Ok ==> result->0->Ok_0 == (LookupData {
                url,
                version: details.version,
            })
        },
{
    let (major, minor, patch): (u64, u64, u64) = MIN_SERVER_VERSION;
    match precedes_release(&details.version, major, minor, patch) {
        Some(outdated) => Some(complete_lookup(url, details, outdated)),
        None => None,
    }
}

/// The headers to provide when upgrading a connection, in order. The last four
/// are there for legacy compatability.
pub open spec fn upgrade_header_list(user_agent: Option<Seq<char>>) -> Seq<
    (Seq<char>, Seq<char>),
> {
    let agent = match user_agent {
        Some(user_agent) => seq![("user-agent"@, user_agent)],
        None => Seq::empty(),
    };
    agent + seq![
        ("connection"@, "Upgrade"@),
        ("upgrade"@, "blaze"@),
        ("x-pocket-relay-scheme"@, "http"@),
        ("x-pocket-relay-host"@, "127.0.0.1"@),
        ("x-pocket-relay-port"@, decimal(HTTP_PORT as nat)),
        ("x-pocket-relay-local-http"@, "true"@),
    ]
}

/// The names and values of headers as plain text
pub open spec fn header_list(headers: Seq<(String, String)>) -> Seq<(Seq<char>, Seq<char>)> {
    headers.map_values(|header: (String, String)| (header.0@, header.1@))
}

/// Appends a header
fn push_header(headers: &mut Vec<(String, String)>, name: &str, value: &str)
    ensures
        header_list(final(headers)@) == header_list(old(headers)@).push((name@, value@)),
{
    headers.push((name.to_string(), value.to_string()));
    assert(header_list(headers@) =~= header_list(old(headers)@).push((name@, value@)));
}

/// Creates the headers to provide when upgrading a connection
///
/// ## Arguments
/// * `user_agent` - The user agent to name, if the HTTP client does not
pub fn upgrade_headers(user_agent: Option<&str>) -> (headers: Vec<(String, String)>)
    ensures
        header_list(headers@) == upgrade_header_list(
            match user_agent {
                Some(user_agent) => Some(user_agent@),
                None => None,
            },
        ),
{
    let mut headers: Vec<(String, String)> = Vec::new();
    if let Some(user_agent) = user_agent {
        push_header(&mut headers, "user-agent", user_agent);
    }
    push_header(&mut headers, "connection", "Upgrade");
    push_header(&mut headers, "upgrade", "blaze");

    // Headers for legacy compatability
    push_header(&mut headers, "x-pocket-relay-scheme", "http");
    push_header(&mut headers, "x-pocket-relay-host", "127.0.0.1");
    let mut port_text = String::new();
    push_decimal(&mut port_text, HTTP_PORT as u64);
    assert(port_text@ =~= decimal(HTTP_PORT as nat));
    push_header(&mut headers, "x-pocket-relay-port", &port_text);
    push_header(&mut headers, "x-pocket-relay-local-http", "true");
    assert(header_list(headers@) =~= upgrade_header_list(
        match user_agent {
            Some(user_agent) => Some(user_agent@),
            None => None,
        },
    ));
    headers
}

/// Key value pair message for telemetry events
pub struct TelemetryEvent {
    /// The telemetry values
    pub values: Vec<(String, String)>,
}

impl View for TelemetryEvent {
    type V = Seq<(Seq<char>, Seq<char>)>;

    /// The keys and values as plain text, in order
    open spec fn view(&self) -> Seq<(Seq<char>, Seq<char>)> {
        self.values@.map_values(|pair: (String, String)| (pair.0@, pair.1@))
    }
}

/// The text that a host stands for names its scheme and ends with a slash, and it
/// stands for itself
pub proof fn law_connection_text(host: Seq<char>)
    ensures
        has_scheme(connection_text(host)),
        connection_text(host).last() == '/',
        connection_text(connection_text(host)) == connection_text(host),
{
    let text = connection_text(host);
    let inferred = with_scheme(host);
    let prefix = if "https://"@.is_prefix_of(inferred) {
        "https://"@
    } else {
        "http://"@
    };
    assert(!has_scheme(host) ==> (inferred.take("http://"@.len() as int) =~= "http://"@));
    assert(prefix.is_prefix_of(inferred));
    assert(text.take(prefix.len() as int) =~= inferred.take(prefix.len() as int));
}

/// A scheme that a host names is kept, whatever the port
pub proof fn law_named_scheme_is_kept(host: Seq<char>)
    requires
        has_scheme(host),
    ensures
        connection_url(host) == url_parse(with_slash(host)),
{
}

/// The scheme that is inferred for a host is http
pub proof fn law_inferred_scheme(host: Seq<char>)
    requires
        !has_scheme(host),
    ensures
        "http://"@.is_prefix_of(connection_text(host)),
{
    assert(connection_text(host).take("http://"@.len() as int) =~= "http://"@);
}

/// A bare host stands for the same URL with the scheme http in front of it, unless
/// it names the port that makes an inferred scheme secure. A bare host that is not
/// empty stands for the same URL with a slash behind it. The texts that the empty
/// host stands for, without and with the slash, have no host.
pub proof fn law_host_spellings(host: Seq<char>)
    requires
        is_bare(host),
    ensures
        connection_text("http://"@ + host) == connection_text(host),
        !names_secure_port(host) ==> connection_url("http://"@ + host) == connection_url(host),
        !has_scheme(host.push('/')),
        host.len() > 0 ==> connection_text(host.push('/')) == connection_text(host),
        host.len() > 0 ==> connection_url(host.push('/')) == connection_url(host),
        host.len() == 0 ==> connection_text(host) == "http://"@,
        host.len() == 0 ==> connection_text(host.push('/')) == "http:///"@,
{
    let slashed = host.push('/');
    let named = "http://"@ + host;
    reveal_strlit("http://");
    reveal_strlit("https://");
    reveal_strlit("http:///");
    // The slash does not complete a scheme
    assert(slashed.drop_last() =~= host);
    if "http://"@.is_prefix_of(slashed) {
        assert(slashed.len() == 7 ==> host[5] == "http://"@[5]);
        assert("http://"@ =~= host.take(7));
    }
    if "https://"@.is_prefix_of(slashed) {
        assert(slashed.len() == 8 ==> host[6] == "https://"@[6]);
        assert("https://"@ =~= host.take(8));
    }
    assert(!has_scheme(slashed));
    assert(named.take(7) =~= "http://"@);
    assert(has_scheme(named));
    assert(connection_text(named) =~= connection_text(host));
    if host.len() > 0 {
        assert(connection_text(slashed) =~= connection_text(host));
    } else {
        assert(connection_text(host) =~= "http://"@);
        assert(connection_text(slashed) =~= "http:///"@);
    }
}

/// The text that a host stands for, by how the host starts and ends: a host that
/// starts with `http://` or `https://` is taken as it is, any other gets `http://`
/// in front, and either gets a slash behind it unless it ends with one
pub proof fn law_completed_host(host: Seq<char>)
    ensures
        has_scheme(host) <==> "http://"@.is_prefix_of(host) || "https://"@.is_prefix_of(host),
        ({
            let front = if "http://"@.is_prefix_of(host) || "https://"@.is_prefix_of(host) {
                host
            } else {
                "http://"@ + host
            };
            &&& front.last() == '/' ==> connection_text(host) == front
            &&& front.last() != '/' ==> connection_text(host) == front.push('/')
        }),
{
    reveal_strlit("http://");
    reveal_strlit("https://");
}

/// The URL of a host is the one that its completed text spells, but with the scheme
/// https if the scheme was inferred, the port is 443 and the URL can have it. There
/// is no URL exactly when the text spells none, and the message is told.
pub proof fn law_connection_url(host: Seq<char>)
    ensures
        ({
            let parsed = url_parse(connection_text(host));
            let url = parsed->Ok_0;
            let secure = url_with_scheme(url, "https"@);
            let inferred = !("http://"@.is_prefix_of(host) || "https://"@.is_prefix_of(host));
            let switched = inferred && url_port(url) == Some(443u16) && secure is Some;
            &&& parsed is Err ==> connection_url(host) == parsed
            &&& parsed is Ok && !switched ==> connection_url(host) == parsed
            &&& parsed is Ok && switched ==> connection_url(host) == Ok::<Seq<char>, Seq<char>>(
                secure->0,
            )
        }),
{
}

/// Only the port 443 together with an inferred scheme makes a URL secure
pub proof fn law_inferred_secure(port: u16, inserted_scheme: bool)
    ensures
        inferred_secure(Some(port), inserted_scheme) <==> port == 443 && inserted_scheme,
        !inferred_secure(None, inserted_scheme),
{
}

/// A lookup succeeds exactly with a server that identifies itself as a Pocket Relay
/// server and is not outdated, with exactly the url and the version. It is no Pocket
/// Relay server exactly if the identifier is missing or another one. An outdated one
/// is told with its version and the minimum. None of this depends on the url.
pub proof fn law_lookup_verdict<E>(url: String, details: ServerDetails, outdated: bool)
    ensures
        ({
            let verdict = lookup_verdict::<E>(url, details, outdated);
            let identified = details.ident is Some && details.ident->0@
                == "POCKET_RELAY_SERVER"@;
            &&& verdict is Ok <==> identified && !outdated
            &&& verdict is Ok ==> verdict->Ok_0.url == url && verdict->Ok_0.version
                == details.version
            &&& verdict is Err && verdict->Err_0 is NotPocketRelay <==> !identified
            &&& identified && outdated ==> verdict == Err::<LookupData, LookupError<E>>(
                LookupError::ServerOutdated(details.version, (0u64, 5u64, 0u64)),
            )
        }),
{
}

/// Two lookups of servers with the same details come to the same, with the url of
/// each
pub proof fn law_verdict_keeps_url<E>(
    first: String,
    second: String,
    details: ServerDetails,
    outdated: bool,
)
    ensures
        ({
            let one = lookup_verdict::<E>(first, details, outdated);
            let other = lookup_verdict::<E>(second, details, outdated);
            &&& one is Err ==> one == other
            &&& one is Ok ==> other == Ok::<LookupData, LookupError<E>>(
                LookupData { url: second, ..one->Ok_0 },
            )
        }),
{
}

/// The versions that are outdated: those below 0.5.0, and its pre-releases
pub proof fn law_outdated_versions(major: u64, minor: u64, patch: u64, pre_release: bool)
    ensures
        precedes((major, minor, patch, pre_release), MIN_SERVER_VERSION) <==> major == 0 && (minor
            < 5 || (minor == 5 && patch == 0 && pre_release)),
{
}

/// The headers for upgrading do not depend on the user agent, which stands in front
/// of them if one is named, as it is
pub proof fn law_upgrade_headers(user_agent: Seq<char>)
    ensures
        ({
            let plain = upgrade_header_list(None);
            let named = upgrade_header_list(Some(user_agent));
            &&& plain.len() == 6
            &&& plain[0] == ("connection"@, "Upgrade"@)
            &&& plain[1] == ("upgrade"@, "blaze"@)
            &&& plain[2] == ("x-pocket-relay-scheme"@, "http"@)
            &&& plain[3] == ("x-pocket-relay-host"@, "127.0.0.1"@)
            &&& plain[4].0 == "x-pocket-relay-port"@
            &&& spelled_number(plain[4].1) == 42131
            &&& plain[5] == ("x-pocket-relay-local-http"@, "true"@)
            &&& named == seq![("user-agent"@, user_agent)] + plain
        }),
{
    law_decimal(HTTP_PORT as nat);
    let plain = upgrade_header_list(None);
    assert(upgrade_header_list(Some(user_agent)) =~= seq![("user-agent"@, user_agent)] + plain);
}

/// The plain values of headers hold their names and values in order
pub proof fn law_header_values(headers: Seq<(String, String)>, place: int)
    requires
        0 <= place < headers.len(),
    ensures
        header_list(headers).len() == headers.len(),
        header_list(headers)[place].0 == headers[place].0@,
        header_list(headers)[place].1 == headers[place].1@,
{
}

} // verus!
