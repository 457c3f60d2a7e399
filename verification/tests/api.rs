use pocket_relay_client_shared::api::{
    check_server, complete_lookup, create_connection_text, create_connection_url, details_url,
    is_inferred_secure, telemetry_url, upgrade_headers, upgrade_url, LookupData, LookupError,
    ServerDetails, SERVER_IDENT, USER_AGENT,
};
use pocket_relay_client_shared::ctx::{tunnel_target, ClientContext};
use pocket_relay_client_shared::update::latest_release_url;
use pocket_relay_client_shared::{MIN_SERVER_VERSION, SHARED_BACKEND_VERSION};

fn text(host: &str) -> (String, bool) {
    create_connection_text(host)
}

#[test]
fn host_is_completed() {
    assert_eq!(text("example.com"), ("http://example.com/".to_string(), true));
    assert_eq!(text("example.com/"), ("http://example.com/".to_string(), true));
    assert_eq!(
        text("http://example.com"),
        ("http://example.com/".to_string(), false)
    );
    assert_eq!(
        text("https://example.com/a"),
        ("https://example.com/a/".to_string(), false)
    );
    // Any other scheme is taken for a host
    assert_eq!(text("ftp://a"), ("http://ftp://a/".to_string(), true));
    assert_eq!(text("HTTP://a"), ("http://HTTP://a/".to_string(), true));
    assert_eq!(text(""), ("http://".to_string(), true));
}

#[test]
fn completed_host_stands_for_itself() {
    for host in ["example.com", "https://example.com/a", "10.0.0.1:80"] {
        let (completed, _) = text(host);
        assert_eq!(text(&completed), (completed.clone(), false));
    }
}

fn connection(host: &str) -> Result<String, String> {
    create_connection_url(host)
}

#[test]
fn connection_url_is_created() {
    assert_eq!(connection("Example.COM"), Ok("http://example.com/".to_string()));
    assert_eq!(
        connection("example.com:8080/relay"),
        Ok("http://example.com:8080/relay/".to_string())
    );
    // The port that the scheme has anyway is left out
    assert_eq!(connection("example.com:80"), Ok("http://example.com/".to_string()));
}

#[test]
fn secure_port_makes_an_inferred_scheme_secure() {
    assert_eq!(connection("example.com:443"), Ok("https://example.com/".to_string()));
    assert_eq!(
        connection("http://example.com:443"),
        Ok("http://example.com:443/".to_string())
    );
    assert_eq!(
        connection("https://example.com:443"),
        Ok("https://example.com/".to_string())
    );
    assert!(is_inferred_secure(Some(443), true));
    assert!(!is_inferred_secure(Some(443), false));
    assert!(!is_inferred_secure(Some(444), true));
    assert!(!is_inferred_secure(None, true));
}

#[test]
fn spellings_of_a_host_stand_for_the_same_url() {
    for host in ["example.com", "10.0.0.1:8080", "example.com/relay", "[::1]", "example.com:99999"] {
        assert_eq!(connection(&format!("{}/", host)), connection(host));
        assert_eq!(connection(&format!("http://{}", host)), connection(host));
    }
    // None of the spellings of the empty host is one
    for host in ["", "/", "http://"] {
        assert_eq!(connection(host), Err("empty host".to_string()));
    }
    // With the secure port a slash makes no difference, but a scheme does
    assert_eq!(connection("example.com:443/"), connection("example.com:443"));
    assert_ne!(connection("http://example.com:443"), connection("example.com:443"));
}

#[test]
fn invalid_hosts_are_refused() {
    assert_eq!(connection(""), Err("empty host".to_string()));
    assert_eq!(
        connection("example.com:99999"),
        Err("invalid port number".to_string())
    );
    assert_eq!(
        connection("http://[::1"),
        Err("invalid IPv6 address".to_string())
    );
}

#[test]
fn endpoints_are_below_the_base_url() {
    let base = "https://example.com/relay/";
    assert_eq!(
        details_url(base),
        Ok("https://example.com/relay/api/server".to_string())
    );
    assert_eq!(
        telemetry_url(base),
        Ok("https://example.com/relay/api/server/telemetry".to_string())
    );
    assert_eq!(
        upgrade_url(base),
        Ok("https://example.com/relay/api/server/upgrade".to_string())
    );
    assert_eq!(
        details_url("nowhere"),
        Err("relative URL without a base".to_string())
    );
}

fn details(version: &str, ident: Option<&str>) -> ServerDetails {
    ServerDetails {
        version: version.to_string(),
        ident: ident.map(|ident| ident.to_string()),
    }
}

fn check(version: &str, ident: Option<&str>) -> Option<Result<LookupData, LookupError<()>>> {
    check_server("http://example.com/".to_string(), details(version, ident))
}

#[test]
fn supported_servers_are_accepted() {
    for version in ["0.5.0", "0.5.1", "0.6.0-beta.1", "0.10.0", "1.0.0-alpha", "0.5.0+build"] {
        match check(version, Some(SERVER_IDENT)) {
            Some(Ok(data)) => {
                let data = data.clone();
                assert_eq!(data.url, "http://example.com/");
                assert_eq!(data.version, version);
            }
            _ => panic!("the server is supported"),
        }
    }
}

#[test]
fn outdated_servers_are_refused() {
    for version in ["0.4.9", "0.0.1", "0.5.0-beta.1", "0.4.99+build", "0.5.0-rc.1+build"] {
        match check(version, Some(SERVER_IDENT)) {
            Some(Err(LookupError::ServerOutdated(outdated, minimum))) => {
                assert_eq!(outdated, version);
                assert_eq!(minimum, (0, 5, 0));
                assert_eq!(minimum, MIN_SERVER_VERSION);
            }
            _ => panic!("the server is outdated"),
        }
    }
}

#[test]
fn other_servers_are_refused() {
    for ident in [None, Some(""), Some("pocket_relay_server"), Some("POCKET_RELAY_SERVER ")] {
        for version in ["0.5.0", "0.1.0"] {
            assert!(matches!(
                check(version, ident),
                Some(Err(LookupError::NotPocketRelay))
            ));
        }
    }
}

#[test]
fn what_is_no_version_is_told() {
    for version in ["", "0.5", "v0.5.0", "0.5.00", "0.5.0-"] {
        assert!(check(version, Some(SERVER_IDENT)).is_none());
    }
}

#[test]
fn lookup_is_completed() {
    let url = || "http://example.com/".to_string();
    let ident = Some(SERVER_IDENT);
    let lookup = |outdated: bool, ident: Option<&str>| -> Result<LookupData, LookupError<()>> {
        complete_lookup(url(), details("0.7.0", ident), outdated)
    };
    assert!(matches!(lookup(false, ident), Ok(data) if data.version == "0.7.0"));
    assert!(matches!(
        lookup(true, ident),
        Err(LookupError::ServerOutdated(version, (0, 5, 0))) if version == "0.7.0"
    ));
    assert!(matches!(lookup(true, None), Err(LookupError::NotPocketRelay)));
}

fn pairs(headers: &[(&str, &str)]) -> Vec<(String, String)> {
    headers
        .iter()
        .map(|(name, value)| (name.to_string(), value.to_string()))
        .collect()
}

#[test]
fn upgrade_headers_are_created() {
    let expected = [
        ("connection", "Upgrade"),
        ("upgrade", "blaze"),
        ("x-pocket-relay-scheme", "http"),
        ("x-pocket-relay-host", "127.0.0.1"),
        ("x-pocket-relay-port", "42131"),
        ("x-pocket-relay-local-http", "true"),
    ];
    assert_eq!(upgrade_headers(None), pairs(&expected));

    let mut named = vec![("user-agent", "PocketRelayClient/v0.2.0")];
    named.extend_from_slice(&expected);
    assert_eq!(upgrade_headers(Some(USER_AGENT)), pairs(&named));
}

#[test]
fn user_agent_names_the_version() {
    assert_eq!(USER_AGENT, format!("PocketRelayClient/v{}", SHARED_BACKEND_VERSION));
}

fn context(base_url: &str, association: Option<&str>) -> ClientContext {
    ClientContext {
        base_url: base_url.to_string(),
        association: association.map(|association| association.to_string()),
    }
}

#[test]
fn tunnels_need_a_token() {
    let with_token = context("http://example.com/", Some("token"));
    assert_eq!(with_token.tunnel_association(), Some(&"token".to_string()));
    let without_token = context("http://example.com/", None);
    assert_eq!(without_token.tunnel_association(), None);
}

#[test]
fn udp_tunnels_need_a_host_and_a_token() {
    let target = context("http://example.com:80/a/", Some("token"))
        .udp_tunnel_target()
        .expect("target");
    assert_eq!(target.host, "example.com");
    assert_eq!(target.association, "token");

    let target = context("http://[::1]/", Some("token"))
        .udp_tunnel_target()
        .expect("target");
    assert_eq!(target.host, "[::1]");

    assert!(context("http://example.com/", None).udp_tunnel_target().is_none());
    assert!(context("mailto:someone", Some("token")).udp_tunnel_target().is_none());
}

#[test]
fn tunnel_target_is_put_together() {
    let token = Some("token".to_string());
    let target = tunnel_target(Some("host".to_string()), &token).expect("target");
    assert_eq!(target.host, "host");
    assert_eq!(target.association, "token");
    assert!(tunnel_target(None, &token).is_none());
    assert!(tunnel_target(Some("host".to_string()), &None).is_none());
    assert!(tunnel_target(None, &None).is_none());
}

#[test]
fn latest_release_is_on_github() {
    assert_eq!(
        latest_release_url("PocketRelay/Client"),
        "https://api.github.com/repos/PocketRelay/Client/releases/latest"
    );
}
