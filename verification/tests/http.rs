use pocket_relay_client_shared::servers::http::{
    handle_request, handle_response, handle_url, ProxyStep,
};

fn proxied(base_url: &str, path_and_query: Option<&str>) -> String {
    match handle_request(base_url, path_and_query) {
        ProxyStep::Proxy(url) => url,
        ProxyStep::Respond(status) => panic!("responded with {}", status),
    }
}

#[test]
fn requests_are_proxied_below_the_base_url() {
    let base = "https://example.com/relay/";
    assert_eq!(
        proxied(base, Some("/content/a.bin?b=c")),
        "https://example.com/relay/content/a.bin?b=c"
    );
    assert_eq!(proxied(base, Some("content")), "https://example.com/relay/content");
    assert_eq!(proxied(base, Some("/")), base);
    assert_eq!(proxied(base, Some("")), base);
    assert_eq!(proxied(base, None), base);
    // Only one slash is stripped
    assert_eq!(proxied(base, Some("//content")), "https://example.com/content");
}

#[test]
fn requests_without_url_are_unavailable() {
    assert!(matches!(
        handle_request("nowhere", Some("/content")),
        ProxyStep::Respond(503)
    ));
    assert!(matches!(
        handle_request("http://example.com/", Some("/http://[")),
        ProxyStep::Respond(503)
    ));
    assert!(matches!(handle_url(Err(String::new())), ProxyStep::Respond(503)));
    assert!(matches!(handle_url(Ok("a".to_string())), ProxyStep::Proxy(url) if url == "a"));
}

#[test]
fn failed_requests_are_server_errors() {
    assert_eq!(handle_response::<u8, &str>(Ok(4)), Ok(4));
    assert_eq!(handle_response::<u8, &str>(Err("failed")), Err(500));
}
