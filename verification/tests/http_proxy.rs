use gateway_proxy::config::{AcmeConfig, Config, HttpRoute, TcpRoute, TlsCertConfig};
use gateway_proxy::http_proxy::{
    append_forwarded, client_ip, extract_host, forward_reply, rewrite_for_upstream, rewrite_headers,
    serve_https, strip_hop_by_hop, strip_port, text_response, upgrade_reply, upstream_failed,
    upstream_socket_addr, Authority, Decision, HttpVersion, ListenAction, ListenEvent, Outbound,
    PeerIp, Proxy, ProxyError, RequestHead, UpgradeReply, UpstreamUri,
};
use gateway_proxy::tcp_proxy::{run, TcpAction};
use hyper::header::{HeaderMap, HeaderName, HeaderValue};

fn headers(list: &[(&'static str, &str)]) -> HeaderMap {
    let mut map = HeaderMap::new();
    for (name, value) in list {
        map.append(*name, HeaderValue::from_str(value).unwrap());
    }
    map
}

fn names(map: &HeaderMap) -> Vec<String> {
    let mut names: Vec<String> = map.keys().map(|name| name.as_str().to_owned()).collect();
    names.sort();
    names
}

fn head(list: &[(&'static str, &str)]) -> RequestHead {
    RequestHead {
        authority_host: None,
        path_and_query: Some("/a?b=c".to_owned()),
        headers: headers(list),
    }
}

fn proxy() -> Proxy {
    let config = Config {
        acme: Some(AcmeConfig {
            email: "you@example.com".to_owned(),
            cache_dir: "./acme-cache".to_owned(),
            staging: true,
        }),
        tls: None,
        https_listen: 443,
        http: vec![
            HttpRoute {
                domain: "Relay.example.com".to_owned(),
                upstream: "http://192.168.10.103:8080/".to_owned(),
            },
            HttpRoute { domain: "odd.example.com".to_owned(), upstream: "http://bad host".to_owned() },
            HttpRoute { domain: "bare.example.com".to_owned(), upstream: "/".to_owned() },
        ],
        tcp: vec![],
        ddns: None,
    };
    let config = Config::load(config).unwrap();
    Proxy::new(config.routes())
}

#[test]
fn ordinary_request_loses_hop_by_hop_headers() {
    let mut map = headers(&[
        ("connection", "keep-alive, X-Foo , bad name"),
        ("keep-alive", "timeout=5"),
        ("proxy-authenticate", "a"),
        ("proxy-authorization", "b"),
        ("te", "trailers"),
        ("trailers", "x"),
        ("transfer-encoding", "chunked"),
        ("upgrade", "h2c"),
        ("x-foo", "1"),
        ("x-foo", "2"),
        ("x-bar", "3"),
        ("cookie", "a"),
        ("cookie", "b"),
    ]);
    strip_hop_by_hop(&mut map, false);
    assert_eq!(names(&map), vec!["cookie", "x-bar"]);
    let cookies: Vec<&HeaderValue> = map.get_all("cookie").iter().collect();
    assert_eq!(cookies, vec!["a", "b"]);
    let before = map.clone();
    strip_hop_by_hop(&mut map, false);
    assert_eq!(map, before);
}

#[test]
fn upgrade_request_keeps_its_negotiation() {
    let mut map = headers(&[
        ("connection", "Upgrade, x-foo"),
        ("upgrade", "websocket"),
        ("keep-alive", "timeout=5"),
        ("te", "trailers"),
        ("trailers", "x"),
        ("transfer-encoding", "chunked"),
        ("proxy-authenticate", "a"),
        ("proxy-authorization", "b"),
        ("x-foo", "1"),
        ("sec-websocket-key", "k"),
    ]);
    strip_hop_by_hop(&mut map, true);
    assert_eq!(names(&map), vec!["connection", "sec-websocket-key", "upgrade"]);
    assert_eq!(map["connection"], "Upgrade, x-foo");
    assert_eq!(map["upgrade"], "websocket");
    let before = map.clone();
    strip_hop_by_hop(&mut map, true);
    assert_eq!(map, before);
}

#[test]
fn every_line_of_connection_counts() {
    let mut map = headers(&[
        ("connection", "close"),
        ("connection", "X-Foo"),
        ("x-foo", "1"),
        ("x-bar", "2"),
    ]);
    strip_hop_by_hop(&mut map, false);
    assert_eq!(map, headers(&[("x-bar", "2")]));
    let mut map = headers(&[
        ("connection", "ü, x-a"),
        ("connection", "x-b,, x-c"),
        ("connection", ""),
        ("x-a", "1"),
        ("x-b", "2"),
        ("x-c", "3"),
    ]);
    strip_hop_by_hop(&mut map, false);
    assert_eq!(map, headers(&[("x-a", "1")]));
}

#[test]
fn upgrade_request_loses_what_connection_lists() {
    let mut map = headers(&[
        ("connection", " UPGRADE , Connection"),
        ("connection", "X-Foo, ,x bar"),
        ("upgrade", "websocket"),
        ("x-foo", "1"),
        ("x-bar", "2"),
    ]);
    let expected = headers(&[
        ("connection", " UPGRADE , Connection"),
        ("connection", "X-Foo, ,x bar"),
        ("upgrade", "websocket"),
        ("x-bar", "2"),
    ]);
    strip_hop_by_hop(&mut map, true);
    assert_eq!(map, expected);
}

#[test]
fn only_the_first_forwarded_line_is_kept() {
    let mut map = headers(&[("x-forwarded-for", "10.0.0.1"), ("x-forwarded-for", "10.0.0.2")]);
    assert!(append_forwarded(&mut map, "10.0.0.7", "h"));
    let chain: Vec<&HeaderValue> = map.get_all("x-forwarded-for").iter().collect();
    assert_eq!(chain, vec!["10.0.0.1, 10.0.0.7"]);
}

#[test]
fn connection_that_is_not_ascii_lists_nothing() {
    let mut map = headers(&[("connection", "x-foo, ü"), ("x-foo", "1")]);
    strip_hop_by_hop(&mut map, false);
    assert_eq!(names(&map), vec!["x-foo"]);
}

#[test]
fn forwarded_headers_are_put_in() {
    let mut map = headers(&[]);
    assert!(append_forwarded(&mut map, "2001:db8::1", "relay.example.com"));
    assert_eq!(map["x-forwarded-for"], "2001:db8::1");
    assert_eq!(map["x-forwarded-proto"], "https");
    assert_eq!(map["x-forwarded-host"], "relay.example.com");
    assert!(append_forwarded(&mut map, "10.0.0.7", "b\n"));
    assert_eq!(map["x-forwarded-for"], "2001:db8::1, 10.0.0.7");
    assert_eq!(map["x-forwarded-host"], "relay.example.com");
    assert_eq!(map.len(), 3);
}

#[test]
fn unreadable_forwarded_chain_is_replaced() {
    let mut map = headers(&[("x-forwarded-for", "ü"), ("x-forwarded-proto", "http")]);
    assert!(append_forwarded(&mut map, "10.0.0.7", "h"));
    assert_eq!(map["x-forwarded-for"], "10.0.0.7");
    assert_eq!(map["x-forwarded-proto"], "https");
}

#[test]
fn request_is_rewritten_for_its_upstream() {
    let mut map = headers(&[("host", "relay.example.com"), ("te", "x"), ("accept", "*/*")]);
    let uri = rewrite_for_upstream(
        &mut map,
        &Some("/a?b=c".to_owned()),
        "10.0.0.7",
        "relay.example.com",
        "http://192.168.10.103:8080//",
        false,
    )
    .unwrap();
    assert_eq!(uri.text, "http://192.168.10.103:8080/a?b=c");
    let authority = uri.authority.clone().unwrap();
    assert_eq!(authority.text, "192.168.10.103:8080");
    assert_eq!(authority.host, "192.168.10.103");
    assert_eq!(authority.port, Some(8080));
    assert_eq!(upstream_socket_addr(&uri), Some(("192.168.10.103".to_owned(), 8080)));
    assert_eq!(map["host"], "192.168.10.103:8080");
    assert_eq!(map["x-forwarded-host"], "relay.example.com");
    assert_eq!(map["accept"], "*/*");
    assert_eq!(map.len(), 5);
}

#[test]
fn path_defaults_to_the_root_and_port_to_80() {
    let mut map = headers(&[]);
    let uri = rewrite_for_upstream(&mut map, &None, "::1", "h", "http://nas.lan", false).unwrap();
    assert_eq!(uri.text, "http://nas.lan/");
    assert_eq!(upstream_socket_addr(&uri), Some(("nas.lan".to_owned(), 80)));
}

#[test]
fn text_that_is_no_uri_is_refused() {
    let mut map = headers(&[("te", "x")]);
    let error = rewrite_for_upstream(
        &mut map,
        &Some("/p".to_owned()),
        "::1",
        "h",
        "http://bad host/",
        false,
    )
    .unwrap_err();
    assert_eq!(error.message(), "拼接上游 URI 失败: http://bad host//p");
    assert_eq!(map["te"], "x");
}

#[test]
fn authority_that_cannot_be_a_header_is_refused() {
    let mut map = headers(&[("te", "x")]);
    let authority = Some(Authority { text: "a\nb".to_owned(), host: "a".to_owned(), port: None });
    let error = rewrite_headers(&mut map, &authority, "::1", "h", false).unwrap_err();
    assert_eq!(error.message(), "上游 Host 头非法");
    assert!(matches!(error, ProxyError::BadHost));
    assert!(!map.contains_key("host"));
    assert!(rewrite_headers(&mut map, &None, "::1", "h", false).is_ok());
    assert!(!map.contains_key("host"));
}

#[test]
fn uri_without_authority_has_no_address() {
    let uri = UpstreamUri { text: "/".to_owned(), authority: None };
    assert_eq!(upstream_socket_addr(&uri), None);
}

#[test]
fn ports_are_stripped() {
    assert_eq!(strip_port("example.com:8443"), "example.com");
    assert_eq!(strip_port("example.com"), "example.com");
    assert_eq!(strip_port("[::1]:8080"), "::1");
    assert_eq!(strip_port("[::1]"), "::1");
    assert_eq!(strip_port("[::1"), "::1");
    assert_eq!(strip_port(":80"), "");
    assert_eq!(strip_port(""), "");
}

#[test]
fn host_comes_from_the_uri_first() {
    let mut request = head(&[("host", "other.example.com")]);
    assert_eq!(extract_host(&request), Some("other.example.com".to_owned()));
    request.authority_host = Some("Relay.Example.COM".to_owned());
    assert_eq!(extract_host(&request), Some("relay.example.com".to_owned()));
    assert_eq!(extract_host(&head(&[("host", "WEB.example.com :443")])), Some("web.example.com".to_owned()));
    assert_eq!(extract_host(&head(&[("host", "ü.example.com")])), None);
    assert_eq!(extract_host(&head(&[])), None);
}

#[test]
fn text_replies() {
    let reply = text_response(404, "no route for host");
    assert_eq!(reply.status, 404);
    assert_eq!(reply.content_type, "text/plain; charset=utf-8");
    assert_eq!(reply.body, "no route for host");
    let reply = upstream_failed();
    assert_eq!((reply.status, reply.body.as_str()), (502, "upstream error"));
}

fn forwarded(decision: Decision) -> (String, String, Outbound) {
    match decision {
        Decision::Forward { host, upstream, request } => (host, upstream, request),
        _ => panic!("expected a forwarded request"),
    }
}

#[test]
fn configured_domain_is_served_in_any_case() {
    let proxy = proxy();
    for name in ["relay.example.com", "RELAY.example.com:443", "Relay.Example.Com"] {
        let (host, upstream, request) = forwarded(proxy.handle("10.0.0.7", head(&[("host", name)])));
        assert_eq!(host, "relay.example.com");
        assert_eq!(upstream, "http://192.168.10.103:8080/");
        assert_eq!(request.uri.text, "http://192.168.10.103:8080/a?b=c");
        assert_eq!(request.uri.authority.unwrap().text, "192.168.10.103:8080");
        assert_eq!(request.version, HttpVersion::Http11);
        assert_eq!(request.headers["host"], "192.168.10.103:8080");
        assert_eq!(request.headers["x-forwarded-for"], "10.0.0.7");
        assert_eq!(request.headers["x-forwarded-host"], "relay.example.com");
    }
    let literal = Config {
        acme: None,
        tls: Some(TlsCertConfig { cert: "c".to_owned(), key: "k".to_owned() }),
        https_listen: 443,
        http: vec![HttpRoute { domain: "[2001:DB8::1]".to_owned(), upstream: "http://a".to_owned() }],
        tcp: vec![],
        ddns: None,
    };
    let mut by_address = head(&[]);
    by_address.authority_host = Some("[2001:db8::1]".to_owned());
    let routes = Config::load(literal).unwrap().routes();
    let (host, _, _) = forwarded(Proxy::new(routes).handle("10.0.0.7", by_address));
    assert_eq!(host, "[2001:db8::1]");
    let mut over_h2 = head(&[]);
    over_h2.authority_host = Some("relay.example.com".to_owned());
    let (host, _, _) = forwarded(proxy.handle("10.0.0.7", over_h2));
    assert_eq!(host, "relay.example.com");
}

#[test]
fn unknown_hosts_are_refused() {
    match proxy().handle("10.0.0.7", head(&[("host", "nowhere.example.com")])) {
        Decision::NoRoute { host, reply } => {
            assert_eq!(host, "nowhere.example.com");
            assert_eq!((reply.status, reply.body.as_str()), (404, "no route for host"));
        }
        _ => panic!("expected a reply"),
    }
    match proxy().handle("10.0.0.7", head(&[])) {
        Decision::Reply(reply) => {
            assert_eq!((reply.status, reply.body.as_str()), (400, "missing Host"));
        }
        _ => panic!("expected a reply"),
    }
}

#[test]
fn upgrades_get_their_own_connection() {
    let request = head(&[
        ("host", "relay.example.com"),
        ("connection", "Upgrade"),
        ("upgrade", "websocket"),
    ]);
    match proxy().handle("10.0.0.7", request) {
        Decision::Upgrade { host, request, connect_host, connect_port, .. } => {
            assert_eq!(host, "relay.example.com");
            assert_eq!((connect_host.as_str(), connect_port), ("192.168.10.103", 8080));
            assert_eq!(request.headers["upgrade"], "websocket");
            assert_eq!(request.headers["connection"], "Upgrade");
            assert_eq!(request.version, HttpVersion::Http11);
        }
        _ => panic!("expected an upgrade"),
    }
}

#[test]
fn failed_rewriting_is_answered_with_502() {
    match proxy().handle("10.0.0.7", head(&[("host", "odd.example.com")])) {
        Decision::Failed { error, reply, upstream, .. } => {
            assert!(matches!(error, ProxyError::BadUri(_)));
            assert_eq!(upstream, "http://bad host");
            assert_eq!((reply.status, reply.body.as_str()), (502, "upstream error"));
        }
        _ => panic!("expected a failure"),
    }
    match proxy().handle("10.0.0.7", head(&[("host", "bare.example.com"), ("upgrade", "h2c")])) {
        Decision::Failed { error, reply, .. } => {
            assert_eq!(error.message(), "上游地址非法");
            assert_eq!(reply.status, 502);
        }
        _ => panic!("expected a failure"),
    }
}

fn crowded(count: usize) -> HeaderMap {
    let mut map = HeaderMap::new();
    for i in 0..count {
        let name = HeaderName::from_bytes(format!("x-{i}").as_bytes()).unwrap();
        map.insert(name, HeaderValue::from_static("v"));
    }
    map
}

#[test]
fn crowded_requests_still_go_through() {
    for count in [6000, 10000] {
        let mut map = crowded(count);
        map.insert("host", HeaderValue::from_static("relay.example.com"));
        let request =
            RequestHead { authority_host: None, path_and_query: None, headers: map };
        let (_, _, request) = forwarded(proxy().handle("10.0.0.7", request));
        assert_eq!(request.headers.keys_len(), count + 4);
    }
}

#[test]
fn full_header_map_is_reported() {
    let mut map = crowded(24576);
    assert!(!append_forwarded(&mut map, "10.0.0.7", "h"));
    let error = rewrite_headers(&mut map, &None, "10.0.0.7", "h", false).unwrap_err();
    assert_eq!(error.message(), "请求头过多");
}

#[test]
fn replies_are_made_fit_for_the_client() {
    let mut map = headers(&[("connection", "close, x-a"), ("x-a", "1"), ("x-b", "2")]);
    forward_reply(&mut map);
    assert_eq!(names(&map), vec!["x-b"]);
}

#[test]
fn upgrade_replies() {
    let list = [("connection", "Upgrade"), ("upgrade", "websocket")];
    let mut map = headers(&list);
    assert_eq!(upgrade_reply(101, true, &mut map), UpgradeReply::Tunnel);
    assert_eq!(map, headers(&list));
    assert_eq!(upgrade_reply(101, false, &mut map), UpgradeReply::Broken);
    assert_eq!(upgrade_reply(200, false, &mut map), UpgradeReply::Relay);
    assert!(map.is_empty());
}

#[test]
fn mapped_addresses_are_unmapped() {
    let mapped = PeerIp::V6(0, 0, 0, 0, 0, 0xffff, 0xc0a8, 0x0a67);
    assert_eq!(client_ip(mapped), PeerIp::V4(192, 168, 10, 103));
    let v6 = PeerIp::V6(0x2001, 0xdb8, 0, 0, 0, 0, 0, 0x25);
    assert_eq!(client_ip(v6), v6);
    assert_eq!(client_ip(PeerIp::V6(0, 0, 0, 0, 0, 0, 0, 1)), PeerIp::V6(0, 0, 0, 0, 0, 0, 0, 1));
    assert_eq!(client_ip(PeerIp::V4(1, 2, 3, 4)), PeerIp::V4(1, 2, 3, 4));
}

#[test]
fn listeners_stop_on_shutdown_only() {
    let peer = PeerIp::V6(0, 0, 0, 0, 0, 0xffff, 0x0102, 0x0304);
    assert_eq!(serve_https(ListenEvent::Cancelled), ListenAction::Stop);
    assert_eq!(serve_https(ListenEvent::AcceptFailed), ListenAction::Listen);
    assert_eq!(
        serve_https(ListenEvent::Accepted(peer)),
        ListenAction::Serve(PeerIp::V4(1, 2, 3, 4))
    );
    let route = TcpRoute { listen: 2222, upstream: "192.168.10.103:22".to_owned() };
    assert!(matches!(run(&route, ListenEvent::Cancelled), TcpAction::Stop));
    assert!(matches!(run(&route, ListenEvent::AcceptFailed), TcpAction::Listen));
    assert!(matches!(
        run(&route, ListenEvent::Accepted(peer)),
        TcpAction::Connect(upstream) if upstream == "192.168.10.103:22"
    ));
}
