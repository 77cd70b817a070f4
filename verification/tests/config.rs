use gateway_proxy::config::{
    default_cache_dir, default_ddns_interval, default_https_listen, default_true, AcmeConfig, Config,
    ConfigError, DdnsConfig, HttpRoute, TcpRoute, TlsCertConfig,
};

fn http(domain: &str, upstream: &str) -> HttpRoute {
    HttpRoute { domain: domain.to_owned(), upstream: upstream.to_owned() }
}

fn tcp(listen: u16, upstream: &str) -> TcpRoute {
    TcpRoute { listen, upstream: upstream.to_owned() }
}

fn acme() -> AcmeConfig {
    AcmeConfig {
        email: "you@example.com".to_owned(),
        cache_dir: default_cache_dir(),
        staging: default_true(),
    }
}

fn ddns() -> DdnsConfig {
    DdnsConfig {
        zone: "example.com".to_owned(),
        zone_id: None,
        records: vec!["*.example.com".to_owned()],
        api_token_env: Some("CF_TOKEN".to_owned()),
        api_token_file: None,
        interval_secs: default_ddns_interval(),
    }
}

fn minimal() -> Config {
    Config {
        acme: Some(acme()),
        tls: None,
        https_listen: default_https_listen(),
        http: vec![http("relay.example.com", "http://192.168.10.103:8080")],
        tcp: vec![tcp(2222, "192.168.10.103:22")],
        ddns: None,
    }
}

fn refusal(config: &Config) -> String {
    config.validate().unwrap_err().message()
}

#[test]
fn defaults() {
    assert_eq!(default_https_listen(), 443);
    assert_eq!(default_cache_dir(), "./acme-cache");
    assert!(default_true());
    assert_eq!(default_ddns_interval(), 60);
}

#[test]
fn minimal_configuration_is_accepted() {
    assert!(minimal().validate().is_ok());
    let loaded = Config::load(minimal()).unwrap();
    assert_eq!(loaded.https_listen, 443);
    assert_eq!(loaded.http[0].domain, "relay.example.com");
    assert_eq!(loaded.tcp[0].listen, 2222);
}

#[test]
fn one_source_of_certificates() {
    let mut config = minimal();
    config.tls = Some(TlsCertConfig { cert: "c.pem".to_owned(), key: "k.pem".to_owned() });
    assert_eq!(refusal(&config), "[acme] 与 [tls] 只能二选一");
    config.acme = None;
    assert!(config.validate().is_ok());
    config.tls = None;
    assert_eq!(
        refusal(&config),
        "有 [[http]] 路由时必须配置 [acme]（自动签发）或 [tls]（自定义证书）之一"
    );
    config.http.clear();
    assert!(config.validate().is_ok());
    config.tcp.clear();
    assert_eq!(refusal(&config), "至少要配置一个 [[http]] 或 [[tcp]] 路由");
}

#[test]
fn blank_email_is_refused() {
    let mut config = minimal();
    config.acme.as_mut().unwrap().email = " \u{3000}".to_owned();
    assert_eq!(refusal(&config), "acme.email 不能为空");
}

#[test]
fn http_routes_are_checked_in_order() {
    let mut config = minimal();
    config.http.push(http(" ", "http://a"));
    config.http.push(http("b.example.com", ""));
    assert_eq!(refusal(&config), "[[http]] domain 不能为空");
    config.http.remove(1);
    assert_eq!(refusal(&config), "[[http]] upstream 不能为空 (domain=b.example.com)");
    config.http[1] = http("RELAY.Example.com", "http://other");
    assert_eq!(refusal(&config), "[[http]] domain 重复: relay.example.com");
    assert!(matches!(Config::load(config), Err(ConfigError::DuplicateDomain(_))));
}

#[test]
fn lowercase_of_domains_is_that_of_unicode() {
    let mut config = minimal();
    config.http = vec![http("BÜCHER.example", "http://a"), http("bücher.example", "http://b")];
    assert_eq!(refusal(&config), "[[http]] domain 重复: bücher.example");
    config.http.pop();
    assert_eq!(config.acme_domains(), vec!["bücher.example".to_owned()]);
}

#[test]
fn tcp_routes_are_checked_in_order() {
    let mut config = minimal();
    config.tcp.push(tcp(2223, "\t"));
    assert_eq!(refusal(&config), "[[tcp]] upstream 不能为空 (listen=2223)");
    config.tcp[1] = tcp(443, "a:1");
    assert_eq!(
        refusal(&config),
        "[[tcp]] listen=443 与 https_listen 冲突，L4 服务必须使用独立端口"
    );
    config.tcp[1] = tcp(2222, "a:1");
    assert_eq!(refusal(&config), "[[tcp]] listen 端口重复: 2222");
}

#[test]
fn ddns_section_is_checked() {
    let mut config = minimal();
    config.ddns = Some(ddns());
    assert!(config.validate().is_ok());
    config.ddns.as_mut().unwrap().api_token_env = None;
    assert_eq!(refusal(&config), "[ddns] 需要 api_token_env 或 api_token_file 之一");
    config.ddns.as_mut().unwrap().records.clear();
    assert_eq!(refusal(&config), "[ddns] records 不能为空");
    config.ddns.as_mut().unwrap().zone = "  ".to_owned();
    assert_eq!(refusal(&config), "[ddns] zone 不能为空");
}

#[test]
fn routing_table_is_keyed_by_lowercase_domain() {
    let mut config = minimal();
    config.http.push(http("WEB.example.com", "http://192.168.10.103:3000"));
    assert_eq!(
        config.acme_domains(),
        vec!["relay.example.com".to_owned(), "web.example.com".to_owned()]
    );
    let routes = config.routes();
    assert_eq!(routes.get("web.example.com").unwrap(), "http://192.168.10.103:3000");
    assert_eq!(routes.get("relay.example.com").unwrap(), "http://192.168.10.103:8080");
    assert!(routes.get("WEB.example.com").is_none());
}

#[test]
fn certificate_domains_differ_and_are_not_blank() {
    let mut config = minimal();
    config.http.push(http("WEB.example.com", "http://a"));
    assert!(config.validate().is_ok());
    let domains = config.acme_domains();
    assert_eq!(domains.len(), 2);
    assert_ne!(domains[0], domains[1]);
    assert!(domains.iter().all(|domain| !domain.trim().is_empty()));
    config.http.clear();
    assert!(config.validate().is_ok());
    assert!(config.acme_domains().is_empty());
}

#[test]
fn lowercase_of_no_character_is_blank_unless_it_is() {
    let mut config = minimal();
    config.http.clear();
    for n in 0..=0x10ffffu32 {
        if let Some(c) = char::from_u32(n) {
            config.http.push(http(&c.to_string(), "http://a"));
        }
    }
    let domains = config.acme_domains();
    assert_eq!(domains.len(), config.http.len());
    for (route, domain) in config.http.iter().zip(&domains) {
        assert_eq!(route.domain.trim().is_empty(), domain.trim().is_empty(), "{:?}", route.domain);
    }
}

#[test]
fn given_lowercase_domains_decide() {
    let mut config = minimal();
    config.http.push(http("web.example.com", "http://b"));
    let same = vec!["x".to_owned(), "x".to_owned()];
    assert_eq!(
        config.validate_with(&same).unwrap_err().message(),
        "[[http]] domain 重复: x"
    );
    let apart = vec!["x".to_owned(), "y".to_owned()];
    assert!(config.validate_with(&apart).is_ok());
    let table = config.routes_with(&apart);
    assert_eq!(table.get("y").unwrap(), "http://b");
}
