use gateway_proxy::config::DdnsConfig;
use gateway_proxy::cloudflare::{
    cf_api_base, cf_request, check_reply, encode_query_value, handle_listing, handle_result,
    plan_record, read_reply, resolve_zone_id, sync_all, update_record, zone_id_in, ApiMethod,
    ApiOutcome, ApiRequest, DdnsError, RecordPlan, SyncJob, SyncState, SyncStep,
};
use gateway_proxy::ddns::{
    echo_urls, fetch_public_ipv6, pause_secs, read_token, run, token_source, EchoEvent, EchoStep,
    RunAction, RunEvent, TokenSource,
};
use gateway_proxy::json::first_element;
use gateway_proxy::text::trim_utf8;
use hyper::StatusCode;
use serde_json::Value;

fn json(text: &str) -> Value {
    serde_json::from_str(text).unwrap()
}

fn status(code: u16) -> StatusCode {
    StatusCode::from_u16(code).unwrap()
}

fn reply(code: u16, body: &str) -> ApiOutcome {
    ApiOutcome::Reply { status: status(code), body: body.as_bytes().to_vec() }
}

fn test_cfg() -> DdnsConfig {
    DdnsConfig {
        zone: "test.zone".to_owned(),
        zone_id: None,
        records: vec!["*.test.zone".to_owned()],
        api_token_env: None,
        api_token_file: None,
        interval_secs: 60,
    }
}

fn job(ip: &str) -> SyncJob {
    SyncJob {
        api_base: "http://127.0.0.1:8080".to_owned(),
        config: test_cfg(),
        token: "test-token".to_owned(),
        ip: ip.to_owned(),
    }
}

/// A stand-in for Cloudflare and for an echo service.
struct MockState {
    content: Option<String>,
    puts: Vec<Value>,
    list_query: Option<String>,
    requests: Vec<(ApiMethod, String)>,
}

impl MockState {
    fn new(content: &str) -> MockState {
        MockState {
            content: Some(content.to_owned()),
            puts: Vec::new(),
            list_query: None,
            requests: Vec::new(),
        }
    }

    fn echo(&self, url: &str) -> EchoEvent {
        if !url.ends_with("/echo") {
            return EchoEvent::Unreachable("connection refused".to_owned());
        }
        match trim_utf8(b"2001:db8::25\n") {
            Some(text) => EchoEvent::Address(text.to_owned()),
            None => EchoEvent::NotText,
        }
    }

    fn answer(&mut self, request: ApiRequest) -> ApiOutcome {
        assert_eq!(request.headers["authorization"], "Bearer test-token");
        self.requests.push((request.method, request.url.clone()));
        let rest = request.url.strip_prefix("http://127.0.0.1:8080").unwrap();
        let (path, query) = match rest.split_once('?') {
            Some((path, query)) => (path, query),
            None => (rest, ""),
        };
        match request.method {
            ApiMethod::Get => {
                assert!(request.body.is_none());
                assert!(!request.headers.contains_key("content-type"));
                if path == "/zones" {
                    return reply(200, r#"{"result": [{"id": "zone123"}], "success": true}"#);
                }
                assert_eq!(path, "/zones/zone123/dns_records");
                self.list_query = Some(query.to_owned());
                let body = format!(
                    r#"{{"result": [{{"id": "rec1", "type": "AAAA", "name": "*.test.zone",
                    "content": "{}", "ttl": 300, "proxied": false}}], "success": true}}"#,
                    self.content.clone().unwrap_or_default()
                );
                reply(200, &body)
            }
            ApiMethod::Put => {
                assert_eq!(path, "/zones/zone123/dns_records/rec1");
                assert_eq!(request.headers["content-type"], "application/json");
                let body = json(&request.body.unwrap());
                self.content = body["content"].as_str().map(str::to_owned);
                self.puts.push(body);
                reply(200, r#"{"result": {}, "success": true}"#)
            }
        }
    }

    fn sync(&mut self, job: &SyncJob) -> Result<(), DdnsError> {
        let mut step = sync_all(job, None);
        loop {
            match step {
                SyncStep::Send(request, state) => {
                    let outcome = self.answer(request);
                    step = sync_all(job, Some((state, outcome)));
                }
                SyncStep::Done => return Ok(()),
                SyncStep::Failed(error) => return Err(error),
            }
        }
    }
}

fn search(urls: &[&str], mock: &MockState) -> Result<String, String> {
    let urls: Vec<String> = urls.iter().map(|url| url.to_string()).collect();
    let mut event = EchoEvent::Start;
    let mut asked = 0;
    loop {
        match fetch_public_ipv6(&urls, asked, event) {
            EchoStep::Try(url) => {
                event = mock.echo(&url);
                asked += 1;
            }
            EchoStep::Found(ip) => return Ok(ip),
            EchoStep::Failed(message) => return Err(message),
        }
    }
}

#[test]
fn echo_fetches_ipv6() {
    let urls = vec!["http://127.0.0.1:1/echo".to_owned()];
    match fetch_public_ipv6(&urls, 0, EchoEvent::Start) {
        EchoStep::Try(url) => assert_eq!(url, "http://127.0.0.1:1/echo"),
        _ => panic!("expected a service to ask"),
    }
    let refused = EchoEvent::Unreachable("client error (Connect)".to_owned());
    match fetch_public_ipv6(&urls, 1, refused) {
        EchoStep::Failed(message) => {
            assert_eq!(message, "所有回显服务都失败: client error (Connect)");
        }
        _ => panic!("连不上的回显服务应报错"),
    }
}

#[test]
fn updates_record_and_skips_when_unchanged() {
    let mut mock = MockState::new("2001:db8::dead");

    let ip = search(&["http://127.0.0.1:8080/echo"], &mock).unwrap();
    assert_eq!(ip, "2001:db8::25");

    let job = job(&ip);

    mock.sync(&job).unwrap();
    assert_eq!(mock.puts.len(), 1, "应恰好一次 PUT");
    let put = &mock.puts[0];
    assert_eq!(put["type"], "AAAA");
    assert_eq!(put["name"], "*.test.zone");
    assert_eq!(put["content"], "2001:db8::25");
    assert_eq!(put["ttl"], 300, "ttl 应保留原值");
    assert_eq!(put["proxied"], false, "proxied 应保留原值");
    assert_eq!(mock.list_query.as_deref(), Some("type=AAAA&name=%2A.test.zone"));

    mock.sync(&job).unwrap();
    assert_eq!(mock.puts.len(), 1, "地址未变不应重复 PUT");
}

#[test]
fn configured_zone_id_needs_no_lookup() {
    let mut mock = MockState::new("2001:db8::dead");
    let mut job = job("2001:db8::25");
    mock.sync(&job).unwrap();
    assert_eq!(mock.requests[0].1, "http://127.0.0.1:8080/zones?name=test.zone");
    assert_eq!(mock.requests.len(), 3);
    mock.requests.clear();
    job.config.zone_id = Some("zone123".to_owned());
    mock.sync(&job).unwrap();
    assert_eq!(
        mock.requests,
        vec![(
            ApiMethod::Get,
            "http://127.0.0.1:8080/zones/zone123/dns_records?type=AAAA&name=%2A.test.zone".to_owned()
        )]
    );
}

#[test]
fn sync_ends_after_two_calls_for_each_record() {
    let mut job = job("2001:db8::25");
    job.config.records = vec!["a".to_owned(), "b".to_owned(), "c".to_owned()];
    let body = r#"{"result": [{"id": "i", "content": "::2"}], "success": true}"#;
    let mut step = sync_all(&job, None);
    let mut calls = 0;
    while let SyncStep::Send(_, state) = step {
        calls += 1;
        step = sync_all(&job, Some((state, reply(200, body))));
    }
    assert_eq!(calls, 1 + 2 * job.config.records.len());
    assert!(matches!(step, SyncStep::Done));
}

#[test]
fn current_records_complete_a_sync_after_finding_the_zone() {
    let mut mock = MockState::new("2001:db8::25");
    let mut job = job("2001:db8::25");
    job.config.records.push("b.test.zone".to_owned());
    mock.sync(&job).unwrap();
    assert_eq!(mock.requests.len(), 1 + job.config.records.len());
    assert!(mock.puts.is_empty());
}

#[test]
fn every_record_is_settled_in_turn() {
    let mut mock = MockState::new("2001:db8::dead");
    let mut job = job("2001:db8::25");
    job.config.zone_id = Some("zone123".to_owned());
    job.config.records = vec!["a.test.zone".to_owned(), "b.test.zone".to_owned()];
    mock.sync(&job).unwrap();
    let methods: Vec<ApiMethod> = mock.requests.iter().map(|(method, _)| *method).collect();
    assert_eq!(methods, vec![ApiMethod::Get, ApiMethod::Put, ApiMethod::Get]);
    assert_eq!(mock.puts[0]["name"], "a.test.zone");
    job.config.records.clear();
    assert!(matches!(resolve_zone_id(&job), SyncStep::Done));
}

#[test]
fn one_echo_service_is_enough() {
    let mock = MockState::new("");
    let urls = ["http://a/", "http://b/echo"];
    assert_eq!(search(&urls, &mock).unwrap(), "2001:db8::25");
    let urls = ["http://a/", "http://b/"];
    assert_eq!(search(&urls, &mock).unwrap_err(), "所有回显服务都失败: connection refused");
    assert_eq!(search(&[], &mock).unwrap_err(), "所有回显服务都失败: ");
    assert_eq!(echo_urls(), vec!["https://api6.ipify.org/", "https://ipv6.icanhazip.com/"]);
}

#[test]
fn useless_answers_lead_to_the_next_service() {
    let urls = vec!["http://a/".to_owned(), "http://b/".to_owned()];
    for event in [
        EchoEvent::Unreachable("x".to_owned()),
        EchoEvent::BodyLost,
        EchoEvent::NotText,
        EchoEvent::NotAddress(status(503)),
    ] {
        assert!(matches!(fetch_public_ipv6(&urls, 1, event), EchoStep::Try(url) if url == "http://b/"));
    }
    let told = |event: EchoEvent| -> String {
        match fetch_public_ipv6(&urls, 2, event) {
            EchoStep::Failed(message) => message,
            _ => panic!("expected the end"),
        }
    };
    assert_eq!(told(EchoEvent::BodyLost), "所有回显服务都失败: 读取回显响应失败");
    assert_eq!(told(EchoEvent::NotText), "所有回显服务都失败: 回显响应不是 UTF-8");
    assert_eq!(
        told(EchoEvent::NotAddress(status(503))),
        "所有回显服务都失败: HTTP 503 Service Unavailable: 非 IPv6 地址文本"
    );
    assert!(matches!(
        fetch_public_ipv6(&urls, 2, EchoEvent::Address("::1".to_owned())),
        EchoStep::Found(ip) if ip == "::1"
    ));
}

#[test]
fn loop_syncs_changes_and_nothing_else() {
    let cfg = test_cfg();
    let mut last: Option<String> = None;
    assert!(matches!(run(&cfg, &mut last, RunEvent::Woke), RunAction::Fetch));
    let address = |ip: &str| -> RunEvent { RunEvent::Address(ip.to_owned()) };
    assert!(matches!(run(&cfg, &mut last, address("::1")), RunAction::Sync(ip) if ip == "::1"));
    assert!(matches!(run(&cfg, &mut last, RunEvent::SyncFailed), RunAction::Sleep(60)));
    assert_eq!(last, None);
    assert!(matches!(run(&cfg, &mut last, address("::1")), RunAction::Sync(_)));
    let synced = RunEvent::Synced("::1".to_owned());
    assert!(matches!(run(&cfg, &mut last, synced), RunAction::Sleep(60)));
    assert_eq!(last.as_deref(), Some("::1"));
    assert!(matches!(run(&cfg, &mut last, address("::1")), RunAction::Sleep(60)));
    assert!(matches!(run(&cfg, &mut last, RunEvent::NoAddress), RunAction::Sleep(60)));
    assert!(matches!(run(&cfg, &mut last, address("::2")), RunAction::Sync(ip) if ip == "::2"));
    assert_eq!(last.as_deref(), Some("::1"));
}

#[test]
fn pauses_last_ten_seconds_at_least() {
    let mut cfg = test_cfg();
    for (configured, pause) in [(0, 10), (1, 10), (9, 10), (10, 10), (11, 11), (u64::MAX, u64::MAX)] {
        cfg.interval_secs = configured;
        assert_eq!(pause_secs(&cfg), pause);
        let mut last: Option<String> = None;
        match run(&cfg, &mut last, RunEvent::NoAddress) {
            RunAction::Sleep(seconds) => assert_eq!(seconds, pause),
            _ => panic!("expected a pause"),
        }
    }
}

#[test]
fn token_comes_from_the_environment_first() {
    let mut cfg = test_cfg();
    assert!(token_source(&cfg).is_none());
    assert_eq!(
        read_token(&cfg, &None).unwrap_err().message(),
        "[ddns] 需要 api_token_env 或 api_token_file 之一"
    );
    cfg.api_token_file = Some("/run/token".to_owned());
    assert!(matches!(token_source(&cfg), Some(TokenSource::File(path)) if path == "/run/token"));
    assert_eq!(read_token(&cfg, &Some(" abc\n".to_owned())).unwrap(), "abc");
    assert_eq!(read_token(&cfg, &None).unwrap_err().message(), "读取 token 文件失败: /run/token");
    assert_eq!(
        read_token(&cfg, &Some("\n".to_owned())).unwrap_err().message(),
        "token 文件 /run/token 内容为空"
    );
    cfg.api_token_env = Some("CF_TOKEN".to_owned());
    assert!(matches!(token_source(&cfg), Some(TokenSource::Env(name)) if name == "CF_TOKEN"));
    assert_eq!(read_token(&cfg, &None).unwrap_err().message(), "读取环境变量 CF_TOKEN 失败");
    assert_eq!(
        read_token(&cfg, &Some("\u{3000}".to_owned())).unwrap_err().message(),
        "环境变量 CF_TOKEN 为空"
    );
    assert_eq!(read_token(&cfg, &Some("x y ".to_owned())).unwrap(), "x y");
}

#[test]
fn requests_carry_the_token() {
    let url = "https://api.cloudflare.com/client/v4/zones".to_owned();
    assert_eq!(cf_api_base(), "https://api.cloudflare.com/client/v4");
    let get = cf_request(ApiMethod::Get, url.clone(), "t", None).unwrap();
    assert_eq!(get.headers.len(), 1);
    assert_eq!(get.headers["authorization"], "Bearer t");
    let put = cf_request(ApiMethod::Put, url.clone(), "t", Some("{}".to_owned())).unwrap();
    assert_eq!(put.headers.len(), 2);
    assert_eq!(put.headers["content-type"], "application/json");
    assert_eq!(put.body.as_deref(), Some("{}"));
    assert_eq!(put.url, url);
    let error = cf_request(ApiMethod::Get, url, "a\nb", None).unwrap_err();
    assert_eq!(error.message(), "构造 Cloudflare 请求失败");
    let error = cf_request(ApiMethod::Get, "http://a/ b".to_owned(), "t", None).unwrap_err();
    assert!(matches!(error, DdnsError::NotBuilt));
}

#[test]
fn replies_are_checked() {
    let result = read_reply(reply(200, r#"{"success": true, "result": [1]}"#)).unwrap();
    assert_eq!(result, json("[1]"));
    assert_eq!(read_reply(reply(204, r#"{"success": true}"#)).unwrap(), Value::Null);
    let told = |outcome: ApiOutcome| -> String { read_reply(outcome).unwrap_err().message() };
    let unreachable = ApiOutcome::Unreachable("refused".to_owned());
    assert_eq!(told(unreachable), "请求 Cloudflare API 失败: refused");
    assert_eq!(told(ApiOutcome::BodyLost("reset".to_owned())), "读取 Cloudflare 响应失败: reset");
    assert_eq!(
        told(reply(502, "<html>")),
        "解析 Cloudflare 响应失败（HTTP 502 Bad Gateway）: expected value at line 1 column 1"
    );
    assert_eq!(
        told(reply(403, r#"{"success": true, "errors": [{"message": "no", "code": 10000}]}"#)),
        "Cloudflare API 拒绝（HTTP 403 Forbidden）: [{\"code\":10000,\"message\":\"no\"}]"
    );
    assert_eq!(
        told(reply(200, r#"{"success": "true"}"#)),
        "Cloudflare API 拒绝（HTTP 200 OK）: null"
    );
    assert_eq!(
        told(reply(200, "[]")),
        "Cloudflare API 拒绝（HTTP 200 OK）: null"
    );
    assert!(check_reply(status(299), &json(r#"{"success": true}"#)).is_ok());
    assert!(check_reply(status(300), &json(r#"{"success": true}"#)).is_err());
    assert!(check_reply(status(199), &json(r#"{"success": true}"#)).is_err());
    assert!(check_reply(status(200), &json(r#"{"success": false}"#)).is_err());
}

#[test]
fn records_are_planned() {
    let plan = |list: &str| -> RecordPlan { plan_record(&json(list), "n", "::1") };
    assert!(matches!(plan("[]"), RecordPlan::NoRecord));
    assert!(matches!(plan("{}"), RecordPlan::NoRecord));
    assert!(matches!(plan("[{}]"), RecordPlan::NoId));
    assert!(matches!(plan(r#"[{"id": 1, "content": "::1"}]"#), RecordPlan::NoId));
    assert!(matches!(plan(r#"[{"id": "i", "content": "::1"}]"#), RecordPlan::Current));
    match plan(r#"[{"id": "i", "content": "::2", "ttl": 120, "proxied": true, "comment": "c"}]"#) {
        RecordPlan::Update { id, body } => {
            assert_eq!(id, "i");
            let expected = r#"{"type": "AAAA", "name": "n", "content": "::1", "ttl": 120,
                "proxied": true}"#;
            assert_eq!(body, json(expected));
        }
        _ => panic!("expected an update"),
    }
    let first = json(r#"[7, 8]"#);
    assert_eq!(first_element(&first), Some(&json("7")));
    assert_eq!(first_element(&json("[]")), None);
}

#[test]
fn absent_settings_get_defaults() {
    let body = update_record(&json(r#"{"ttl": null}"#), "n", "::1");
    let expected =
        r#"{"content":"::1","name":"n","proxied":false,"ttl":null,"type":"AAAA"}"#;
    assert_eq!(body.to_string(), expected);
    let body = update_record(&json("{}"), "\"", "::1");
    assert_eq!(body["ttl"], 1);
    assert_eq!(body["proxied"], false);
    assert_eq!(body["name"], "\"");
}

#[test]
fn written_record_is_current_afterwards() {
    let list = json(r#"[{"id": "i", "content": "::2"}]"#);
    match plan_record(&list, "n", "::1") {
        RecordPlan::Update { id, mut body } => {
            body["id"] = Value::from(id);
            let later = Value::from(vec![body]);
            assert!(matches!(plan_record(&later, "n", "::1"), RecordPlan::Current));
        }
        _ => panic!("expected an update"),
    }
}

#[test]
fn zones_are_found() {
    assert_eq!(zone_id_in(&json(r#"[{"id": "z"}, {"id": "y"}]"#)), Some("z".to_owned()));
    assert_eq!(zone_id_in(&json("[]")), None);
    assert_eq!(zone_id_in(&json(r#"[{"id": null}]"#)), None);
    let step = handle_result(&job("::1"), SyncState::FindingZone, &json("[]"));
    match step {
        SyncStep::Failed(error) => assert_eq!(
            error.message(),
            "按名称 test.zone 找不到 zone：检查 Token 是否有 Zone 读取权限，或在配置里直接填 zone_id"
        ),
        _ => panic!("expected a failure"),
    }
}

#[test]
fn missing_records_are_reported() {
    let told = |list: &str| -> String {
        match handle_listing(&job("::1"), "z".to_owned(), 0, &json(list)) {
            SyncStep::Failed(error) => error.message(),
            _ => panic!("expected a failure"),
        }
    };
    assert_eq!(
        told("[]"),
        "Cloudflare 上没有 *.test.zone 的 AAAA 记录，请先在控制台手工创建"
    );
    assert_eq!(told(r#"[{"content": "::1"}]"#), "*.test.zone 记录响应缺少 id");
}

#[test]
fn failed_call_ends_the_sync() {
    let waiting = SyncState::Updating { zone_id: "z".to_owned(), index: 0 };
    let lost = ApiOutcome::BodyLost("reset".to_owned());
    match sync_all(&job("::1"), Some((waiting.clone(), lost))) {
        SyncStep::Failed(error) => assert!(matches!(error, DdnsError::BodyLost(_))),
        _ => panic!("expected a failure"),
    }
    assert!(matches!(
        sync_all(&job("::1"), Some((waiting, reply(200, r#"{"success": true}"#)))),
        SyncStep::Done
    ));
}

#[test]
fn update_is_put_at_the_record() {
    let list = json(r#"[{"id": "r", "content": "::2"}]"#);
    match handle_listing(&job("::1"), "z".to_owned(), 0, &list) {
        SyncStep::Send(request, state) => {
            assert_eq!(request.method, ApiMethod::Put);
            assert_eq!(request.url, "http://127.0.0.1:8080/zones/z/dns_records/r");
            assert_eq!(
                request.body.as_deref(),
                Some(r#"{"content":"::1","name":"*.test.zone","proxied":false,"ttl":1,"type":"AAAA"}"#)
            );
            assert!(matches!(state, SyncState::Updating { index: 0, .. }));
        }
        _ => panic!("expected a call"),
    }
}

#[test]
fn wildcards_are_escaped() {
    assert_eq!(encode_query_value("*.test.zone"), "%2A.test.zone");
    assert_eq!(encode_query_value("a.test.zone"), "a.test.zone");
    assert_eq!(encode_query_value("**"), "%2A%2A");
}
