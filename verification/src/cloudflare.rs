//! The Cloudflare API: how AAAA records are brought to the current address.
//!
//! A sync finds the zone, then lists and, where need be, updates each record in turn. Records must be
//! there already: a sync updates them and never creates any.

use hyper::header::HeaderMap;
use hyper::StatusCode;
use serde_json::Value;
use vstd::prelude::*;
use vstd::string::*;

use crate::config::DdnsConfig;
use crate::headers::{no_headers, set_header, HeaderValues, Placed};
use crate::http_proxy::parse_uri;
use crate::json::{
    copy_of, first_element, member, member_or_null, number_value, object_value, parse_json, text_of,
    text_value, truth_of, truth_value, write_json, JsonTree,
};
use crate::status::{number_of, write_status};

verus! {

/// The root of the Cloudflare API.
pub fn cf_api_base() -> (r: &'static str)
    ensures
        r@ == "https://api.cloudflare.com/client/v4"@,
{
    "https://api.cloudflare.com/client/v4"
}

/// The methods that API calls use. None of them creates a record.
#[derive(Debug, Clone, Copy, PartialEq, Eq, Structural)]
pub enum ApiMethod {
    Get,
    Put,
}

/// A call of the API, ready to be sent.
#[derive(Debug)]
pub struct ApiRequest {
    pub method: ApiMethod,
    pub url: String,
    pub headers: HeaderMap,
    pub body: Option<String>,
}

/// An `ApiRequest` with its text as characters and its headers by name.
pub struct ApiRequestView {
    pub method: ApiMethod,
    pub url: Seq<char>,
    pub headers: HeaderValues,
    pub body: Option<Seq<char>>,
}

impl View for ApiRequest {
    type V = ApiRequestView;

    open spec fn view(&self) -> ApiRequestView {
        ApiRequestView {
            method: self.method,
            url: self.url@,
            headers: crate::headers::header_values(self.headers),
            body: crate::text::optional_text(self.body),
        }
    }
}

/// Why the records were not all settled.
#[derive(Debug)]
pub enum DdnsError {
    /// A request cannot be made from the configuration.
    NotBuilt,
    /// The API cannot be reached, for this reason.
    Unreachable(String),
    /// The API's answer broke off, for this reason.
    BodyLost(String),
    /// The API's answer, with this status, is not JSON, for this reason.
    NotJson(StatusCode, String),
    /// The API refused, with this status and these errors.
    Rejected(StatusCode, String),
    /// There is no zone of this name.
    NoZone(String),
    /// There is no AAAA record of this name.
    NoRecord(String),
    /// The record of this name came without an id.
    NoRecordId(String),
}

/// A `DdnsError` with its text as characters.
pub enum DdnsErrorView {
    NotBuilt,
    Unreachable(Seq<char>),
    BodyLost(Seq<char>),
    NotJson(u16, Seq<char>),
    Rejected(u16, Seq<char>),
    NoZone(Seq<char>),
    NoRecord(Seq<char>),
    NoRecordId(Seq<char>),
}

impl View for DdnsError {
    type V = DdnsErrorView;

    open spec fn view(&self) -> DdnsErrorView {
        match self {
            DdnsError::NotBuilt => DdnsErrorView::NotBuilt,
            DdnsError::Unreachable(cause) => DdnsErrorView::Unreachable(cause@),
            DdnsError::BodyLost(cause) => DdnsErrorView::BodyLost(cause@),
            DdnsError::NotJson(status, cause) => DdnsErrorView::NotJson(
                crate::status::status_number(*status),
                cause@,
            ),
            DdnsError::Rejected(status, errors) => DdnsErrorView::Rejected(
                crate::status::status_number(*status),
                errors@,
            ),
            DdnsError::NoZone(zone) => DdnsErrorView::NoZone(zone@),
            DdnsError::NoRecord(name) => DdnsErrorView::NoRecord(name@),
            DdnsError::NoRecordId(name) => DdnsErrorView::NoRecordId(name@),
        }
    }
}

impl DdnsErrorView {
    /// The sentence that tells the user what is wrong.
    pub open spec fn message(self) -> Seq<char> {
        match self {
            DdnsErrorView::NotBuilt => "构造 Cloudflare 请求失败"@,
            DdnsErrorView::Unreachable(cause) => "请求 Cloudflare API 失败: "@ + cause,
            DdnsErrorView::BodyLost(cause) => "读取 Cloudflare 响应失败: "@ + cause,
            DdnsErrorView::NotJson(status, cause) => "解析 Cloudflare 响应失败（HTTP "@
                + crate::status::status_text(status) + "）: "@ + cause,
            DdnsErrorView::Rejected(status, errors) => "Cloudflare API 拒绝（HTTP "@
                + crate::status::status_text(status) + "）: "@ + errors,
            DdnsErrorView::NoZone(zone) => "按名称 "@ + zone
                + " 找不到 zone：检查 Token 是否有 Zone 读取权限，或在配置里直接填 zone_id"@,
            DdnsErrorView::NoRecord(name) => "Cloudflare 上没有 "@ + name
                + " 的 AAAA 记录，请先在控制台手工创建"@,
            DdnsErrorView::NoRecordId(name) => name + " 记录响应缺少 id"@,
        }
    }
}

impl DdnsError {
    /// Tells the user what is wrong.
    pub fn message(&self) -> (r: String)
        ensures
            r@ == self@.message(),
    {
        match self {
            DdnsError::NotBuilt => "构造 Cloudflare 请求失败".to_owned(),
            DdnsError::Unreachable(cause) => crate::text::joined(
                "请求 Cloudflare API 失败: ",
                cause.as_str(),
            ),
            DdnsError::BodyLost(cause) => crate::text::joined(
                "读取 Cloudflare 响应失败: ",
                cause.as_str(),
            ),
            DdnsError::NotJson(status, cause) => {
                let mut out = crate::text::joined(
                    "解析 Cloudflare 响应失败（HTTP ",
                    write_status(status).as_str(),
                );
                out.append("）: ");
                out.append(cause.as_str());
                out
            },
            DdnsError::Rejected(status, errors) => {
                let mut out = crate::text::joined(
                    "Cloudflare API 拒绝（HTTP ",
                    write_status(status).as_str(),
                );
                out.append("）: ");
                out.append(errors.as_str());
                out
            },
            DdnsError::NoZone(zone) => {
                let mut out = crate::text::joined("按名称 ", zone.as_str());
                out.append(
                    " 找不到 zone：检查 Token 是否有 Zone 读取权限，或在配置里直接填 zone_id",
                );
                out
            },
            DdnsError::NoRecord(name) => {
                let mut out = crate::text::joined("Cloudflare 上没有 ", name.as_str());
                out.append(" 的 AAAA 记录，请先在控制台手工创建");
                out
            },
            DdnsError::NoRecordId(name) => crate::text::joined(name.as_str(), " 记录响应缺少 id"),
        }
    }
}

/// The headers of an API call: the token, and the type of the body where there is one.
pub open spec fn api_headers(token: Seq<char>, with_body: bool) -> HeaderValues {
    let authorized = HeaderValues::empty().insert(
        "authorization"@,
        seq![vstd::utf8::encode_utf8("Bearer "@ + token)],
    );
    if with_body {
        authorized.insert("content-type"@, seq![vstd::utf8::encode_utf8("application/json"@)])
    } else {
        authorized
    }
}

/// A call of the API, where the address is a URI and the token can stand in a header.
pub open spec fn api_request(
    method: ApiMethod,
    url: Seq<char>,
    token: Seq<char>,
    body: Option<Seq<char>>,
) -> Option<ApiRequestView> {
    if crate::http_proxy::uri_authority(url) is Some && crate::headers::header_value_text(
        "Bearer "@ + token,
    ) {
        Some(ApiRequestView { method, url, headers: api_headers(token, body is Some), body })
    } else {
        None
    }
}

/// Makes a call of the API, with the token as its credential.
pub fn cf_request(method: ApiMethod, url: String, token: &str, body: Option<String>) -> (r: Result<
    ApiRequest,
    DdnsError,
>)
    ensures
        match r {
            Ok(request) => api_request(method, url@, token@, crate::text::optional_text(body)) == Some(request@),
            Err(error) => error@ == DdnsErrorView::NotBuilt && api_request(
                method,
                url@,
                token@,
                crate::text::optional_text(body),
            ) is None,
        },
{
    proof {
        reveal_strlit("authorization");
        reveal_strlit("content-type");
        reveal_strlit("application/json");
        crate::headers::lemma_lowercase_name("authorization"@);
        crate::headers::lemma_lowercase_name("content-type"@);
    }
    if parse_uri(url.as_str()).is_none() {
        return Err(DdnsError::NotBuilt);
    }
    let mut headers = no_headers();
    let credential = crate::text::joined("Bearer ", token);
    if set_header(&mut headers, "authorization", credential.as_str()) != Placed::Done {
        return Err(DdnsError::NotBuilt);
    }
    if body.is_some() {
        set_header(&mut headers, "content-type", "application/json");
    }
    Ok(ApiRequest { method, url, headers, body })
}

/// What came of an API call.
#[derive(Debug)]
pub enum ApiOutcome {
    /// The API could not be reached, for this reason.
    Unreachable(String),
    /// Its answer broke off, for this reason.
    BodyLost(String),
    /// Its answer.
    Reply { status: StatusCode, body: Vec<u8> },
}

/// What came of an API call: of an answer, its status and the JSON value in it, or why there is none.
pub enum ApiOutcomeView {
    Unreachable(Seq<char>),
    BodyLost(Seq<char>),
    Reply { status: u16, json: Result<JsonTree, Seq<char>> },
}

impl View for ApiOutcome {
    type V = ApiOutcomeView;

    open spec fn view(&self) -> ApiOutcomeView {
        match self {
            ApiOutcome::Unreachable(cause) => ApiOutcomeView::Unreachable(cause@),
            ApiOutcome::BodyLost(cause) => ApiOutcomeView::BodyLost(cause@),
            ApiOutcome::Reply { status, body } => ApiOutcomeView::Reply {
                status: crate::status::status_number(*status),
                json: crate::json::parsed_json(body@),
            },
        }
    }
}

/// The result in an answer of the API. The answer counts only if its status tells of success and
/// its `success` is true.
pub open spec fn result_in(status: u16, value: JsonTree) -> Result<JsonTree, DdnsErrorView> {
    if crate::status::successful(status) && value.at("success"@) == JsonTree::Bool(true) {
        Ok(value.at("result"@))
    } else {
        Err(DdnsErrorView::Rejected(status, crate::json::json_text(value.at("errors"@))))
    }
}

/// The result of an API call.
pub open spec fn result_of(outcome: ApiOutcomeView) -> Result<JsonTree, DdnsErrorView> {
    match outcome {
        ApiOutcomeView::Unreachable(cause) => Err(DdnsErrorView::Unreachable(cause)),
        ApiOutcomeView::BodyLost(cause) => Err(DdnsErrorView::BodyLost(cause)),
        ApiOutcomeView::Reply { status, json: Err(cause) } => Err(
            DdnsErrorView::NotJson(status, cause),
        ),
        ApiOutcomeView::Reply { status, json: Ok(value) } => result_in(status, value),
    }
}

/// Takes the result from an answer of the API.
pub fn check_reply(status: StatusCode, value: &Value) -> (r: Result<Value, DdnsError>)
    ensures
        match r {
            Ok(result) => result_in(
                crate::status::status_number(status),
                crate::json::json_tree(*value),
            ) == Ok::<JsonTree, DdnsErrorView>(crate::json::json_tree(result)),
            Err(error) => result_in(
                crate::status::status_number(status),
                crate::json::json_tree(*value),
            ) == Err::<JsonTree, DdnsErrorView>(error@),
        },
{
    let number: u16 = number_of(&status);
    let success = match truth_of(member_or_null(value, "success")) {
        Some(success) => success,
        None => false,
    };
    if number < 200 || number >= 300 || !success {
        let errors = write_json(member_or_null(value, "errors"));
        return Err(DdnsError::Rejected(status, errors));
    }
    Ok(copy_of(member_or_null(value, "result")))
}

/// Takes the result from what came of an API call.
pub fn read_reply(outcome: ApiOutcome) -> (r: Result<Value, DdnsError>)
    ensures
        match r {
            Ok(result) => result_of(outcome@) == Ok::<JsonTree, DdnsErrorView>(
                crate::json::json_tree(result),
            ),
            Err(error) => result_of(outcome@) == Err::<JsonTree, DdnsErrorView>(error@),
        },
{
    match outcome {
        ApiOutcome::Unreachable(cause) => Err(DdnsError::Unreachable(cause)),
        ApiOutcome::BodyLost(cause) => Err(DdnsError::BodyLost(cause)),
        ApiOutcome::Reply { status, body } => match parse_json(body.as_slice()) {
            Ok(value) => check_reply(status, &value),
            Err(cause) => Err(DdnsError::NotJson(status, cause)),
        },
    }
}

/// A name as it stands in a query: the wildcard is escaped, all else that names hold is safe there.
pub open spec fn query_value(name: Seq<char>) -> Seq<char> {
    crate::text::replaced(name, '*', "%2A"@)
}

/// Escapes a name for a query.
pub fn encode_query_value(s: &str) -> (r: String)
    ensures
        r@ == query_value(s@),
{
    crate::text::replace_char(s, '*', "%2A")
}

/// Where the zones of a name are listed.
pub open spec fn zones_url(api_base: Seq<char>, zone: Seq<char>) -> Seq<char> {
    api_base + "/zones?name="@ + query_value(zone)
}

/// Where the AAAA records of a name are listed.
pub open spec fn records_url(api_base: Seq<char>, zone_id: Seq<char>, name: Seq<char>) -> Seq<
    char,
> {
    api_base + "/zones/"@ + zone_id + "/dns_records?type=AAAA&name="@ + query_value(name)
}

/// Where a record is.
pub open spec fn record_url(api_base: Seq<char>, zone_id: Seq<char>, record_id: Seq<char>) -> Seq<
    char,
> {
    api_base + "/zones/"@ + zone_id + "/dns_records/"@ + record_id
}

/// The record with a new address. Nothing but the address changes: the record keeps its lifetime and
/// its proxy switch, which are 1 and off where it has none.
pub open spec fn updated_record(record: JsonTree, name: Seq<char>, ip: Seq<char>) -> JsonTree {
    let ttl = match record.get("ttl"@) {
        Some(ttl) => ttl,
        None => JsonTree::Number(crate::text::decimal(1)),
    };
    let proxied = match record.get("proxied"@) {
        Some(proxied) => proxied,
        None => JsonTree::Bool(false),
    };
    JsonTree::Object(
        map![
            "type"@ => JsonTree::Text("AAAA"@),
            "name"@ => JsonTree::Text(name),
            "content"@ => JsonTree::Text(ip),
            "ttl"@ => ttl,
            "proxied"@ => proxied,
        ],
    )
}

/// Writes the record with a new address.
pub fn update_record(record: &Value, name: &str, ip: &str) -> (r: Value)
    ensures
        crate::json::json_tree(r) == updated_record(crate::json::json_tree(*record), name@, ip@),
{
    let ttl = match member(record, "ttl") {
        Some(ttl) => copy_of(ttl),
        None => number_value(1),
    };
    let proxied = match member(record, "proxied") {
        Some(proxied) => copy_of(proxied),
        None => truth_value(false),
    };
    let mut members: Vec<(String, Value)> = Vec::new();
    members.push(("type".to_owned(), text_value("AAAA")));
    members.push(("name".to_owned(), text_value(name)));
    members.push(("content".to_owned(), text_value(ip)));
    members.push(("ttl".to_owned(), ttl));
    members.push(("proxied".to_owned(), proxied));
    proof {
        lemma_record_keys();
        let all = members@;
        let four = all.drop_last();
        let three = four.drop_last();
        let two = three.drop_last();
        let one = two.drop_last();
        assert(one.drop_last() =~= Seq::empty());
        reveal_with_fuel(crate::json::object_of, 6);
        let expected = updated_record(crate::json::json_tree(*record), name@, ip@);
        assert(crate::json::object_of(all) =~= expected->Object_0);
    }
    object_value(members)
}

/// The keys of a record differ from one another.
proof fn lemma_record_keys()
    ensures
        "type"@ != "name"@,
        "type"@ != "content"@,
        "type"@ != "ttl"@,
        "type"@ != "proxied"@,
        "name"@ != "content"@,
        "name"@ != "ttl"@,
        "name"@ != "proxied"@,
        "content"@ != "ttl"@,
        "content"@ != "proxied"@,
        "ttl"@ != "proxied"@,
{
    reveal_strlit("type");
    reveal_strlit("name");
    reveal_strlit("content");
    reveal_strlit("ttl");
    reveal_strlit("proxied");
    assert("type"@.len() == 4 && "name"@.len() == 4 && "ttl"@.len() == 3);
    assert("content"@.len() == 7 && "proxied"@.len() == 7);
    assert("type"@[0] != "name"@[0]);
    assert("content"@[0] != "proxied"@[0]);
}

/// What to do with a record, given the list of the records of its name.
pub enum RecordPlanView {
    /// There is none.
    NoRecord,
    /// It has no id.
    NoId,
    /// It holds the address already.
    Current,
    /// Write this record under this id.
    Update { id: Seq<char>, body: JsonTree },
}

/// What to do with a record, given the list of the records of its name: the first one counts.
pub open spec fn planned(list: JsonTree, name: Seq<char>, ip: Seq<char>) -> RecordPlanView {
    match list.first() {
        None => RecordPlanView::NoRecord,
        Some(record) => match record.at("id"@).text() {
            None => RecordPlanView::NoId,
            Some(id) => if record.at("content"@).text() == Some(ip) {
                RecordPlanView::Current
            } else {
                RecordPlanView::Update { id, body: updated_record(record, name, ip) }
            },
        },
    }
}

/// What to do with a record.
#[derive(Debug)]
pub enum RecordPlan {
    NoRecord,
    NoId,
    Current,
    Update { id: String, body: Value },
}

impl View for RecordPlan {
    type V = RecordPlanView;

    open spec fn view(&self) -> RecordPlanView {
        match self {
            RecordPlan::NoRecord => RecordPlanView::NoRecord,
            RecordPlan::NoId => RecordPlanView::NoId,
            RecordPlan::Current => RecordPlanView::Current,
            RecordPlan::Update { id, body } => RecordPlanView::Update {
                id: id@,
                body: crate::json::json_tree(*body),
            },
        }
    }
}

/// Decides what to do with a record, given the list of the records of its name.
pub fn plan_record(list: &Value, name: &str, ip: &str) -> (r: RecordPlan)
    ensures
        r@ == planned(crate::json::json_tree(*list), name@, ip@),
{
    let record = match first_element(list) {
        Some(record) => record,
        None => {
            return RecordPlan::NoRecord;
        },
    };
    let id = match text_of(member_or_null(record, "id")) {
        Some(id) => id,
        None => {
            return RecordPlan::NoId;
        },
    };
    let current = match text_of(member_or_null(record, "content")) {
        Some(content) => crate::text::same_text(content, ip),
        None => false,
    };
    if current {
        RecordPlan::Current
    } else {
        RecordPlan::Update { id: id.to_owned(), body: update_record(record, name, ip) }
    }
}

/// The id of the first zone in a list of zones.
pub open spec fn first_zone_id(list: JsonTree) -> Option<Seq<char>> {
    match list.first() {
        Some(zone) => zone.at("id"@).text(),
        None => None,
    }
}

/// Takes the id of the first zone in a list of zones.
pub fn zone_id_in(list: &Value) -> (r: Option<String>)
    ensures
        crate::text::optional_text(r) == first_zone_id(crate::json::json_tree(*list)),
{
    match first_element(list) {
        Some(zone) => match text_of(member_or_null(zone, "id")) {
            Some(id) => Some(id.to_owned()),
            None => None,
        },
        None => None,
    }
}

/// What a sync is to do: settle every record of a configuration for one address.
#[derive(Debug, Clone)]
pub struct SyncJob {
    /// The root of the API.
    pub api_base: String,
    pub config: DdnsConfig,
    /// The API token.
    pub token: String,
    /// The current address.
    pub ip: String,
}

impl SyncJob {
    /// The names of the records.
    pub open spec fn names(self) -> Seq<Seq<char>> {
        crate::text::texts(self.config.records@)
    }
}

/// What a sync waits for.
#[derive(Debug, Clone)]
pub enum SyncState {
    /// The list of zones of the configured name.
    FindingZone,
    /// The list of records of the name at this index.
    Listing { zone_id: String, index: usize },
    /// The update of the record at this index.
    Updating { zone_id: String, index: usize },
}

/// A `SyncState` with its text as characters.
pub enum SyncStateView {
    FindingZone,
    Listing { zone_id: Seq<char>, index: int },
    Updating { zone_id: Seq<char>, index: int },
}

impl View for SyncState {
    type V = SyncStateView;

    open spec fn view(&self) -> SyncStateView {
        match self {
            SyncState::FindingZone => SyncStateView::FindingZone,
            SyncState::Listing { zone_id, index } => SyncStateView::Listing {
                zone_id: zone_id@,
                index: *index as int,
            },
            SyncState::Updating { zone_id, index } => SyncStateView::Updating {
                zone_id: zone_id@,
                index: *index as int,
            },
        }
    }
}

/// What a sync does next.
#[derive(Debug)]
pub enum SyncStep {
    /// Make this API call and wait for what comes of it.
    Send(ApiRequest, SyncState),
    /// Every record is settled.
    Done,
    /// Give up.
    Failed(DdnsError),
}

/// A `SyncStep` with its text as characters.
pub enum SyncStepView {
    Send(ApiRequestView, SyncStateView),
    Done,
    Failed(DdnsErrorView),
}

impl View for SyncStep {
    type V = SyncStepView;

    open spec fn view(&self) -> SyncStepView {
        match self {
            SyncStep::Send(request, state) => SyncStepView::Send(request@, state@),
            SyncStep::Done => SyncStepView::Done,
            SyncStep::Failed(error) => SyncStepView::Failed(error@),
        }
    }
}

/// The step that makes an API call.
pub open spec fn send_step(
    job: SyncJob,
    method: ApiMethod,
    url: Seq<char>,
    body: Option<Seq<char>>,
    state: SyncStateView,
) -> SyncStepView {
    match api_request(method, url, job.token@, body) {
        Some(request) => SyncStepView::Send(request, state),
        None => SyncStepView::Failed(DdnsErrorView::NotBuilt),
    }
}

/// The step that turns to the record at an index: its listing, or the end after the last one.
pub open spec fn record_step(job: SyncJob, zone_id: Seq<char>, index: int) -> SyncStepView {
    if index < job.names().len() {
        send_step(
            job,
            ApiMethod::Get,
            records_url(job.api_base@, zone_id, job.names()[index]),
            None,
            SyncStateView::Listing { zone_id, index },
        )
    } else {
        SyncStepView::Done
    }
}

/// The step that a sync begins with: the first record where the zone's id is configured, and
/// otherwise the zones of the configured name.
pub open spec fn first_step(job: SyncJob) -> SyncStepView {
    match job.config.zone_id {
        Some(id) => record_step(job, id@, 0),
        None => send_step(
            job,
            ApiMethod::Get,
            zones_url(job.api_base@, job.config.zone@),
            None,
            SyncStateView::FindingZone,
        ),
    }
}

/// The step that follows the list of zones.
pub open spec fn zone_step(job: SyncJob, list: JsonTree) -> SyncStepView {
    match first_zone_id(list) {
        Some(id) => record_step(job, id, 0),
        None => SyncStepView::Failed(DdnsErrorView::NoZone(job.config.zone@)),
    }
}

/// The step that follows the list of records of a name: a record that holds the address already is
/// left alone.
pub open spec fn list_step(
    job: SyncJob,
    zone_id: Seq<char>,
    index: int,
    list: JsonTree,
) -> SyncStepView {
    if index < job.names().len() {
        match planned(list, job.names()[index], job.ip@) {
            RecordPlanView::NoRecord => SyncStepView::Failed(
                DdnsErrorView::NoRecord(job.names()[index]),
            ),
            RecordPlanView::NoId => SyncStepView::Failed(
                DdnsErrorView::NoRecordId(job.names()[index]),
            ),
            RecordPlanView::Current => record_step(job, zone_id, index + 1),
            RecordPlanView::Update { id, body } => send_step(
                job,
                ApiMethod::Put,
                record_url(job.api_base@, zone_id, id),
                Some(crate::json::json_text(body)),
                SyncStateView::Updating { zone_id, index },
            ),
        }
    } else {
        SyncStepView::Done
    }
}

/// The step that follows what came of an API call. Anything but a result ends the sync.
pub open spec fn next_step(
    job: SyncJob,
    state: SyncStateView,
    outcome: ApiOutcomeView,
) -> SyncStepView {
    match result_of(outcome) {
        Err(error) => SyncStepView::Failed(error),
        Ok(result) => match state {
            SyncStateView::FindingZone => zone_step(job, result),
            SyncStateView::Listing { zone_id, index } => list_step(job, zone_id, index, result),
            SyncStateView::Updating { zone_id, index } => record_step(job, zone_id, index + 1),
        },
    }
}

/// Makes an API call, or gives up where it cannot be made.
fn send(job: &SyncJob, method: ApiMethod, url: String, body: Option<String>, state: SyncState) -> (r:
    SyncStep)
    ensures
        r@ == send_step(*job, method, url@, crate::text::optional_text(body), state@),
{
    match cf_request(method, url, job.token.as_str(), body) {
        Ok(request) => SyncStep::Send(request, state),
        Err(error) => SyncStep::Failed(error),
    }
}

/// Turns to the record at an index.
fn turn_to_record(job: &SyncJob, zone_id: String, index: usize) -> (r: SyncStep)
    ensures
        r@ == record_step(*job, zone_id@, index as int),
{
    if index >= job.config.records.len() {
        return SyncStep::Done;
    }
    let mut url = crate::text::joined(job.api_base.as_str(), "/zones/");
    url.append(zone_id.as_str());
    url.append("/dns_records?type=AAAA&name=");
    url.append(encode_query_value(job.config.records[index].as_str()).as_str());
    send(job, ApiMethod::Get, url, None, SyncState::Listing { zone_id, index })
}

/// Begins a sync: with the configured zone id where there is one, and otherwise by looking the zone
/// up by its name.
pub fn resolve_zone_id(job: &SyncJob) -> (r: SyncStep)
    ensures
        r@ == first_step(*job),
{
    match &job.config.zone_id {
        Some(id) => turn_to_record(job, id.clone(), 0),
        None => {
            let mut url = crate::text::joined(job.api_base.as_str(), "/zones?name=");
            url.append(encode_query_value(job.config.zone.as_str()).as_str());
            send(job, ApiMethod::Get, url, None, SyncState::FindingZone)
        },
    }
}

/// Goes on with a record, given the list of the records of its name.
pub fn handle_listing(job: &SyncJob, zone_id: String, index: usize, list: &Value) -> (r: SyncStep)
    ensures
        r@ == list_step(*job, zone_id@, index as int, crate::json::json_tree(*list)),
{
    if index >= job.config.records.len() {
        return SyncStep::Done;
    }
    let name = &job.config.records[index];
    match plan_record(list, name.as_str(), job.ip.as_str()) {
        RecordPlan::NoRecord => SyncStep::Failed(DdnsError::NoRecord(name.clone())),
        RecordPlan::NoId => SyncStep::Failed(DdnsError::NoRecordId(name.clone())),
        RecordPlan::Current => turn_to_record(job, zone_id, index + 1),
        RecordPlan::Update { id, body } => {
            let mut url = crate::text::joined(job.api_base.as_str(), "/zones/");
            url.append(zone_id.as_str());
            url.append("/dns_records/");
            url.append(id.as_str());
            let text = write_json(&body);
            send(job, ApiMethod::Put, url, Some(text), SyncState::Updating { zone_id, index })
        },
    }
}

/// Goes on with a sync, given the result of an API call.
pub fn handle_result(job: &SyncJob, state: SyncState, result: &Value) -> (r: SyncStep)
    ensures
        r@ == (match state@ {
            SyncStateView::FindingZone => zone_step(*job, crate::json::json_tree(*result)),
            SyncStateView::Listing { zone_id, index } => list_step(
                *job,
                zone_id,
                index,
                crate::json::json_tree(*result),
            ),
            SyncStateView::Updating { zone_id, index } => record_step(*job, zone_id, index + 1),
        }),
{
    match state {
        SyncState::FindingZone => match zone_id_in(result) {
            Some(id) => turn_to_record(job, id, 0),
            None => SyncStep::Failed(DdnsError::NoZone(job.config.zone.clone())),
        },
        SyncState::Listing { zone_id, index } => handle_listing(job, zone_id, index, result),
        SyncState::Updating { zone_id, index } => if index < job.config.records.len() {
            turn_to_record(job, zone_id, index + 1)
        } else {
            SyncStep::Done
        },
    }
}

/// Settles every record for the current address, one turn: the first, or the one after an API call.
pub fn sync_all(job: &SyncJob, answered: Option<(SyncState, ApiOutcome)>) -> (r: SyncStep)
    ensures
        r@ == (match answered {
            None => first_step(*job),
            Some((state, outcome)) => next_step(*job, state@, outcome@),
        }),
{
    match answered {
        None => resolve_zone_id(job),
        Some((state, outcome)) => match read_reply(outcome) {
            Ok(result) => handle_result(job, state, &result),
            Err(error) => SyncStep::Failed(error),
        },
    }
}

/// Where a sync ends if its API calls come to `outcomes`, from a step on; the step itself where no
/// outcome is left.
pub open spec fn sync_run(
    job: SyncJob,
    step: SyncStepView,
    outcomes: Seq<ApiOutcomeView>,
) -> SyncStepView
    decreases outcomes.len(),
{
    match step {
        SyncStepView::Send(_, state) => if outcomes.len() == 0 {
            step
        } else {
            sync_run(job, next_step(job, state, outcomes[0]), outcomes.drop_first())
        },
        _ => step,
    }
}

/// The API calls that a sync makes if they come to `outcomes`, from a step on.
pub open spec fn sync_requests(
    job: SyncJob,
    step: SyncStepView,
    outcomes: Seq<ApiOutcomeView>,
) -> Seq<ApiRequestView>
    decreases outcomes.len(),
{
    match step {
        SyncStepView::Send(request, state) => seq![request] + (if outcomes.len() == 0 {
            Seq::empty()
        } else {
            sync_requests(job, next_step(job, state, outcomes[0]), outcomes.drop_first())
        }),
        _ => Seq::empty(),
    }
}

/// Whether a call writes the address into the configured record at an index, on top of `record`.
pub open spec fn writes_over(
    job: SyncJob,
    request: ApiRequestView,
    index: int,
    record: JsonTree,
) -> bool {
    &&& 0 <= index < job.names().len()
    &&& request.method == ApiMethod::Put
    &&& request.body == Some(
        crate::json::json_text(updated_record(record, job.names()[index], job.ip@)),
    )
}

/// Whether a call writes the address into the configured record at an index.
pub open spec fn writes(job: SyncJob, request: ApiRequestView, index: int) -> bool {
    exists|record: JsonTree| writes_over(job, request, index, record)
}

/// Whether a call settles the record at an index: it is found to hold the address, or the address is
/// written into it.
pub open spec fn settles(
    job: SyncJob,
    request: ApiRequestView,
    state: SyncStateView,
    outcome: ApiOutcomeView,
    index: int,
) -> bool {
    match (state, result_of(outcome)) {
        (SyncStateView::Listing { zone_id, index: listed }, Ok(_)) => listed == index && request.url
            == records_url(job.api_base@, zone_id, job.names()[index]) && lists_current(
            outcome,
            job.ip@,
        ),
        (SyncStateView::Updating { index: updated, .. }, Ok(_)) => updated == index && writes(
            job,
            request,
            index,
        ),
        _ => false,
    }
}

/// Whether some call of a sync settles the record at an index.
pub open spec fn settled(
    job: SyncJob,
    step: SyncStepView,
    outcomes: Seq<ApiOutcomeView>,
    index: int,
) -> bool
    decreases outcomes.len(),
{
    match step {
        SyncStepView::Send(request, state) => outcomes.len() > 0 && (settles(
            job,
            request,
            state,
            outcomes[0],
            index,
        ) || settled(
            job,
            next_step(job, state, outcomes[0]),
            outcomes.drop_first(),
            index,
        )),
        _ => false,
    }
}

/// What every step of a sync keeps: each call carries the token, listings read and updates write the
/// record they are about.
pub open spec fn proper_step(job: SyncJob, step: SyncStepView) -> bool {
    match step {
        SyncStepView::Send(request, state) => {
            &&& request.headers == api_headers(job.token@, request.body is Some)
            &&& match state {
                SyncStateView::FindingZone => request.method == ApiMethod::Get
                    && request.body is None,
                SyncStateView::Listing { zone_id, index } => request.method == ApiMethod::Get
                    && request.body is None && 0 <= index < job.names().len() && request.url
                    == records_url(job.api_base@, zone_id, job.names()[index]),
                SyncStateView::Updating { index, .. } => writes(job, request, index),
            }
        },
        _ => true,
    }
}

proof fn lemma_next_step_is_proper(job: SyncJob, step: SyncStepView, outcome: ApiOutcomeView)
    requires
        proper_step(job, step),
        step is Send,
    ensures
        proper_step(job, next_step(job, step->Send_1, outcome)),
{
    match (step->Send_1, result_of(outcome)) {
        (SyncStateView::Listing { zone_id, index }, Ok(list)) => {
            match planned(list, job.names()[index], job.ip@) {
                RecordPlanView::Update { id, body } => {
                    let record = list.first()->0;
                    match list_step(job, zone_id, index, list) {
                        SyncStepView::Send(request, _) => {
                            assert(writes_over(job, request, index, record));
                        },
                        _ => {},
                    }
                },
                _ => {},
            }
        },
        _ => {},
    }
}

/// The index of the first record that a step has not passed yet.
spec fn position(job: SyncJob, step: SyncStepView) -> int {
    match step {
        SyncStepView::Send(_, SyncStateView::FindingZone) => 0,
        SyncStepView::Send(_, SyncStateView::Listing { index, .. }) => index,
        SyncStepView::Send(_, SyncStateView::Updating { index, .. }) => index,
        _ => job.names().len() as int,
    }
}

proof fn lemma_done_settles(
    job: SyncJob,
    step: SyncStepView,
    outcomes: Seq<ApiOutcomeView>,
    index: int,
)
    requires
        proper_step(job, step),
        sync_run(job, step, outcomes) is Done,
        position(job, step) <= index < job.names().len(),
    ensures
        settled(job, step, outcomes, index),
    decreases outcomes.len(),
{
    match step {
        SyncStepView::Send(request, state) => {
            let next = next_step(job, state, outcomes[0]);
            lemma_next_step_is_proper(job, step, outcomes[0]);
            if !settles(job, request, state, outcomes[0], index) {
                lemma_done_settles(job, next, outcomes.drop_first(), index);
            }
        },
        _ => {},
    }
}

/// A sync is done only once every configured record is settled: it was found to hold the current
/// address, or the address was written into it and the API accepted that.
pub proof fn law_done_means_every_record_is_settled(
    job: SyncJob,
    outcomes: Seq<ApiOutcomeView>,
    index: int,
)
    requires
        sync_run(job, first_step(job), outcomes) is Done,
        0 <= index < job.names().len(),
    ensures
        settled(job, first_step(job), outcomes, index),
{
    lemma_done_settles(job, first_step(job), outcomes, index);
}

/// Whether a call only reads, or writes the address into one of the configured records, and carries
/// the token either way.
pub open spec fn proper_request(job: SyncJob, request: ApiRequestView) -> bool {
    &&& request.headers == api_headers(job.token@, request.body is Some)
    &&& ({
        ||| request.method == ApiMethod::Get && request.body is None
        ||| exists|index: int| writes(job, request, index)
    })
}

proof fn lemma_requests_are_proper(
    job: SyncJob,
    step: SyncStepView,
    outcomes: Seq<ApiOutcomeView>,
    i: int,
)
    requires
        proper_step(job, step),
        0 <= i < sync_requests(job, step, outcomes).len(),
    ensures
        proper_request(job, sync_requests(job, step, outcomes)[i]),
    decreases outcomes.len(),
{
    match step {
        SyncStepView::Send(request, state) => {
            if i == 0 {
                match state {
                    SyncStateView::Updating { index, .. } => {
                        assert(writes(job, request, index));
                    },
                    _ => {},
                }
            } else {
                lemma_next_step_is_proper(job, step, outcomes[0]);
                lemma_requests_are_proper(
                    job,
                    next_step(job, state, outcomes[0]),
                    outcomes.drop_first(),
                    i - 1,
                );
            }
        },
        _ => {},
    }
}

/// Whatever the API answers, a sync only reads, and writes the address into records that are
/// configured and found: it creates none. Each of its calls carries the token.
pub proof fn law_a_sync_only_reads_and_updates(
    job: SyncJob,
    outcomes: Seq<ApiOutcomeView>,
    i: int,
)
    requires
        0 <= i < sync_requests(job, first_step(job), outcomes).len(),
    ensures
        proper_request(job, sync_requests(job, first_step(job), outcomes)[i]),
{
    lemma_requests_are_proper(job, first_step(job), outcomes, i);
}

/// Whether an outcome is a list of records whose first one holds the address.
pub open spec fn lists_current(outcome: ApiOutcomeView, ip: Seq<char>) -> bool {
    match result_of(outcome) {
        Ok(list) => list.first() is Some && list.first()->0.at("id"@) is Text
            && list.first()->0.at("content"@) == JsonTree::Text(ip),
        Err(_) => false,
    }
}

proof fn lemma_current_records_are_only_read(
    job: SyncJob,
    zone_id: Seq<char>,
    index: int,
    outcomes: Seq<ApiOutcomeView>,
)
    requires
        0 <= index <= job.names().len(),
        forall|i: int| 0 <= i < outcomes.len() ==> lists_current(#[trigger] outcomes[i], job.ip@),
    ensures
        forall|i: int|
            #![trigger sync_requests(job, record_step(job, zone_id, index), outcomes)[i]]
            0 <= i < sync_requests(job, record_step(job, zone_id, index), outcomes).len()
                ==> sync_requests(job, record_step(job, zone_id, index), outcomes)[i].method
                == ApiMethod::Get,
    decreases outcomes.len(),
{
    if index < job.names().len() && outcomes.len() > 0 {
        let rest = outcomes.drop_first();
        assert forall|i: int| 0 <= i < rest.len() implies lists_current(
            #[trigger] rest[i],
            job.ip@,
        ) by {
            assert(rest[i] == outcomes[i + 1]);
        }
        assert(lists_current(outcomes[0], job.ip@));
        lemma_current_records_are_only_read(job, zone_id, index + 1, rest);
        let here = sync_requests(job, record_step(job, zone_id, index), outcomes);
        let later = sync_requests(job, record_step(job, zone_id, index + 1), rest);
        match record_step(job, zone_id, index) {
            SyncStepView::Send(request, state) => {
                assert(next_step(job, state, outcomes[0]) == record_step(job, zone_id, index + 1));
                assert(here == seq![request] + later);
                assert forall|i: int| 0 <= i < here.len() implies (#[trigger] here[i]).method
                    == ApiMethod::Get by {
                    if i > 0 {
                        assert(here[i] == later[i - 1]);
                    }
                }
            },
            _ => {},
        }
    }
}

/// Where the records hold the current address already, a sync writes nothing, whether it has to look
/// the zone up first or not.
pub proof fn law_current_records_are_not_written(
    job: SyncJob,
    outcomes: Seq<ApiOutcomeView>,
    i: int,
)
    requires
        forall|k: int|
            (if job.config.zone_id is Some {
                0int
            } else {
                1int
            }) <= k < outcomes.len() ==> lists_current(#[trigger] outcomes[k], job.ip@),
        0 <= i < sync_requests(job, first_step(job), outcomes).len(),
    ensures
        sync_requests(job, first_step(job), outcomes)[i].method == ApiMethod::Get,
{
    match job.config.zone_id {
        Some(id) => {
            lemma_current_records_are_only_read(job, id@, 0, outcomes);
        },
        None => {
            if i > 0 {
                let rest = outcomes.drop_first();
                assert forall|k: int| 0 <= k < rest.len() implies lists_current(
                    #[trigger] rest[k],
                    job.ip@,
                ) by {
                    assert(rest[k] == outcomes[k + 1]);
                }
                let next = next_step(job, SyncStateView::FindingZone, outcomes[0]);
                assert(sync_requests(job, first_step(job), outcomes)[i] == sync_requests(
                    job,
                    next,
                    rest,
                )[i - 1]);
                match result_of(outcomes[0]) {
                    Ok(list) => {
                        if first_zone_id(list) is Some {
                            lemma_current_records_are_only_read(
                                job,
                                first_zone_id(list)->0,
                                0,
                                rest,
                            );
                        }
                    },
                    Err(_) => {},
                }
            }
        },
    }
}

proof fn lemma_current_records_complete(
    job: SyncJob,
    zone_id: Seq<char>,
    index: int,
    outcomes: Seq<ApiOutcomeView>,
)
    requires
        0 <= index <= job.names().len(),
        outcomes.len() == job.names().len() - index,
        forall|i: int| 0 <= i < outcomes.len() ==> lists_current(#[trigger] outcomes[i], job.ip@),
        forall|i: int|
            index <= i < job.names().len() ==> api_request(
                ApiMethod::Get,
                records_url(job.api_base@, zone_id, #[trigger] job.names()[i]),
                job.token@,
                None,
            ) is Some,
    ensures
        sync_run(job, record_step(job, zone_id, index), outcomes) is Done,
    decreases outcomes.len(),
{
    if index < job.names().len() {
        let rest = outcomes.drop_first();
        assert forall|i: int| 0 <= i < rest.len() implies lists_current(
            #[trigger] rest[i],
            job.ip@,
        ) by {
            assert(rest[i] == outcomes[i + 1]);
        }
        assert(lists_current(outcomes[0], job.ip@));
        let name = job.names()[index];
        assert(record_step(job, zone_id, index) is Send);
        lemma_current_records_complete(job, zone_id, index + 1, rest);
    }
}

/// Whether every listing in a zone can be asked for.
pub open spec fn listings_can_be_asked(job: SyncJob, zone_id: Seq<char>) -> bool {
    forall|i: int|
        0 <= i < job.names().len() ==> api_request(
            ApiMethod::Get,
            records_url(job.api_base@, zone_id, #[trigger] job.names()[i]),
            job.token@,
            None,
        ) is Some
}

/// Where every record holds the current address already and the calls can be made, a sync is done
/// after one listing for each record; where the zone's id is not configured, after one call more,
/// which finds it.
pub proof fn law_current_records_complete_a_sync(
    job: SyncJob,
    zones: ApiOutcomeView,
    zone_id: Seq<char>,
    listings: Seq<ApiOutcomeView>,
)
    requires
        match job.config.zone_id {
            Some(id) => id@ == zone_id,
            None => first_step(job) is Send && result_of(zones) is Ok && first_zone_id(
                result_of(zones)->Ok_0,
            ) == Some(zone_id),
        },
        listings.len() == job.names().len(),
        forall|i: int| 0 <= i < listings.len() ==> lists_current(#[trigger] listings[i], job.ip@),
        listings_can_be_asked(job, zone_id),
    ensures
        sync_run(
            job,
            first_step(job),
            if job.config.zone_id is Some {
                listings
            } else {
                seq![zones] + listings
            },
        ) is Done,
{
    lemma_current_records_complete(job, zone_id, 0, listings);
    if job.config.zone_id is None {
        let outcomes = seq![zones] + listings;
        assert(outcomes.drop_first() =~= listings);
        assert(next_step(job, first_step(job)->Send_1, outcomes[0]) == record_step(job, zone_id, 0));
    }
}

/// How many calls a sync makes at most from a step on: one for the zone, and for each record that is
/// not passed yet a listing and an update.
pub open spec fn calls_left(job: SyncJob, step: SyncStepView) -> int {
    match step {
        SyncStepView::Send(_, SyncStateView::FindingZone) => 1 + 2 * (job.names().len()
            as int),
        SyncStepView::Send(_, SyncStateView::Listing { index, .. }) => 2 * (job.names().len()
            - index),
        SyncStepView::Send(_, SyncStateView::Updating { index, .. }) => 2 * (job.names().len()
            - index) - 1,
        _ => 0,
    }
}

proof fn lemma_sync_ends(job: SyncJob, step: SyncStepView, outcomes: Seq<ApiOutcomeView>)
    requires
        proper_step(job, step),
        outcomes.len() >= calls_left(job, step),
    ensures
        !(sync_run(job, step, outcomes) is Send),
    decreases outcomes.len(),
{
    match step {
        SyncStepView::Send(_, state) => {
            lemma_next_step_is_proper(job, step, outcomes[0]);
            lemma_sync_ends(job, next_step(job, state, outcomes[0]), outcomes.drop_first());
        },
        _ => {},
    }
}

/// A sync ends, whatever its calls come to: after one call for the zone and two for each record at
/// most it is done or has failed.
pub proof fn law_a_sync_ends(job: SyncJob, outcomes: Seq<ApiOutcomeView>)
    requires
        outcomes.len() >= 1 + 2 * job.names().len(),
    ensures
        !(sync_run(job, first_step(job), outcomes) is Send),
{
    lemma_sync_ends(job, first_step(job), outcomes);
}

/// Whether a call lists the records of a configured name in a zone, or writes a record there.
pub open spec fn stays_in_zone(job: SyncJob, zone_id: Seq<char>, request: ApiRequestView) -> bool {
    ||| exists|index: int|
        0 <= index < job.names().len() && request.url == records_url(
            job.api_base@,
            zone_id,
            #[trigger] job.names()[index],
        )
    ||| exists|record_id: Seq<char>|
        request.url == #[trigger] record_url(job.api_base@, zone_id, record_id)
}

spec fn step_in_zone(job: SyncJob, zone_id: Seq<char>, step: SyncStepView) -> bool {
    match step {
        SyncStepView::Send(request, state) => {
            &&& stays_in_zone(job, zone_id, request)
            &&& match state {
                SyncStateView::FindingZone => false,
                SyncStateView::Listing { zone_id: id, index } => id == zone_id && index >= 0,
                SyncStateView::Updating { zone_id: id, index } => id == zone_id && index >= 0,
            }
        },
        _ => true,
    }
}

proof fn lemma_requests_stay_in_zone(
    job: SyncJob,
    zone_id: Seq<char>,
    step: SyncStepView,
    outcomes: Seq<ApiOutcomeView>,
    i: int,
)
    requires
        step_in_zone(job, zone_id, step),
        0 <= i < sync_requests(job, step, outcomes).len(),
    ensures
        stays_in_zone(job, zone_id, sync_requests(job, step, outcomes)[i]),
    decreases outcomes.len(),
{
    match step {
        SyncStepView::Send(request, state) => {
            if i > 0 {
                let next = next_step(job, state, outcomes[0]);
                assert(step_in_zone(job, zone_id, next));
                lemma_requests_stay_in_zone(job, zone_id, next, outcomes.drop_first(), i - 1);
            }
        },
        _ => {},
    }
}

/// Where the zone's id is configured, a sync calls for the records of that zone and for nothing else:
/// the token needs no right to read zones.
pub proof fn law_configured_zone_is_not_looked_up(
    job: SyncJob,
    outcomes: Seq<ApiOutcomeView>,
    i: int,
)
    requires
        job.config.zone_id is Some,
        0 <= i < sync_requests(job, first_step(job), outcomes).len(),
    ensures
        stays_in_zone(
            job,
            (job.config.zone_id->0)@,
            sync_requests(job, first_step(job), outcomes)[i],
        ),
{
    lemma_requests_stay_in_zone(
        job,
        (job.config.zone_id->0)@,
        first_step(job),
        outcomes,
        i,
    );
}

/// An update changes the address of a record and nothing else that it sends: the record keeps its
/// lifetime and its proxy switch.
pub proof fn law_updates_change_only_the_address(list: JsonTree, name: Seq<char>, ip: Seq<char>)
    ensures
        match planned(list, name, ip) {
            RecordPlanView::Update { id, body } => {
                let record = list.first()->0;
                &&& record.at("id"@) == JsonTree::Text(id)
                &&& body.at("type"@) == JsonTree::Text("AAAA"@)
                &&& body.at("name"@) == JsonTree::Text(name)
                &&& body.at("content"@) == JsonTree::Text(ip)
                &&& record.at("content"@) != JsonTree::Text(ip)
                &&& record.get("ttl"@) is Some ==> body.get("ttl"@) == record.get("ttl"@)
                &&& record.get("proxied"@) is Some ==> body.get("proxied"@) == record.get(
                    "proxied"@,
                )
                &&& body is Object && body->Object_0.dom() =~= set![
                    "type"@,
                    "name"@,
                    "content"@,
                    "ttl"@,
                    "proxied"@,
                ]
            },
            _ => true,
        },
{
    lemma_record_keys();
}

/// What an update writes, the next sync finds current: a listed record with an id and the content
/// that was written is left alone.
pub proof fn law_written_records_are_current(
    list: JsonTree,
    name: Seq<char>,
    ip: Seq<char>,
    later: JsonTree,
)
    requires
        planned(list, name, ip) is Update,
        later.first() is Some,
        later.first()->0.at("id"@) is Text,
        later.first()->0.at("content"@) == planned(list, name, ip)->body.at("content"@),
    ensures
        planned(later, name, ip) is Current,
{
    lemma_record_keys();
}

/// A record that is not there is an error; it is not created.
pub proof fn law_missing_records_are_reported(
    job: SyncJob,
    zone_id: Seq<char>,
    index: int,
    outcome: ApiOutcomeView,
)
    requires
        0 <= index < job.names().len(),
        result_of(outcome) == Ok::<JsonTree, DdnsErrorView>(JsonTree::Array(Seq::empty())),
    ensures
        next_step(job, SyncStateView::Listing { zone_id, index }, outcome) == SyncStepView::Failed(
            DdnsErrorView::NoRecord(job.names()[index]),
        ),
{
}

/// A call that fails ends the sync with its error.
pub proof fn law_failures_end_a_sync(
    job: SyncJob,
    step: SyncStepView,
    outcomes: Seq<ApiOutcomeView>,
)
    requires
        step is Send,
        outcomes.len() > 0,
        result_of(outcomes[0]) is Err,
    ensures
        sync_run(job, step, outcomes) == SyncStepView::Failed(result_of(outcomes[0])->Err_0),
{
    assert(sync_run(
        job,
        next_step(job, step->Send_1, outcomes[0]),
        outcomes.drop_first(),
    ) == SyncStepView::Failed(result_of(outcomes[0])->Err_0));
}

}
