//! What a sync is for, stated over the JSON that the API answers with and the calls that are made.

use vstd::prelude::*;
use vstd::string::*;

use hyper::StatusCode;
use serde_json::Value;

use crate::cloudflare::{
    ApiMethod, ApiOutcome, ApiOutcomeView, ApiRequest, DdnsError, DdnsErrorView, RecordPlan,
    RecordPlanView, SyncJob, SyncState, SyncStateView, SyncStep, SyncStepView,
};
use crate::json::JsonTree;

verus! {

/// A member of an object is the one under its key; nothing else has members, and an absent one reads as
/// null. The first element is that of an array with elements. Only a text has characters.
pub proof fn law_parts_of_json(
    members: Map<Seq<char>, JsonTree>,
    key: Seq<char>,
    items: Seq<JsonTree>,
    text: Seq<char>,
    other: JsonTree,
)
    ensures
        members.contains_key(key) ==> JsonTree::Object(members).get(key) == Some(members[key])
            && JsonTree::Object(members).at(key) == members[key],
        !members.contains_key(key) ==> JsonTree::Object(members).get(key) is None
            && JsonTree::Object(members).at(key) == JsonTree::Null,
        !(other is Object) ==> other.get(key) is None && other.at(key) == JsonTree::Null,
        items.len() > 0 ==> JsonTree::Array(items).first() == Some(items[0]),
        items.len() == 0 ==> JsonTree::Array(items).first() is None,
        !(other is Array) ==> other.first() is None,
        JsonTree::Text(text).text() == Some(text),
        !(other is Text) ==> other.text() is None,
{
}

/// An object made from members with different keys has each of them, and no other.
pub proof fn law_objects_have_their_members(
    members: Seq<(String, Value)>,
    i: int,
    key: Seq<char>,
)
    requires
        forall|j: int, k: int|
            0 <= j < k < members.len() ==> (#[trigger] members[j]).0@ != (#[trigger] members[k]).0@,
    ensures
        0 <= i < members.len() ==> has_member(
            crate::json::object_of(members),
            members[i].0@,
            crate::json::json_tree(members[i].1),
        ),
        (forall|j: int| 0 <= j < members.len() ==> (#[trigger] members[j]).0@ != key)
            ==> !crate::json::object_of(members).contains_key(key),
    decreases members.len(),
{
    if members.len() > 0 {
        let front = members.drop_last();
        assert forall|j: int, k: int| 0 <= j < k < front.len() implies (#[trigger] front[j]).0@ != (
        #[trigger] front[k]).0@ by {
            assert(members[j].0@ != members[k].0@);
        }
        law_objects_have_their_members(front, i, key);
        if 0 <= i < members.len() - 1 {
            assert(front[i] == members[i]);
            assert(members[i].0@ != members[members.len() - 1].0@);
        }
        if forall|j: int| 0 <= j < members.len() ==> (#[trigger] members[j]).0@ != key {
            assert forall|j: int| 0 <= j < front.len() implies (#[trigger] front[j]).0@ != key by {
                assert(members[j].0@ != key);
            }
            assert(members[members.len() - 1].0@ != key);
        }
    }
}

/// A list of values is seen value by value.
pub proof fn law_lists_of_values(values: Seq<Value>)
    ensures
        crate::json::json_trees(values).len() == values.len(),
        forall|i: int|
            0 <= i < values.len() ==> #[trigger] crate::json::json_trees(values)[i]
                == crate::json::json_tree(values[i]),
{
}

/// Whether a JSON object has this member.
pub open spec fn has_member(
    members: Map<Seq<char>, JsonTree>,
    key: Seq<char>,
    value: JsonTree,
) -> bool {
    members.contains_key(key) && members[key] == value
}

/// Whether a body writes an address into a record: five members and no more, with the record's own
/// lifetime and proxy switch, or 1 and off where it has none.
pub open spec fn body_writes(
    body: JsonTree,
    record: Map<Seq<char>, JsonTree>,
    name: Seq<char>,
    ip: Seq<char>,
) -> bool {
    &&& body matches JsonTree::Object(members)
    &&& has_member(members, "type"@, JsonTree::Text("AAAA"@))
    &&& has_member(members, "name"@, JsonTree::Text(name))
    &&& has_member(members, "content"@, JsonTree::Text(ip))
    &&& members.contains_key("ttl"@) && members.contains_key("proxied"@)
    &&& record.contains_key("ttl"@) ==> members["ttl"@] == record["ttl"@]
    &&& !record.contains_key("ttl"@) ==> members["ttl"@] == JsonTree::Number(seq!['1'])
    &&& record.contains_key("proxied"@) ==> members["proxied"@] == record["proxied"@]
    &&& !record.contains_key("proxied"@) ==> members["proxied"@] == JsonTree::Bool(false)
    &&& forall|key: Seq<char>| #[trigger]
        members.contains_key(key) ==> key == "type"@ || key == "name"@ || key == "content"@ || key
            == "ttl"@ || key == "proxied"@
}

proof fn lemma_keys_differ()
    ensures
        "type"@ != "name"@,
        "type"@ != "content"@,
        "type"@ != "ttl"@,
        "type"@ != "proxied"@,
        "name"@ != "content"@,
        "name"@ != "ttl"@,
        "name"@ != "proxied"@,
        "content"@ != "ttl"@,
        "content"@ != "proxied"@,
        "ttl"@ != "proxied"@,
        "authorization"@ != "content-type"@,
{
    reveal_strlit("type");
    reveal_strlit("name");
    reveal_strlit("content");
    reveal_strlit("ttl");
    reveal_strlit("proxied");
    reveal_strlit("authorization");
    reveal_strlit("content-type");
    assert("type"@.len() == 4 && "name"@.len() == 4 && "ttl"@.len() == 3);
    assert("content"@.len() == 7 && "proxied"@.len() == 7);
    assert("type"@[0] == 't' && "name"@[0] == 'n');
    assert("content"@[0] == 'c' && "proxied"@[0] == 'p');
    assert("authorization"@.len() == 13 && "content-type"@.len() == 12);
}

proof fn lemma_one()
    ensures
        crate::text::decimal(1) == seq!['1'],
{
    assert(crate::text::decimal(1) =~= seq!['1']);
}

/// A record is left alone exactly if its content is the current address, to the character. With any
/// other content, or none, it is updated under its own id to that address, and keeps its settings.
pub proof fn law_only_the_current_address_is_left_alone(
    items: Seq<JsonTree>,
    record: Map<Seq<char>, JsonTree>,
    id: Seq<char>,
    name: Seq<char>,
    ip: Seq<char>,
)
    requires
        items.len() > 0,
        items[0] == JsonTree::Object(record),
        has_member(record, "id"@, JsonTree::Text(id)),
    ensures
        crate::cloudflare::planned(JsonTree::Array(items), name, ip) is Current <==> has_member(
            record,
            "content"@,
            JsonTree::Text(ip),
        ),
        !has_member(record, "content"@, JsonTree::Text(ip)) ==> (
        crate::cloudflare::planned(JsonTree::Array(items), name, ip) matches RecordPlanView::Update {
            id: under,
            body,
        } && under == id && body_writes(body, record, name, ip)),
{
    law_updates_write_the_address(record, JsonTree::Null, name, ip);
    law_parts_of_json(record, "content"@, items, ip, JsonTree::Null);
}

/// Two addresses that differ in any character: a record that holds the one is updated when the other is
/// current.
pub proof fn law_any_change_of_address_is_written(
    items: Seq<JsonTree>,
    record: Map<Seq<char>, JsonTree>,
    id: Seq<char>,
    name: Seq<char>,
    held: Seq<char>,
    current: Seq<char>,
)
    requires
        items.len() > 0,
        items[0] == JsonTree::Object(record),
        has_member(record, "id"@, JsonTree::Text(id)),
        has_member(record, "content"@, JsonTree::Text(held)),
        held != current,
    ensures
        crate::cloudflare::planned(JsonTree::Array(items), name, current) is Update,
        crate::cloudflare::planned(JsonTree::Array(items), name, held) is Current,
{
    law_only_the_current_address_is_left_alone(items, record, id, name, current);
    law_only_the_current_address_is_left_alone(items, record, id, name, held);
}

/// Without a record there is nothing to update, and without an id there is no place to.
pub proof fn law_records_without_a_place(
    list: JsonTree,
    items: Seq<JsonTree>,
    record: Map<Seq<char>, JsonTree>,
    name: Seq<char>,
    ip: Seq<char>,
)
    ensures
        !(list is Array) ==> crate::cloudflare::planned(list, name, ip) is NoRecord,
        items.len() == 0 ==> crate::cloudflare::planned(JsonTree::Array(items), name, ip) is NoRecord,
        items.len() > 0 && !(items[0] is Object) ==> crate::cloudflare::planned(
            JsonTree::Array(items),
            name,
            ip,
        ) is NoId,
        items.len() > 0 && items[0] == JsonTree::Object(record) && !(record.contains_key("id"@)
            && record["id"@] is Text) ==> crate::cloudflare::planned(JsonTree::Array(items), name, ip)
            is NoId,
{
}

/// An update writes the address and the name it is for, and keeps the record's settings; what is no
/// object has none to keep.
pub proof fn law_updates_write_the_address(
    record: Map<Seq<char>, JsonTree>,
    other: JsonTree,
    name: Seq<char>,
    ip: Seq<char>,
)
    ensures
        body_writes(
            crate::cloudflare::updated_record(JsonTree::Object(record), name, ip),
            record,
            name,
            ip,
        ),
        !(other is Object) ==> body_writes(
            crate::cloudflare::updated_record(other, name, ip),
            Map::empty(),
            name,
            ip,
        ),
{
    lemma_keys_differ();
    lemma_one();
}

/// The zone is the first one listed, by its id where that is a text.
pub proof fn law_first_zone_counts(
    list: JsonTree,
    items: Seq<JsonTree>,
    zone: Map<Seq<char>, JsonTree>,
    id: Seq<char>,
)
    ensures
        items.len() > 0 && items[0] == JsonTree::Object(zone) && has_member(
            zone,
            "id"@,
            JsonTree::Text(id),
        ) ==> crate::cloudflare::first_zone_id(JsonTree::Array(items)) == Some(id),
        items.len() > 0 && items[0] == JsonTree::Object(zone) && !(zone.contains_key("id"@)
            && zone["id"@] is Text) ==> crate::cloudflare::first_zone_id(JsonTree::Array(items)) is None,
        items.len() > 0 && !(items[0] is Object) ==> crate::cloudflare::first_zone_id(
            JsonTree::Array(items),
        ) is None,
        items.len() == 0 ==> crate::cloudflare::first_zone_id(JsonTree::Array(items)) is None,
        !(list is Array) ==> crate::cloudflare::first_zone_id(list) is None,
{
}

/// The member of an answer under a key, or null.
pub open spec fn member_or_null(answer: JsonTree, key: Seq<char>) -> JsonTree {
    match answer {
        JsonTree::Object(members) => if members.contains_key(key) {
            members[key]
        } else {
            JsonTree::Null
        },
        _ => JsonTree::Null,
    }
}

/// An answer counts exactly if its status is from 200 to 299 and its `success` is true. Its result is
/// then its `result`; otherwise its errors are told as they are written. An answer that did not come, or
/// is no JSON, is told with the reason.
pub proof fn law_answers_count_only_if_successful(
    status: u16,
    answer: JsonTree,
    cause: Seq<char>,
)
    ensures
        200 <= status <= 299 && member_or_null(answer, "success"@) == JsonTree::Bool(true)
            ==> crate::cloudflare::result_in(status, answer) == Ok::<JsonTree, DdnsErrorView>(
            member_or_null(answer, "result"@),
        ),
        !(200 <= status <= 299 && member_or_null(answer, "success"@) == JsonTree::Bool(true))
            ==> crate::cloudflare::result_in(status, answer) == Err::<JsonTree, DdnsErrorView>(
            DdnsErrorView::Rejected(
                status,
                crate::json::json_text(member_or_null(answer, "errors"@)),
            ),
        ),
        crate::cloudflare::result_of(ApiOutcomeView::Unreachable(cause)) == Err::<
            JsonTree,
            DdnsErrorView,
        >(DdnsErrorView::Unreachable(cause)),
        crate::cloudflare::result_of(ApiOutcomeView::BodyLost(cause)) == Err::<
            JsonTree,
            DdnsErrorView,
        >(DdnsErrorView::BodyLost(cause)),
        crate::cloudflare::result_of(ApiOutcomeView::Reply { status, json: Err(cause) }) == Err::<
            JsonTree,
            DdnsErrorView,
        >(DdnsErrorView::NotJson(status, cause)),
        crate::cloudflare::result_of(ApiOutcomeView::Reply { status, json: Ok(answer) })
            == crate::cloudflare::result_in(status, answer),
{
}

/// A name goes into a query character by character: the wildcard as `%2A`, any other as it is.
pub proof fn law_names_in_queries(a: Seq<char>, x: char, b: Seq<char>)
    ensures
        crate::cloudflare::query_value(Seq::empty()) == Seq::<char>::empty(),
        crate::cloudflare::query_value(a + seq![x] + b) == crate::cloudflare::query_value(a) + (if x
            == '*' {
            seq!['%', '2', 'A']
        } else {
            seq![x]
        }) + crate::cloudflare::query_value(b),
{
    reveal_strlit("%2A");
    assert("%2A"@ =~= seq!['%', '2', 'A']);
    crate::text_laws::law_replacing_goes_by_character(a, x, b, '*', "%2A"@);
}

/// Where zones and records are.
pub proof fn law_places_of_the_api(base: Seq<char>, zone: Seq<char>, name: Seq<char>, id: Seq<char>)
    ensures
        crate::cloudflare::zones_url(base, zone) == base + "/zones?name="@
            + crate::cloudflare::query_value(zone),
        crate::cloudflare::records_url(base, zone, name) == base + "/zones/"@ + zone
            + "/dns_records?type=AAAA&name="@ + crate::cloudflare::query_value(name),
        crate::cloudflare::record_url(base, zone, id) == base + "/zones/"@ + zone + "/dns_records/"@
            + id,
{
}

/// Whether a call can be made: its address is a URI and its token can stand in a header.
pub open spec fn can_be_made(url: Seq<char>, token: Seq<char>) -> bool {
    crate::http_proxy::uri_authority(url) is Some && crate::headers::header_value_text(
        "Bearer "@ + token,
    )
}

/// Whether a call has this method, address and body, and exactly the headers that go with them: the
/// token, and the type of the body where there is one.
pub open spec fn is_call(
    request: crate::cloudflare::ApiRequestView,
    method: ApiMethod,
    url: Seq<char>,
    token: Seq<char>,
    body: Option<Seq<char>>,
) -> bool {
    &&& request.method == method
    &&& request.url == url
    &&& request.body == body
    &&& request.headers.contains_key("authorization"@) && request.headers["authorization"@] == seq![
        vstd::utf8::encode_utf8("Bearer "@ + token),
    ]
    &&& request.headers.contains_key("content-type"@) <==> body is Some
    &&& body is Some ==> request.headers["content-type"@] == seq![
        vstd::utf8::encode_utf8("application/json"@),
    ]
    &&& forall|name: Seq<char>| #[trigger]
        request.headers.contains_key(name) ==> name == "authorization"@ || name == "content-type"@
}

/// A call is made as asked for, with the token, exactly if it can be made.
pub proof fn law_calls_are_made_as_asked(
    method: ApiMethod,
    url: Seq<char>,
    token: Seq<char>,
    body: Option<Seq<char>>,
)
    ensures
        match crate::cloudflare::api_request(method, url, token, body) {
            Some(request) => can_be_made(url, token) && is_call(request, method, url, token, body),
            None => !can_be_made(url, token),
        },
{
    lemma_keys_differ();
}

/// Whether a step makes this call, or gives up where it cannot be made.
pub open spec fn makes_call(
    step: SyncStepView,
    job: SyncJob,
    method: ApiMethod,
    url: Seq<char>,
    body: Option<Seq<char>>,
    state: SyncStateView,
) -> bool {
    if can_be_made(url, job.token@) {
        step matches SyncStepView::Send(request, waiting) && is_call(
            request,
            method,
            url,
            job.token@,
            body,
        ) && waiting == state
    } else {
        step == SyncStepView::Failed(DdnsErrorView::NotBuilt)
    }
}

/// Turning to a record lists the records of its name in the zone; past the last record the sync is done.
pub proof fn law_records_are_listed_by_name(job: SyncJob, zone_id: Seq<char>, index: int)
    requires
        0 <= index,
    ensures
        index < job.config.records@.len() ==> makes_call(
            crate::cloudflare::record_step(job, zone_id, index),
            job,
            ApiMethod::Get,
            job.api_base@ + "/zones/"@ + zone_id + "/dns_records?type=AAAA&name="@
                + crate::cloudflare::query_value(job.config.records@[index]@),
            None,
            SyncStateView::Listing { zone_id, index },
        ),
        index >= job.config.records@.len() ==> crate::cloudflare::record_step(job, zone_id, index)
            == SyncStepView::Done,
{
    crate::text_laws::law_texts_of_a_list(job.config.records@);
    if index < job.config.records@.len() {
        law_calls_are_made_as_asked(
            ApiMethod::Get,
            job.api_base@ + "/zones/"@ + zone_id + "/dns_records?type=AAAA&name="@
                + crate::cloudflare::query_value(job.config.records@[index]@),
            job.token@,
            None,
        );
    }
}

/// A sync begins with the first record of the configured zone, or by asking for the zones of the
/// configured name.
pub proof fn law_syncs_begin_with_the_zone(job: SyncJob, id: String)
    ensures
        job.config.zone_id == Some(id) ==> crate::cloudflare::first_step(job)
            == crate::cloudflare::record_step(job, id@, 0),
        job.config.zone_id is None ==> makes_call(
            crate::cloudflare::first_step(job),
            job,
            ApiMethod::Get,
            job.api_base@ + "/zones?name="@ + crate::cloudflare::query_value(job.config.zone@),
            None,
            SyncStateView::FindingZone,
        ),
{
    law_calls_are_made_as_asked(
        ApiMethod::Get,
        job.api_base@ + "/zones?name="@ + crate::cloudflare::query_value(job.config.zone@),
        job.token@,
        None,
    );
}

/// After the zones, a sync turns to the first record in the first zone, or reports that there is none.
pub proof fn law_zones_lead_to_records(job: SyncJob, list: JsonTree)
    ensures
        crate::cloudflare::first_zone_id(list) is Some ==> crate::cloudflare::zone_step(job, list)
            == crate::cloudflare::record_step(job, crate::cloudflare::first_zone_id(list)->0, 0),
        crate::cloudflare::first_zone_id(list) is None ==> crate::cloudflare::zone_step(job, list)
            == SyncStepView::Failed(DdnsErrorView::NoZone(job.config.zone@)),
{
}

/// After its listing, a record with the current address is passed over. With any other content, the
/// address is put under its id, in a body that keeps its settings. A listing without a record or an id
/// ends the sync, told by the record's name.
pub proof fn law_listings_lead_to_updates(
    job: SyncJob,
    zone_id: Seq<char>,
    index: int,
    items: Seq<JsonTree>,
    record: Map<Seq<char>, JsonTree>,
    id: Seq<char>,
)
    requires
        0 <= index < job.config.records@.len(),
        items.len() > 0,
        items[0] == JsonTree::Object(record),
        has_member(record, "id"@, JsonTree::Text(id)),
    ensures
        has_member(record, "content"@, JsonTree::Text(job.ip@)) ==> crate::cloudflare::list_step(
            job,
            zone_id,
            index,
            JsonTree::Array(items),
        ) == crate::cloudflare::record_step(job, zone_id, index + 1),
        !has_member(record, "content"@, JsonTree::Text(job.ip@)) ==> exists|body: JsonTree|
            #[trigger] body_writes(body, record, job.config.records@[index]@, job.ip@) && makes_call(
                crate::cloudflare::list_step(job, zone_id, index, JsonTree::Array(items)),
                job,
                ApiMethod::Put,
                job.api_base@ + "/zones/"@ + zone_id + "/dns_records/"@ + id,
                Some(crate::json::json_text(body)),
                SyncStateView::Updating { zone_id, index },
            ),
{
    let name = job.config.records@[index]@;
    crate::text_laws::law_texts_of_a_list(job.config.records@);
    law_only_the_current_address_is_left_alone(items, record, id, name, job.ip@);
    if !has_member(record, "content"@, JsonTree::Text(job.ip@)) {
        let plan = crate::cloudflare::planned(JsonTree::Array(items), name, job.ip@);
        let body = plan->body;
        law_calls_are_made_as_asked(
            ApiMethod::Put,
            job.api_base@ + "/zones/"@ + zone_id + "/dns_records/"@ + id,
            job.token@,
            Some(crate::json::json_text(body)),
        );
        assert(body_writes(body, record, name, job.ip@));
    }
}

/// A listing without a record, or with one that has no id, ends the sync with the record's name.
pub proof fn law_useless_listings_end_a_sync(
    job: SyncJob,
    zone_id: Seq<char>,
    index: int,
    list: JsonTree,
)
    requires
        0 <= index < job.config.records@.len(),
    ensures
        (!(list is Array) || list->Array_0.len() == 0) ==> crate::cloudflare::list_step(
            job,
            zone_id,
            index,
            list,
        ) == SyncStepView::Failed(DdnsErrorView::NoRecord(job.config.records@[index]@)),
        list is Array && list->Array_0.len() > 0 && !(member_or_null(list->Array_0[0], "id"@) is Text)
            ==> crate::cloudflare::list_step(job, zone_id, index, list) == SyncStepView::Failed(
            DdnsErrorView::NoRecordId(job.config.records@[index]@),
        ),
{
    crate::text_laws::law_texts_of_a_list(job.config.records@);
}

/// A call that gives no result ends the sync with its error. A result leads on from what the sync waited
/// for: from the zones to the records, from a listing to its update or the next record, from an update
/// to the next record.
pub proof fn law_results_lead_on(
    job: SyncJob,
    zone_id: Seq<char>,
    index: int,
    outcome: ApiOutcomeView,
    state: SyncStateView,
)
    ensures
        match crate::cloudflare::result_of(outcome) {
            Err(error) => crate::cloudflare::next_step(job, state, outcome) == SyncStepView::Failed(
                error,
            ),
            Ok(result) => {
                &&& crate::cloudflare::next_step(job, SyncStateView::FindingZone, outcome)
                    == crate::cloudflare::zone_step(job, result)
                &&& crate::cloudflare::next_step(
                    job,
                    SyncStateView::Listing { zone_id, index },
                    outcome,
                ) == crate::cloudflare::list_step(job, zone_id, index, result)
                &&& crate::cloudflare::next_step(
                    job,
                    SyncStateView::Updating { zone_id, index },
                    outcome,
                ) == crate::cloudflare::record_step(job, zone_id, index + 1)
            },
        },
{
}

/// Whether an outcome is an answer that counts and lists a record, first, with an id and this address.
pub open spec fn shows_address(outcome: ApiOutcomeView, ip: Seq<char>) -> bool {
    &&& outcome matches ApiOutcomeView::Reply { status, json: Ok(answer) }
    &&& 200 <= status <= 299
    &&& member_or_null(answer, "success"@) == JsonTree::Bool(true)
    &&& member_or_null(answer, "result"@) matches JsonTree::Array(items)
    &&& items.len() > 0
    &&& member_or_null(items[0], "id"@) is Text
    &&& member_or_null(items[0], "content"@) == JsonTree::Text(ip)
}

/// Whether an outcome is an answer that counts.
pub open spec fn is_accepted(outcome: ApiOutcomeView) -> bool {
    &&& outcome matches ApiOutcomeView::Reply { status, json: Ok(answer) }
    &&& 200 <= status <= 299
    &&& member_or_null(answer, "success"@) == JsonTree::Bool(true)
}

/// Whether a call and what came of it leave a record at the address: it was listed with that address, or
/// the address was put into it and that was accepted.
pub open spec fn leaves_at_address(
    job: SyncJob,
    index: int,
    step: SyncStepView,
    outcome: ApiOutcomeView,
) -> bool {
    match step {
        SyncStepView::Send(request, SyncStateView::Listing { index: listed, .. }) => listed == index
            && shows_address(outcome, job.ip@),
        SyncStepView::Send(request, SyncStateView::Updating { index: updated, .. }) => updated == index
            && request.method == ApiMethod::Put && is_accepted(outcome) && exists|
            body: JsonTree,
            record: Map<Seq<char>, JsonTree>,
        |
            #[trigger] body_writes(body, record, job.config.records@[index]@, job.ip@)
                && request.body == Some(crate::json::json_text(body)),
        _ => false,
    }
}

/// Whether a run of steps and outcomes leaves a record at the address.
pub open spec fn run_leaves_at_address(
    job: SyncJob,
    index: int,
    step: SyncStepView,
    outcomes: Seq<ApiOutcomeView>,
) -> bool
    decreases outcomes.len(),
{
    match step {
        SyncStepView::Send(_, state) => outcomes.len() > 0 && (leaves_at_address(
            job,
            index,
            step,
            outcomes[0],
        ) || run_leaves_at_address(
            job,
            index,
            crate::cloudflare::next_step(job, state, outcomes[0]),
            outcomes.drop_first(),
        )),
        _ => false,
    }
}

spec fn sound(job: SyncJob, step: SyncStepView) -> bool {
    match step {
        SyncStepView::Send(request, state) => match state {
            SyncStateView::FindingZone => true,
            SyncStateView::Listing { index, .. } => 0 <= index < job.config.records@.len(),
            SyncStateView::Updating { index, .. } => 0 <= index < job.config.records@.len()
                && request.method == ApiMethod::Put && exists|
                body: JsonTree,
                record: Map<Seq<char>, JsonTree>,
            |
                #[trigger] body_writes(body, record, job.config.records@[index]@, job.ip@)
                    && request.body == Some(crate::json::json_text(body)),
        },
        _ => true,
    }
}

spec fn reached(job: SyncJob, step: SyncStepView) -> int {
    match step {
        SyncStepView::Send(_, SyncStateView::FindingZone) => 0,
        SyncStepView::Send(_, SyncStateView::Listing { index, .. }) => index,
        SyncStepView::Send(_, SyncStateView::Updating { index, .. }) => index,
        _ => job.config.records@.len() as int,
    }
}

proof fn lemma_result(outcome: ApiOutcomeView, ip: Seq<char>)
    ensures
        crate::cloudflare::result_of(outcome) is Ok <==> is_accepted(outcome),
        is_accepted(outcome) ==> crate::cloudflare::result_of(outcome) == Ok::<
            JsonTree,
            DdnsErrorView,
        >(member_or_null(outcome->json->Ok_0, "result"@)),
{
}

proof fn lemma_sound_next(job: SyncJob, step: SyncStepView, outcome: ApiOutcomeView, index: int)
    requires
        sound(job, step),
        step is Send,
        reached(job, step) <= index < job.config.records@.len(),
    ensures
        ({
            let next = crate::cloudflare::next_step(job, step->Send_1, outcome);
            &&& sound(job, next)
            &&& next is Failed || leaves_at_address(job, index, step, outcome) || reached(job, next)
                <= index && !(next is Done)
        }),
{
    let state = step->Send_1;
    let next = crate::cloudflare::next_step(job, state, outcome);
    lemma_result(outcome, job.ip@);
    crate::text_laws::law_texts_of_a_list(job.config.records@);
    if crate::cloudflare::result_of(outcome) is Ok {
        let result = crate::cloudflare::result_of(outcome)->Ok_0;
        match state {
            SyncStateView::FindingZone => {
                if crate::cloudflare::first_zone_id(result) is Some {
                    law_records_are_listed_by_name(
                        job,
                        crate::cloudflare::first_zone_id(result)->0,
                        0,
                    );
                }
            },
            SyncStateView::Listing { zone_id, index: at } => {
                law_records_are_listed_by_name(job, zone_id, at + 1);
                law_useless_listings_end_a_sync(job, zone_id, at, result);
                if !(next is Failed) {
                    let items = result->Array_0;
                    let record = items[0]->Object_0;
                    let id = record["id"@]->Text_0;
                    assert(items[0] == JsonTree::Object(record));
                    law_listings_lead_to_updates(job, zone_id, at, items, record, id);
                    if has_member(record, "content"@, JsonTree::Text(job.ip@)) {
                        assert(shows_address(outcome, job.ip@));
                    }
                }
            },
            SyncStateView::Updating { zone_id, index: at } => {
                law_records_are_listed_by_name(job, zone_id, at + 1);
            },
        }
    }
}

proof fn lemma_run_leaves_at_address(
    job: SyncJob,
    step: SyncStepView,
    outcomes: Seq<ApiOutcomeView>,
    index: int,
)
    requires
        sound(job, step),
        crate::cloudflare::sync_run(job, step, outcomes) is Done,
        reached(job, step) <= index < job.config.records@.len(),
    ensures
        run_leaves_at_address(job, index, step, outcomes),
    decreases outcomes.len(),
{
    match step {
        SyncStepView::Send(_, state) => {
            lemma_sound_next(job, step, outcomes[0], index);
            let next = crate::cloudflare::next_step(job, state, outcomes[0]);
            let rest = outcomes.drop_first();
            if !leaves_at_address(job, index, step, outcomes[0]) {
                assert(crate::cloudflare::sync_run(job, next, rest) is Done);
                assert(!(next is Failed));
                lemma_run_leaves_at_address(job, next, rest, index);
            }
        },
        _ => {},
    }
}

/// A sync that is done leaves every configured record at the current address: each was listed with it to
/// the character, or it was put into the record and that was accepted.
pub proof fn law_done_leaves_every_record_at_the_address(
    job: SyncJob,
    outcomes: Seq<ApiOutcomeView>,
    index: int,
)
    requires
        crate::cloudflare::sync_run(job, crate::cloudflare::first_step(job), outcomes) is Done,
        0 <= index < job.config.records@.len(),
    ensures
        run_leaves_at_address(job, index, crate::cloudflare::first_step(job), outcomes),
{
    if job.config.zone_id is Some {
        law_records_are_listed_by_name(job, (job.config.zone_id->0)@, 0);
        law_syncs_begin_with_the_zone(job, job.config.zone_id->0);
    }
    let first = crate::cloudflare::first_step(job);
    assert(crate::cloudflare::sync_run(job, first, outcomes) is Done);
    assert(sound(job, first));
    assert(first is Send);
    lemma_run_leaves_at_address(job, first, outcomes, index);
}

/// What the user is told of a sync that failed.
pub proof fn law_sync_errors_are_told(status: u16, text: Seq<char>)
    ensures
        DdnsErrorView::NotBuilt.message() == "构造 Cloudflare 请求失败"@,
        DdnsErrorView::Unreachable(text).message() == "请求 Cloudflare API 失败: "@ + text,
        DdnsErrorView::BodyLost(text).message() == "读取 Cloudflare 响应失败: "@ + text,
        DdnsErrorView::NotJson(status, text).message() == "解析 Cloudflare 响应失败（HTTP "@
            + crate::status::status_text(status) + "）: "@ + text,
        DdnsErrorView::Rejected(status, text).message() == "Cloudflare API 拒绝（HTTP "@
            + crate::status::status_text(status) + "）: "@ + text,
        DdnsErrorView::NoZone(text).message() == "按名称 "@ + text
            + " 找不到 zone：检查 Token 是否有 Zone 读取权限，或在配置里直接填 zone_id"@,
        DdnsErrorView::NoRecord(text).message() == "Cloudflare 上没有 "@ + text
            + " 的 AAAA 记录，请先在控制台手工创建"@,
        DdnsErrorView::NoRecordId(text).message() == text + " 记录响应缺少 id"@,
{
}

/// The views of calls, errors and steps hide nothing: each shows the fields as they are.
pub proof fn law_views_of_calls(
    request: ApiRequest,
    status: StatusCode,
    text: String,
    bytes: Vec<u8>,
    value: Value,
    job: SyncJob,
)
    ensures
        request@.method == request.method && request@.url == request.url@ && request@.headers
            == crate::headers::header_values(request.headers),
        request.body is Some ==> request@.body == Some((request.body->0)@),
        request.body is None ==> request@.body is None,
        DdnsError::NotBuilt@ == DdnsErrorView::NotBuilt,
        DdnsError::Unreachable(text)@ == DdnsErrorView::Unreachable(text@),
        DdnsError::BodyLost(text)@ == DdnsErrorView::BodyLost(text@),
        DdnsError::NotJson(status, text)@ == DdnsErrorView::NotJson(
            crate::status::status_number(status),
            text@,
        ),
        DdnsError::Rejected(status, text)@ == DdnsErrorView::Rejected(
            crate::status::status_number(status),
            text@,
        ),
        DdnsError::NoZone(text)@ == DdnsErrorView::NoZone(text@),
        DdnsError::NoRecord(text)@ == DdnsErrorView::NoRecord(text@),
        DdnsError::NoRecordId(text)@ == DdnsErrorView::NoRecordId(text@),
        ApiOutcome::Unreachable(text)@ == ApiOutcomeView::Unreachable(text@),
        ApiOutcome::BodyLost(text)@ == ApiOutcomeView::BodyLost(text@),
        (ApiOutcome::Reply { status, body: bytes })@ == (ApiOutcomeView::Reply {
            status: crate::status::status_number(status),
            json: crate::json::parsed_json(bytes@),
        }),
        RecordPlan::NoRecord@ == RecordPlanView::NoRecord,
        RecordPlan::NoId@ == RecordPlanView::NoId,
        RecordPlan::Current@ == RecordPlanView::Current,
        (RecordPlan::Update { id: text, body: value })@ == (RecordPlanView::Update {
            id: text@,
            body: crate::json::json_tree(value),
        }),
        job.names().len() == job.config.records@.len(),
        forall|i: int|
            0 <= i < job.config.records@.len() ==> #[trigger] job.names()[i]
                == job.config.records@[i]@,
{
}

/// The views of states and steps, likewise.
pub proof fn law_views_of_steps(
    request: ApiRequest,
    state: SyncState,
    error: DdnsError,
    zone: String,
    at: usize,
)
    ensures
        SyncState::FindingZone@ == SyncStateView::FindingZone,
        (SyncState::Listing { zone_id: zone, index: at })@ == (SyncStateView::Listing {
            zone_id: zone@,
            index: at as int,
        }),
        (SyncState::Updating { zone_id: zone, index: at })@ == (SyncStateView::Updating {
            zone_id: zone@,
            index: at as int,
        }),
        SyncStep::Send(request, state)@ == SyncStepView::Send(request@, state@),
        SyncStep::Done@ == SyncStepView::Done,
        SyncStep::Failed(error)@ == SyncStepView::Failed(error@),
{
}

}
