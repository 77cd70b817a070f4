//! What the HTTPS proxy is for, stated over header names and values, characters and addresses.

use vstd::prelude::*;
use vstd::string::*;

use crate::headers::HeaderValues;
use crate::http_proxy::{
    Authority, AuthorityView, Decision, DecisionView, HttpVersion, Outbound, PeerIp, ProxyError,
    ProxyErrorView, RequestHead, RequestHeadView, TextReply, TextReplyView,
};

verus! {

/// A header name is made of visible ASCII characters other than separators, between 1 and 65535 of
/// them, and stands for itself with its capitals made small.
pub proof fn law_header_names(text: Seq<char>, c: char)
    ensures
        crate::headers::name_char(c) <==> 33 <= c as int <= 126 && c != '"' && c != '(' && c != ')'
            && c != ',' && c != '/' && c != ':' && c != ';' && c != '<' && c != '=' && c != '>' && c
            != '?' && c != '@' && c != '[' && c != '\\' && c != ']' && c != '{' && c != '}',
        crate::headers::header_name(text) is Some <==> 1 <= text.len() <= 65535 && forall|i: int|
            0 <= i < text.len() ==> crate::headers::name_char(#[trigger] text[i]),
        crate::headers::header_name(text) is Some ==> crate::headers::header_name(text)->0
            == crate::text::ascii_lowercase(text),
{
}

/// A header's value reads as text exactly if all its bytes are visible ASCII or tabs, and then each
/// character is its byte. Of a header with several values the first is read.
pub proof fn law_header_text(values: HeaderValues, name: Seq<char>, value: Seq<u8>)
    ensures
        crate::headers::value_str(value) is Some <==> forall|i: int|
            0 <= i < value.len() ==> (32 <= #[trigger] value[i] <= 126 || value[i] == 9),
        crate::headers::value_str(value) is Some ==> {
            let text = crate::headers::value_str(value)->0;
            &&& text.len() == value.len()
            &&& forall|i: int| 0 <= i < value.len() ==> #[trigger] text[i] as int == value[i] as int
        },
        values.contains_key(name) ==> crate::headers::header_str(values, name)
            == crate::headers::value_str(values[name][0]),
        !values.contains_key(name) ==> crate::headers::header_str(values, name) is None,
{
    if crate::headers::value_str(value) is Some {
        assert forall|i: int| 0 <= i < value.len() implies (32 <= #[trigger] value[i] <= 126
            || value[i] == 9) by {
            assert(crate::headers::visible_byte(value[i]));
        }
    }
    if forall|i: int| 0 <= i < value.len() ==> (32 <= #[trigger] value[i] <= 126 || value[i] == 9) {
        assert forall|i: int|
            0 <= i < value.len() implies #[trigger] crate::headers::visible_byte(value[i]) by {
            assert(32 <= value[i] <= 126 || value[i] == 9);
        }
    }
}

/// A text can be a header's value exactly if no control character but the tab stands in it.
pub proof fn law_texts_of_header_values(text: Seq<char>)
    ensures
        crate::headers::header_value_text(text) <==> forall|i: int|
            0 <= i < text.len() ==> {
                let n = #[trigger] text[i] as int;
                n == 9 || (n > 31 && n != 127)
            },
{
    if crate::headers::header_value_text(text) {
        assert forall|i: int| 0 <= i < text.len() implies ({
            let n = #[trigger] text[i] as int;
            n == 9 || (n > 31 && n != 127)
        }) by {
            lemma_number_of_a_char(text[i]);
            let c = text[i] as u32;
            assert((c >= 32 && c != 127) || c == 9);
        }
    }
    if forall|i: int|
        0 <= i < text.len() ==> {
            let n = #[trigger] text[i] as int;
            n == 9 || (n > 31 && n != 127)
        } {
        assert forall|i: int| 0 <= i < text.len() implies ({
            let c = #[trigger] text[i] as u32;
            (c >= 32 && c != 127) || c == 9
        }) by {
            lemma_number_of_a_char(text[i]);
            let n = text[i] as int;
            assert(n == 9 || (n > 31 && n != 127));
        }
    }
}

proof fn lemma_number_of_a_char(c: char)
    ensures
        (c as u32) as int == c as int,
{
}

/// Whether what stands from `from` up to `to` is one item of a list with separators.
pub open spec fn item_of(s: Seq<char>, separator: char, from: int, to: int) -> bool {
    &&& 0 <= from <= to <= s.len()
    &&& from == 0 || s[from - 1] == separator
    &&& to == s.len() || s[to] == separator
    &&& forall|i: int| from <= i < to ==> #[trigger] s[i] != separator
}

proof fn lemma_piece_is_item(s: Seq<char>, separator: char, k: int) -> (place: (int, int))
    requires
        0 <= k < crate::text::pieces(s, separator).len(),
    ensures
        item_of(s, separator, place.0, place.1),
        s.subrange(place.0, place.1) == crate::text::pieces(s, separator)[k],
        k == crate::text::pieces(s, separator).len() - 1 <==> place.1 == s.len(),
    decreases s.len(),
{
    let all = crate::text::pieces(s, separator);
    if s.len() == 0 {
        assert(s.subrange(0, 0) =~= Seq::empty());
        (0, 0)
    } else {
        let shorter = s.drop_last();
        let front = crate::text::pieces(shorter, separator);
        crate::text_laws::law_pieces_make_up_the_text(shorter, separator);
        if s.last() == separator {
            if k == all.len() - 1 {
                assert(s.subrange(s.len() as int, s.len() as int) =~= Seq::empty());
                (s.len() as int, s.len() as int)
            } else {
                let place = lemma_piece_is_item(shorter, separator, k);
                assert(s.subrange(place.0, place.1) =~= shorter.subrange(place.0, place.1));
                assert forall|i: int| place.0 <= i < place.1 implies #[trigger] s[i] != separator by {
                    assert(shorter[i] == s[i]);
                }
                place
            }
        } else {
            let place = lemma_piece_is_item(shorter, separator, k);
            if k == all.len() - 1 {
                assert(s.subrange(place.0, s.len() as int) =~= shorter.subrange(
                    place.0,
                    place.1,
                ).push(s.last()));
                assert forall|i: int| place.0 <= i < s.len() implies #[trigger] s[i] != separator by {
                    if i < shorter.len() {
                        assert(shorter[i] == s[i]);
                    }
                }
                (place.0, s.len() as int)
            } else {
                assert(s.subrange(place.0, place.1) =~= shorter.subrange(place.0, place.1));
                assert forall|i: int| place.0 <= i < place.1 implies #[trigger] s[i] != separator by {
                    assert(shorter[i] == s[i]);
                }
                place
            }
        }
    }
}

proof fn lemma_item_is_piece(s: Seq<char>, separator: char, from: int, to: int) -> (k: int)
    requires
        item_of(s, separator, from, to),
    ensures
        0 <= k < crate::text::pieces(s, separator).len(),
        s.subrange(from, to) == crate::text::pieces(s, separator)[k],
        k == crate::text::pieces(s, separator).len() - 1 <==> to == s.len(),
    decreases s.len(),
{
    let all = crate::text::pieces(s, separator);
    if s.len() == 0 {
        assert(s.subrange(0, 0) =~= Seq::empty());
        0
    } else {
        let shorter = s.drop_last();
        let front = crate::text::pieces(shorter, separator);
        crate::text_laws::law_pieces_make_up_the_text(shorter, separator);
        assert(forall|i: int| 0 <= i < shorter.len() ==> shorter[i] == s[i]);
        if s.last() == separator {
            if to == s.len() {
                if from < to {
                    assert(s[s.len() - 1] != separator);
                }
                assert(s.subrange(from, to) =~= Seq::empty());
                all.len() - 1
            } else {
                let k = lemma_item_is_piece(shorter, separator, from, to);
                assert(s.subrange(from, to) =~= shorter.subrange(from, to));
                k
            }
        } else if to == s.len() {
            assert(from < s.len()) by {
                if from == s.len() {
                    assert(s[from - 1] == s.last());
                }
            }
            let k = lemma_item_is_piece(shorter, separator, from, to - 1);
            assert(s.subrange(from, to) =~= shorter.subrange(from, to - 1).push(s.last()));
            k
        } else {
            assert(to < shorter.len()) by {
                if to == shorter.len() {
                    assert(s[to] == s.last());
                }
            }
            let k = lemma_item_is_piece(shorter, separator, from, to);
            assert(s.subrange(from, to) =~= shorter.subrange(from, to));
            k
        }
    }
}

/// Whether a line of the `Connection` header, where it is visible ASCII, has an item from `from` up to
/// `to` that is the given header name in some case, with or without white space around it.
pub open spec fn line_lists(line: Seq<u8>, from: int, to: int, name: Seq<char>) -> bool {
    match crate::headers::value_str(line) {
        Some(text) => item_of(text, ',', from, to) && crate::headers::header_name(
            crate::text::trimmed(text.subrange(from, to)),
        ) == Some(name),
        None => false,
    }
}

/// Whether some line of the `Connection` header lists a header name.
pub open spec fn connection_lists(values: HeaderValues, name: Seq<char>) -> bool {
    values.contains_key("connection"@) && exists|k: int, from: int, to: int|
        0 <= k < values["connection"@].len() && #[trigger] line_lists(
            values["connection"@][k],
            from,
            to,
            name,
        )
}

proof fn lemma_connection_lists(values: HeaderValues, name: Seq<char>)
    ensures
        connection_lists(values, name) <==> crate::http_proxy::listed_by_connection(
            values,
        ).contains(name),
{
    if values.contains_key("connection"@) {
        let lines = values["connection"@];
        if connection_lists(values, name) {
            let (k, from, to) = choose|k: int, from: int, to: int|
                0 <= k < lines.len() && #[trigger] line_lists(lines[k], from, to, name);
            let text = crate::headers::value_str(lines[k])->0;
            let i = lemma_item_is_piece(text, ',', from, to);
            assert(crate::headers::header_name(
                crate::text::trimmed(crate::text::pieces(text, ',')[i]),
            ) == Some(name));
            assert(crate::http_proxy::listed_on(lines[k]).contains(name));
        }
        if crate::http_proxy::listed_by_connection(values).contains(name) {
            let k = choose|k: int|
                0 <= k < lines.len() && #[trigger] crate::http_proxy::listed_on(lines[k]).contains(
                    name,
                );
            let text = crate::headers::value_str(lines[k])->0;
            let tokens = crate::text::pieces(text, ',');
            let i = choose|i: int|
                0 <= i < tokens.len() && #[trigger] crate::headers::header_name(
                    crate::text::trimmed(tokens[i]),
                ) == Some(name);
            let place = lemma_piece_is_item(text, ',', i);
            assert(line_lists(lines[k], place.0, place.1, name));
        }
    }
}

/// Whether a header concerns one connection only: it is one of the eight such headers, or the
/// `Connection` header lists it.
pub open spec fn hop_only(values: HeaderValues, name: Seq<char>) -> bool {
    ||| name == "connection"@
    ||| name == "keep-alive"@
    ||| name == "proxy-authenticate"@
    ||| name == "proxy-authorization"@
    ||| name == "te"@
    ||| name == "trailers"@
    ||| name == "transfer-encoding"@
    ||| name == "upgrade"@
    ||| connection_lists(values, name)
}

/// Whether a header that is there is passed on: it does not concern one connection only, or it belongs
/// to the negotiation of an upgrade.
pub open spec fn passed_on(values: HeaderValues, upgrade: bool, name: Seq<char>) -> bool {
    &&& values.contains_key(name)
    &&& !hop_only(values, name) || (upgrade && (name == "connection"@ || name == "upgrade"@))
}

/// Stripping takes out exactly the headers that concern one connection only, those of an upgrade
/// negotiation apart, and leaves every other header with all its values. This holds of requests and of
/// replies.
pub proof fn law_stripping_leaves_every_other_header(
    values: HeaderValues,
    upgrade: bool,
    name: Seq<char>,
)
    ensures
        crate::http_proxy::stripped(values, upgrade).contains_key(name) <==> passed_on(
            values,
            upgrade,
            name,
        ),
        passed_on(values, upgrade, name) ==> crate::http_proxy::stripped(values, upgrade)[name]
            == values[name],
{
    lemma_connection_lists(values, name);
}

/// The `X-Forwarded-For` text of a request that leaves: the text of the request's own first line, where
/// that line is passed on and readable, then the client.
pub open spec fn client_chain(values: HeaderValues, upgrade: bool, peer: Seq<char>) -> Seq<char> {
    if passed_on(values, upgrade, "x-forwarded-for"@) && crate::headers::value_str(
        values["x-forwarded-for"@][0],
    ) is Some {
        crate::headers::value_str(values["x-forwarded-for"@][0])->0 + ", "@ + peer
    } else {
        peer
    }
}

/// Whether `after` is what the upstream is to see of a request's headers under one name.
pub open spec fn upstream_sees(
    values: HeaderValues,
    authority: Option<AuthorityView>,
    peer: Seq<char>,
    host: Seq<char>,
    upgrade: bool,
    after: HeaderValues,
    name: Seq<char>,
) -> bool {
    let chain = client_chain(values, upgrade, peer);
    if name == "host"@ && authority is Some {
        after.contains_key(name) && after[name] == seq![
            vstd::utf8::encode_utf8((authority->0).text),
        ]
    } else if name == "x-forwarded-proto"@ {
        after.contains_key(name) && after[name] == seq![vstd::utf8::encode_utf8("https"@)]
    } else if name == "x-forwarded-host"@ && crate::headers::header_value_text(host) {
        after.contains_key(name) && after[name] == seq![vstd::utf8::encode_utf8(host)]
    } else if name == "x-forwarded-for"@ && crate::headers::header_value_text(chain) {
        after.contains_key(name) && after[name] == seq![vstd::utf8::encode_utf8(chain)]
    } else {
        &&& after.contains_key(name) <==> passed_on(values, upgrade, name)
        &&& after.contains_key(name) ==> after[name] == values[name]
    }
}

proof fn lemma_proxy_names_differ()
    ensures
        "host"@ != "x-forwarded-for"@,
        "host"@ != "x-forwarded-proto"@,
        "host"@ != "x-forwarded-host"@,
        "x-forwarded-for"@ != "x-forwarded-proto"@,
        "x-forwarded-for"@ != "x-forwarded-host"@,
        "x-forwarded-proto"@ != "x-forwarded-host"@,
{
    reveal_strlit("host");
    reveal_strlit("x-forwarded-for");
    reveal_strlit("x-forwarded-proto");
    reveal_strlit("x-forwarded-host");
    assert("host"@.len() == 4);
    assert("x-forwarded-for"@.len() == 15);
    assert("x-forwarded-proto"@.len() == 17);
    assert("x-forwarded-host"@.len() == 16);
}

/// A rewritten request has the upstream's authority for its only `Host`, `https` for its only
/// `X-Forwarded-Proto`, the public domain for its only `X-Forwarded-Host` and the chain of clients,
/// ended by this one, for its only `X-Forwarded-For`. Every other header that does not concern one
/// connection only stays with all its values, and none is added.
pub proof fn law_rewriting_tells_the_upstream(
    values: HeaderValues,
    authority: Option<AuthorityView>,
    peer: Seq<char>,
    host: Seq<char>,
    upgrade: bool,
    name: Seq<char>,
)
    ensures
        upstream_sees(
            values,
            authority,
            peer,
            host,
            upgrade,
            crate::http_proxy::rewritten(values, authority, peer, host, upgrade),
            name,
        ),
{
    lemma_proxy_names_differ();
    law_stripping_leaves_every_other_header(values, upgrade, name);
    law_stripping_leaves_every_other_header(values, upgrade, "x-forwarded-for"@);
    let kept = crate::http_proxy::stripped(values, upgrade);
    assert(crate::http_proxy::forwarded_for(kept, peer) == client_chain(values, upgrade, peer));
}

/// The headers that are put in, on top of whatever is there, tell of the client and the public domain:
/// the client is the end of `X-Forwarded-For`, the domain is `X-Forwarded-Host`.
pub proof fn law_client_and_domain_are_told(
    values: HeaderValues,
    peer: Seq<char>,
    host: Seq<char>,
    name: Seq<char>,
)
    ensures
        ({
            let after = crate::http_proxy::forwarded(values, peer, host);
            let first = if values.contains_key("x-forwarded-for"@) {
                crate::headers::value_str(values["x-forwarded-for"@][0])
            } else {
                None
            };
            let chain = match first {
                Some(first) => first + ", "@ + peer,
                None => peer,
            };
            if name == "x-forwarded-proto"@ {
                after.contains_key(name) && after[name] == seq![vstd::utf8::encode_utf8("https"@)]
            } else if name == "x-forwarded-host"@ && crate::headers::header_value_text(host) {
                after.contains_key(name) && after[name] == seq![vstd::utf8::encode_utf8(host)]
            } else if name == "x-forwarded-for"@ && crate::headers::header_value_text(chain) {
                after.contains_key(name) && after[name] == seq![vstd::utf8::encode_utf8(chain)]
            } else {
                &&& after.contains_key(name) <==> values.contains_key(name)
                &&& after.contains_key(name) ==> after[name] == values[name]
            }
        }),
{
    lemma_proxy_names_differ();
}

/// The URI at the upstream is the upstream, without the slashes at its end, followed by the path and
/// query of the request, character for character, or by one slash where the request has none.
pub proof fn law_uri_keeps_path_and_query(upstream: Seq<char>, slashes: Seq<char>, path: Seq<char>)
    requires
        upstream.len() == 0 || upstream[upstream.len() - 1] != '/',
        forall|i: int| 0 <= i < slashes.len() ==> #[trigger] slashes[i] == '/',
    ensures
        crate::http_proxy::upstream_uri(upstream + slashes, Some(path)) == upstream + path,
        crate::http_proxy::upstream_uri(upstream + slashes, None) == upstream + seq!['/'],
        crate::http_proxy::path_or_root(Some(path)) == path,
        crate::http_proxy::path_or_root(None) == seq!['/'],
{
    reveal_strlit("/");
    crate::text_laws::law_trailing_slashes_go(upstream, slashes);
    assert("/"@ =~= seq!['/']);
}

/// A host without its port is all of it up to the first colon; of a host in brackets it is all between
/// the first bracket and the next closing one.
pub proof fn law_host_without_port(host: Seq<char>)
    ensures
        ({
            let bare = crate::http_proxy::without_port(host);
            let bracketed = host.len() > 0 && host[0] == '[';
            let rest = if bracketed {
                host.subrange(1, host.len() as int)
            } else {
                host
            };
            let end = if bracketed {
                ']'
            } else {
                ':'
            };
            &&& bare.len() <= rest.len()
            &&& bare == rest.subrange(0, bare.len() as int)
            &&& forall|i: int| 0 <= i < bare.len() ==> #[trigger] bare[i] != end
            &&& bare.len() == rest.len() || rest[bare.len() as int] == end
        }),
{
    if host.len() > 0 && host[0] == '[' {
        assert(host.drop_first() =~= host.subrange(1, host.len() as int));
        lemma_before_is_prefix(host.drop_first(), ']');
    } else {
        lemma_before_is_prefix(host, ':');
    }
}

proof fn lemma_before_is_prefix(s: Seq<char>, c: char)
    ensures
        crate::text::before(s, c).len() <= s.len(),
        crate::text::before(s, c) == s.subrange(0, crate::text::before(s, c).len() as int),
        forall|i: int|
            0 <= i < crate::text::before(s, c).len() ==> #[trigger] crate::text::before(s, c)[i] != c,
        crate::text::before(s, c).len() == s.len() || s[crate::text::before(s, c).len() as int] == c,
    decreases s.len(),
{
    let bare = crate::text::before(s, c);
    if s.len() > 0 && s.first() != c {
        lemma_before_is_prefix(s.drop_first(), c);
        let rest = crate::text::before(s.drop_first(), c);
        assert(bare =~= seq![s.first()] + rest);
        assert(bare =~= s.subrange(0, bare.len() as int)) by {
            assert forall|i: int| 0 <= i < bare.len() implies bare[i] == s[i] by {
                if i > 0 {
                    assert(rest[i - 1] == s.drop_first()[i - 1]);
                }
            }
        }
        assert forall|i: int| 0 <= i < bare.len() implies #[trigger] bare[i] != c by {
            if i > 0 {
                assert(rest[i - 1] != c);
            }
        }
    } else {
        assert(bare =~= s.subrange(0, 0));
    }
}

/// The domain of a request is the host of its URI or else, without its port, that of its `Host` header,
/// in either case trimmed and with its capitals made small. A request with neither has none.
pub proof fn law_domain_of_a_request(head: RequestHeadView)
    ensures
        head.authority_host is Some ==> crate::http_proxy::request_host(head) == Some(
            crate::text::ascii_lowercase(crate::text::trimmed(head.authority_host->0)),
        ),
        head.authority_host is None && head.values.contains_key("host"@) ==> (
        match crate::headers::value_str(head.values["host"@][0]) {
            Some(raw) => crate::http_proxy::request_host(head) == Some(
                crate::text::ascii_lowercase(
                    crate::text::trimmed(crate::http_proxy::without_port(raw)),
                ),
            ),
            None => crate::http_proxy::request_host(head) is None,
        }),
        head.authority_host is None && !head.values.contains_key("host"@)
            ==> crate::http_proxy::request_host(head) is None,
{
}

/// Whether a reply is plain text with this status and body.
pub open spec fn plain_reply(reply: TextReplyView, status: u16, body: Seq<char>) -> bool {
    reply.status == status && reply.content_type == "text/plain; charset=utf-8"@ && reply.body == body
}

/// Whether a request leaves for an upstream as it should: over HTTP/1.1, to the URI with that URI's
/// authority, and with the headers that the upstream is to see, whatever their name.
pub open spec fn leaves(
    request: crate::http_proxy::OutboundView,
    head: RequestHeadView,
    authority: Option<AuthorityView>,
    peer: Seq<char>,
    host: Seq<char>,
    upstream: Seq<char>,
    upgrade: bool,
) -> bool {
    &&& request.version == HttpVersion::Http11
    &&& request.uri == crate::http_proxy::upstream_uri(upstream, head.path_and_query)
    &&& request.authority == authority
    &&& forall|name: Seq<char>|
        #![trigger request.values.contains_key(name)]
        upstream_sees(head.values, authority, peer, host, upgrade, request.values, name)
}

/// A request for a host with a route goes to that upstream, told of the client and the public domain,
/// whether over the pool or, to be upgraded, over a connection of its own to the host and port of the
/// upstream's authority. Where the upstream gives no URI, or for an upgrade no authority, the answer is
/// 502.
pub proof fn law_routed_requests_reach_their_upstream(
    head: RequestHeadView,
    authority: Option<Option<AuthorityView>>,
    peer: Seq<char>,
    host: Seq<char>,
    upstream: Seq<char>,
    upgrade: bool,
)
    ensures
        match crate::http_proxy::routed(head, authority, peer, host, upstream, upgrade) {
            DecisionView::Forward { host: h, upstream: u, request } => {
                &&& !upgrade && authority is Some && h == host && u == upstream
                &&& leaves(request, head, authority->0, peer, host, upstream, false)
            },
            DecisionView::Upgrade { host: h, upstream: u, request, connect_host, connect_port } => {
                &&& upgrade && authority is Some && authority->0 is Some && h == host && u == upstream
                &&& leaves(request, head, authority->0, peer, host, upstream, true)
                &&& connect_host == (authority->0->0).host
                &&& (authority->0->0).port is Some ==> connect_port == (authority->0->0).port->0
                &&& (authority->0->0).port is None ==> connect_port == 80
            },
            DecisionView::Failed { host: h, upstream: u, error, reply } => {
                &&& h == host && u == upstream && plain_reply(reply, 502, "upstream error"@)
                &&& match authority {
                    None => error == ProxyErrorView::BadUri(
                        upstream + (match head.path_and_query {
                            Some(path) => path,
                            None => "/"@,
                        }),
                    ),
                    Some(authority) => upgrade && authority is None && error
                        == ProxyErrorView::NoAddress,
                }
            },
            _ => false,
        },
{
    match crate::http_proxy::routed(head, authority, peer, host, upstream, upgrade) {
        DecisionView::Forward { request, .. } => {
            assert forall|name: Seq<char>|
                #![trigger request.values.contains_key(name)]
                upstream_sees(head.values, authority->0, peer, host, false, request.values, name) by {
                law_rewriting_tells_the_upstream(
                    head.values,
                    authority->0,
                    peer,
                    host,
                    false,
                    name,
                );
            }
        },
        DecisionView::Upgrade { request, .. } => {
            assert forall|name: Seq<char>|
                #![trigger request.values.contains_key(name)]
                upstream_sees(head.values, authority->0, peer, host, true, request.values, name) by {
                law_rewriting_tells_the_upstream(head.values, authority->0, peer, host, true, name);
            }
        },
        _ => {},
    }
}

/// Each request gets exactly one of these: 400 where it has no domain, 404 where its domain has no
/// route, and otherwise what the upstream of that route makes of it, as an upgrade exactly if it has an
/// `Upgrade` header.
pub proof fn law_requests_go_by_their_domain(
    routes: Map<Seq<char>, String>,
    peer: Seq<char>,
    head: RequestHeadView,
)
    ensures
        match (
            crate::http_proxy::request_host(head),
            crate::http_proxy::decided(routes, peer, head),
        ) {
            (None, DecisionView::Reply(reply)) => plain_reply(reply, 400, "missing Host"@),
            (Some(domain), DecisionView::NoRoute { host, reply }) => host == domain
                && !routes.contains_key(domain) && plain_reply(reply, 404, "no route for host"@),
            (Some(domain), decision) => routes.contains_key(domain) && decision
                == crate::http_proxy::routed(
                head,
                crate::http_proxy::uri_authority(
                    crate::http_proxy::upstream_uri(routes[domain]@, head.path_and_query),
                ),
                peer,
                domain,
                routes[domain]@,
                head.values.contains_key("upgrade"@),
            ),
            _ => false,
        },
{
}

/// A request is given up for its headers only if it has more than 6550 names, and then with 502.
pub proof fn law_only_crowded_requests_are_given_up(
    head: RequestHeadView,
    host: Seq<char>,
    upstream: Seq<char>,
    decision: DecisionView,
)
    ensures
        crate::http_proxy::overfull(head, host, upstream, decision) ==> head.count > 6550 && (
        decision matches DecisionView::Failed { host: h, upstream: u, error, reply } && h == host && u
            == upstream && error == ProxyErrorView::TooManyHeaders && plain_reply(
            reply,
            502,
            "upstream error"@,
        )),
        crate::http_proxy::REWRITE_ROOM == 6550,
        crate::headers::INSERT_ROOM == 6553,
{
}

/// The address to connect to is the authority's host, at its port or else at port 80.
pub proof fn law_address_of_an_authority(text: Seq<char>, host: Seq<char>, port: u16)
    ensures
        crate::http_proxy::socket_addr(
            Some(AuthorityView { text, host, port: Some(port) }),
        ) == Some((host, port)),
        crate::http_proxy::socket_addr(Some(AuthorityView { text, host, port: None })) == Some(
            (host, 80u16),
        ),
        crate::http_proxy::socket_addr(None) is None,
{
}

/// Only an IPv4 address that comes mapped into IPv6 is changed.
pub proof fn law_other_addresses_stay(addr: PeerIp)
    ensures
        match addr {
            PeerIp::V4(..) => crate::http_proxy::unmapped(addr) == addr,
            PeerIp::V6(a, b, c, d, e, f, g, h) => {
                if a == 0 && b == 0 && c == 0 && d == 0 && e == 0 && f == 0xffff {
                    crate::http_proxy::unmapped(addr) matches PeerIp::V4(w, x, y, z) && w * 256 + x
                        == g && y * 256 + z == h
                } else {
                    crate::http_proxy::unmapped(addr) == addr
                }
            },
        },
{
}

/// An authority is seen with its parts, and can be a `Host` header exactly if its text can be a header's
/// value; without one there is nothing to set.
pub proof fn law_authorities(authority: Authority, seen: AuthorityView)
    ensures
        crate::http_proxy::authority_view(Some(authority)) == Some(authority@),
        crate::http_proxy::authority_view(None) is None,
        crate::http_proxy::can_be_host(Some(seen)) <==> crate::headers::header_value_text(seen.text),
        crate::http_proxy::can_be_host(None),
{
}

/// What the log is told of a request that could not be rewritten.
pub proof fn law_proxy_errors_are_told(text: Seq<char>)
    ensures
        ProxyErrorView::BadUri(text).message() == "拼接上游 URI 失败: "@ + text,
        ProxyErrorView::BadHost.message() == "上游 Host 头非法"@,
        ProxyErrorView::NoAddress.message() == "上游地址非法"@,
        ProxyErrorView::TooManyHeaders.message() == "请求头过多"@,
{
}

/// A plain text reply has the status and body it is made with.
pub proof fn law_text_replies(status: u16, body: Seq<char>)
    ensures
        plain_reply(crate::http_proxy::text_reply(status, body), status, body),
        plain_reply(crate::http_proxy::bad_gateway(), 502, "upstream error"@),
{
}

/// The views of requests, replies and errors hide nothing: each shows the fields as they are.
pub proof fn law_views_of_requests(
    authority: Authority,
    head: RequestHead,
    reply: TextReply,
    request: Outbound,
    text: String,
)
    ensures
        authority@.text == authority.text@ && authority@.host == authority.host@ && authority@.port
            == authority.port,
        head.authority_host is Some ==> head@.authority_host == Some((head.authority_host->0)@),
        head.authority_host is None ==> head@.authority_host is None,
        head.path_and_query is Some ==> head@.path_and_query == Some((head.path_and_query->0)@),
        head.path_and_query is None ==> head@.path_and_query is None,
        head@.values == crate::headers::header_values(head.headers),
        head@.count == crate::headers::header_count(head.headers),
        reply@.status == reply.status && reply@.content_type == reply.content_type@ && reply@.body
            == reply.body@,
        request@.uri == request.uri.text@ && request@.version == request.version && request@.values
            == crate::headers::header_values(request.headers),
        request.uri.authority is Some ==> request@.authority == Some((request.uri.authority->0)@),
        request.uri.authority is None ==> request@.authority is None,
        ProxyError::BadUri(text)@ == ProxyErrorView::BadUri(text@),
        ProxyError::BadHost@ == ProxyErrorView::BadHost,
        ProxyError::NoAddress@ == ProxyErrorView::NoAddress,
        ProxyError::TooManyHeaders@ == ProxyErrorView::TooManyHeaders,
{
}

/// The view of a decision is the decision with the views of its parts.
pub proof fn law_views_of_decisions(decision: Decision)
    ensures
        match (decision, decision@) {
            (Decision::Reply(reply), DecisionView::Reply(seen)) => seen == reply@,
            (Decision::NoRoute { host, reply }, DecisionView::NoRoute { host: h, reply: seen }) => h
                == host@ && seen == reply@,
            (
                Decision::Forward { host, upstream, request },
                DecisionView::Forward { host: h, upstream: u, request: seen },
            ) => h == host@ && u == upstream@ && seen == request@,
            (
                Decision::Upgrade { host, upstream, request, connect_host, connect_port },
                DecisionView::Upgrade {
                    host: h,
                    upstream: u,
                    request: seen,
                    connect_host: c,
                    connect_port: p,
                },
            ) => h == host@ && u == upstream@ && seen == request@ && c == connect_host@ && p
                == connect_port,
            (
                Decision::Failed { host, upstream, error, reply },
                DecisionView::Failed { host: h, upstream: u, error: e, reply: seen },
            ) => h == host@ && u == upstream@ && e == error@ && seen == reply@,
            _ => false,
        },
{
}

}
