//! The HTTPS reverse proxy: which upstream a request goes to, and how it is rewritten on the way.
//!
//! 1. The host of the request, without its port and in lowercase, picks the upstream.
//! 2. An ordinary request is forwarded with its hop-by-hop headers taken out and the
//!    `X-Forwarded-*` headers put in.
//! 3. A request with an `Upgrade` header gets an upstream connection of its own; once both sides
//!    have switched protocols, bytes are copied both ways.
//! 4. A host without a route is answered with 404, a failing upstream with 502.

use hyper::header::HeaderMap;
use vstd::hash_map::StringHashMap;
use vstd::prelude::*;
use vstd::string::*;

use crate::headers::{
    has_header, header_text, header_texts, remove_header, set_header, HeaderValues, Placed,
};
use crate::text::{same_text, split, take_before, to_ascii_lowercase, trim, trim_end_slashes};

verus! {

/// The headers that concern one connection only and are not passed on.
pub open spec fn hop_by_hop() -> Set<Seq<char>> {
    set![
        "connection"@,
        "keep-alive"@,
        "proxy-authenticate"@,
        "proxy-authorization"@,
        "te"@,
        "trailers"@,
        "transfer-encoding"@,
        "upgrade"@,
    ]
}

/// The header names that a list of tokens stands for.
pub open spec fn named_by(tokens: Seq<Seq<char>>) -> Set<Seq<char>> {
    Set::new(
        |name: Seq<char>|
            exists|i: int|
                0 <= i < tokens.len() && #[trigger] crate::headers::header_name(
                    crate::text::trimmed(tokens[i]),
                ) == Some(name),
    )
}

/// The header names that one line of the `Connection` header lists; a line that is not visible ASCII
/// lists none.
pub open spec fn listed_on(line: Seq<u8>) -> Set<Seq<char>> {
    match crate::headers::value_str(line) {
        Some(text) => named_by(crate::text::pieces(text, ',')),
        None => Set::empty(),
    }
}

/// The header names that some of these lines list.
pub open spec fn listed_on_any(lines: Seq<Seq<u8>>) -> Set<Seq<char>> {
    Set::new(
        |name: Seq<char>|
            exists|k: int| 0 <= k < lines.len() && #[trigger] listed_on(lines[k]).contains(name),
    )
}

/// The header names that the `Connection` header lists, on whichever of its lines.
pub open spec fn listed_by_connection(values: HeaderValues) -> Set<Seq<char>> {
    if values.contains_key("connection"@) {
        listed_on_any(values["connection"@])
    } else {
        Set::empty()
    }
}

/// The headers that are never taken out: on the way to an upgrade those of its negotiation.
pub open spec fn kept_names(keep_upgrade: bool) -> Set<Seq<char>> {
    if keep_upgrade {
        set!["connection"@, "upgrade"@]
    } else {
        Set::empty()
    }
}

/// The headers that are taken out: the hop-by-hop ones and those that `Connection` lists. On the way
/// to an upgrade `connection` and `upgrade` pass as they are; only the others go.
pub open spec fn stripped_names(values: HeaderValues, keep_upgrade: bool) -> Set<Seq<char>> {
    hop_by_hop().union(listed_by_connection(values)).difference(kept_names(keep_upgrade))
}

/// The headers that are left.
pub open spec fn stripped(values: HeaderValues, keep_upgrade: bool) -> HeaderValues {
    values.remove_keys(stripped_names(values, keep_upgrade))
}

/// The hop-by-hop headers are names in lowercase, and no two of them are the same.
proof fn lemma_hop_names()
    ensures
        crate::headers::lowercase_name("connection"@),
        crate::headers::lowercase_name("keep-alive"@),
        crate::headers::lowercase_name("proxy-authenticate"@),
        crate::headers::lowercase_name("proxy-authorization"@),
        crate::headers::lowercase_name("te"@),
        crate::headers::lowercase_name("trailers"@),
        crate::headers::lowercase_name("transfer-encoding"@),
        crate::headers::lowercase_name("upgrade"@),
        "keep-alive"@ != "connection"@,
        "keep-alive"@ != "upgrade"@,
        "proxy-authenticate"@ != "connection"@,
        "proxy-authenticate"@ != "upgrade"@,
        "proxy-authorization"@ != "connection"@,
        "proxy-authorization"@ != "upgrade"@,
        "te"@ != "connection"@,
        "te"@ != "upgrade"@,
        "trailers"@ != "connection"@,
        "trailers"@ != "upgrade"@,
        "transfer-encoding"@ != "connection"@,
        "transfer-encoding"@ != "upgrade"@,
{
    reveal_strlit("connection");
    reveal_strlit("keep-alive");
    reveal_strlit("proxy-authenticate");
    reveal_strlit("proxy-authorization");
    reveal_strlit("te");
    reveal_strlit("trailers");
    reveal_strlit("transfer-encoding");
    reveal_strlit("upgrade");
    crate::headers::lemma_lowercase_name("connection"@);
    crate::headers::lemma_lowercase_name("keep-alive"@);
    crate::headers::lemma_lowercase_name("proxy-authenticate"@);
    crate::headers::lemma_lowercase_name("proxy-authorization"@);
    crate::headers::lemma_lowercase_name("te"@);
    crate::headers::lemma_lowercase_name("trailers"@);
    crate::headers::lemma_lowercase_name("transfer-encoding"@);
    crate::headers::lemma_lowercase_name("upgrade"@);
    assert("keep-alive"@[0] != "connection"@[0]);
    assert("trailers"@[0] != "connection"@[0]);
}

/// Takes out the headers that a text lists, separated by commas; with `keep_upgrade` all but those of
/// the upgrade negotiation.
fn remove_listed(headers: &mut HeaderMap, text: &str, keep_upgrade: bool)
    ensures
        crate::headers::header_values(*final(headers)) == crate::headers::header_values(
            *old(headers),
        ).remove_keys(
            named_by(crate::text::pieces(text@, ',')).difference(kept_names(keep_upgrade)),
        ),
        crate::headers::header_count(*final(headers)) <= crate::headers::header_count(
            *old(headers),
        ),
{
    let listed = split(text, ',');
    let ghost tokens = crate::text::texts(listed@);
    let ghost base = crate::headers::header_values(*headers);
    let ghost kept = kept_names(keep_upgrade);
    let mut i: usize = 0;
    assert(base.remove_keys(named_by(tokens.take(0)).difference(kept)) =~= base);
    while i < listed.len()
        invariant
            i <= listed@.len(),
            tokens == crate::text::texts(listed@),
            kept == kept_names(keep_upgrade),
            crate::headers::header_values(*headers) == base.remove_keys(
                named_by(tokens.take(i as int)).difference(kept),
            ),
            crate::headers::header_count(*headers) <= crate::headers::header_count(*old(headers)),
        decreases listed.len() - i,
    {
        let token = trim(listed[i].as_str());
        let name = to_ascii_lowercase(token);
        let keep = keep_upgrade && (same_text(name.as_str(), "connection") || same_text(
            name.as_str(),
            "upgrade",
        ));
        if !keep {
            remove_header(headers, token);
        }
        proof {
            let before = named_by(tokens.take(i as int));
            let after = named_by(tokens.take(i + 1));
            assert forall|name: Seq<char>| after.contains(name) <==> before.contains(name)
                || crate::headers::header_name(token@) == Some(name) by {
                if after.contains(name) {
                    let k = choose|k: int|
                        0 <= k < i + 1 && #[trigger] crate::headers::header_name(
                            crate::text::trimmed(tokens.take(i + 1)[k]),
                        ) == Some(name);
                    if k < i {
                        assert(tokens.take(i as int)[k] == tokens.take(i + 1)[k]);
                    }
                }
                if before.contains(name) {
                    let k = choose|k: int|
                        0 <= k < i && #[trigger] crate::headers::header_name(
                            crate::text::trimmed(tokens.take(i as int)[k]),
                        ) == Some(name);
                    assert(tokens.take(i as int)[k] == tokens.take(i + 1)[k]);
                }
                if crate::headers::header_name(token@) == Some(name) {
                    assert(tokens.take(i + 1)[i as int] == tokens[i as int]);
                }
            }
            assert(crate::headers::header_values(*headers) =~= base.remove_keys(
                after.difference(kept),
            ));
        }
        i = i + 1;
    }
    assert(tokens.take(tokens.len() as int) == tokens);
}

/// Takes out the hop-by-hop headers, and with them the headers that `Connection` lists on any of its
/// lines.
///
/// With `keep_upgrade` the headers of the upgrade negotiation, `connection` and `upgrade`, pass as
/// they are, and only the others are taken out.
pub fn strip_hop_by_hop(headers: &mut HeaderMap, keep_upgrade: bool)
    ensures
        crate::headers::header_values(*final(headers)) == stripped(
            crate::headers::header_values(*old(headers)),
            keep_upgrade,
        ),
        crate::headers::header_count(*final(headers)) <= crate::headers::header_count(
            *old(headers),
        ),
{
    proof {
        lemma_hop_names();
    }
    let ghost values = crate::headers::header_values(*headers);
    let ghost kept = kept_names(keep_upgrade);
    let texts = header_texts(headers, "connection");
    if !keep_upgrade {
        remove_header(headers, "connection");
        remove_header(headers, "upgrade");
    }
    remove_header(headers, "keep-alive");
    remove_header(headers, "proxy-authenticate");
    remove_header(headers, "proxy-authorization");
    remove_header(headers, "te");
    remove_header(headers, "trailers");
    remove_header(headers, "transfer-encoding");
    let ghost lines = if values.contains_key("connection"@) {
        values["connection"@]
    } else {
        Seq::empty()
    };
    let ghost base = values.remove_keys(hop_by_hop().difference(kept));
    assert(crate::headers::header_values(*headers) =~= base);
    assert(listed_by_connection(values) =~= listed_on_any(lines));
    let mut i: usize = 0;
    assert(base.remove_keys(listed_on_any(lines.take(0)).difference(kept)) =~= base);
    while i < texts.len()
        invariant
            i <= texts@.len(),
            texts@.len() == lines.len(),
            forall|k: int|
                0 <= k < texts@.len() ==> crate::text::optional_text(#[trigger] texts@[k])
                    == crate::headers::value_str(lines[k]),
            kept == kept_names(keep_upgrade),
            crate::headers::header_values(*headers) == base.remove_keys(
                listed_on_any(lines.take(i as int)).difference(kept),
            ),
            crate::headers::header_count(*headers) <= crate::headers::header_count(*old(headers)),
        decreases texts.len() - i,
    {
        if let Some(text) = &texts[i] {
            remove_listed(headers, text.as_str(), keep_upgrade);
        }
        proof {
            let before = listed_on_any(lines.take(i as int));
            let after = listed_on_any(lines.take(i + 1));
            assert(crate::text::optional_text(texts@[i as int]) == crate::headers::value_str(
                lines[i as int],
            ));
            assert forall|name: Seq<char>| after.contains(name) <==> before.contains(name)
                || listed_on(lines[i as int]).contains(name) by {
                if after.contains(name) {
                    let k = choose|k: int|
                        0 <= k < i + 1 && #[trigger] listed_on(lines.take(i + 1)[k]).contains(name);
                    if k < i {
                        assert(lines.take(i as int)[k] == lines.take(i + 1)[k]);
                    }
                }
                if before.contains(name) {
                    let k = choose|k: int|
                        0 <= k < i && #[trigger] listed_on(lines.take(i as int)[k]).contains(name);
                    assert(lines.take(i as int)[k] == lines.take(i + 1)[k]);
                }
                if listed_on(lines[i as int]).contains(name) {
                    assert(lines.take(i + 1)[i as int] == lines[i as int]);
                }
            }
            assert(crate::headers::header_values(*headers) =~= base.remove_keys(
                after.difference(kept),
            ));
        }
        i = i + 1;
    }
    assert(lines.take(lines.len() as int) == lines);
    assert(crate::headers::header_values(*headers) =~= stripped(values, keep_upgrade));
}

/// The bytes of a text as the only value of a header.
pub open spec fn only(text: Seq<char>) -> Seq<Seq<u8>> {
    seq![vstd::utf8::encode_utf8(text)]
}

/// The `X-Forwarded-For` value that a request leaves with: the first line of what it came with, if that
/// line is visible ASCII, then the client. Other lines are dropped.
pub open spec fn forwarded_for(values: HeaderValues, peer: Seq<char>) -> Seq<char> {
    match crate::headers::header_str(values, "x-forwarded-for"@) {
        Some(existing) => existing + ", "@ + peer,
        None => peer,
    }
}

/// `values` with `text` under `name`, where `text` can be a header's value.
pub open spec fn with_text(values: HeaderValues, name: Seq<char>, text: Seq<char>) -> HeaderValues {
    if crate::headers::header_value_text(text) {
        values.insert(name, only(text))
    } else {
        values
    }
}

/// The headers with the `X-Forwarded-*` ones put in.
pub open spec fn forwarded(values: HeaderValues, peer: Seq<char>, host: Seq<char>) -> HeaderValues {
    with_text(
        with_text(values, "x-forwarded-for"@, forwarded_for(values, peer)).insert(
            "x-forwarded-proto"@,
            only("https"@),
        ),
        "x-forwarded-host"@,
        host,
    )
}

/// The headers put in are names in lowercase, and `https` can be a header's value.
proof fn lemma_forwarded_names()
    ensures
        crate::headers::lowercase_name("host"@),
        crate::headers::lowercase_name("x-forwarded-for"@),
        crate::headers::lowercase_name("x-forwarded-proto"@),
        crate::headers::lowercase_name("x-forwarded-host"@),
        crate::headers::header_value_text("https"@),
        "host"@ != "x-forwarded-for"@,
        "host"@ != "x-forwarded-proto"@,
        "host"@ != "x-forwarded-host"@,
        "x-forwarded-for"@ != "x-forwarded-proto"@,
        "x-forwarded-for"@ != "x-forwarded-host"@,
        "x-forwarded-proto"@ != "x-forwarded-host"@,
{
    reveal_strlit("host");
    reveal_strlit("https");
    reveal_strlit("x-forwarded-for");
    reveal_strlit("x-forwarded-proto");
    reveal_strlit("x-forwarded-host");
    crate::headers::lemma_lowercase_name("host"@);
    crate::headers::lemma_lowercase_name("x-forwarded-for"@);
    crate::headers::lemma_lowercase_name("x-forwarded-proto"@);
    crate::headers::lemma_lowercase_name("x-forwarded-host"@);
}

/// Puts in the headers that tell the upstream about the client: `X-Forwarded-For`, where the client
/// is appended to the first line that is there, if that line is visible ASCII, `X-Forwarded-Proto` and
/// `X-Forwarded-Host`. Tells whether there was room for them.
pub fn append_forwarded(headers: &mut HeaderMap, peer: &str, host: &str) -> (r: bool)
    ensures
        r ==> crate::headers::header_values(*final(headers)) == forwarded(
            crate::headers::header_values(*old(headers)),
            peer@,
            host@,
        ),
        crate::headers::header_count(*final(headers)) <= crate::headers::header_count(*old(headers))
            + 3,
        !r ==> crate::headers::header_count(*old(headers)) + 2 > crate::headers::INSERT_ROOM,
{
    proof {
        lemma_forwarded_names();
    }
    let value = match header_text(headers, "x-forwarded-for") {
        Some(existing) => {
            let mut value = existing;
            value.append(", ");
            value.append(peer);
            value
        },
        None => peer.to_owned(),
    };
    if set_header(headers, "x-forwarded-for", value.as_str()) == Placed::Full {
        return false;
    }
    if set_header(headers, "x-forwarded-proto", "https") == Placed::Full {
        return false;
    }
    set_header(headers, "x-forwarded-host", host) != Placed::Full
}

/// The parts of a URI's authority.
#[derive(Debug, Clone)]
pub struct Authority {
    /// All of it, such as `192.168.10.103:8080`.
    pub text: String,
    /// The host.
    pub host: String,
    /// The port, where it is given.
    pub port: Option<u16>,
}

/// The parts of an authority as characters.
pub struct AuthorityView {
    pub text: Seq<char>,
    pub host: Seq<char>,
    pub port: Option<u16>,
}

impl View for Authority {
    type V = AuthorityView;

    open spec fn view(&self) -> AuthorityView {
        AuthorityView { text: self.text@, host: self.host@, port: self.port }
    }
}

/// The view of an authority that may be absent.
pub open spec fn authority_view(authority: Option<Authority>) -> Option<AuthorityView> {
    match authority {
        Some(authority) => Some(authority@),
        None => None,
    }
}

/// The authority in a URI, or its absence, or `None` where the text is no URI.
pub uninterp spec fn uri_authority(text: Seq<char>) -> Option<Option<AuthorityView>>;

/// `hyper::Uri` parsed from a text, and what `Uri::authority` gives of it: the authority as text,
/// its host and its port. These depend on the text alone. An authority is made of visible ASCII
/// characters, so it can be a header's value.
#[verifier::external_body]
pub(crate) fn parse_uri(text: &str) -> (r: Option<Option<Authority>>)
    ensures
        match r {
            Some(authority) => uri_authority(text@) == Some(authority_view(authority))
                && can_be_host(authority_view(authority)),
            None => uri_authority(text@) is None,
        },
{
    let uri: hyper::Uri = text.parse().ok()?;
    Some(
        uri.authority().map(
            |a| Authority {
                text: a.as_str().to_owned(),
                host: a.host().to_owned(),
                port: a.port_u16(),
            },
        ),
    )
}

/// Why a request cannot be rewritten for its upstream.
#[derive(Debug, Clone)]
pub enum ProxyError {
    /// This text is no URI.
    BadUri(String),
    /// The upstream's authority cannot be a `Host` header.
    BadHost,
    /// The upstream's URI has no authority to connect to.
    NoAddress,
    /// The request has so many headers that there is no room for more.
    TooManyHeaders,
}

/// A `ProxyError` with its text as characters.
pub enum ProxyErrorView {
    BadUri(Seq<char>),
    BadHost,
    NoAddress,
    TooManyHeaders,
}

impl View for ProxyError {
    type V = ProxyErrorView;

    open spec fn view(&self) -> ProxyErrorView {
        match self {
            ProxyError::BadUri(text) => ProxyErrorView::BadUri(text@),
            ProxyError::BadHost => ProxyErrorView::BadHost,
            ProxyError::NoAddress => ProxyErrorView::NoAddress,
            ProxyError::TooManyHeaders => ProxyErrorView::TooManyHeaders,
        }
    }
}

impl ProxyErrorView {
    /// The sentence for the log.
    pub open spec fn message(self) -> Seq<char> {
        match self {
            ProxyErrorView::BadUri(text) => "拼接上游 URI 失败: "@ + text,
            ProxyErrorView::BadHost => "上游 Host 头非法"@,
            ProxyErrorView::NoAddress => "上游地址非法"@,
            ProxyErrorView::TooManyHeaders => "请求头过多"@,
        }
    }
}

impl ProxyError {
    /// Tells what is wrong, for the log.
    pub fn message(&self) -> (r: String)
        ensures
            r@ == self@.message(),
    {
        match self {
            ProxyError::BadUri(text) => crate::text::joined("拼接上游 URI 失败: ", text.as_str()),
            ProxyError::BadHost => "上游 Host 头非法".to_owned(),
            ProxyError::NoAddress => "上游地址非法".to_owned(),
            ProxyError::TooManyHeaders => "请求头过多".to_owned(),
        }
    }
}

/// The URI of a request at its upstream: the upstream's origin, then the request's path and query.
pub open spec fn upstream_uri(upstream: Seq<char>, path_and_query: Option<Seq<char>>) -> Seq<char> {
    crate::text::without_trailing_slashes(upstream) + path_or_root(path_and_query)
}

/// The path and query of a request, `/` where it has none.
pub open spec fn path_or_root(path_and_query: Option<Seq<char>>) -> Seq<char> {
    match path_and_query {
        Some(path) => path,
        None => "/"@,
    }
}

/// The headers of a request at its upstream: hop-by-hop headers out, `X-Forwarded-*` in, and the
/// upstream's authority for `Host`.
pub open spec fn rewritten(
    values: HeaderValues,
    authority: Option<AuthorityView>,
    peer: Seq<char>,
    host: Seq<char>,
    keep_upgrade: bool,
) -> HeaderValues {
    let inner = forwarded(stripped(values, keep_upgrade), peer, host);
    match authority {
        Some(authority) => inner.insert("host"@, only(authority.text)),
        None => inner,
    }
}

/// Whether an authority can be a `Host` header.
pub open spec fn can_be_host(authority: Option<AuthorityView>) -> bool {
    match authority {
        Some(authority) => crate::headers::header_value_text(authority.text),
        None => true,
    }
}

/// Names that a request may have for the headers of its rewriting to fit in for certain.
pub const REWRITE_ROOM: usize = 6550;

/// Rewrites the headers of a request for the upstream with the given authority.
pub fn rewrite_headers(
    headers: &mut HeaderMap,
    authority: &Option<Authority>,
    peer: &str,
    host: &str,
    keep_upgrade: bool,
) -> (r: Result<(), ProxyError>)
    ensures
        ({
            let values = crate::headers::header_values(*old(headers));
            let after = crate::headers::header_values(*final(headers));
            let authority = authority_view(*authority);
            match r {
                Ok(_) => can_be_host(authority) && after == rewritten(
                    values,
                    authority,
                    peer@,
                    host@,
                    keep_upgrade,
                ),
                Err(ProxyError::BadHost) => !can_be_host(authority) && after == rewritten(
                    values,
                    None,
                    peer@,
                    host@,
                    keep_upgrade,
                ),
                Err(ProxyError::TooManyHeaders) => crate::headers::header_count(*old(headers))
                    > REWRITE_ROOM,
                Err(_) => false,
            }
        }),
{
    proof {
        lemma_forwarded_names();
    }
    strip_hop_by_hop(headers, keep_upgrade);
    if !append_forwarded(headers, peer, host) {
        return Err(ProxyError::TooManyHeaders);
    }
    if let Some(authority) = authority {
        match set_header(headers, "host", authority.text.as_str()) {
            Placed::Done => {},
            Placed::NotValue => {
                return Err(ProxyError::BadHost);
            },
            Placed::Full => {
                return Err(ProxyError::TooManyHeaders);
            },
        }
    }
    Ok(())
}

/// A URI at the upstream.
#[derive(Debug, Clone)]
pub struct UpstreamUri {
    /// The whole URI.
    pub text: String,
    /// Its authority, where it has one.
    pub authority: Option<Authority>,
}

/// Points a request at its upstream and gives the URI it has there:
/// - the upstream's origin, followed by the path and query of the request;
/// - hop-by-hop headers out (`connection` and `upgrade` stay with `keep_upgrade`);
/// - `X-Forwarded-*` in, and the upstream's authority for `Host`, so that the public domain does
///   not reach the upstream as its `Host`.
///
/// Every text that is a URI is taken, as long as there is room for the headers. Where the text is
/// none, the headers stay as they are.
pub fn rewrite_for_upstream(
    headers: &mut HeaderMap,
    path_and_query: &Option<String>,
    peer: &str,
    host: &str,
    upstream: &str,
    keep_upgrade: bool,
) -> (r: Result<UpstreamUri, ProxyError>)
    ensures
        ({
            let text = upstream_uri(upstream@, crate::text::optional_text(*path_and_query));
            let values = crate::headers::header_values(*old(headers));
            let after = crate::headers::header_values(*final(headers));
            match (r, uri_authority(text)) {
                (Ok(uri), Some(authority)) => {
                    &&& uri.text@ == text
                    &&& authority_view(uri.authority) == authority
                    &&& after == rewritten(values, authority, peer@, host@, keep_upgrade)
                },
                (Err(ProxyError::TooManyHeaders), Some(_)) => crate::headers::header_count(
                    *old(headers),
                ) > REWRITE_ROOM,
                (Err(error), None) => {
                    &&& error@ == ProxyErrorView::BadUri(
                        upstream@ + path_or_root(crate::text::optional_text(*path_and_query)),
                    )
                    &&& *final(headers) == *old(headers)
                },
                _ => false,
            }
        }),
{
    let path: &str = match path_and_query {
        Some(path) => path.as_str(),
        None => "/",
    };
    let text = crate::text::joined(trim_end_slashes(upstream), path);
    let authority = match parse_uri(text.as_str()) {
        Some(authority) => authority,
        None => {
            return Err(ProxyError::BadUri(crate::text::joined(upstream, path)));
        },
    };
    match rewrite_headers(headers, &authority, peer, host, keep_upgrade) {
        Ok(_) => Ok(UpstreamUri { text, authority }),
        Err(error) => Err(error),
    }
}

/// The address to connect to for an authority; port 80 where none is given.
pub open spec fn socket_addr(authority: Option<AuthorityView>) -> Option<(Seq<char>, u16)> {
    match authority {
        Some(authority) => Some(
            (
                authority.host,
                match authority.port {
                    Some(port) => port,
                    None => 80,
                },
            ),
        ),
        None => None,
    }
}

/// The host and port to connect to for a URI at the upstream; port 80 where none is given.
pub fn upstream_socket_addr(uri: &UpstreamUri) -> (r: Option<(String, u16)>)
    ensures
        match r {
            Some(addr) => socket_addr(authority_view(uri.authority)) == Some((addr.0@, addr.1)),
            None => socket_addr(authority_view(uri.authority)) is None,
        },
{
    match &uri.authority {
        Some(authority) => {
            let port: u16 = match authority.port {
                Some(port) => port,
                None => 80,
            };
            Some((authority.host.clone(), port))
        },
        None => None,
    }
}

/// A host without its port; of an IPv6 literal what stands between the brackets.
pub open spec fn without_port(host: Seq<char>) -> Seq<char> {
    if host.len() > 0 && host.first() == '[' {
        crate::text::before(host.drop_first(), ']')
    } else {
        crate::text::before(host, ':')
    }
}

/// Takes the port off a `Host` header, also that of an IPv6 literal such as `[::1]:8080`.
pub fn strip_port(host: &str) -> (r: &str)
    ensures
        r@ == without_port(host@),
{
    let len: usize = host.unicode_len();
    if len > 0 && host.get_char(0) == '[' {
        let rest = host.substring_char(1, len);
        assert(rest@ == host@.drop_first());
        take_before(rest, ']')
    } else {
        take_before(host, ':')
    }
}

/// What the proxy reads of a request.
pub struct RequestHead {
    /// The host in the URI's authority, where the URI has one, as it has over HTTP/2.
    pub authority_host: Option<String>,
    /// The path and query of the URI, where it has them.
    pub path_and_query: Option<String>,
    pub headers: HeaderMap,
}

/// What the proxy reads of a request, as characters and bytes.
pub struct RequestHeadView {
    pub authority_host: Option<Seq<char>>,
    pub path_and_query: Option<Seq<char>>,
    pub values: HeaderValues,
    pub count: nat,
}

impl View for RequestHead {
    type V = RequestHeadView;

    open spec fn view(&self) -> RequestHeadView {
        RequestHeadView {
            authority_host: crate::text::optional_text(self.authority_host),
            path_and_query: crate::text::optional_text(self.path_and_query),
            values: crate::headers::header_values(self.headers),
            count: crate::headers::header_count(self.headers),
        }
    }
}

/// The domain that a request is for: the host of its URI or else of its `Host` header, without
/// port, trimmed and in lowercase.
pub open spec fn request_host(head: RequestHeadView) -> Option<Seq<char>> {
    match head.authority_host {
        Some(host) => Some(crate::text::ascii_lowercase(crate::text::trimmed(host))),
        None => match crate::headers::header_str(head.values, "host"@) {
            Some(raw) => Some(
                crate::text::ascii_lowercase(crate::text::trimmed(without_port(raw))),
            ),
            None => None,
        },
    }
}

/// Gives the domain that a request is for, in lowercase and without port.
pub fn extract_host(head: &RequestHead) -> (r: Option<String>)
    ensures
        crate::text::optional_text(r) == request_host(head@),
{
    proof {
        lemma_forwarded_names();
    }
    match &head.authority_host {
        Some(host) => Some(to_ascii_lowercase(trim(host.as_str()))),
        None => match header_text(&head.headers, "host") {
            Some(raw) => Some(to_ascii_lowercase(trim(strip_port(raw.as_str())))),
            None => None,
        },
    }
}

/// A reply of plain text.
#[derive(Debug, Clone)]
pub struct TextReply {
    pub status: u16,
    pub content_type: String,
    pub body: String,
}

/// A reply of plain text as characters.
pub struct TextReplyView {
    pub status: u16,
    pub content_type: Seq<char>,
    pub body: Seq<char>,
}

impl View for TextReply {
    type V = TextReplyView;

    open spec fn view(&self) -> TextReplyView {
        TextReplyView { status: self.status, content_type: self.content_type@, body: self.body@ }
    }
}

/// A reply of plain text with this status and body.
pub open spec fn text_reply(status: u16, body: Seq<char>) -> TextReplyView {
    TextReplyView { status, content_type: "text/plain; charset=utf-8"@, body }
}

/// Makes a reply of plain text.
pub fn text_response(status: u16, msg: &str) -> (r: TextReply)
    ensures
        r@ == text_reply(status, msg@),
{
    TextReply {
        status,
        content_type: "text/plain; charset=utf-8".to_owned(),
        body: msg.to_owned(),
    }
}

/// The HTTP version of a request to an upstream.
#[derive(Debug, Clone, Copy, PartialEq, Eq, Structural)]
pub enum HttpVersion {
    Http10,
    /// The version that upstreams speak and that defines `Upgrade`.
    Http11,
    Http2,
}

/// A request as it goes to its upstream.
pub struct Outbound {
    pub uri: UpstreamUri,
    pub version: HttpVersion,
    pub headers: HeaderMap,
}

/// A request as it goes to its upstream, as characters and bytes.
pub struct OutboundView {
    pub uri: Seq<char>,
    pub authority: Option<AuthorityView>,
    pub version: HttpVersion,
    pub values: HeaderValues,
}

impl View for Outbound {
    type V = OutboundView;

    open spec fn view(&self) -> OutboundView {
        OutboundView {
            uri: self.uri.text@,
            authority: authority_view(self.uri.authority),
            version: self.version,
            values: crate::headers::header_values(self.headers),
        }
    }
}

/// The request as it goes to its upstream, or why it cannot go. `authority` is what the upstream's
/// URI has for one, `None` where that URI is none.
pub open spec fn outbound(
    head: RequestHeadView,
    authority: Option<Option<AuthorityView>>,
    peer: Seq<char>,
    host: Seq<char>,
    upstream: Seq<char>,
    keep_upgrade: bool,
) -> Result<OutboundView, ProxyErrorView> {
    match authority {
        None => Err(ProxyErrorView::BadUri(upstream + path_or_root(head.path_and_query))),
        Some(authority) => Ok(
            OutboundView {
                uri: upstream_uri(upstream, head.path_and_query),
                authority,
                version: HttpVersion::Http11,
                values: rewritten(head.values, authority, peer, host, keep_upgrade),
            },
        ),
    }
}

/// What is done with a request.
pub enum Decision {
    /// Answer it.
    Reply(TextReply),
    /// Answer it: no route has this host.
    NoRoute { host: String, reply: TextReply },
    /// Send it to the upstream over a pooled connection.
    Forward { host: String, upstream: String, request: Outbound },
    /// Send it to the upstream over a connection of its own to this host and port.
    Upgrade {
        host: String,
        upstream: String,
        request: Outbound,
        connect_host: String,
        connect_port: u16,
    },
    /// Do not send it: rewriting failed, and this is the answer.
    Failed { host: String, upstream: String, error: ProxyError, reply: TextReply },
}

/// What is done with a request, as characters and bytes.
pub enum DecisionView {
    Reply(TextReplyView),
    NoRoute { host: Seq<char>, reply: TextReplyView },
    Forward { host: Seq<char>, upstream: Seq<char>, request: OutboundView },
    Upgrade {
        host: Seq<char>,
        upstream: Seq<char>,
        request: OutboundView,
        connect_host: Seq<char>,
        connect_port: u16,
    },
    Failed { host: Seq<char>, upstream: Seq<char>, error: ProxyErrorView, reply: TextReplyView },
}

impl View for Decision {
    type V = DecisionView;

    open spec fn view(&self) -> DecisionView {
        match self {
            Decision::Reply(reply) => DecisionView::Reply(reply@),
            Decision::NoRoute { host, reply } => DecisionView::NoRoute {
                host: host@,
                reply: reply@,
            },
            Decision::Forward { host, upstream, request } => DecisionView::Forward {
                host: host@,
                upstream: upstream@,
                request: request@,
            },
            Decision::Upgrade { host, upstream, request, connect_host, connect_port } =>
                DecisionView::Upgrade {
                    host: host@,
                    upstream: upstream@,
                    request: request@,
                    connect_host: connect_host@,
                    connect_port: *connect_port,
                },
            Decision::Failed { host, upstream, error, reply } => DecisionView::Failed {
                host: host@,
                upstream: upstream@,
                error: error@,
                reply: reply@,
            },
        }
    }
}

/// The answer where the upstream failed.
pub open spec fn bad_gateway() -> TextReplyView {
    text_reply(502, "upstream error"@)
}

/// What is done with a request for a host that has a route.
pub open spec fn routed(
    head: RequestHeadView,
    authority: Option<Option<AuthorityView>>,
    peer: Seq<char>,
    host: Seq<char>,
    upstream: Seq<char>,
    upgrade: bool,
) -> DecisionView {
    match outbound(head, authority, peer, host, upstream, upgrade) {
        Err(error) => DecisionView::Failed { host, upstream, error, reply: bad_gateway() },
        Ok(request) => if !upgrade {
            DecisionView::Forward { host, upstream, request }
        } else {
            match socket_addr(authority->0) {
                Some(addr) => DecisionView::Upgrade {
                    host,
                    upstream,
                    request,
                    connect_host: addr.0,
                    connect_port: addr.1,
                },
                None => DecisionView::Failed {
                    host,
                    upstream,
                    error: ProxyErrorView::NoAddress,
                    reply: bad_gateway(),
                },
            }
        },
    }
}

/// Whether a request is given up because its headers leave no room for those of the proxy. That
/// takes more names than `REWRITE_ROOM`.
pub open spec fn overfull(
    head: RequestHeadView,
    host: Seq<char>,
    upstream: Seq<char>,
    decision: DecisionView,
) -> bool {
    head.count > REWRITE_ROOM && decision == (DecisionView::Failed {
        host,
        upstream,
        error: ProxyErrorView::TooManyHeaders,
        reply: bad_gateway(),
    })
}

/// What is done with a request, given the routing table.
pub open spec fn decided(
    routes: Map<Seq<char>, String>,
    peer: Seq<char>,
    head: RequestHeadView,
) -> DecisionView {
    match request_host(head) {
        None => DecisionView::Reply(text_reply(400, "missing Host"@)),
        Some(host) => if !routes.contains_key(host) {
            DecisionView::NoRoute { host, reply: text_reply(404, "no route for host"@) }
        } else {
            let upstream = routes[host]@;
            let authority = uri_authority(upstream_uri(upstream, head.path_and_query));
            routed(head, authority, peer, host, upstream, head.values.contains_key("upgrade"@))
        },
    }
}

/// The proxy: its routing table, from lowercase domain to upstream.
pub struct Proxy {
    pub routes: StringHashMap<String>,
}

impl Proxy {
    /// Makes a proxy with a routing table.
    pub fn new(routes: StringHashMap<String>) -> (r: Proxy)
        ensures
            r.routes@ == routes@,
    {
        Proxy { routes }
    }

    /// Decides what is done with a request from the client at `peer`.
    pub fn handle(&self, peer: &str, head: RequestHead) -> (r: Decision)
        ensures
            r@ == decided(self.routes@, peer@, head@) || ({
                &&& request_host(head@) matches Some(host)
                &&& self.routes@.contains_key(host)
                &&& overfull(head@, host, self.routes@[host]@, r@)
            }),
    {
        let host = match extract_host(&head) {
            Some(host) => host,
            None => {
                return Decision::Reply(text_response(400, "missing Host"));
            },
        };
        let upstream = match self.routes.get(host.as_str()) {
            Some(upstream) => upstream.clone(),
            None => {
                return Decision::NoRoute { host, reply: text_response(404, "no route for host") };
            },
        };
        proof {
            lemma_hop_names();
        }
        if has_header(&head.headers, "upgrade") {
            self.forward_upgrade(peer, host, upstream, head)
        } else {
            self.forward(peer, host, upstream, head)
        }
    }

    /// An ordinary request: rewritten, to go out over a pooled connection.
    pub fn forward(&self, peer: &str, host: String, upstream: String, head: RequestHead) -> (r:
        Decision)
        ensures
            r@ == routed(
                head@,
                uri_authority(upstream_uri(upstream@, head@.path_and_query)),
                peer@,
                host@,
                upstream@,
                false,
            ) || overfull(head@, host@, upstream@, r@),
    {
        let RequestHead { authority_host: _, path_and_query, headers } = head;
        let mut headers = headers;
        match rewrite_for_upstream(
            &mut headers,
            &path_and_query,
            peer,
            host.as_str(),
            upstream.as_str(),
            false,
        ) {
            Ok(uri) => Decision::Forward {
                host,
                upstream,
                request: Outbound { uri, version: HttpVersion::Http11, headers },
            },
            Err(error) => Decision::Failed {
                host,
                upstream,
                error,
                reply: text_response(502, "upstream error"),
            },
        }
    }

    /// A request with an `Upgrade` header: rewritten with its negotiation intact, to go out over a
    /// connection of its own, since an upgraded connection cannot go back to the pool.
    pub fn forward_upgrade(
        &self,
        peer: &str,
        host: String,
        upstream: String,
        head: RequestHead,
    ) -> (r: Decision)
        ensures
            r@ == routed(
                head@,
                uri_authority(upstream_uri(upstream@, head@.path_and_query)),
                peer@,
                host@,
                upstream@,
                true,
            ) || overfull(head@, host@, upstream@, r@),
    {
        let RequestHead { authority_host: _, path_and_query, headers } = head;
        let mut headers = headers;
        let error = match rewrite_for_upstream(
            &mut headers,
            &path_and_query,
            peer,
            host.as_str(),
            upstream.as_str(),
            true,
        ) {
            Ok(uri) => match upstream_socket_addr(&uri) {
                Some(addr) => {
                    return Decision::Upgrade {
                        host,
                        upstream,
                        request: Outbound { uri, version: HttpVersion::Http11, headers },
                        connect_host: addr.0,
                        connect_port: addr.1,
                    };
                },
                None => ProxyError::NoAddress,
            },
            Err(error) => error,
        };
        Decision::Failed { host, upstream, error, reply: text_response(502, "upstream error") }
    }
}

/// Makes the headers of an upstream's reply fit for the client.
pub fn forward_reply(headers: &mut HeaderMap)
    ensures
        crate::headers::header_values(*final(headers)) == stripped(
            crate::headers::header_values(*old(headers)),
            false,
        ),
{
    strip_hop_by_hop(headers, false);
}

/// What is done with an upstream's reply to an upgrade request.
#[derive(Debug, Clone, Copy, PartialEq, Eq, Structural)]
pub enum UpgradeReply {
    /// Pass the reply on and copy bytes both ways.
    Tunnel,
    /// The upstream did not upgrade: pass its reply on as an ordinary one.
    Relay,
    /// The upstream switched protocols and left no connection to take over: answer 502.
    Broken,
}

/// Decides what is done with an upstream's reply to an upgrade request. The headers of a reply that
/// switches protocols pass as they are, for they are part of the negotiation.
pub fn upgrade_reply(status: u16, has_connection: bool, headers: &mut HeaderMap) -> (r: UpgradeReply)
    ensures
        r == (if status != 101 {
            UpgradeReply::Relay
        } else if has_connection {
            UpgradeReply::Tunnel
        } else {
            UpgradeReply::Broken
        }),
        crate::headers::header_values(*final(headers)) == (if status == 101 {
            crate::headers::header_values(*old(headers))
        } else {
            stripped(crate::headers::header_values(*old(headers)), false)
        }),
{
    if status == 101 {
        if has_connection {
            UpgradeReply::Tunnel
        } else {
            UpgradeReply::Broken
        }
    } else {
        strip_hop_by_hop(headers, false);
        UpgradeReply::Relay
    }
}

/// The answer to a client whose upstream failed.
pub fn upstream_failed() -> (r: TextReply)
    ensures
        r@ == bad_gateway(),
{
    text_response(502, "upstream error")
}

/// Stripping twice is stripping once: `Connection` is gone, or lists what it listed.
pub proof fn law_strip_is_idempotent(values: HeaderValues, keep_upgrade: bool)
    ensures
        stripped(stripped(values, keep_upgrade), keep_upgrade) == stripped(values, keep_upgrade),
{
    let once = stripped(values, keep_upgrade);
    if keep_upgrade {
        assert(listed_by_connection(once) =~= listed_by_connection(values));
    } else {
        assert(!once.contains_key("connection"@));
        assert(listed_by_connection(once) =~= Set::empty());
    }
    assert(stripped(once, keep_upgrade) =~= once);
}

/// On the way to an upgrade, the headers of the negotiation pass with all their values, and of the
/// other headers exactly those that are neither hop-by-hop nor listed by `Connection`.
pub proof fn law_upgrade_negotiation_survives(values: HeaderValues, name: Seq<char>)
    ensures
        ({
            let after = stripped(values, true);
            let passes = name == "connection"@ || name == "upgrade"@ || (!hop_by_hop().contains(name)
                && !listed_by_connection(values).contains(name));
            &&& after.contains_key(name) <==> values.contains_key(name) && passes
            &&& after.contains_key(name) ==> after[name] == values[name]
        }),
{
}

/// No hop-by-hop header reaches the upstream, and no header that `Connection` lists does, except those
/// of an upgrade negotiation and those that the proxy itself puts in.
pub proof fn law_no_hop_by_hop_reaches_upstream(
    values: HeaderValues,
    authority: Option<AuthorityView>,
    peer: Seq<char>,
    host: Seq<char>,
    keep_upgrade: bool,
    name: Seq<char>,
)
    requires
        hop_by_hop().contains(name) || listed_by_connection(values).contains(name),
        !kept_names(keep_upgrade).contains(name),
        name != "host"@,
        name != "x-forwarded-for"@,
        name != "x-forwarded-proto"@,
        name != "x-forwarded-host"@,
    ensures
        !rewritten(values, authority, peer, host, keep_upgrade).contains_key(name),
{
}

/// A header that is neither hop-by-hop, nor listed by `Connection`, nor one that the proxy puts in
/// reaches the upstream with all its values, and none appears that was not there.
pub proof fn law_other_headers_pass(
    values: HeaderValues,
    authority: Option<AuthorityView>,
    peer: Seq<char>,
    host: Seq<char>,
    keep_upgrade: bool,
    name: Seq<char>,
)
    requires
        !stripped_names(values, keep_upgrade).contains(name),
        name != "host"@,
        name != "x-forwarded-for"@,
        name != "x-forwarded-proto"@,
        name != "x-forwarded-host"@,
    ensures
        ({
            let after = rewritten(values, authority, peer, host, keep_upgrade);
            &&& after.contains_key(name) <==> values.contains_key(name)
            &&& values.contains_key(name) ==> after[name] == values[name]
        }),
{
}

/// The upstream sees its own authority as the only `Host`, and `https` as the only
/// `X-Forwarded-Proto`. The public domain, where it can be a header's value, is the only
/// `X-Forwarded-Host`, and the client, likewise, stands at the end of `X-Forwarded-For`.
pub proof fn law_upstream_sees_proxy_headers(
    values: HeaderValues,
    authority: AuthorityView,
    peer: Seq<char>,
    host: Seq<char>,
    keep_upgrade: bool,
)
    ensures
        ({
            let after = rewritten(values, Some(authority), peer, host, keep_upgrade);
            let chain = forwarded_for(stripped(values, keep_upgrade), peer);
            &&& after.contains_key("host"@) && after["host"@] == only(authority.text)
            &&& after.contains_key("x-forwarded-proto"@) && after["x-forwarded-proto"@] == only(
                "https"@,
            )
            &&& crate::headers::header_value_text(host) ==> after.contains_key("x-forwarded-host"@)
                && after["x-forwarded-host"@] == only(host)
            &&& crate::headers::header_value_text(chain) ==> after.contains_key("x-forwarded-for"@)
                && after["x-forwarded-for"@] == only(chain)
            &&& chain.len() >= peer.len() && chain.skip(chain.len() - peer.len()) == peer
        }),
{
    lemma_forwarded_names();
    let chain = forwarded_for(stripped(values, keep_upgrade), peer);
    assert(chain.skip(chain.len() - peer.len()) =~= peer);
}

/// A host loses its port: `name:port` stands for `name`, and `[address]:port` for `address`.
pub proof fn law_port_is_dropped(name: Seq<char>, port: Seq<char>)
    ensures
        !name.contains(':') && !(name.len() > 0 && name.first() == '[') ==> without_port(
            name + seq![':'] + port,
        ) == name && without_port(name) == name,
        !name.contains(']') ==> without_port(seq!['['] + name + seq![']'] + port) == name,
{
    if !name.contains(':') {
        crate::text::lemma_before_splits(name, ':', port);
        if name.len() > 0 {
            assert((name + seq![':'] + port).first() == name.first());
        }
    }
    if !name.contains(']') {
        crate::text::lemma_before_splits(name, ']', port);
        assert((seq!['['] + name + seq![']'] + port).drop_first() =~= name + seq![']'] + port);
    }
}

/// Case does not matter to the host of a request: a text and its lowercase form have the same one.
pub proof fn law_lowercase_is_idempotent(text: Seq<char>)
    ensures
        crate::text::ascii_lowercase(crate::text::ascii_lowercase(text))
            == crate::text::ascii_lowercase(text),
{
    assert(crate::text::ascii_lowercase(crate::text::ascii_lowercase(text))
        =~= crate::text::ascii_lowercase(text));
}

/// Every domain of an accepted configuration is served: a request whose URI or `Host` header, with a
/// port or without, names the lowercase form of that domain in any ASCII case goes to the upstream of
/// the domain's route. Of an ASCII domain that is the domain itself in any case.
pub proof fn law_configured_domain_is_served(
    config: crate::config::Config,
    i: int,
    name: Seq<char>,
    peer: Seq<char>,
    head: RequestHeadView,
)
    requires
        config.valid(),
        0 <= i < config.http@.len(),
        crate::text::ascii_lowercase(crate::text::trimmed(name))
            == crate::config::lowered_domains(config.http@)[i],
        head.authority_host == Some(name) || (head.authority_host is None
            && crate::headers::header_str(head.values, "host"@) is Some && without_port(
            crate::headers::header_str(head.values, "host"@)->0,
        ) == name),
    ensures
        ({
            let lowered = crate::config::lowered_domains(config.http@);
            let routes = crate::config::route_table(
                config.http@,
                lowered,
                config.http@.len() as int,
            );
            let upstream = config.http@[i].upstream@;
            decided(routes, peer, head) == routed(
                head,
                uri_authority(upstream_uri(upstream, head.path_and_query)),
                peer,
                lowered[i],
                upstream,
                head.values.contains_key("upgrade"@),
            )
        }),
{
    crate::config::law_every_route_is_reached(config, i, name);
}

/// A request for a host that no route of an accepted configuration has is answered with 404, and a
/// request without a host with 400.
pub proof fn law_other_hosts_are_refused(
    config: crate::config::Config,
    peer: Seq<char>,
    head: RequestHeadView,
)
    requires
        config.valid(),
    ensures
        ({
            let lowered = crate::config::lowered_domains(config.http@);
            let routes = crate::config::route_table(
                config.http@,
                lowered,
                config.http@.len() as int,
            );
            &&& request_host(head) is None ==> decided(routes, peer, head) == DecisionView::Reply(
                text_reply(400, "missing Host"@),
            )
            &&& (request_host(head) is Some && !lowered.contains(request_host(head)->0)) ==> decided(
                routes,
                peer,
                head,
            ) == (DecisionView::NoRoute {
                host: request_host(head)->0,
                reply: text_reply(404, "no route for host"@),
            })
        }),
{
    if let Some(host) = request_host(head) {
        crate::config::law_every_route_is_reached(config, 0, host);
    }
}

/// A request that leaves the proxy speaks HTTP/1.1, has the upstream's origin with its own path and
/// query for a URI, with that URI's authority, and asks for an upgrade exactly if the client did. Only
/// one whose upstream gives no URI, or for an upgrade no authority, fails to leave, and it is answered
/// with 502.
pub proof fn law_requests_leave_for_their_upstream(
    routes: Map<Seq<char>, String>,
    peer: Seq<char>,
    head: RequestHeadView,
)
    ensures
        match decided(routes, peer, head) {
            DecisionView::Forward { host, upstream, request } => {
                &&& routes.contains_key(host) && routes[host]@ == upstream
                &&& request.version == HttpVersion::Http11
                &&& request.uri == upstream_uri(upstream, head.path_and_query)
                &&& uri_authority(request.uri) == Some(request.authority)
                &&& !head.values.contains_key("upgrade"@)
                &&& !request.values.contains_key("upgrade"@)
            },
            DecisionView::Upgrade { host, upstream, request, .. } => {
                &&& routes.contains_key(host) && routes[host]@ == upstream
                &&& request.version == HttpVersion::Http11
                &&& request.uri == upstream_uri(upstream, head.path_and_query)
                &&& uri_authority(request.uri) == Some(request.authority)
                &&& head.values.contains_key("upgrade"@)
                &&& request.values.contains_key("upgrade"@) && request.values["upgrade"@]
                    == head.values["upgrade"@]
            },
            DecisionView::Failed { upstream, reply, .. } => {
                let authority = uri_authority(upstream_uri(upstream, head.path_and_query));
                &&& reply.status == 502
                &&& authority is None || (head.values.contains_key("upgrade"@) && authority->0 is None)
            },
            DecisionView::Reply(reply) => reply.status == 400,
            DecisionView::NoRoute { host, reply } => reply.status == 404 && !routes.contains_key(
                host,
            ),
        },
{
    lemma_hop_names();
    lemma_forwarded_names();
    reveal_strlit("upgrade");
    reveal_strlit("host");
    reveal_strlit("x-forwarded-for");
    reveal_strlit("x-forwarded-proto");
    reveal_strlit("x-forwarded-host");
    assert("upgrade"@.len() == 7 && "host"@.len() == 4);
}

/// The address of a peer.
#[derive(Debug, Clone, Copy, PartialEq, Eq, Structural)]
pub enum PeerIp {
    /// An IPv4 address by its four bytes.
    V4(u8, u8, u8, u8),
    /// An IPv6 address by its eight groups.
    V6(u16, u16, u16, u16, u16, u16, u16, u16),
}

/// The address that a peer is known by: an IPv4 address that comes mapped into IPv6, as IPv4
/// clients of a dual-stack listener do, is the IPv4 address.
pub open spec fn unmapped(addr: PeerIp) -> PeerIp {
    match addr {
        PeerIp::V6(a, b, c, d, e, f, g, h) => if a == 0 && b == 0 && c == 0 && d == 0 && e == 0 && f
            == 0xffff {
            PeerIp::V4((g / 256) as u8, (g % 256) as u8, (h / 256) as u8, (h % 256) as u8)
        } else {
            addr
        },
        PeerIp::V4(..) => addr,
    }
}

/// Turns an IPv4-mapped IPv6 address back into IPv4, for the log and for `X-Forwarded-For`.
pub fn client_ip(addr: PeerIp) -> (r: PeerIp)
    ensures
        r == unmapped(addr),
{
    match addr {
        PeerIp::V6(a, b, c, d, e, f, g, h) => if a == 0 && b == 0 && c == 0 && d == 0 && e == 0 && f
            == 0xffff {
            PeerIp::V4((g / 256) as u8, (g % 256) as u8, (h / 256) as u8, (h % 256) as u8)
        } else {
            addr
        },
        PeerIp::V4(..) => addr,
    }
}

/// A client of a dual-stack listener is known by its own address: an IPv4 address mapped into IPv6
/// is given back, and any other address stays as it is.
pub proof fn law_ipv4_clients_keep_their_address(a: u8, b: u8, c: u8, d: u8, addr: PeerIp)
    ensures
        unmapped(
            PeerIp::V6(0, 0, 0, 0, 0, 0xffff, (a * 256 + b) as u16, (c * 256 + d) as u16),
        ) == PeerIp::V4(a, b, c, d),
        unmapped(PeerIp::V4(a, b, c, d)) == PeerIp::V4(a, b, c, d),
        unmapped(unmapped(addr)) == unmapped(addr),
{
}

/// What happens at a listener.
#[derive(Debug, Clone, Copy, PartialEq, Eq, Structural)]
pub enum ListenEvent {
    /// The gateway is shutting down.
    Cancelled,
    /// A connection came in from this address.
    Accepted(PeerIp),
    /// Accepting a connection failed.
    AcceptFailed,
}

/// What the HTTPS listener does next.
#[derive(Debug, Clone, Copy, PartialEq, Eq, Structural)]
pub enum ListenAction {
    /// Stop listening.
    Stop,
    /// Serve the connection, as one of the client at this address, and go on listening.
    Serve(PeerIp),
    /// Go on listening.
    Listen,
}

/// The loop of the HTTPS listener, one turn: it ends on shutdown and on nothing else.
pub fn serve_https(event: ListenEvent) -> (r: ListenAction)
    ensures
        r == (match event {
            ListenEvent::Cancelled => ListenAction::Stop,
            ListenEvent::Accepted(peer) => ListenAction::Serve(unmapped(peer)),
            ListenEvent::AcceptFailed => ListenAction::Listen,
        }),
{
    match event {
        ListenEvent::Cancelled => ListenAction::Stop,
        ListenEvent::Accepted(peer) => ListenAction::Serve(client_ip(peer)),
        ListenEvent::AcceptFailed => ListenAction::Listen,
    }
}

}
