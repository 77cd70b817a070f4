//! What the configuration's rules are, stated over its fields.

use vstd::prelude::*;
use vstd::string::*;

use crate::config::{Config, ConfigError, ConfigErrorView, HttpRoute, TcpRoute};

verus! {

/// Whether a text holds nothing but white space.
pub open spec fn nothing_in(s: Seq<char>) -> bool {
    forall|i: int| 0 <= i < s.len() ==> crate::text::white_space(#[trigger] s[i])
}

/// Whether an HTTP route names a domain and an upstream, and shares its domain with none before it.
pub open spec fn http_route_fits(http: Seq<HttpRoute>, lowered: Seq<Seq<char>>, i: int) -> bool {
    &&& !nothing_in(http[i].domain@)
    &&& !nothing_in(http[i].upstream@)
    &&& forall|j: int| 0 <= j < i ==> #[trigger] lowered[j] != lowered[i]
}

/// Whether a TCP route names an upstream, stays off the HTTPS port and shares its port with none before
/// it.
pub open spec fn tcp_route_fits(tcp: Seq<TcpRoute>, https_listen: u16, i: int) -> bool {
    &&& !nothing_in(tcp[i].upstream@)
    &&& tcp[i].listen != https_listen
    &&& forall|j: int| 0 <= j < i ==> #[trigger] tcp[j].listen != tcp[i].listen
}

/// Whether the sources of certificates are as they should be, and there is a route.
pub open spec fn sources_fit(config: Config) -> bool {
    &&& config.acme is None || config.tls is None
    &&& config.acme is None || !nothing_in((config.acme->0).email@)
    &&& config.http@.len() == 0 || config.acme is Some || config.tls is Some
    &&& config.http@.len() > 0 || config.tcp@.len() > 0
}

proof fn lemma_first_http(http: Seq<HttpRoute>, lowered: Seq<Seq<char>>, i: int, n: int)
    requires
        0 <= i <= n,
        forall|k: int| 0 <= k < i ==> #[trigger] http_route_fits(http, lowered, k),
        i < n ==> !http_route_fits(http, lowered, i),
    ensures
        crate::config::first_http_problem(http, lowered, n) == (if i < n {
            crate::config::http_problem(http, lowered, i)
        } else {
            None
        }),
        i < n ==> crate::config::http_problem(http, lowered, i) is Some,
    decreases n,
{
    if i < n {
        lemma_http_problem(http, lowered, i);
        if i < n - 1 {
            lemma_first_http(http, lowered, i, n - 1);
        } else {
            lemma_first_http(http, lowered, i, i);
        }
    } else if n > 0 {
        lemma_first_http(http, lowered, n - 1, n - 1);
        assert(http_route_fits(http, lowered, n - 1));
        lemma_http_problem(http, lowered, n - 1);
    }
}

proof fn lemma_http_problem(http: Seq<HttpRoute>, lowered: Seq<Seq<char>>, i: int)
    ensures
        crate::config::http_problem(http, lowered, i) is None <==> http_route_fits(http, lowered, i),
{
    crate::text_laws::law_blank_texts(http[i].domain@);
    crate::text_laws::law_blank_texts(http[i].upstream@);
}

proof fn lemma_first_tcp(tcp: Seq<TcpRoute>, https_listen: u16, i: int, n: int)
    requires
        0 <= i <= n,
        forall|k: int| 0 <= k < i ==> #[trigger] tcp_route_fits(tcp, https_listen, k),
        i < n ==> !tcp_route_fits(tcp, https_listen, i),
    ensures
        crate::config::first_tcp_problem(tcp, https_listen, n) == (if i < n {
            crate::config::tcp_problem(tcp, https_listen, i)
        } else {
            None
        }),
        i < n ==> crate::config::tcp_problem(tcp, https_listen, i) is Some,
    decreases n,
{
    if i < n {
        lemma_tcp_problem(tcp, https_listen, i);
        if i < n - 1 {
            lemma_first_tcp(tcp, https_listen, i, n - 1);
        } else {
            lemma_first_tcp(tcp, https_listen, i, i);
        }
    } else if n > 0 {
        lemma_first_tcp(tcp, https_listen, n - 1, n - 1);
        assert(tcp_route_fits(tcp, https_listen, n - 1));
        lemma_tcp_problem(tcp, https_listen, n - 1);
    }
}

proof fn lemma_tcp_problem(tcp: Seq<TcpRoute>, https_listen: u16, i: int)
    ensures
        crate::config::tcp_problem(tcp, https_listen, i) is None <==> tcp_route_fits(
            tcp,
            https_listen,
            i,
        ),
{
    crate::text_laws::law_blank_texts(tcp[i].upstream@);
}

/// The sources of certificates and the presence of a route are checked before any route: at most one
/// source, with a contact address, one wherever there are HTTP routes, and at least one route.
pub proof fn law_sources_are_checked_first(config: Config, lowered: Seq<Seq<char>>)
    ensures
        config.acme is Some && config.tls is Some ==> config.problem(lowered) == Some(
            ConfigErrorView::BothCertSources,
        ),
        config.acme is Some && config.tls is None && nothing_in((config.acme->0).email@)
            ==> config.problem(lowered) == Some(ConfigErrorView::EmptyEmail),
        config.acme is None && config.tls is None && config.http@.len() > 0 ==> config.problem(lowered)
            == Some(ConfigErrorView::NoCertSource),
        config.http@.len() == 0 && config.tcp@.len() == 0 && (config.acme is None || config.tls is None)
            && (config.acme is None || !nothing_in((config.acme->0).email@)) ==> config.problem(lowered)
            == Some(ConfigErrorView::NoRoutes),
{
    if config.acme is Some {
        crate::text_laws::law_blank_texts((config.acme->0).email@);
    }
}

/// Then the HTTP routes are checked in order, and the first that does not fit is reported: a blank
/// domain, or else a blank upstream with the domain, or else the lowercase domain that came before.
pub proof fn law_first_wrong_http_route_is_reported(
    config: Config,
    lowered: Seq<Seq<char>>,
    i: int,
)
    requires
        sources_fit(config),
        0 <= i < config.http@.len(),
        forall|k: int| 0 <= k < i ==> #[trigger] http_route_fits(config.http@, lowered, k),
        !http_route_fits(config.http@, lowered, i),
    ensures
        config.problem(lowered) == Some(
            if nothing_in(config.http@[i].domain@) {
                ConfigErrorView::EmptyDomain
            } else if nothing_in(config.http@[i].upstream@) {
                ConfigErrorView::EmptyHttpUpstream(config.http@[i].domain@)
            } else {
                ConfigErrorView::DuplicateDomain(lowered[i])
            },
        ),
{
    if config.acme is Some {
        crate::text_laws::law_blank_texts((config.acme->0).email@);
    }
    crate::text_laws::law_blank_texts(config.http@[i].domain@);
    crate::text_laws::law_blank_texts(config.http@[i].upstream@);
    lemma_first_http(config.http@, lowered, i, config.http@.len() as int);
}

/// Then the TCP routes are checked in order, and the first that does not fit is reported with its port:
/// a blank upstream, or else the HTTPS port, or else a port that came before.
pub proof fn law_first_wrong_tcp_route_is_reported(
    config: Config,
    lowered: Seq<Seq<char>>,
    i: int,
)
    requires
        sources_fit(config),
        forall|k: int|
            0 <= k < config.http@.len() ==> #[trigger] http_route_fits(config.http@, lowered, k),
        0 <= i < config.tcp@.len(),
        forall|k: int|
            0 <= k < i ==> #[trigger] tcp_route_fits(config.tcp@, config.https_listen, k),
        !tcp_route_fits(config.tcp@, config.https_listen, i),
    ensures
        config.problem(lowered) == Some(
            if nothing_in(config.tcp@[i].upstream@) {
                ConfigErrorView::EmptyTcpUpstream(config.tcp@[i].listen)
            } else if config.tcp@[i].listen == config.https_listen {
                ConfigErrorView::HttpsPortTaken(config.tcp@[i].listen)
            } else {
                ConfigErrorView::DuplicatePort(config.tcp@[i].listen)
            },
        ),
{
    if config.acme is Some {
        crate::text_laws::law_blank_texts((config.acme->0).email@);
    }
    crate::text_laws::law_blank_texts(config.tcp@[i].upstream@);
    lemma_first_http(
        config.http@,
        lowered,
        config.http@.len() as int,
        config.http@.len() as int,
    );
    lemma_first_tcp(config.tcp@, config.https_listen, i, config.tcp@.len() as int);
}

/// Last comes the DDNS section: it names a zone, a record, and where the token is. With that right too,
/// nothing is wrong.
pub proof fn law_ddns_section_is_checked_last(config: Config, lowered: Seq<Seq<char>>)
    requires
        sources_fit(config),
        forall|k: int|
            0 <= k < config.http@.len() ==> #[trigger] http_route_fits(config.http@, lowered, k),
        forall|k: int|
            0 <= k < config.tcp@.len() ==> #[trigger] tcp_route_fits(
                config.tcp@,
                config.https_listen,
                k,
            ),
    ensures
        config.problem(lowered) == (match config.ddns {
            None => None,
            Some(ddns) => if nothing_in(ddns.zone@) {
                Some(ConfigErrorView::EmptyZone)
            } else if ddns.records@.len() == 0 {
                Some(ConfigErrorView::NoRecords)
            } else if ddns.api_token_env is Some || ddns.api_token_file is Some {
                None
            } else {
                Some(ConfigErrorView::NoTokenSource)
            },
        }),
{
    if config.acme is Some {
        crate::text_laws::law_blank_texts((config.acme->0).email@);
    }
    if config.ddns is Some {
        crate::text_laws::law_blank_texts((config.ddns->0).zone@);
    }
    lemma_first_http(
        config.http@,
        lowered,
        config.http@.len() as int,
        config.http@.len() as int,
    );
    lemma_first_tcp(
        config.tcp@,
        config.https_listen,
        config.tcp@.len() as int,
        config.tcp@.len() as int,
    );
}

/// A configuration is accepted exactly if no rule is broken, the domains taken in lowercase.
pub proof fn law_accepted_means_nothing_is_wrong(config: Config)
    ensures
        config.valid() <==> config.problem(crate::config::lowered_domains(config.http@)) is None,
        crate::config::lowered_domains(config.http@).len() == config.http@.len(),
        forall|i: int|
            0 <= i < config.http@.len() ==> #[trigger] crate::config::lowered_domains(config.http@)[i]
                == crate::text::lowercase(config.http@[i].domain@),
{
}

/// The routing table has the lowercase domain of each route, with the upstream of the last route that
/// has it, and nothing else. This holds whether the configuration is accepted or not.
pub proof fn law_routing_table(
    http: Seq<HttpRoute>,
    lowered: Seq<Seq<char>>,
    n: int,
    i: int,
    domain: Seq<char>,
)
    requires
        0 <= n <= http.len(),
    ensures
        0 <= i < n && lowered[i] == domain && (forall|j: int|
            i < j < n ==> #[trigger] lowered[j] != domain) ==> crate::config::route_table(
            http,
            lowered,
            n,
        ).contains_key(domain) && crate::config::route_table(http, lowered, n)[domain]@
            == http[i].upstream@,
        (forall|j: int| 0 <= j < n ==> #[trigger] lowered[j] != domain) ==> !crate::config::route_table(
            http,
            lowered,
            n,
        ).contains_key(domain),
    decreases n,
{
    if n > 0 {
        law_routing_table(http, lowered, n - 1, i, domain);
        if 0 <= i < n - 1 && forall|j: int| i < j < n ==> #[trigger] lowered[j] != domain {
            assert(lowered[n - 1] != domain);
        }
        if forall|j: int| 0 <= j < n ==> #[trigger] lowered[j] != domain {
            assert(lowered[n - 1] != domain);
        }
    }
}

/// What the user is told of each broken rule.
pub proof fn law_broken_rules_are_told(text: Seq<char>, port: u16)
    ensures
        ConfigErrorView::BothCertSources.message() == "[acme] 与 [tls] 只能二选一"@,
        ConfigErrorView::EmptyEmail.message() == "acme.email 不能为空"@,
        ConfigErrorView::NoCertSource.message()
            == "有 [[http]] 路由时必须配置 [acme]（自动签发）或 [tls]（自定义证书）之一"@,
        ConfigErrorView::NoRoutes.message() == "至少要配置一个 [[http]] 或 [[tcp]] 路由"@,
        ConfigErrorView::EmptyDomain.message() == "[[http]] domain 不能为空"@,
        ConfigErrorView::EmptyHttpUpstream(text).message() == "[[http]] upstream 不能为空 (domain="@
            + text + ")"@,
        ConfigErrorView::DuplicateDomain(text).message() == "[[http]] domain 重复: "@ + text,
        ConfigErrorView::EmptyTcpUpstream(port).message() == "[[tcp]] upstream 不能为空 (listen="@
            + crate::text::decimal(port as nat) + ")"@,
        ConfigErrorView::HttpsPortTaken(port).message() == "[[tcp]] listen="@ + crate::text::decimal(
            port as nat,
        ) + " 与 https_listen 冲突，L4 服务必须使用独立端口"@,
        ConfigErrorView::DuplicatePort(port).message() == "[[tcp]] listen 端口重复: "@
            + crate::text::decimal(port as nat),
        ConfigErrorView::EmptyZone.message() == "[ddns] zone 不能为空"@,
        ConfigErrorView::NoRecords.message() == "[ddns] records 不能为空"@,
        ConfigErrorView::NoTokenSource.message() == "[ddns] 需要 api_token_env 或 api_token_file 之一"@,
{
}

/// The view of an error is the error with its text as characters.
pub proof fn law_views_of_broken_rules(text: String, port: u16)
    ensures
        ConfigError::BothCertSources@ == ConfigErrorView::BothCertSources,
        ConfigError::EmptyEmail@ == ConfigErrorView::EmptyEmail,
        ConfigError::NoCertSource@ == ConfigErrorView::NoCertSource,
        ConfigError::NoRoutes@ == ConfigErrorView::NoRoutes,
        ConfigError::EmptyDomain@ == ConfigErrorView::EmptyDomain,
        ConfigError::EmptyHttpUpstream(text)@ == ConfigErrorView::EmptyHttpUpstream(text@),
        ConfigError::DuplicateDomain(text)@ == ConfigErrorView::DuplicateDomain(text@),
        ConfigError::EmptyTcpUpstream(port)@ == ConfigErrorView::EmptyTcpUpstream(port),
        ConfigError::HttpsPortTaken(port)@ == ConfigErrorView::HttpsPortTaken(port),
        ConfigError::DuplicatePort(port)@ == ConfigErrorView::DuplicatePort(port),
        ConfigError::EmptyZone@ == ConfigErrorView::EmptyZone,
        ConfigError::NoRecords@ == ConfigErrorView::NoRecords,
        ConfigError::NoTokenSource@ == ConfigErrorView::NoTokenSource,
{
}

}
