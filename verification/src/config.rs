//! The configuration: what it holds, its defaults, and the rules it has to meet.
//!
//! A configuration has
//! - `[acme]`, certificates issued by Let's Encrypt, or `[tls]`, a certificate of one's own;
//! - `[[http]]` routes, which share one HTTPS port and are told apart by their domain;
//! - `[[tcp]]` routes, each with a listening port to itself;
//! - `[ddns]`, which keeps Cloudflare AAAA records on the gateway's address.

use std::collections::HashSet;

use vstd::hash_map::StringHashMap;
use vstd::prelude::*;
use vstd::string::*;

use crate::text::{is_blank, to_decimal};

verus! {

broadcast use vstd::std_specs::hash::group_hash_axioms;

/// The whole configuration.
#[derive(Debug, Clone)]
pub struct Config {
    /// Certificates from Let's Encrypt; excludes `tls`.
    pub acme: Option<AcmeConfig>,
    /// A certificate of one's own; excludes `acme`.
    pub tls: Option<TlsCertConfig>,
    /// The HTTPS port.
    pub https_listen: u16,
    pub http: Vec<HttpRoute>,
    pub tcp: Vec<TcpRoute>,
    pub ddns: Option<DdnsConfig>,
}

/// Certificates issued and renewed by Let's Encrypt.
#[derive(Debug, Clone)]
pub struct AcmeConfig {
    /// The contact address.
    pub email: String,
    /// Where certificates and the account are kept between runs.
    pub cache_dir: String,
    /// Whether to use the test environment of Let's Encrypt.
    pub staging: bool,
}

/// A certificate and its key in PEM files.
#[derive(Debug, Clone)]
pub struct TlsCertConfig {
    /// Path of the certificate chain.
    pub cert: String,
    /// Path of the private key.
    pub key: String,
}

/// An HTTPS route.
#[derive(Debug, Clone)]
pub struct HttpRoute {
    /// The public domain.
    pub domain: String,
    /// The origin behind it, such as `http://192.168.10.103:8080`.
    pub upstream: String,
}

/// A TCP route.
#[derive(Debug, Clone)]
pub struct TcpRoute {
    /// The port to listen on.
    pub listen: u16,
    /// The `host:port` behind it.
    pub upstream: String,
}

/// Cloudflare DDNS.
#[derive(Debug, Clone)]
pub struct DdnsConfig {
    /// The zone's name, such as `example.com`.
    pub zone: String,
    /// The zone's id; looked up by name where it is absent.
    pub zone_id: Option<String>,
    /// The names of the AAAA records to keep up to date.
    pub records: Vec<String>,
    /// The environment variable that holds the API token.
    pub api_token_env: Option<String>,
    /// The file that holds the API token.
    pub api_token_file: Option<String>,
    /// Seconds between two rounds.
    pub interval_secs: u64,
}

/// The HTTPS port where the configuration names none.
pub fn default_https_listen() -> (r: u16)
    ensures
        r == 443,
{
    443
}

/// The certificate cache where the configuration names none.
pub fn default_cache_dir() -> (r: String)
    ensures
        r@ == "./acme-cache"@,
{
    "./acme-cache".to_owned()
}

/// Whether the test environment is used where the configuration does not say.
pub fn default_true() -> (r: bool)
    ensures
        r,
{
    true
}

/// Seconds between two DDNS rounds where the configuration does not say.
pub fn default_ddns_interval() -> (r: u64)
    ensures
        r == 60,
{
    60
}

/// Why a configuration is refused.
#[derive(Debug, Clone)]
pub enum ConfigError {
    /// `[acme]` and `[tls]` are both there.
    BothCertSources,
    /// The contact address is blank.
    EmptyEmail,
    /// There are `[[http]]` routes and no source of certificates.
    NoCertSource,
    /// There is no route.
    NoRoutes,
    /// A route's domain is blank.
    EmptyDomain,
    /// The upstream of the route for this domain is blank.
    EmptyHttpUpstream(String),
    /// Two routes have this domain, up to case.
    DuplicateDomain(String),
    /// The upstream of the route on this port is blank.
    EmptyTcpUpstream(u16),
    /// A TCP route listens on the HTTPS port.
    HttpsPortTaken(u16),
    /// Two TCP routes listen on this port.
    DuplicatePort(u16),
    /// The zone's name is blank.
    EmptyZone,
    /// No record is named.
    NoRecords,
    /// No place of the API token is named.
    NoTokenSource,
}

/// A `ConfigError` with its text as characters.
pub enum ConfigErrorView {
    BothCertSources,
    EmptyEmail,
    NoCertSource,
    NoRoutes,
    EmptyDomain,
    EmptyHttpUpstream(Seq<char>),
    DuplicateDomain(Seq<char>),
    EmptyTcpUpstream(u16),
    HttpsPortTaken(u16),
    DuplicatePort(u16),
    EmptyZone,
    NoRecords,
    NoTokenSource,
}

impl View for ConfigError {
    type V = ConfigErrorView;

    open spec fn view(&self) -> ConfigErrorView {
        match self {
            ConfigError::BothCertSources => ConfigErrorView::BothCertSources,
            ConfigError::EmptyEmail => ConfigErrorView::EmptyEmail,
            ConfigError::NoCertSource => ConfigErrorView::NoCertSource,
            ConfigError::NoRoutes => ConfigErrorView::NoRoutes,
            ConfigError::EmptyDomain => ConfigErrorView::EmptyDomain,
            ConfigError::EmptyHttpUpstream(domain) => ConfigErrorView::EmptyHttpUpstream(domain@),
            ConfigError::DuplicateDomain(domain) => ConfigErrorView::DuplicateDomain(domain@),
            ConfigError::EmptyTcpUpstream(port) => ConfigErrorView::EmptyTcpUpstream(*port),
            ConfigError::HttpsPortTaken(port) => ConfigErrorView::HttpsPortTaken(*port),
            ConfigError::DuplicatePort(port) => ConfigErrorView::DuplicatePort(*port),
            ConfigError::EmptyZone => ConfigErrorView::EmptyZone,
            ConfigError::NoRecords => ConfigErrorView::NoRecords,
            ConfigError::NoTokenSource => ConfigErrorView::NoTokenSource,
        }
    }
}

impl ConfigErrorView {
    /// The sentence that tells the user what is wrong.
    pub open spec fn message(self) -> Seq<char> {
        match self {
            ConfigErrorView::BothCertSources => "[acme] 与 [tls] 只能二选一"@,
            ConfigErrorView::EmptyEmail => "acme.email 不能为空"@,
            ConfigErrorView::NoCertSource =>
                "有 [[http]] 路由时必须配置 [acme]（自动签发）或 [tls]（自定义证书）之一"@,
            ConfigErrorView::NoRoutes => "至少要配置一个 [[http]] 或 [[tcp]] 路由"@,
            ConfigErrorView::EmptyDomain => "[[http]] domain 不能为空"@,
            ConfigErrorView::EmptyHttpUpstream(domain) => "[[http]] upstream 不能为空 (domain="@
                + domain + ")"@,
            ConfigErrorView::DuplicateDomain(domain) => "[[http]] domain 重复: "@ + domain,
            ConfigErrorView::EmptyTcpUpstream(port) => "[[tcp]] upstream 不能为空 (listen="@
                + crate::text::decimal(port as nat) + ")"@,
            ConfigErrorView::HttpsPortTaken(port) => "[[tcp]] listen="@ + crate::text::decimal(
                port as nat,
            ) + " 与 https_listen 冲突，L4 服务必须使用独立端口"@,
            ConfigErrorView::DuplicatePort(port) => "[[tcp]] listen 端口重复: "@
                + crate::text::decimal(port as nat),
            ConfigErrorView::EmptyZone => "[ddns] zone 不能为空"@,
            ConfigErrorView::NoRecords => "[ddns] records 不能为空"@,
            ConfigErrorView::NoTokenSource => "[ddns] 需要 api_token_env 或 api_token_file 之一"@,
        }
    }
}

impl ConfigError {
    /// Tells the user what is wrong.
    pub fn message(&self) -> (r: String)
        ensures
            r@ == self@.message(),
    {
        match self {
            ConfigError::BothCertSources => "[acme] 与 [tls] 只能二选一".to_owned(),
            ConfigError::EmptyEmail => "acme.email 不能为空".to_owned(),
            ConfigError::NoCertSource =>
                "有 [[http]] 路由时必须配置 [acme]（自动签发）或 [tls]（自定义证书）之一".to_owned(),
            ConfigError::NoRoutes => "至少要配置一个 [[http]] 或 [[tcp]] 路由".to_owned(),
            ConfigError::EmptyDomain => "[[http]] domain 不能为空".to_owned(),
            ConfigError::EmptyHttpUpstream(domain) => {
                let mut out = "[[http]] upstream 不能为空 (domain=".to_owned();
                out.append(domain.as_str());
                out.append(")");
                out
            },
            ConfigError::DuplicateDomain(domain) => {
                let mut out = "[[http]] domain 重复: ".to_owned();
                out.append(domain.as_str());
                out
            },
            ConfigError::EmptyTcpUpstream(port) => {
                let mut out = "[[tcp]] upstream 不能为空 (listen=".to_owned();
                out.append(to_decimal(*port as u64).as_str());
                out.append(")");
                out
            },
            ConfigError::HttpsPortTaken(port) => {
                let mut out = "[[tcp]] listen=".to_owned();
                out.append(to_decimal(*port as u64).as_str());
                out.append(" 与 https_listen 冲突，L4 服务必须使用独立端口");
                out
            },
            ConfigError::DuplicatePort(port) => {
                let mut out = "[[tcp]] listen 端口重复: ".to_owned();
                out.append(to_decimal(*port as u64).as_str());
                out
            },
            ConfigError::EmptyZone => "[ddns] zone 不能为空".to_owned(),
            ConfigError::NoRecords => "[ddns] records 不能为空".to_owned(),
            ConfigError::NoTokenSource =>
                "[ddns] 需要 api_token_env 或 api_token_file 之一".to_owned(),
        }
    }
}

/// What is wrong with the `i`-th HTTP route, given the lowercase domains of the routes.
pub open spec fn http_problem(
    http: Seq<HttpRoute>,
    lowered: Seq<Seq<char>>,
    i: int,
) -> Option<ConfigErrorView> {
    if crate::text::blank(http[i].domain@) {
        Some(ConfigErrorView::EmptyDomain)
    } else if crate::text::blank(http[i].upstream@) {
        Some(ConfigErrorView::EmptyHttpUpstream(http[i].domain@))
    } else if exists|j: int| 0 <= j < i && #[trigger] lowered[j] == lowered[i] {
        Some(ConfigErrorView::DuplicateDomain(lowered[i]))
    } else {
        None
    }
}

/// The first problem among the first `n` HTTP routes.
pub open spec fn first_http_problem(
    http: Seq<HttpRoute>,
    lowered: Seq<Seq<char>>,
    n: int,
) -> Option<ConfigErrorView>
    decreases n,
{
    if n <= 0 {
        None
    } else {
        match first_http_problem(http, lowered, n - 1) {
            Some(problem) => Some(problem),
            None => http_problem(http, lowered, n - 1),
        }
    }
}

/// What is wrong with the `i`-th TCP route beside the HTTPS port.
pub open spec fn tcp_problem(
    tcp: Seq<TcpRoute>,
    https_listen: u16,
    i: int,
) -> Option<ConfigErrorView> {
    if crate::text::blank(tcp[i].upstream@) {
        Some(ConfigErrorView::EmptyTcpUpstream(tcp[i].listen))
    } else if tcp[i].listen == https_listen {
        Some(ConfigErrorView::HttpsPortTaken(tcp[i].listen))
    } else if exists|j: int| 0 <= j < i && #[trigger] tcp[j].listen == tcp[i].listen {
        Some(ConfigErrorView::DuplicatePort(tcp[i].listen))
    } else {
        None
    }
}

/// The first problem among the first `n` TCP routes.
pub open spec fn first_tcp_problem(
    tcp: Seq<TcpRoute>,
    https_listen: u16,
    n: int,
) -> Option<ConfigErrorView>
    decreases n,
{
    if n <= 0 {
        None
    } else {
        match first_tcp_problem(tcp, https_listen, n - 1) {
            Some(problem) => Some(problem),
            None => tcp_problem(tcp, https_listen, n - 1),
        }
    }
}

/// What is wrong with the DDNS section.
pub open spec fn ddns_problem(ddns: Option<DdnsConfig>) -> Option<ConfigErrorView> {
    match ddns {
        None => None,
        Some(ddns) => if crate::text::blank(ddns.zone@) {
            Some(ConfigErrorView::EmptyZone)
        } else if ddns.records@.len() == 0 {
            Some(ConfigErrorView::NoRecords)
        } else if ddns.api_token_env is None && ddns.api_token_file is None {
            Some(ConfigErrorView::NoTokenSource)
        } else {
            None
        },
    }
}

/// The lowercase form of each route's domain.
pub open spec fn lowered_domains(http: Seq<HttpRoute>) -> Seq<Seq<char>> {
    http.map_values(|route: HttpRoute| crate::text::lowercase(route.domain@))
}

impl Config {
    /// The first rule, in the order they are checked, that the configuration breaks.
    /// `lowered` holds the lowercase domains of its HTTP routes.
    pub open spec fn problem(self, lowered: Seq<Seq<char>>) -> Option<ConfigErrorView> {
        if self.acme is Some && self.tls is Some {
            Some(ConfigErrorView::BothCertSources)
        } else if self.acme matches Some(acme) && crate::text::blank(acme.email@) {
            Some(ConfigErrorView::EmptyEmail)
        } else if self.http@.len() > 0 && self.acme is None && self.tls is None {
            Some(ConfigErrorView::NoCertSource)
        } else if self.http@.len() == 0 && self.tcp@.len() == 0 {
            Some(ConfigErrorView::NoRoutes)
        } else if first_http_problem(self.http@, lowered, self.http@.len() as int) is Some {
            first_http_problem(self.http@, lowered, self.http@.len() as int)
        } else if first_tcp_problem(self.tcp@, self.https_listen, self.tcp@.len() as int) is Some {
            first_tcp_problem(self.tcp@, self.https_listen, self.tcp@.len() as int)
        } else {
            ddns_problem(self.ddns)
        }
    }

    /// Whether the configuration meets every rule.
    pub open spec fn valid(self) -> bool {
        self.problem(lowered_domains(self.http@)) is None
    }

    /// Accepts a configuration that was read, once its rules are found to hold.
    pub fn load(parsed: Config) -> (r: Result<Config, ConfigError>)
        ensures
            match r {
                Ok(config) => parsed.valid() && config == parsed,
                Err(error) => parsed.problem(lowered_domains(parsed.http@)) == Some(error@),
            },
    {
        match parsed.validate() {
            Ok(_) => Ok(parsed),
            Err(error) => Err(error),
        }
    }

    /// Checks the rules and reports the first one broken.
    pub fn validate(&self) -> (r: Result<(), ConfigError>)
        ensures
            match r {
                Ok(_) => self.valid(),
                Err(error) => self.problem(lowered_domains(self.http@)) == Some(error@),
            },
    {
        let lowered = self.acme_domains();
        assert(lowered@.len() == crate::text::texts(lowered@).len());
        self.validate_with(&lowered)
    }

    /// Checks the rules, given the lowercase domains of the HTTP routes.
    pub fn validate_with(&self, lowered: &Vec<String>) -> (r: Result<(), ConfigError>)
        requires
            lowered@.len() == self.http@.len(),
        ensures
            match r {
                Ok(_) => self.problem(crate::text::texts(lowered@)) is None,
                Err(error) => self.problem(crate::text::texts(lowered@)) == Some(error@),
            },
    {
        if self.acme.is_some() && self.tls.is_some() {
            return Err(ConfigError::BothCertSources);
        }
        if let Some(acme) = &self.acme {
            if is_blank(acme.email.as_str()) {
                return Err(ConfigError::EmptyEmail);
            }
        }
        if self.http.len() > 0 && self.acme.is_none() && self.tls.is_none() {
            return Err(ConfigError::NoCertSource);
        }
        if self.http.len() == 0 && self.tcp.len() == 0 {
            return Err(ConfigError::NoRoutes);
        }
        match check_http(&self.http, lowered) {
            Ok(_) => {},
            Err(error) => {
                return Err(error);
            },
        }
        match check_tcp(&self.tcp, self.https_listen) {
            Ok(_) => {},
            Err(error) => {
                return Err(error);
            },
        }
        if let Some(ddns) = &self.ddns {
            if is_blank(ddns.zone.as_str()) {
                return Err(ConfigError::EmptyZone);
            }
            if ddns.records.len() == 0 {
                return Err(ConfigError::NoRecords);
            }
            if ddns.api_token_env.is_none() && ddns.api_token_file.is_none() {
                return Err(ConfigError::NoTokenSource);
            }
        }
        Ok(())
    }

    /// The domains that certificates are asked for, in lowercase. Those of an accepted configuration
    /// all differ, and none of them is blank.
    pub fn acme_domains(&self) -> (r: Vec<String>)
        ensures
            crate::text::texts(r@) == lowered_domains(self.http@),
            forall|i: int|
                0 <= i < self.http@.len() && vstd::utf8::is_ascii_chars(self.http@[i].domain@)
                    ==> (#[trigger] lowered_domains(self.http@)[i])
                    == crate::text::ascii_lowercase(self.http@[i].domain@),
            r@.len() == self.http@.len(),
            self.valid() ==> crate::text::texts(r@).no_duplicates(),
            self.valid() ==> forall|i: int|
                0 <= i < r@.len() ==> !crate::text::blank(#[trigger] crate::text::texts(r@)[i]),
    {
        let mut out: Vec<String> = Vec::new();
        let mut i: usize = 0;
        while i < self.http.len()
            invariant
                i <= self.http@.len(),
                crate::text::texts(out@) == lowered_domains(self.http@.take(i as int)),
                forall|j: int|
                    0 <= j < i && vstd::utf8::is_ascii_chars(self.http@[j].domain@)
                        ==> (#[trigger] lowered_domains(self.http@)[j])
                        == crate::text::ascii_lowercase(self.http@[j].domain@),
                forall|j: int|
                    0 <= j < i && crate::text::blank(#[trigger] lowered_domains(self.http@)[j])
                        ==> crate::text::blank(self.http@[j].domain@),
            decreases self.http.len() - i,
        {
            let ghost earlier = out@;
            let domain = self.http[i].domain.as_str().to_lowercase();
            out.push(domain);
            proof {
                assert(self.http@.take(i + 1) =~= self.http@.take(i as int).push(self.http@[i as int]));
                assert(crate::text::texts(out@) =~= crate::text::texts(earlier).push(domain@));
                assert(lowered_domains(self.http@.take(i + 1)) =~= lowered_domains(
                    self.http@.take(i as int),
                ).push(crate::text::lowercase(self.http@[i as int].domain@)));
            }
            i = i + 1;
        }
        assert(self.http@.take(self.http@.len() as int) == self.http@);
        assert(out@.len() == crate::text::texts(out@).len());
        proof {
            if self.valid() {
                law_accepted_configurations(*self);
                assert forall|i: int| 0 <= i < out@.len() implies !crate::text::blank(
                    #[trigger] crate::text::texts(out@)[i],
                ) by {
                    assert(!crate::text::blank(self.http@[i].domain@));
                }
            }
        }
        out
    }
}

/// A problem among the first routes is the first problem of all of them.
proof fn lemma_http_problem_stays(
    http: Seq<HttpRoute>,
    lowered: Seq<Seq<char>>,
    m: int,
    n: int,
)
    requires
        0 <= m <= n,
        first_http_problem(http, lowered, m) is Some,
    ensures
        first_http_problem(http, lowered, n) == first_http_problem(http, lowered, m),
    decreases n - m,
{
    if m < n {
        lemma_http_problem_stays(http, lowered, m, n - 1);
    }
}

/// Checks the HTTP routes: no blank domain, no blank upstream, no domain twice.
fn check_http(http: &Vec<HttpRoute>, lowered: &Vec<String>) -> (r: Result<(), ConfigError>)
    requires
        lowered@.len() == http@.len(),
    ensures
        match r {
            Ok(_) => first_http_problem(
                http@,
                crate::text::texts(lowered@),
                http@.len() as int,
            ) is None,
            Err(error) => first_http_problem(
                http@,
                crate::text::texts(lowered@),
                http@.len() as int,
            ) == Some(error@),
        },
{
    let ghost low = crate::text::texts(lowered@);
    let mut seen: StringHashMap<bool> = StringHashMap::new();
    let mut i: usize = 0;
    while i < http.len()
        invariant
            i <= http@.len(),
            lowered@.len() == http@.len(),
            low == crate::text::texts(lowered@),
            first_http_problem(http@, low, i as int) is None,
            forall|d: Seq<char>|
                seen@.contains_key(d) <==> exists|j: int| 0 <= j < i && #[trigger] low[j] == d,
        decreases http.len() - i,
    {
        let route = &http[i];
        proof {
            if http_problem(http@, low, i as int) is Some {
                lemma_http_problem_stays(http@, low, i + 1, http@.len() as int);
            }
        }
        if is_blank(route.domain.as_str()) {
            return Err(ConfigError::EmptyDomain);
        }
        if is_blank(route.upstream.as_str()) {
            return Err(ConfigError::EmptyHttpUpstream(route.domain.clone()));
        }
        let domain = lowered[i].clone();
        assert(domain@ == low[i as int]);
        if seen.contains_key(domain.as_str()) {
            return Err(ConfigError::DuplicateDomain(domain));
        }
        let ghost before = seen@;
        seen.insert(domain, true);
        assert forall|d: Seq<char>|
            seen@.contains_key(d) <==> exists|j: int| 0 <= j < i + 1 && #[trigger] low[j] == d by {
            if d == low[i as int] {
                assert(seen@.contains_key(d));
            } else {
                assert(seen@.contains_key(d) == before.contains_key(d));
            }
        }
        i = i + 1;
    }
    Ok(())
}

/// A problem among the first routes is the first problem of all of them.
proof fn lemma_tcp_problem_stays(tcp: Seq<TcpRoute>, https_listen: u16, m: int, n: int)
    requires
        0 <= m <= n,
        first_tcp_problem(tcp, https_listen, m) is Some,
    ensures
        first_tcp_problem(tcp, https_listen, n) == first_tcp_problem(tcp, https_listen, m),
    decreases n - m,
{
    if m < n {
        lemma_tcp_problem_stays(tcp, https_listen, m, n - 1);
    }
}

/// Checks the TCP routes: no blank upstream, no port twice, none on the HTTPS port.
fn check_tcp(tcp: &Vec<TcpRoute>, https_listen: u16) -> (r: Result<(), ConfigError>)
    ensures
        match r {
            Ok(_) => first_tcp_problem(tcp@, https_listen, tcp@.len() as int) is None,
            Err(error) => first_tcp_problem(tcp@, https_listen, tcp@.len() as int) == Some(error@),
        },
{
    let mut ports: HashSet<u16> = HashSet::new();
    let mut i: usize = 0;
    while i < tcp.len()
        invariant
            i <= tcp@.len(),
            first_tcp_problem(tcp@, https_listen, i as int) is None,
            forall|p: u16|
                ports@.contains(p) <==> exists|j: int| 0 <= j < i && #[trigger] tcp@[j].listen == p,
        decreases tcp.len() - i,
    {
        let route = &tcp[i];
        proof {
            if tcp_problem(tcp@, https_listen, i as int) is Some {
                lemma_tcp_problem_stays(tcp@, https_listen, i + 1, tcp@.len() as int);
            }
        }
        if is_blank(route.upstream.as_str()) {
            return Err(ConfigError::EmptyTcpUpstream(route.listen));
        }
        if route.listen == https_listen {
            return Err(ConfigError::HttpsPortTaken(route.listen));
        }
        if !ports.insert(route.listen) {
            return Err(ConfigError::DuplicatePort(route.listen));
        }
        i = i + 1;
    }
    Ok(())
}

/// The routing table of the first `n` HTTP routes: lowercase domain to upstream. Where two routes
/// share a domain, the later one stands.
pub open spec fn route_table(
    http: Seq<HttpRoute>,
    lowered: Seq<Seq<char>>,
    n: int,
) -> Map<Seq<char>, String>
    decreases n,
{
    if n <= 0 {
        Map::empty()
    } else {
        route_table(http, lowered, n - 1).insert(lowered[n - 1], http[n - 1].upstream)
    }
}

impl Config {
    /// The routing table of the HTTPS proxy: lowercase domain to upstream.
    pub fn routes(&self) -> (r: StringHashMap<String>)
        ensures
            r@ == route_table(
                self.http@,
                lowered_domains(self.http@),
                self.http@.len() as int,
            ),
    {
        let lowered = self.acme_domains();
        assert(lowered@.len() == crate::text::texts(lowered@).len());
        self.routes_with(&lowered)
    }

    /// The routing table, given the lowercase domains of the HTTP routes.
    pub fn routes_with(&self, lowered: &Vec<String>) -> (r: StringHashMap<String>)
        requires
            lowered@.len() == self.http@.len(),
        ensures
            r@ == route_table(
                self.http@,
                crate::text::texts(lowered@),
                self.http@.len() as int,
            ),
    {
        let mut table: StringHashMap<String> = StringHashMap::new();
        let mut i: usize = 0;
        while i < self.http.len()
            invariant
                i <= self.http@.len(),
                lowered@.len() == self.http@.len(),
                table@ == route_table(self.http@, crate::text::texts(lowered@), i as int),
            decreases self.http.len() - i,
        {
            table.insert(lowered[i].clone(), self.http[i].upstream.clone());
            i = i + 1;
        }
        table
    }
}

/// No problem among the first `n` HTTP routes means that none of them has one, and the reverse.
proof fn lemma_no_http_problem(http: Seq<HttpRoute>, lowered: Seq<Seq<char>>, n: int)
    requires
        0 <= n,
    ensures
        first_http_problem(http, lowered, n) is None <==> (forall|i: int|
            0 <= i < n ==> #[trigger] http_problem(http, lowered, i) is None),
    decreases n,
{
    if n > 0 {
        lemma_no_http_problem(http, lowered, n - 1);
        if first_http_problem(http, lowered, n) is None {
            assert forall|i: int| 0 <= i < n implies #[trigger] http_problem(
                http,
                lowered,
                i,
            ) is None by {}
        }
    }
}

/// No problem among the first `n` TCP routes means that none of them has one, and the reverse.
proof fn lemma_no_tcp_problem(tcp: Seq<TcpRoute>, https_listen: u16, n: int)
    requires
        0 <= n,
    ensures
        first_tcp_problem(tcp, https_listen, n) is None <==> (forall|i: int|
            0 <= i < n ==> #[trigger] tcp_problem(tcp, https_listen, i) is None),
    decreases n,
{
    if n > 0 {
        lemma_no_tcp_problem(tcp, https_listen, n - 1);
        if first_tcp_problem(tcp, https_listen, n) is None {
            assert forall|i: int| 0 <= i < n implies #[trigger] tcp_problem(
                tcp,
                https_listen,
                i,
            ) is None by {}
        }
    }
}

/// Whether every HTTP route names a domain and an upstream, and no two share a domain up to case.
pub open spec fn http_routes_sound(http: Seq<HttpRoute>, lowered: Seq<Seq<char>>) -> bool {
    &&& forall|i: int|
        0 <= i < http.len() ==> !crate::text::blank(#[trigger] http[i].domain@)
            && !crate::text::blank(http[i].upstream@)
    &&& forall|i: int, j: int|
        0 <= i < j < http.len() ==> #[trigger] lowered[i] != #[trigger] lowered[j]
}

/// Whether every TCP route names an upstream and has a port to itself, apart from the HTTPS port.
pub open spec fn tcp_routes_sound(tcp: Seq<TcpRoute>, https_listen: u16) -> bool {
    &&& forall|i: int|
        0 <= i < tcp.len() ==> !crate::text::blank(#[trigger] tcp[i].upstream@) && tcp[i].listen
            != https_listen
    &&& forall|i: int, j: int|
        0 <= i < j < tcp.len() ==> #[trigger] tcp[i].listen != #[trigger] tcp[j].listen
}

/// A configuration is accepted exactly when: it has at most one source of certificates, with a
/// contact address where that is Let's Encrypt; it has one wherever it has HTTP routes; it has a
/// route; its HTTP routes are complete and differ in domain; its TCP routes are complete, differ in
/// port and stay off the HTTPS port; and its DDNS section names a zone, a record and a token.
pub proof fn law_accepted_configurations(config: Config)
    ensures
        config.valid() <==> {
            &&& config.acme is None || config.tls is None
            &&& config.acme matches Some(acme) ==> !crate::text::blank(acme.email@)
            &&& config.http@.len() > 0 ==> config.acme is Some || config.tls is Some
            &&& config.http@.len() > 0 || config.tcp@.len() > 0
            &&& http_routes_sound(config.http@, lowered_domains(config.http@))
            &&& tcp_routes_sound(config.tcp@, config.https_listen)
            &&& config.ddns matches Some(ddns) ==> {
                &&& !crate::text::blank(ddns.zone@)
                &&& ddns.records@.len() > 0
                &&& ddns.api_token_env is Some || ddns.api_token_file is Some
            }
        },
{
    let http = config.http@;
    let tcp = config.tcp@;
    let lowered = lowered_domains(http);
    lemma_no_http_problem(http, lowered, http.len() as int);
    lemma_no_tcp_problem(tcp, config.https_listen, tcp.len() as int);
    if forall|i: int| 0 <= i < http.len() ==> #[trigger] http_problem(http, lowered, i) is None {
        assert forall|i: int| 0 <= i < http.len() implies !crate::text::blank(
            #[trigger] http[i].domain@,
        ) && !crate::text::blank(http[i].upstream@) by {
            assert(http_problem(http, lowered, i) is None);
        }
        assert forall|i: int, j: int| 0 <= i < j < http.len() implies #[trigger] lowered[i]
            != #[trigger] lowered[j] by {
            assert(http_problem(http, lowered, j) is None);
        }
        assert(http_routes_sound(http, lowered));
    }
    if http_routes_sound(http, lowered) {
        assert forall|i: int| 0 <= i < http.len() implies #[trigger] http_problem(
            http,
            lowered,
            i,
        ) is None by {
            assert(!crate::text::blank(http[i].domain@));
        }
    }
    if forall|i: int|
        0 <= i < tcp.len() ==> #[trigger] tcp_problem(tcp, config.https_listen, i) is None {
        assert forall|i: int| 0 <= i < tcp.len() implies !crate::text::blank(
            #[trigger] tcp[i].upstream@,
        ) && tcp[i].listen != config.https_listen by {
            assert(tcp_problem(tcp, config.https_listen, i) is None);
        }
        assert forall|i: int, j: int| 0 <= i < j < tcp.len() implies #[trigger] tcp[i].listen
            != #[trigger] tcp[j].listen by {
            assert(tcp_problem(tcp, config.https_listen, j) is None);
        }
        assert(tcp_routes_sound(tcp, config.https_listen));
    }
    if tcp_routes_sound(tcp, config.https_listen) {
        assert forall|i: int| 0 <= i < tcp.len() implies #[trigger] tcp_problem(
            tcp,
            config.https_listen,
            i,
        ) is None by {
            assert(!crate::text::blank(tcp[i].upstream@));
        }
    }
}

/// A domain that no later route shares keeps its upstream in the table.
proof fn lemma_route_kept(http: Seq<HttpRoute>, lowered: Seq<Seq<char>>, i: int, n: int)
    requires
        0 <= i < n,
        forall|j: int| i < j < n ==> #[trigger] lowered[j] != lowered[i],
    ensures
        route_table(http, lowered, n).contains_key(lowered[i]),
        route_table(http, lowered, n)[lowered[i]] == http[i].upstream,
    decreases n,
{
    if n - 1 > i {
        lemma_route_kept(http, lowered, i, n - 1);
        assert(lowered[n - 1] != lowered[i]);
    }
}

/// Each key of the table is the domain of a route.
proof fn lemma_route_comes_from(
    http: Seq<HttpRoute>,
    lowered: Seq<Seq<char>>,
    n: int,
    domain: Seq<char>,
)
    ensures
        route_table(http, lowered, n).contains_key(domain) ==> exists|i: int|
            0 <= i < n && #[trigger] lowered[i] == domain,
    decreases n,
{
    if n > 0 {
        lemma_route_comes_from(http, lowered, n - 1, domain);
        if domain == lowered[n - 1] {
            assert(0 <= n - 1 < n && lowered[n - 1] == domain);
        }
    }
}

/// The table of an accepted configuration sends the lowercase domain of each HTTP route to that
/// route's upstream, and has no other key.
pub proof fn law_every_route_is_reached(config: Config, i: int, domain: Seq<char>)
    requires
        config.valid(),
    ensures
        ({
            let lowered = lowered_domains(config.http@);
            let table = route_table(config.http@, lowered, config.http@.len() as int);
            &&& 0 <= i < config.http@.len() ==> table.contains_key(lowered[i]) && table[lowered[i]]
                == config.http@[i].upstream
            &&& table.contains_key(domain) ==> lowered.contains(domain)
        }),
{
    let lowered = lowered_domains(config.http@);
    law_accepted_configurations(config);
    if 0 <= i < config.http@.len() {
        lemma_route_kept(config.http@, lowered, i, config.http@.len() as int);
    }
    lemma_route_comes_from(config.http@, lowered, config.http@.len() as int, domain);
}

}
