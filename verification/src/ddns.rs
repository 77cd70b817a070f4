//! Cloudflare DDNS: keeps AAAA records at the current public IPv6 address.
//!
//! A home connection's IPv6 prefix changes now and then. Each round asks an echo service for the
//! current address, and syncs the records only if the address is not the one of the last sync that
//! went through.

use hyper::StatusCode;
use vstd::prelude::*;
use vstd::string::*;

use crate::config::{Config, DdnsConfig};
use crate::status::write_status;

verus! {

/// Where the API token is kept.
#[derive(Debug, Clone)]
pub enum TokenSource {
    /// An environment variable.
    Env(String),
    /// A file.
    File(String),
}

/// Where the API token is kept, as characters.
pub enum TokenSourceView {
    Env(Seq<char>),
    File(Seq<char>),
}

impl View for TokenSource {
    type V = TokenSourceView;

    open spec fn view(&self) -> TokenSourceView {
        match self {
            TokenSource::Env(name) => TokenSourceView::Env(name@),
            TokenSource::File(path) => TokenSourceView::File(path@),
        }
    }
}

/// Why there is no API token.
#[derive(Debug, Clone)]
pub enum TokenError {
    /// The environment variable cannot be read.
    EnvNotRead(String),
    /// The environment variable holds nothing.
    EnvEmpty(String),
    /// The file cannot be read.
    FileNotRead(String),
    /// The file holds nothing.
    FileEmpty(String),
    /// Neither is configured.
    NoSource,
}

/// A `TokenError` with its text as characters.
pub enum TokenErrorView {
    EnvNotRead(Seq<char>),
    EnvEmpty(Seq<char>),
    FileNotRead(Seq<char>),
    FileEmpty(Seq<char>),
    NoSource,
}

impl View for TokenError {
    type V = TokenErrorView;

    open spec fn view(&self) -> TokenErrorView {
        match self {
            TokenError::EnvNotRead(name) => TokenErrorView::EnvNotRead(name@),
            TokenError::EnvEmpty(name) => TokenErrorView::EnvEmpty(name@),
            TokenError::FileNotRead(path) => TokenErrorView::FileNotRead(path@),
            TokenError::FileEmpty(path) => TokenErrorView::FileEmpty(path@),
            TokenError::NoSource => TokenErrorView::NoSource,
        }
    }
}

impl TokenErrorView {
    /// The sentence that tells the user what is wrong.
    pub open spec fn message(self) -> Seq<char> {
        match self {
            TokenErrorView::EnvNotRead(name) => "读取环境变量 "@ + name + " 失败"@,
            TokenErrorView::EnvEmpty(name) => "环境变量 "@ + name + " 为空"@,
            TokenErrorView::FileNotRead(path) => "读取 token 文件失败: "@ + path,
            TokenErrorView::FileEmpty(path) => "token 文件 "@ + path + " 内容为空"@,
            TokenErrorView::NoSource => "[ddns] 需要 api_token_env 或 api_token_file 之一"@,
        }
    }
}

impl TokenError {
    /// Tells the user what is wrong.
    pub fn message(&self) -> (r: String)
        ensures
            r@ == self@.message(),
    {
        match self {
            TokenError::EnvNotRead(name) => {
                let mut out = crate::text::joined("读取环境变量 ", name.as_str());
                out.append(" 失败");
                out
            },
            TokenError::EnvEmpty(name) => {
                let mut out = crate::text::joined("环境变量 ", name.as_str());
                out.append(" 为空");
                out
            },
            TokenError::FileNotRead(path) => crate::text::joined(
                "读取 token 文件失败: ",
                path.as_str(),
            ),
            TokenError::FileEmpty(path) => {
                let mut out = crate::text::joined("token 文件 ", path.as_str());
                out.append(" 内容为空");
                out
            },
            TokenError::NoSource => "[ddns] 需要 api_token_env 或 api_token_file 之一".to_owned(),
        }
    }
}

/// Where a configuration says the token is: the environment first, then the file.
pub open spec fn source_of_token(config: DdnsConfig) -> Option<TokenSourceView> {
    match (config.api_token_env, config.api_token_file) {
        (Some(name), _) => Some(TokenSourceView::Env(name@)),
        (None, Some(path)) => Some(TokenSourceView::File(path@)),
        (None, None) => None,
    }
}

/// Tells where a configuration says the token is.
pub fn token_source(config: &DdnsConfig) -> (r: Option<TokenSource>)
    ensures
        match r {
            Some(source) => source_of_token(*config) == Some(source@),
            None => source_of_token(*config) is None,
        },
{
    match &config.api_token_env {
        Some(name) => Some(TokenSource::Env(name.clone())),
        None => match &config.api_token_file {
            Some(path) => Some(TokenSource::File(path.clone())),
            None => None,
        },
    }
}

/// The token, given what its source holds. A source that cannot be read is not replaced by the
/// other one.
pub open spec fn token_in(source: Option<TokenSourceView>, found: Option<Seq<char>>) -> Result<
    Seq<char>,
    TokenErrorView,
> {
    match (source, found) {
        (None, _) => Err(TokenErrorView::NoSource),
        (Some(TokenSourceView::Env(name)), None) => Err(TokenErrorView::EnvNotRead(name)),
        (Some(TokenSourceView::File(path)), None) => Err(TokenErrorView::FileNotRead(path)),
        (Some(source), Some(found)) => if crate::text::trimmed(found).len() > 0 {
            Ok(crate::text::trimmed(found))
        } else {
            match source {
                TokenSourceView::Env(name) => Err(TokenErrorView::EnvEmpty(name)),
                TokenSourceView::File(path) => Err(TokenErrorView::FileEmpty(path)),
            }
        },
    }
}

/// Takes the API token from what its source holds; `None` where the source could not be read.
pub fn read_token(config: &DdnsConfig, found: &Option<String>) -> (r: Result<String, TokenError>)
    ensures
        match r {
            Ok(token) => token_in(source_of_token(*config), crate::text::optional_text(*found)) == Ok::<
                Seq<char>,
                TokenErrorView,
            >(token@),
            Err(error) => token_in(source_of_token(*config), crate::text::optional_text(*found)) == Err::<
                Seq<char>,
                TokenErrorView,
            >(error@),
        },
{
    let source = match token_source(config) {
        Some(source) => source,
        None => {
            return Err(TokenError::NoSource);
        },
    };
    match found {
        Some(found) => {
            let token = crate::text::trim(found.as_str());
            if token.unicode_len() > 0 {
                Ok(token.to_owned())
            } else {
                match source {
                    TokenSource::Env(name) => Err(TokenError::EnvEmpty(name)),
                    TokenSource::File(path) => Err(TokenError::FileEmpty(path)),
                }
            }
        },
        None => match source {
            TokenSource::Env(name) => Err(TokenError::EnvNotRead(name)),
            TokenSource::File(path) => Err(TokenError::FileNotRead(path)),
        },
    }
}

/// An accepted configuration always says where its token is.
pub proof fn law_accepted_configuration_has_a_token_source(config: Config)
    requires
        config.valid(),
        config.ddns is Some,
    ensures
        source_of_token(config.ddns->0) is Some,
{
    crate::config::law_accepted_configurations(config);
}

/// A token holds no white space at either end, and at least one character.
pub proof fn law_tokens_are_trimmed(source: Option<TokenSourceView>, found: Option<Seq<char>>)
    ensures
        match token_in(source, found) {
            Ok(token) => token.len() > 0 && !crate::text::white_space(token[0])
                && !crate::text::white_space(token.last()),
            Err(_) => true,
        },
{
    if found is Some {
        crate::text::lemma_trimmed_ends(found->0);
    }
}

/// The echo services, in the order they are asked. They can be reached over IPv6 only, and answer
/// with the address they are reached from. Either is enough.
pub open spec fn echo_services() -> Seq<Seq<char>> {
    seq!["https://api6.ipify.org/"@, "https://ipv6.icanhazip.com/"@]
}

/// Names the echo services, in the order they are asked.
pub fn echo_urls() -> (r: Vec<String>)
    ensures
        crate::text::texts(r@) == echo_services(),
{
    let mut urls: Vec<String> = Vec::new();
    urls.push("https://api6.ipify.org/".to_owned());
    urls.push("https://ipv6.icanhazip.com/".to_owned());
    assert(crate::text::texts(urls@) =~= echo_services());
    urls
}

/// Seconds between two rounds: as configured, and never under ten.
pub open spec fn interval(config: DdnsConfig) -> u64 {
    if config.interval_secs < 10 {
        10
    } else {
        config.interval_secs
    }
}

/// Gives the seconds between two rounds.
pub fn pause_secs(config: &DdnsConfig) -> (r: u64)
    ensures
        r == interval(*config),
{
    if config.interval_secs < 10 {
        10
    } else {
        config.interval_secs
    }
}

/// What happened since the last turn of the loop.
#[derive(Debug, Clone)]
pub enum RunEvent {
    /// The loop begins, or the pause is over.
    Woke,
    /// The current address is known.
    Address(String),
    /// The current address cannot be learnt.
    NoAddress,
    /// Every record was settled for this address.
    Synced(String),
    /// The records were not all settled.
    SyncFailed,
}

/// A `RunEvent` with its text as characters.
pub enum RunEventView {
    Woke,
    Address(Seq<char>),
    NoAddress,
    Synced(Seq<char>),
    SyncFailed,
}

impl View for RunEvent {
    type V = RunEventView;

    open spec fn view(&self) -> RunEventView {
        match self {
            RunEvent::Woke => RunEventView::Woke,
            RunEvent::Address(ip) => RunEventView::Address(ip@),
            RunEvent::NoAddress => RunEventView::NoAddress,
            RunEvent::Synced(ip) => RunEventView::Synced(ip@),
            RunEvent::SyncFailed => RunEventView::SyncFailed,
        }
    }
}

/// What the loop does next.
#[derive(Debug, Clone)]
pub enum RunAction {
    /// Learn the current address.
    Fetch,
    /// Settle every record for this address.
    Sync(String),
    /// Pause for so many seconds.
    Sleep(u64),
}

/// A `RunAction` with its text as characters.
pub enum RunActionView {
    Fetch,
    Sync(Seq<char>),
    Sleep(u64),
}

impl View for RunAction {
    type V = RunActionView;

    open spec fn view(&self) -> RunActionView {
        match self {
            RunAction::Fetch => RunActionView::Fetch,
            RunAction::Sync(ip) => RunActionView::Sync(ip@),
            RunAction::Sleep(seconds) => RunActionView::Sleep(*seconds),
        }
    }
}

/// What the loop does on an event, given the address of the last sync that went through.
pub open spec fn action_on(
    config: DdnsConfig,
    last: Option<Seq<char>>,
    event: RunEventView,
) -> RunActionView {
    match event {
        RunEventView::Woke => RunActionView::Fetch,
        RunEventView::Address(ip) => if last == Some(ip) {
            RunActionView::Sleep(interval(config))
        } else {
            RunActionView::Sync(ip)
        },
        _ => RunActionView::Sleep(interval(config)),
    }
}

/// The address of the last sync that went through, after an event.
pub open spec fn last_after(last: Option<Seq<char>>, event: RunEventView) -> Option<Seq<char>> {
    match event {
        RunEventView::Synced(ip) => Some(ip),
        _ => last,
    }
}

/// The DDNS loop, one turn. `last` is the address of the last sync that went through; it is `None`
/// at the start, so that the first round always settles the records.
pub fn run(config: &DdnsConfig, last: &mut Option<String>, event: RunEvent) -> (r: RunAction)
    ensures
        r@ == action_on(*config, crate::text::optional_text(*old(last)), event@),
        crate::text::optional_text(*final(last)) == last_after(crate::text::optional_text(*old(last)), event@),
{
    let interval_secs: u64 = pause_secs(config);
    match event {
        RunEvent::Woke => RunAction::Fetch,
        RunEvent::Address(ip) => {
            let same = match &*last {
                Some(known) => crate::text::same_text(known.as_str(), ip.as_str()),
                None => false,
            };
            if same {
                RunAction::Sleep(interval_secs)
            } else {
                RunAction::Sync(ip)
            }
        },
        RunEvent::Synced(ip) => {
            *last = Some(ip);
            RunAction::Sleep(interval_secs)
        },
        RunEvent::NoAddress | RunEvent::SyncFailed => RunAction::Sleep(interval_secs),
    }
}

/// The address of the last sync that went through, after some events from the start on.
pub open spec fn last_synced(events: Seq<RunEventView>) -> Option<Seq<char>>
    decreases events.len(),
{
    if events.len() == 0 {
        None
    } else {
        last_after(last_synced(events.drop_last()), events.last())
    }
}

/// After a sync that went through, an unchanged address is not synced again, whatever else
/// happened in between.
pub proof fn law_unchanged_address_is_not_synced_again(
    config: DdnsConfig,
    before: Seq<RunEventView>,
    ip: Seq<char>,
    between: Seq<RunEventView>,
)
    requires
        forall|i: int| 0 <= i < between.len() ==> !(#[trigger] between[i] is Synced),
    ensures
        action_on(
            config,
            last_synced(before.push(RunEventView::Synced(ip)) + between),
            RunEventView::Address(ip),
        ) == RunActionView::Sleep(interval(config)),
    decreases between.len(),
{
    let events = before.push(RunEventView::Synced(ip)) + between;
    if between.len() == 0 {
        assert(events == before.push(RunEventView::Synced(ip)));
        assert(events.last() == RunEventView::Synced(ip));
    } else {
        assert(!(between[between.len() - 1] is Synced));
        assert forall|i: int| 0 <= i < between.drop_last().len() implies !(
        #[trigger] between.drop_last()[i] is Synced) by {
            assert(!(between[i] is Synced));
        }
        law_unchanged_address_is_not_synced_again(config, before, ip, between.drop_last());
        assert(events.drop_last() =~= before.push(RunEventView::Synced(ip)) + between.drop_last());
        assert(events.last() == between.last());
    }
}

/// Until a sync has gone through, every address that is learnt is synced: the first one, and again
/// after each sync that failed.
pub proof fn law_failed_syncs_are_retried(
    config: DdnsConfig,
    events: Seq<RunEventView>,
    ip: Seq<char>,
)
    requires
        forall|i: int| 0 <= i < events.len() ==> !(#[trigger] events[i] is Synced),
    ensures
        action_on(config, last_synced(events), RunEventView::Address(ip)) == RunActionView::Sync(ip),
    decreases events.len(),
{
    if events.len() > 0 {
        assert(!(events[events.len() - 1] is Synced));
        assert forall|i: int| 0 <= i < events.drop_last().len() implies !(
        #[trigger] events.drop_last()[i] is Synced) by {
            assert(!(events[i] is Synced));
        }
        law_failed_syncs_are_retried(config, events.drop_last(), ip);
    }
}

/// A new address is synced, and a failed sync changes nothing: the same address is synced again
/// when it is learnt the next time.
pub proof fn law_new_addresses_are_synced(
    config: DdnsConfig,
    last: Option<Seq<char>>,
    ip: Seq<char>,
)
    requires
        last != Some(ip),
    ensures
        action_on(config, last, RunEventView::Address(ip)) == RunActionView::Sync(ip),
        action_on(
            config,
            last_after(last, RunEventView::SyncFailed),
            RunEventView::Address(ip),
        ) == RunActionView::Sync(ip),
{
}

/// A pause is never shorter than ten seconds.
pub proof fn law_pauses_are_long_enough(
    config: DdnsConfig,
    last: Option<Seq<char>>,
    event: RunEventView,
)
    ensures
        match action_on(config, last, event) {
            RunActionView::Sleep(seconds) => seconds >= 10 && (config.interval_secs >= 10
                ==> seconds == config.interval_secs),
            _ => true,
        },
{
}

/// What came of asking one echo service.
#[derive(Debug)]
pub enum EchoEvent {
    /// None has been asked yet.
    Start,
    /// It could not be reached, for this reason.
    Unreachable(String),
    /// Its answer broke off.
    BodyLost,
    /// Its answer is not UTF-8.
    NotText,
    /// Its answer, with this status, is no IPv6 address.
    NotAddress(StatusCode),
    /// Its answer is this address.
    Address(String),
}

/// An `EchoEvent` with its text as characters.
pub enum EchoEventView {
    Start,
    Unreachable(Seq<char>),
    BodyLost,
    NotText,
    NotAddress(u16),
    Address(Seq<char>),
}

impl View for EchoEvent {
    type V = EchoEventView;

    open spec fn view(&self) -> EchoEventView {
        match self {
            EchoEvent::Start => EchoEventView::Start,
            EchoEvent::Unreachable(cause) => EchoEventView::Unreachable(cause@),
            EchoEvent::BodyLost => EchoEventView::BodyLost,
            EchoEvent::NotText => EchoEventView::NotText,
            EchoEvent::NotAddress(status) => EchoEventView::NotAddress(
                crate::status::status_number(*status),
            ),
            EchoEvent::Address(ip) => EchoEventView::Address(ip@),
        }
    }
}

/// What is done next to learn the address.
#[derive(Debug, Clone)]
pub enum EchoStep {
    /// Ask this service.
    Try(String),
    /// This is the address.
    Found(String),
    /// No service is left; the text tells why the last one was of no use.
    Failed(String),
}

/// An `EchoStep` with its text as characters.
pub enum EchoStepView {
    Try(Seq<char>),
    Found(Seq<char>),
    Failed(Seq<char>),
}

impl View for EchoStep {
    type V = EchoStepView;

    open spec fn view(&self) -> EchoStepView {
        match self {
            EchoStep::Try(url) => EchoStepView::Try(url@),
            EchoStep::Found(ip) => EchoStepView::Found(ip@),
            EchoStep::Failed(message) => EchoStepView::Failed(message@),
        }
    }
}

/// Why an echo service was of no use.
pub open spec fn echo_failure(event: EchoEventView) -> Seq<char> {
    match event {
        EchoEventView::Unreachable(cause) => cause,
        EchoEventView::BodyLost => "读取回显响应失败"@,
        EchoEventView::NotText => "回显响应不是 UTF-8"@,
        EchoEventView::NotAddress(status) => "HTTP "@ + crate::status::status_text(status)
            + ": 非 IPv6 地址文本"@,
        _ => ""@,
    }
}

/// What is done after the first `asked` services were asked and the last of them gave `event`: an
/// address ends the search, anything else leads to the next service.
pub open spec fn echo_step(
    urls: Seq<Seq<char>>,
    asked: int,
    event: EchoEventView,
) -> EchoStepView {
    match event {
        EchoEventView::Address(ip) => EchoStepView::Found(ip),
        _ => if asked < urls.len() {
            EchoStepView::Try(urls[asked])
        } else {
            EchoStepView::Failed("所有回显服务都失败: "@ + echo_failure(event))
        },
    }
}

/// Learns the public IPv6 address from the echo services, one turn: `asked` of them were asked so
/// far, and the last one gave `event`.
pub fn fetch_public_ipv6(urls: &Vec<String>, asked: usize, event: EchoEvent) -> (r: EchoStep)
    ensures
        r@ == echo_step(crate::text::texts(urls@), asked as int, event@),
{
    let failure = match event {
        EchoEvent::Address(ip) => {
            return EchoStep::Found(ip);
        },
        EchoEvent::Start => "".to_owned(),
        EchoEvent::Unreachable(cause) => cause,
        EchoEvent::BodyLost => "读取回显响应失败".to_owned(),
        EchoEvent::NotText => "回显响应不是 UTF-8".to_owned(),
        EchoEvent::NotAddress(status) => {
            let mut out = crate::text::joined(
                "HTTP ",
                write_status(&status).as_str(),
            );
            out.append(": 非 IPv6 地址文本");
            out
        },
    };
    if asked < urls.len() {
        EchoStep::Try(urls[asked].clone())
    } else {
        EchoStep::Failed(crate::text::joined("所有回显服务都失败: ", failure.as_str()))
    }
}

/// Where a search ends if asking the services gives `answers`, from the step for `asked` services
/// and `event` on; the step itself where no answer is left.
pub open spec fn echo_search(
    urls: Seq<Seq<char>>,
    asked: int,
    event: EchoEventView,
    answers: Seq<EchoEventView>,
) -> EchoStepView
    decreases answers.len(),
{
    match echo_step(urls, asked, event) {
        EchoStepView::Try(url) => if answers.len() == 0 {
            EchoStepView::Try(url)
        } else {
            echo_search(urls, asked + 1, answers[0], answers.drop_first())
        },
        step => step,
    }
}

/// One useful echo service is enough: where the services before it are of no use for whatever
/// reason, the search ends with its address.
pub proof fn law_one_echo_service_is_enough(
    urls: Seq<Seq<char>>,
    answers: Seq<EchoEventView>,
    useful: int,
    ip: Seq<char>,
)
    requires
        answers.len() == urls.len(),
        0 <= useful < urls.len(),
        answers[useful] == EchoEventView::Address(ip),
        forall|i: int| 0 <= i < useful ==> !(#[trigger] answers[i] is Address),
    ensures
        echo_search(urls, 0, EchoEventView::Start, answers) == EchoStepView::Found(ip),
{
    lemma_search_finds(urls, 0, EchoEventView::Start, answers, useful, ip);
}

proof fn lemma_search_finds(
    urls: Seq<Seq<char>>,
    asked: int,
    event: EchoEventView,
    answers: Seq<EchoEventView>,
    useful: int,
    ip: Seq<char>,
)
    requires
        0 <= asked,
        answers.len() == urls.len() - asked,
        !(event is Address),
        0 <= useful < answers.len(),
        answers[useful] == EchoEventView::Address(ip),
        forall|i: int| 0 <= i < useful ==> !(#[trigger] answers[i] is Address),
    ensures
        echo_search(urls, asked, event, answers) == EchoStepView::Found(ip),
    decreases useful,
{
    let rest = answers.drop_first();
    if useful > 0 {
        assert(!(answers[0] is Address));
        assert forall|i: int| 0 <= i < useful - 1 implies !(#[trigger] rest[i] is Address) by {
            assert(rest[i] == answers[i + 1]);
        }
        lemma_search_finds(urls, asked + 1, answers[0], rest, useful - 1, ip);
    } else {
        assert(echo_search(urls, asked + 1, answers[0], rest) == EchoStepView::Found(ip));
    }
}

/// The search fails only after every service was asked and none gave an address.
pub proof fn law_search_fails_only_if_every_service_does(
    urls: Seq<Seq<char>>,
    answers: Seq<EchoEventView>,
)
    requires
        answers.len() == urls.len(),
    ensures
        echo_search(urls, 0, EchoEventView::Start, answers) is Failed <==> forall|i: int|
            0 <= i < answers.len() ==> !(#[trigger] answers[i] is Address),
        !(echo_search(urls, 0, EchoEventView::Start, answers) is Try),
{
    lemma_search_fails(urls, 0, EchoEventView::Start, answers);
}

proof fn lemma_search_fails(
    urls: Seq<Seq<char>>,
    asked: int,
    event: EchoEventView,
    answers: Seq<EchoEventView>,
)
    requires
        0 <= asked,
        answers.len() == urls.len() - asked,
        !(event is Address),
    ensures
        echo_search(urls, asked, event, answers) is Failed <==> forall|i: int|
            0 <= i < answers.len() ==> !(#[trigger] answers[i] is Address),
        !(echo_search(urls, asked, event, answers) is Try),
    decreases answers.len(),
{
    if answers.len() > 0 {
        let rest = answers.drop_first();
        assert(forall|i: int| 0 <= i < rest.len() ==> #[trigger] rest[i] == answers[i + 1]);
        if answers[0] is Address {
            assert(echo_search(urls, asked + 1, answers[0], rest) is Found);
        } else {
            lemma_search_fails(urls, asked + 1, answers[0], rest);
            assert forall|i: int|
                (forall|k: int| 0 <= k < rest.len() ==> !(#[trigger] rest[k] is Address)) && 0 <= i
                    < answers.len() implies !(#[trigger] answers[i] is Address) by {
                if i > 0 {
                    assert(rest[i - 1] == answers[i]);
                }
            }
        }
    }
}

}
