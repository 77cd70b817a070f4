//! What DDNS is for, stated over tokens, addresses and rounds.

use vstd::prelude::*;
use vstd::string::*;

use hyper::StatusCode;

use crate::config::DdnsConfig;
use crate::ddns::{
    EchoEvent, EchoEventView, EchoStep, EchoStepView, RunAction, RunActionView, RunEvent,
    RunEventView, TokenError, TokenErrorView, TokenSource, TokenSourceView,
};

verus! {

/// The token is in the environment variable where one is named, and otherwise in the file.
pub proof fn law_environment_comes_first(config: DdnsConfig, name: String, path: String)
    ensures
        config.api_token_env == Some(name) ==> crate::ddns::source_of_token(config) == Some(
            TokenSourceView::Env(name@),
        ),
        config.api_token_env is None && config.api_token_file == Some(path)
            ==> crate::ddns::source_of_token(config) == Some(TokenSourceView::File(path@)),
        config.api_token_env is None && config.api_token_file is None
            ==> crate::ddns::source_of_token(config) is None,
{
}

/// The token is what its source holds, character for character, without the white space around it.
pub proof fn law_token_is_unchanged(
    source: TokenSourceView,
    before: Seq<char>,
    token: Seq<char>,
    after: Seq<char>,
)
    requires
        forall|i: int| 0 <= i < before.len() ==> crate::text::white_space(#[trigger] before[i]),
        forall|i: int| 0 <= i < after.len() ==> crate::text::white_space(#[trigger] after[i]),
        token.len() > 0,
        !crate::text::white_space(token[0]),
        !crate::text::white_space(token[token.len() - 1]),
    ensures
        crate::ddns::token_in(Some(source), Some(before + token + after)) == Ok::<
            Seq<char>,
            TokenErrorView,
        >(token),
{
    crate::text_laws::law_trimming_keeps_the_text(before, token, after);
}

/// A source that cannot be read, or that holds nothing but white space, is an error that names it; so
/// is having none.
pub proof fn law_missing_tokens_are_reported(
    name: Seq<char>,
    found: Seq<char>,
    any: Option<Seq<char>>,
)
    ensures
        crate::ddns::token_in(None, any) == Err::<Seq<char>, TokenErrorView>(
            TokenErrorView::NoSource,
        ),
        crate::ddns::token_in(Some(TokenSourceView::Env(name)), None) == Err::<
            Seq<char>,
            TokenErrorView,
        >(TokenErrorView::EnvNotRead(name)),
        crate::ddns::token_in(Some(TokenSourceView::File(name)), None) == Err::<
            Seq<char>,
            TokenErrorView,
        >(TokenErrorView::FileNotRead(name)),
        (forall|i: int| 0 <= i < found.len() ==> crate::text::white_space(#[trigger] found[i]))
            ==> crate::ddns::token_in(Some(TokenSourceView::Env(name)), Some(found)) == Err::<
            Seq<char>,
            TokenErrorView,
        >(TokenErrorView::EnvEmpty(name)) && crate::ddns::token_in(
            Some(TokenSourceView::File(name)),
            Some(found),
        ) == Err::<Seq<char>, TokenErrorView>(TokenErrorView::FileEmpty(name)),
{
    crate::text_laws::law_blank_texts(found);
}

/// What the user is told of a token that is missing.
pub proof fn law_token_errors_are_told(name: Seq<char>)
    ensures
        TokenErrorView::EnvNotRead(name).message() == "读取环境变量 "@ + name + " 失败"@,
        TokenErrorView::EnvEmpty(name).message() == "环境变量 "@ + name + " 为空"@,
        TokenErrorView::FileNotRead(name).message() == "读取 token 文件失败: "@ + name,
        TokenErrorView::FileEmpty(name).message() == "token 文件 "@ + name + " 内容为空"@,
        TokenErrorView::NoSource.message() == "[ddns] 需要 api_token_env 或 api_token_file 之一"@,
{
}

/// The pause is the configured one, raised to ten seconds.
pub proof fn law_pause(config: DdnsConfig)
    ensures
        crate::ddns::interval(config) >= 10,
        crate::ddns::interval(config) >= config.interval_secs,
        crate::ddns::interval(config) == 10 || crate::ddns::interval(config) == config.interval_secs,
{
}

/// A round goes on like this: after a pause the address is learnt; an address that is not the last one
/// synced is synced, exactly as learnt; everything else leads to a pause.
pub proof fn law_turns_of_the_loop(config: DdnsConfig, last: Option<Seq<char>>, ip: Seq<char>)
    ensures
        crate::ddns::action_on(config, last, RunEventView::Woke) == RunActionView::Fetch,
        last == Some(ip) ==> crate::ddns::action_on(config, last, RunEventView::Address(ip))
            == RunActionView::Sleep(crate::ddns::interval(config)),
        last != Some(ip) ==> crate::ddns::action_on(config, last, RunEventView::Address(ip))
            == RunActionView::Sync(ip),
        crate::ddns::action_on(config, last, RunEventView::NoAddress) == RunActionView::Sleep(
            crate::ddns::interval(config),
        ),
        crate::ddns::action_on(config, last, RunEventView::Synced(ip)) == RunActionView::Sleep(
            crate::ddns::interval(config),
        ),
        crate::ddns::action_on(config, last, RunEventView::SyncFailed) == RunActionView::Sleep(
            crate::ddns::interval(config),
        ),
{
}

/// Only a sync that went through changes the address that is remembered, to the one it was for.
pub proof fn law_only_syncs_are_remembered(
    last: Option<Seq<char>>,
    ip: Seq<char>,
    event: RunEventView,
)
    ensures
        crate::ddns::last_after(last, RunEventView::Synced(ip)) == Some(ip),
        !(event is Synced) ==> crate::ddns::last_after(last, event) == last,
{
}

/// Two addresses that are learnt one after the other, the first one synced in between: the second is
/// synced exactly if it differs from the first.
pub proof fn law_changes_of_address_are_synced(
    config: DdnsConfig,
    last: Option<Seq<char>>,
    first: Seq<char>,
    second: Seq<char>,
)
    ensures
        crate::ddns::action_on(
            config,
            crate::ddns::last_after(last, RunEventView::Synced(first)),
            RunEventView::Address(second),
        ) == RunActionView::Sync(second) <==> first != second,
{
}

/// An address that a service gives is the one that is found, as given. A service that is of no use for
/// any reason leads to the next one in the list, and past the last the search fails.
pub proof fn law_services_are_asked_in_order(
    urls: Seq<Seq<char>>,
    asked: int,
    event: EchoEventView,
    ip: Seq<char>,
)
    requires
        0 <= asked,
    ensures
        crate::ddns::echo_step(urls, asked, EchoEventView::Address(ip)) == EchoStepView::Found(ip),
        !(event is Address) && asked < urls.len() ==> crate::ddns::echo_step(urls, asked, event)
            == EchoStepView::Try(urls[asked]),
        !(event is Address) && asked >= urls.len() ==> crate::ddns::echo_step(urls, asked, event)
            == EchoStepView::Failed(
            "所有回显服务都失败: "@ + (match event {
                EchoEventView::Unreachable(cause) => cause,
                EchoEventView::BodyLost => "读取回显响应失败"@,
                EchoEventView::NotText => "回显响应不是 UTF-8"@,
                EchoEventView::NotAddress(status) => "HTTP "@ + crate::status::status_text(status)
                    + ": 非 IPv6 地址文本"@,
                _ => ""@,
            }),
        ),
{
}

/// The two services that are asked.
pub proof fn law_services()
    ensures
        crate::ddns::echo_services().len() == 2,
        crate::ddns::echo_services()[0] == "https://api6.ipify.org/"@,
        crate::ddns::echo_services()[1] == "https://ipv6.icanhazip.com/"@,
{
}

/// The views of sources, events and actions hide nothing: each shows the fields as they are.
pub proof fn law_views_of_rounds(text: String, seconds: u64, status: StatusCode)
    ensures
        TokenSource::Env(text)@ == TokenSourceView::Env(text@),
        TokenSource::File(text)@ == TokenSourceView::File(text@),
        TokenError::EnvNotRead(text)@ == TokenErrorView::EnvNotRead(text@),
        TokenError::EnvEmpty(text)@ == TokenErrorView::EnvEmpty(text@),
        TokenError::FileNotRead(text)@ == TokenErrorView::FileNotRead(text@),
        TokenError::FileEmpty(text)@ == TokenErrorView::FileEmpty(text@),
        TokenError::NoSource@ == TokenErrorView::NoSource,
        RunEvent::Woke@ == RunEventView::Woke,
        RunEvent::Address(text)@ == RunEventView::Address(text@),
        RunEvent::NoAddress@ == RunEventView::NoAddress,
        RunEvent::Synced(text)@ == RunEventView::Synced(text@),
        RunEvent::SyncFailed@ == RunEventView::SyncFailed,
        RunAction::Fetch@ == RunActionView::Fetch,
        RunAction::Sync(text)@ == RunActionView::Sync(text@),
        RunAction::Sleep(seconds)@ == RunActionView::Sleep(seconds),
        EchoEvent::Start@ == EchoEventView::Start,
        EchoEvent::Unreachable(text)@ == EchoEventView::Unreachable(text@),
        EchoEvent::BodyLost@ == EchoEventView::BodyLost,
        EchoEvent::NotText@ == EchoEventView::NotText,
        EchoEvent::NotAddress(status)@ == EchoEventView::NotAddress(
            crate::status::status_number(status),
        ),
        EchoEvent::Address(text)@ == EchoEventView::Address(text@),
        EchoStep::Try(text)@ == EchoStepView::Try(text@),
        EchoStep::Found(text)@ == EchoStepView::Found(text@),
        EchoStep::Failed(text)@ == EchoStepView::Failed(text@),
{
}

}
