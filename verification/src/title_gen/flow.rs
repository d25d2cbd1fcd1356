//! Titling a conversation at the end of its first turn.
//!
//! Titles are off unless the operator turns them on, and a title is never worth an error:
//! whatever goes wrong on the way ends the matter in silence.
use vstd::prelude::*;
use crate::json::json_of_text;
use crate::number::{law_parsed_number_is_in_range, parse_signed, read_i32};
use crate::text::{append_chars, chars_of, opt_text, same_text, string_of, trim_chars, trim_end, trim_end_chars, trimmed, words, CharSet};
use super::title::{body_title, build_user_content, law_title_is_tidy_and_short, reply_content, tidy, title_from_response_body, user_content, MAX_TITLE_CHARS, MAX_TITLE_WORDS};

verus! {

/// The setting that turns titles on, by the value `true`.
pub const ENABLED_KEY: &'static str = "title_gen.enabled";

/// The setting that says which provider writes titles.
pub const PROVIDER_ID_KEY: &'static str = "title_gen.provider_id";

/// What the model is told to do.
pub const SYSTEM_PROMPT: &'static str =
    "You generate a short title for a coding conversation. Reply with ONLY a 3-5 word title, no quotes, no punctuation.";

/// A request to a chat-completion endpoint.
pub struct TitleRequest {
    pub url: String,
    /// The bearer token.
    pub key: String,
    pub model: String,
    /// The content of the system message.
    pub system: String,
    /// The content of the user message, which follows.
    pub user: String,
    pub stream: bool,
    pub max_tokens: u32,
    /// The sampling temperature, in tenths.
    pub temperature_tenths: u32,
    pub timeout_secs: u64,
}

/// What came back from the endpoint.
pub enum TitleReply {
    /// Nothing: the request could not be sent, or timed out.
    NoAnswer,
    /// An answer whose status is not one of success.
    Refused,
    /// An answer of success whose body could not be read.
    Unreadable,
    /// An answer of success with this body.
    Body(String),
}

/// A model provider.
pub struct Provider {
    pub api_url: String,
    pub api_key: String,
    pub model: Option<String>,
}

/// A conversation to be titled, with the texts of its opening exchange.
pub struct TitleJob {
    pub conversation_id: i32,
    pub user_text: String,
    pub assistant_text: String,
}

/// How titling goes on.
pub enum TitleStep {
    /// Read the setting `ENABLED_KEY` and hand it to `enabled_read`.
    ReadEnabled(TitleJob),
    /// Read the setting `PROVIDER_ID_KEY` and hand it to `provider_id_read`.
    ReadProviderId(TitleJob),
    /// Look up this provider and hand it to `provider_loaded`.
    LoadProvider(TitleJob, i32),
    /// Send this request for this conversation and hand the reply to `reply_received`.
    Send(i32, TitleRequest),
    /// Give this conversation this title, unless the user has named it, and hand to
    /// `title_refreshed` whether that changed it.
    Refresh(i32, String),
    /// Tell every client about this conversation.
    Announce(i32),
    /// There is nothing more to do.
    Stop,
}

/// The address without white space round it and without slashes at its end.
pub open spec fn base_url(api_url: Seq<char>) -> Seq<char> {
    trim_end(trimmed(api_url), CharSet::Slash)
}

/// Whether a title can be asked for: the provider has an address, a key and a model, and
/// the user has said something.
pub open spec fn can_ask(
    api_url: Seq<char>,
    api_key: Seq<char>,
    model: Seq<char>,
    user_text: Seq<char>,
) -> bool {
    base_url(api_url).len() > 0 && trimmed(api_key).len() > 0 && trimmed(model).len() > 0
        && trimmed(user_text).len() > 0
}

/// Whether `r` asks for a title for this exchange.
pub open spec fn asks_for_title(
    r: TitleRequest,
    api_url: Seq<char>,
    api_key: Seq<char>,
    model: Seq<char>,
    user_text: Seq<char>,
    assistant_text: Seq<char>,
) -> bool {
    &&& r.url@ == base_url(api_url) + "/chat/completions"@
    &&& r.key@ == trimmed(api_key)
    &&& r.model@ == trimmed(model)
    &&& r.system@ == SYSTEM_PROMPT@
    &&& r.user@ == user_content(user_text, assistant_text)
    &&& !r.stream
    &&& r.max_tokens == 20
    &&& r.temperature_tenths == 3
    &&& r.timeout_secs == 15
}

/// The request for a title for the opening exchange. There is none if the provider lacks an
/// address, a key or a model, or if the user has said nothing.
pub fn generate_title(
    api_url: &str,
    api_key: &str,
    model: &str,
    user_text: &str,
    assistant_text: &str,
) -> (r: Option<TitleRequest>)
    ensures
        r is Some <==> can_ask(api_url@, api_key@, model@, user_text@),
        r matches Some(req) ==> asks_for_title(
            req,
            api_url@,
            api_key@,
            model@,
            user_text@,
            assistant_text@,
        ),
{
    let base = trim_end_chars(&trim_chars(&chars_of(api_url)), CharSet::Slash);
    let key = trim_chars(&chars_of(api_key));
    let model = trim_chars(&chars_of(model));
    if base.len() == 0 || key.len() == 0 || model.len() == 0 {
        return None;
    }
    if trim_chars(&chars_of(user_text)).len() == 0 {
        return None;
    }
    let mut url = base;
    append_chars(&mut url, &chars_of("/chat/completions"));
    Some(
        TitleRequest {
            url: string_of(&url),
            key: string_of(&key),
            model: string_of(&model),
            system: SYSTEM_PROMPT.to_owned(),
            user: build_user_content(user_text, assistant_text),
            stream: false,
            max_tokens: 20,
            temperature_tenths: 3,
            timeout_secs: 15,
        },
    )
}

/// The title in what came back from the endpoint.
pub open spec fn reply_title(reply: TitleReply) -> Option<Seq<char>> {
    match reply {
        TitleReply::Body(body) => body_title(json_of_text(body@)),
        _ => None,
    }
}

/// The title in what came back from the endpoint; none unless there is a usable body.
pub fn title_from_reply(reply: TitleReply) -> (r: Option<String>)
    ensures
        opt_text(r) == reply_title(reply),
{
    match reply {
        TitleReply::Body(body) => title_from_response_body(body.as_str()),
        _ => None,
    }
}

/// Starts titling a conversation.
pub fn maybe_generate_and_apply_title(
    conversation_id: i32,
    user_text: String,
    assistant_text: String,
) -> (step: TitleStep)
    ensures
        step == TitleStep::ReadEnabled(
            (TitleJob { conversation_id, user_text, assistant_text }),
        ),
{
    TitleStep::ReadEnabled(TitleJob { conversation_id, user_text, assistant_text })
}

/// Whether the switch turns titles on: only the value `true` does.
pub open spec fn switched_on(value: Result<Option<String>, String>) -> bool {
    value matches Ok(Some(v)) && v@ == "true"@
}

/// The step that the switch leads to.
pub open spec fn enabled_step(
    job: TitleJob,
    value: Result<Option<String>, String>,
    step: TitleStep,
) -> bool {
    step == if switched_on(value) {
        TitleStep::ReadProviderId(job)
    } else {
        TitleStep::Stop
    }
}

/// Goes on once the switch has been read.
pub fn enabled_read(job: TitleJob, value: Result<Option<String>, String>) -> (step: TitleStep)
    ensures
        enabled_step(job, value, step),
{
    match value {
        Ok(Some(v)) => if same_text(v.as_str(), "true") {
            TitleStep::ReadProviderId(job)
        } else {
            TitleStep::Stop
        },
        _ => TitleStep::Stop,
    }
}

/// The provider that a setting names.
pub open spec fn provider_id(value: Seq<char>) -> Option<int> {
    parse_signed(trimmed(value), i32::MIN as int, i32::MAX as int)
}

/// A provider's number is one that the database can hold.
pub proof fn law_provider_id_is_in_range(value: Seq<char>)
    ensures
        provider_id(value) matches Some(n) ==> i32::MIN <= n <= i32::MAX,
{
    law_parsed_number_is_in_range(trimmed(value), i32::MIN as int, i32::MAX as int);
}

/// The step that the setting of the provider leads to.
pub open spec fn provider_id_step(
    job: TitleJob,
    value: Result<Option<String>, String>,
    step: TitleStep,
) -> bool {
    match value {
        Ok(Some(v)) => match provider_id(v@) {
            Some(n) => step matches TitleStep::LoadProvider(j, id) && j == job && id == n,
            None => step == TitleStep::Stop,
        },
        _ => step == TitleStep::Stop,
    }
}

/// Goes on once the provider's number has been read.
pub fn provider_id_read(job: TitleJob, value: Result<Option<String>, String>) -> (step: TitleStep)
    ensures
        provider_id_step(job, value, step),
{
    match value {
        Ok(Some(v)) => match read_i32(&trim_chars(&chars_of(v.as_str()))) {
            Some(id) => TitleStep::LoadProvider(job, id),
            None => TitleStep::Stop,
        },
        _ => TitleStep::Stop,
    }
}

/// Whether this provider can be asked about this conversation.
pub open spec fn provider_can_ask(p: Provider, job: TitleJob) -> bool {
    p.model matches Some(m) && can_ask(p.api_url@, p.api_key@, m@, job.user_text@)
}

/// The step that the lookup of the provider leads to. A provider that is not there, that has no
/// model, or that cannot be asked ends the matter.
pub open spec fn provider_step(
    job: TitleJob,
    found: Result<Option<Provider>, String>,
    step: TitleStep,
) -> bool {
    match found {
        Ok(Some(p)) => if provider_can_ask(p, job) {
            step matches TitleStep::Send(id, req) && id == job.conversation_id && asks_for_title(
                req,
                p.api_url@,
                p.api_key@,
                p.model->0@,
                job.user_text@,
                job.assistant_text@,
            )
        } else {
            step == TitleStep::Stop
        },
        _ => step == TitleStep::Stop,
    }
}

/// Goes on once the provider has been looked up.
pub fn provider_loaded(job: TitleJob, found: Result<Option<Provider>, String>) -> (step: TitleStep)
    ensures
        provider_step(job, found, step),
{
    let p = match found {
        Ok(Some(p)) => p,
        _ => {
            return TitleStep::Stop;
        },
    };
    match &p.model {
        Some(m) => {
            if trim_chars(&chars_of(m.as_str())).len() == 0 {
                return TitleStep::Stop;
            }
            match generate_title(
                p.api_url.as_str(),
                p.api_key.as_str(),
                m.as_str(),
                job.user_text.as_str(),
                job.assistant_text.as_str(),
            ) {
                Some(req) => TitleStep::Send(job.conversation_id, req),
                None => TitleStep::Stop,
            }
        },
        None => TitleStep::Stop,
    }
}

/// The title in a reply is tidy and short.
pub proof fn law_reply_title_is_tidy(reply: TitleReply)
    ensures
        reply_title(reply) matches Some(title) ==> tidy(title) && title.len() <= MAX_TITLE_CHARS
            && words(title).len() <= MAX_TITLE_WORDS,
{
    if reply is Body {
        let content = reply_content(json_of_text(reply->Body_0@));
        if content is Some {
            law_title_is_tidy_and_short(content->0);
        }
    }
}

/// The step that a reply leads to.
pub open spec fn reply_step(conversation_id: i32, reply: TitleReply, step: TitleStep) -> bool {
    match reply_title(reply) {
        Some(title) => step matches TitleStep::Refresh(id, t) && id == conversation_id && t@
            == title,
        None => step == TitleStep::Stop,
    }
}

/// Goes on with what came back from the endpoint.
pub fn reply_received(conversation_id: i32, reply: TitleReply) -> (step: TitleStep)
    ensures
        reply_step(conversation_id, reply, step),
{
    match title_from_reply(reply) {
        Some(title) => TitleStep::Refresh(conversation_id, title),
        None => TitleStep::Stop,
    }
}

/// The step that a handed-over title leads to: clients hear of it only if something changed.
pub open spec fn refreshed_step(
    conversation_id: i32,
    changed: Result<bool, String>,
    step: TitleStep,
) -> bool {
    step == if changed == Ok::<bool, String>(true) {
        TitleStep::Announce(conversation_id)
    } else {
        TitleStep::Stop
    }
}

/// Goes on after the title was handed over.
pub fn title_refreshed(conversation_id: i32, changed: Result<bool, String>) -> (step: TitleStep)
    ensures
        refreshed_step(conversation_id, changed, step),
{
    match changed {
        Ok(true) => TitleStep::Announce(conversation_id),
        _ => TitleStep::Stop,
    }
}

} // verus!
