//! What holds of titling from its beginning to its end.
//!
//! Titling asks each question at most once, so one set of answers settles a whole run.
use vstd::prelude::*;
use crate::text::words;
use super::flow::{enabled_step, provider_id_step, law_reply_title_is_tidy, provider_step, refreshed_step, reply_step, switched_on, Provider, TitleJob, TitleReply, TitleStep};
use super::title::{tidy, MAX_TITLE_CHARS, MAX_TITLE_WORDS};

verus! {

/// What the database and the provider answer in a run.
pub struct TitleAnswers {
    /// The value of the switch.
    pub enabled: Result<Option<String>, String>,
    /// The value of the provider's setting.
    pub provider_id: Result<Option<String>, String>,
    /// The provider.
    pub provider: Result<Option<Provider>, String>,
    /// What comes back from its endpoint.
    pub reply: TitleReply,
    /// Whether the title changed the conversation.
    pub changed: Result<bool, String>,
}

/// Whether `next` comes directly after `step`, given the answers.
pub open spec fn follows(step: TitleStep, answers: TitleAnswers, next: TitleStep) -> bool {
    match step {
        TitleStep::ReadEnabled(job) => enabled_step(job, answers.enabled, next),
        TitleStep::ReadProviderId(job) => provider_id_step(job, answers.provider_id, next),
        TitleStep::LoadProvider(job, _) => provider_step(job, answers.provider, next),
        TitleStep::Send(id, _) => reply_step(id, answers.reply, next),
        TitleStep::Refresh(id, _) => refreshed_step(id, answers.changed, next),
        TitleStep::Announce(_) => false,
        TitleStep::Stop => false,
    }
}

/// Whether the steps are a run of titling, or the beginning of one.
pub open spec fn is_run(steps: Seq<TitleStep>, job: TitleJob, answers: TitleAnswers) -> bool {
    &&& steps.len() > 0
    &&& steps[0] == TitleStep::ReadEnabled(job)
    &&& forall|i: int|
        0 <= i < steps.len() - 1 ==> follows(#[trigger] steps[i], answers, steps[i + 1])
}

/// Where in a run a step can stand; a stop can stand anywhere but at the beginning.
pub open spec fn position(step: TitleStep) -> Option<int> {
    match step {
        TitleStep::ReadEnabled(_) => Some(0),
        TitleStep::ReadProviderId(_) => Some(1),
        TitleStep::LoadProvider(_, _) => Some(2),
        TitleStep::Send(_, _) => Some(3),
        TitleStep::Refresh(_, _) => Some(4),
        TitleStep::Announce(_) => Some(5),
        TitleStep::Stop => None,
    }
}

/// The conversation that a step is about.
pub open spec fn conversation_of(step: TitleStep) -> Option<i32> {
    match step {
        TitleStep::ReadEnabled(job) => Some(job.conversation_id),
        TitleStep::ReadProviderId(job) => Some(job.conversation_id),
        TitleStep::LoadProvider(job, _) => Some(job.conversation_id),
        TitleStep::Send(id, _) => Some(id),
        TitleStep::Refresh(id, _) => Some(id),
        TitleStep::Announce(id) => Some(id),
        TitleStep::Stop => None,
    }
}

/// Titling asks its questions in one order, each at most once, and all of them about one
/// conversation. Past the first question it gets only if the switch is on. Clients hear of a
/// title only if it changed the conversation. Nothing comes after that, nor after a stop.
pub proof fn law_titling_acts_only_when_switched_on(
    steps: Seq<TitleStep>,
    job: TitleJob,
    answers: TitleAnswers,
    at: int,
)
    requires
        is_run(steps, job, answers),
        0 <= at < steps.len(),
    ensures
        position(steps[at]) matches Some(p) ==> p == at,
        conversation_of(steps[at]) matches Some(id) ==> id == job.conversation_id,
        at > 0 && !(steps[at] is Stop) ==> switched_on(answers.enabled),
        steps[at] is Announce ==> answers.changed == Ok::<bool, String>(true),
        at > 0 ==> !(steps[at - 1] is Stop) && !(steps[at - 1] is Announce),
    decreases at,
{
    if at > 0 {
        law_titling_acts_only_when_switched_on(steps, job, answers, at - 1);
        assert(follows(steps[at - 1], answers, steps[at]));
    }
}

/// No step of titling occurs twice.
pub proof fn law_titling_does_nothing_twice(
    steps: Seq<TitleStep>,
    job: TitleJob,
    answers: TitleAnswers,
    i: int,
    j: int,
)
    requires
        is_run(steps, job, answers),
        0 <= i < j < steps.len(),
    ensures
        position(steps[i]) is Some,
        position(steps[i]) != position(steps[j]),
{
    law_titling_acts_only_when_switched_on(steps, job, answers, i);
    law_titling_acts_only_when_switched_on(steps, job, answers, j);
    law_titling_acts_only_when_switched_on(steps, job, answers, i + 1);
}

/// Without the switch, titling stops at once.
pub proof fn law_titles_are_off_by_default(
    steps: Seq<TitleStep>,
    job: TitleJob,
    answers: TitleAnswers,
)
    requires
        is_run(steps, job, answers),
        !switched_on(answers.enabled),
    ensures
        steps.len() <= 2,
        steps.len() == 2 ==> steps[1] is Stop,
{
    if steps.len() >= 2 {
        assert(follows(steps[0], answers, steps[1]));
        if steps.len() > 2 {
            assert(follows(steps[1], answers, steps[2]));
        }
    }
}

/// Whatever the model replies, the title that a conversation gets is tidy and short.
pub proof fn law_given_title_is_tidy(
    steps: Seq<TitleStep>,
    job: TitleJob,
    answers: TitleAnswers,
    at: int,
)
    requires
        is_run(steps, job, answers),
        0 <= at < steps.len(),
    ensures
        steps[at] matches TitleStep::Refresh(_, t) ==> tidy(t@) && t@.len() <= MAX_TITLE_CHARS
            && words(t@).len() <= MAX_TITLE_WORDS,
{
    if at > 0 {
        assert(follows(steps[at - 1], answers, steps[at]));
        law_titling_acts_only_when_switched_on(steps, job, answers, at);
        law_titling_acts_only_when_switched_on(steps, job, answers, at - 1);
        law_reply_title_is_tidy(answers.reply);
    }
}

} // verus!
