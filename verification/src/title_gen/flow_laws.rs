//! What each answer leads to on the way to a title.
use vstd::prelude::*;
use crate::json::json_of_text;
use crate::number::{decimal, is_digit, law_other_texts_are_not_numbers, law_signed_round_trip, lemma_decimal_digits, parse_signed, signed_decimal};
use crate::text::{is_white, CharSet};
use crate::text_laws::{all_of, law_trimmed_takes_the_frame};
use super::flow::{asks_for_title, can_ask, enabled_step, provider_id, provider_id_step, provider_step, refreshed_step, reply_step, switched_on, Provider, TitleJob, TitleReply, TitleStep};
use super::run::{follows, is_run, TitleAnswers};
use super::title::{body_title, reply_content, title_of};

verus! {

/// The switch is on exactly if its value is `true`, letter for letter; the next question is
/// asked exactly then, about the same conversation.
pub proof fn law_only_true_switches_on(
    job: TitleJob,
    value: Result<Option<String>, String>,
    step: TitleStep,
)
    ensures
        switched_on(value) <==> (value matches Ok(Some(v)) && v@ == seq!['t', 'r', 'u', 'e']),
        enabled_step(job, value, step) && (value matches Ok(Some(v)) && v@ == seq![
            't',
            'r',
            'u',
            'e',
        ]) ==> step == TitleStep::ReadProviderId(job),
        enabled_step(job, value, step) && !(value matches Ok(Some(v)) && v@ == seq![
            't',
            'r',
            'u',
            'e',
        ]) ==> step == TitleStep::Stop,
{
    reveal_strlit("true");
    assert("true"@ =~= seq!['t', 'r', 'u', 'e']);
}

/// The provider that is looked up is the one whose number the setting holds, with or without
/// white space round it and with or without a sign.
pub proof fn law_named_provider_is_looked_up(
    job: TitleJob,
    lead: Seq<char>,
    n: i32,
    tail: Seq<char>,
    value: Result<Option<String>, String>,
    step: TitleStep,
)
    requires
        all_of(lead, CharSet::White),
        all_of(tail, CharSet::White),
        value matches Ok(Some(v)) && v@ == lead + signed_decimal(n as int) + tail,
        provider_id_step(job, value, step),
    ensures
        step == TitleStep::LoadProvider(job, n),
{
    let d = signed_decimal(n as int);
    law_signed_round_trip(n as int, i32::MIN as int, i32::MAX as int);
    if n < 0 {
        lemma_decimal_digits((-n) as nat);
        let e = decimal((-n) as nat);
        assert(is_digit(e[e.len() - 1]));
        assert(d.last() == e[e.len() - 1]);
        assert(d[0] == '-');
    } else {
        lemma_decimal_digits(n as nat);
        assert(is_digit(d[0]) && is_digit(d[d.len() - 1]));
    }
    law_trimmed_takes_the_frame(lead, d, tail);
}

/// A setting that is missing, cannot be read, or is no number ends the matter.
pub proof fn law_odd_provider_setting_stops(
    job: TitleJob,
    s: Seq<char>,
    at: int,
    value: Result<Option<String>, String>,
    step: TitleStep,
)
    requires
        provider_id_step(job, value, step),
    ensures
        !(value matches Ok(Some(_))) ==> step == TitleStep::Stop,
        0 <= at < s.len() && !is_digit(s[at]) && (at > 0 || (s[at] != '+' && s[at] != '-'))
            && !is_white(s[0]) && !is_white(s.last()) && (value matches Ok(Some(v)) && v@ == s)
            ==> step == TitleStep::Stop,
{
    let none = Seq::<char>::empty();
    if s.len() > 0 && !is_white(s[0]) && !is_white(s.last()) {
        assert(none + s + none =~= s);
        law_trimmed_takes_the_frame(none, s, none);
        law_other_texts_are_not_numbers(s, at, i32::MIN as int, i32::MAX as int);
    }
}

/// A provider that is there, has a model and can be asked is asked, about this conversation and
/// with its exchange; any other one ends the matter.
pub proof fn law_provider_is_asked(
    job: TitleJob,
    found: Result<Option<Provider>, String>,
    step: TitleStep,
)
    requires
        provider_step(job, found, step),
    ensures
        match found {
            Ok(Some(p)) => match p.model {
                Some(m) => if can_ask(p.api_url@, p.api_key@, m@, job.user_text@) {
                    step matches TitleStep::Send(id, req) && id == job.conversation_id
                        && asks_for_title(
                        req,
                        p.api_url@,
                        p.api_key@,
                        m@,
                        job.user_text@,
                        job.assistant_text@,
                    )
                } else {
                    step == TitleStep::Stop
                },
                None => step == TitleStep::Stop,
            },
            _ => step == TitleStep::Stop,
        },
{
}

/// The title in a body of success is given to the conversation it was asked for; without one
/// nothing is.
pub proof fn law_reply_is_handed_over(id: i32, reply: TitleReply, step: TitleStep)
    requires
        reply_step(id, reply, step),
    ensures
        match reply {
            TitleReply::Body(body) => match reply_content(json_of_text(body@)) {
                Some(content) => match title_of(content) {
                    Some(title) => step matches TitleStep::Refresh(to, t) && to == id && t@ == title,
                    None => step == TitleStep::Stop,
                },
                None => step == TitleStep::Stop,
            },
            _ => step == TitleStep::Stop,
        },
{
}

/// Clients hear of a title exactly if it changed the conversation.
pub proof fn law_change_is_announced(id: i32, changed: Result<bool, String>, step: TitleStep)
    requires
        refreshed_step(id, changed, step),
    ensures
        (changed matches Ok(b) && b) ==> step == TitleStep::Announce(id),
        !(changed matches Ok(b) && b) ==> step == TitleStep::Stop,
{
}

/// A run whose questions are all answered well titles the conversation: the named provider is
/// asked, its title is handed over, and the change is announced.
pub proof fn law_answered_run_titles_the_conversation(
    steps: Seq<TitleStep>,
    job: TitleJob,
    answers: TitleAnswers,
    n: i32,
    p: Provider,
    model: String,
    body: String,
    title: Seq<char>,
)
    requires
        is_run(steps, job, answers),
        steps.len() == 6,
        answers.enabled matches Ok(Some(v)) && v@ == seq!['t', 'r', 'u', 'e'],
        answers.provider_id matches Ok(Some(v)) && v@ == signed_decimal(n as int),
        answers.provider == Ok::<Option<Provider>, String>(Some(p)),
        p.model == Some(model),
        can_ask(p.api_url@, p.api_key@, model@, job.user_text@),
        answers.reply == TitleReply::Body(body),
        body_title(json_of_text(body@)) == Some(title),
        answers.changed == Ok::<bool, String>(true),
    ensures
        steps[2] == TitleStep::LoadProvider(job, n),
        steps[3] matches TitleStep::Send(id, req) && id == job.conversation_id && asks_for_title(
            req,
            p.api_url@,
            p.api_key@,
            model@,
            job.user_text@,
            job.assistant_text@,
        ),
        steps[4] matches TitleStep::Refresh(id, t) && id == job.conversation_id && t@ == title,
        steps[5] == TitleStep::Announce(job.conversation_id),
{
    let none = Seq::<char>::empty();
    assert(follows(steps[0], answers, steps[1]));
    law_only_true_switches_on(job, answers.enabled, steps[1]);
    assert(follows(steps[1], answers, steps[2]));
    assert(none + signed_decimal(n as int) + none =~= signed_decimal(n as int));
    law_named_provider_is_looked_up(job, none, n, none, answers.provider_id, steps[2]);
    assert(follows(steps[2], answers, steps[3]));
    assert(follows(steps[3], answers, steps[4]));
    assert(follows(steps[4], answers, steps[5]));
}

/// A setting is read as the number it holds, without the white space round it.
pub proof fn law_provider_setting_is_a_number(lead: Seq<char>, s: Seq<char>, tail: Seq<char>)
    requires
        all_of(lead, CharSet::White),
        all_of(tail, CharSet::White),
        s.len() == 0 || (!is_white(s[0]) && !is_white(s.last())),
    ensures
        provider_id(lead + s + tail) == parse_signed(s, -0x8000_0000, 0x7fff_ffff),
{
    law_trimmed_takes_the_frame(lead, s, tail);
}

} // verus!
