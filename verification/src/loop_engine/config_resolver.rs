//! Which configuration an issue runs with.
//!
//! An issue has a configuration of its own, or none and then inherits the default of its
//! space. The default is looked up each time, so a change to it reaches every issue that
//! inherits. Text that cannot be parsed is an error; it never falls back to a default.
use vstd::prelude::*;
use crate::number::{signed_decimal, write_i32};
use crate::text::{append_chars, chars_of, opt_str, string_of};
use super::error::{LoopError, LoopErrorView};

verus! {

/// How the search for a configuration goes on.
pub enum ConfigStep {
    /// Parse this text and hand the outcome to `config_parsed`.
    Parse(String),
    /// Look up the default configuration of this space and hand it to `space_loaded`.
    LoadSpace(i32),
}

/// What a `ConfigStep` stands for.
pub enum ConfigStepView {
    Parse(Seq<char>),
    LoadSpace(i32),
}

impl View for ConfigStep {
    type V = ConfigStepView;

    open spec fn view(&self) -> ConfigStepView {
        match self {
            ConfigStep::Parse(s) => ConfigStepView::Parse(s@),
            ConfigStep::LoadSpace(id) => ConfigStepView::LoadSpace(*id),
        }
    }
}

/// The first step for an issue with the given configuration of its own, if it has one.
pub open spec fn config_step(config: Option<Seq<char>>, space_id: i32) -> ConfigStepView {
    match config {
        Some(json) => ConfigStepView::Parse(json),
        None => ConfigStepView::LoadSpace(space_id),
    }
}

/// The text to parse once the space has been looked up.
pub open spec fn space_text(
    space_id: i32,
    found: Result<Option<Seq<char>>, Seq<char>>,
) -> Result<Seq<char>, LoopErrorView> {
    match found {
        Ok(Some(json)) => Ok(json),
        Ok(None) => Err(LoopErrorView::NotFound("loop_space "@ + signed_decimal(space_id as int))),
        Err(reason) => Err(LoopErrorView::Database(reason)),
    }
}

/// The configuration of an issue, from a lookup of spaces and a parser.
pub open spec fn resolved<T>(
    config: Option<Seq<char>>,
    space_id: i32,
    lookup: spec_fn(i32) -> Result<Option<Seq<char>>, Seq<char>>,
    parser: spec_fn(Seq<char>) -> Result<T, Seq<char>>,
) -> Result<T, LoopErrorView> {
    let text = match config_step(config, space_id) {
        ConfigStepView::Parse(json) => Ok(json),
        ConfigStepView::LoadSpace(id) => space_text(id, lookup(id)),
    };
    match text {
        Ok(json) => match parser(json) {
            Ok(cfg) => Ok(cfg),
            Err(reason) => Err(LoopErrorView::InvalidConfig(reason)),
        },
        Err(e) => Err(e),
    }
}

/// Starts the search for the configuration that the engine acts on for an issue: the
/// issue's own, or else the default of its space.
pub fn effective_config(config: Option<&str>, space_id: i32) -> (step: ConfigStep)
    ensures
        step@ == config_step(opt_str(config), space_id),
{
    match config {
        Some(json) => ConfigStep::Parse(json.to_owned()),
        None => ConfigStep::LoadSpace(space_id),
    }
}

/// The text to parse once the space has been looked up. A space that does not exist is an
/// error.
pub fn space_loaded(space_id: i32, found: Result<Option<String>, String>) -> (r: Result<
    String,
    LoopError,
>)
    ensures
        (match r {
            Ok(s) => Ok(s@),
            Err(e) => Err(e@),
        }) == space_text(
            space_id,
            match found {
                Ok(Some(s)) => Ok(Some(s@)),
                Ok(None) => Ok(None),
                Err(reason) => Err(reason@),
            },
        ),
{
    match found {
        Ok(Some(json)) => Ok(json),
        Ok(None) => {
            let mut what = chars_of("loop_space ");
            append_chars(&mut what, &write_i32(space_id));
            Err(LoopError::NotFound(string_of(&what)))
        },
        Err(reason) => Err(LoopError::Database(reason)),
    }
}

/// The configuration, once its text has been parsed. Text that cannot be parsed is an
/// error.
pub fn config_parsed<T>(parsed: Result<T, String>) -> (r: Result<T, LoopError>)
    ensures
        match parsed {
            Ok(cfg) => r == Ok::<T, LoopError>(cfg),
            Err(reason) => r matches Err(e) && e@ == LoopErrorView::InvalidConfig(reason@),
        },
{
    match parsed {
        Ok(cfg) => Ok(cfg),
        Err(reason) => Err(LoopError::InvalidConfig(reason)),
    }
}

/// An issue with a configuration of its own runs with that one, whatever its space holds.
pub proof fn law_own_config_ignores_space<T>(
    json: Seq<char>,
    space_id: i32,
    lookup: spec_fn(i32) -> Result<Option<Seq<char>>, Seq<char>>,
    other: spec_fn(i32) -> Result<Option<Seq<char>>, Seq<char>>,
    parser: spec_fn(Seq<char>) -> Result<T, Seq<char>>,
)
    ensures
        resolved(Some(json), space_id, lookup, parser) == resolved(
            Some(json),
            space_id,
            other,
            parser,
        ),
        parser(json) matches Ok(cfg) ==> resolved(Some(json), space_id, lookup, parser) == Ok::<
            T,
            LoopErrorView,
        >(cfg),
{
}

/// Every issue without a configuration of its own runs with the default that its space has
/// at the time, as if the text were its own.
pub proof fn law_inheriting_issue_follows_space<T>(
    space_id: i32,
    default_config: Seq<char>,
    lookup: spec_fn(i32) -> Result<Option<Seq<char>>, Seq<char>>,
    parser: spec_fn(Seq<char>) -> Result<T, Seq<char>>,
)
    requires
        lookup(space_id) == Ok::<Option<Seq<char>>, Seq<char>>(Some(default_config)),
    ensures
        resolved(None, space_id, lookup, parser) == resolved(
            Some(default_config),
            space_id,
            lookup,
            parser,
        ),
{
}

/// A configuration that cannot be parsed is an error; it is never replaced by another.
pub proof fn law_malformed_config_is_an_error<T>(
    config: Option<Seq<char>>,
    space_id: i32,
    lookup: spec_fn(i32) -> Result<Option<Seq<char>>, Seq<char>>,
    parser: spec_fn(Seq<char>) -> Result<T, Seq<char>>,
)
    ensures
        config matches Some(json) ==> (parser(json) matches Err(reason) ==> resolved(
            config,
            space_id,
            lookup,
            parser,
        ) == Err::<T, LoopErrorView>(LoopErrorView::InvalidConfig(reason))),
        config is None ==> (lookup(space_id) matches Ok(Some(json)) ==> (parser(json) matches Err(
            reason,
        ) ==> resolved(config, space_id, lookup, parser) == Err::<T, LoopErrorView>(
            LoopErrorView::InvalidConfig(reason),
        ))),
{
}

/// What each issue runs with, from what the lookup and the parser say: the parser gets the text
/// of the issue or else that of the issue's own space, unchanged; a space that is not there is
/// named in the error; a failed lookup is passed on.
pub proof fn law_configuration_is_settled<T>(
    own: Seq<char>,
    space_id: i32,
    lookup: spec_fn(i32) -> Result<Option<Seq<char>>, Seq<char>>,
    parser: spec_fn(Seq<char>) -> Result<T, Seq<char>>,
)
    ensures
        config_step(Some(own), space_id) == ConfigStepView::Parse(own),
        config_step(None, space_id) == ConfigStepView::LoadSpace(space_id),
        match parser(own) {
            Ok(cfg) => resolved(Some(own), space_id, lookup, parser) == Ok::<T, LoopErrorView>(cfg),
            Err(reason) => resolved(Some(own), space_id, lookup, parser) == Err::<T, LoopErrorView>(
                LoopErrorView::InvalidConfig(reason),
            ),
        },
        match lookup(space_id) {
            Ok(Some(json)) => match parser(json) {
                Ok(cfg) => resolved(None, space_id, lookup, parser) == Ok::<T, LoopErrorView>(cfg),
                Err(reason) => resolved(None, space_id, lookup, parser) == Err::<T, LoopErrorView>(
                    LoopErrorView::InvalidConfig(reason),
                ),
            },
            Ok(None) => resolved(None, space_id, lookup, parser) == Err::<T, LoopErrorView>(
                LoopErrorView::NotFound("loop_space "@ + signed_decimal(space_id as int)),
            ),
            Err(reason) => resolved(None, space_id, lookup, parser) == Err::<T, LoopErrorView>(
                LoopErrorView::Database(reason),
            ),
        },
{
}

/// What a lookup brings decides alone which text is parsed: the one that was found, as it is.
pub proof fn law_space_text_is_what_was_found(
    space_id: i32,
    json: Seq<char>,
    reason: Seq<char>,
)
    ensures
        space_text(space_id, Ok(Some(json))) == Ok::<_, LoopErrorView>(json),
        space_text(space_id, Ok(None)) == Err::<Seq<char>, _>(
            LoopErrorView::NotFound("loop_space "@ + signed_decimal(space_id as int)),
        ),
        space_text(space_id, Err(reason)) == Err::<Seq<char>, _>(LoopErrorView::Database(reason)),
{
}

/// A step of the search is seen by what it holds.
pub proof fn law_search_is_seen_as_it_is(step: ConfigStep)
    ensures
        step matches ConfigStep::Parse(s) ==> step@ == ConfigStepView::Parse(s@),
        step matches ConfigStep::LoadSpace(id) ==> step@ == ConfigStepView::LoadSpace(id),
{
}

} // verus!
