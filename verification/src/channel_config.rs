//! Per-channel default agent binding, read from the channel's configuration.
//!
//! A channel can behave like one agent that the user talks to: the working folder and the
//! agent type are the defaults for a session where the sender has not chosen others.
use vstd::prelude::*;
use crate::json::{json_get, json_of_text, json_tree, read_json, tree_bool, tree_get, tree_str, JsonTree};
use crate::text::{chars_of, is_white, lemma_trimmed, opt_str, opt_text, string_of, trim_chars, trimmed, CharSet};
use crate::text_laws::{all_of, law_trimmed_takes_the_frame};

verus! {

/// Default folder and agent bound to a channel.
#[derive(Debug, Clone, PartialEq, Eq)]
pub struct ChannelDefaults {
    /// Absolute path of the default working folder, if configured.
    pub working_dir: Option<String>,
    /// Default agent type, if configured.
    pub agent_type: Option<String>,
    /// Whether the agent's requests for permission are granted without asking.
    pub auto_approve: bool,
}

/// What a `ChannelDefaults` says.
pub struct ChannelDefaultsView {
    pub working_dir: Option<Seq<char>>,
    pub agent_type: Option<Seq<char>>,
    pub auto_approve: bool,
}

impl View for ChannelDefaults {
    type V = ChannelDefaultsView;

    open spec fn view(&self) -> ChannelDefaultsView {
        ChannelDefaultsView {
            working_dir: opt_text(self.working_dir),
            agent_type: opt_text(self.agent_type),
            auto_approve: self.auto_approve,
        }
    }
}

impl Default for ChannelDefaults {
    fn default() -> (d: ChannelDefaults)
        ensures
            d@ == no_defaults(),
    {
        ChannelDefaults { working_dir: None, agent_type: None, auto_approve: false }
    }
}

/// A channel with nothing configured.
pub open spec fn no_defaults() -> ChannelDefaultsView {
    ChannelDefaultsView { working_dir: None, agent_type: None, auto_approve: false }
}

/// A configured text without white space round it; blank text counts as none.
pub open spec fn setting(raw: Option<Seq<char>>) -> Option<Seq<char>> {
    match raw {
        Some(s) => if trimmed(s).len() > 0 {
            Some(trimmed(s))
        } else {
            None
        },
        None => None,
    }
}

/// The defaults that the raw settings of a channel stand for.
pub open spec fn defaults_from(
    working_dir: Option<Seq<char>>,
    agent_type: Option<Seq<char>>,
    auto_approve: Option<bool>,
) -> ChannelDefaultsView {
    ChannelDefaultsView {
        working_dir: setting(working_dir),
        agent_type: setting(agent_type),
        auto_approve: auto_approve == Some(true),
    }
}

/// The string under a key of a JSON object.
pub open spec fn text_member(tree: JsonTree, key: Seq<char>) -> Option<Seq<char>> {
    match tree_get(tree, key) {
        Some(member) => tree_str(member),
        None => None,
    }
}

/// The boolean under a key of a JSON object.
pub open spec fn bool_member(tree: JsonTree, key: Seq<char>) -> Option<bool> {
    match tree_get(tree, key) {
        Some(member) => tree_bool(member),
        None => None,
    }
}

/// The defaults that a channel configuration holds; a configuration that is not JSON holds
/// none.
pub open spec fn configured_defaults(document: Option<JsonTree>) -> ChannelDefaultsView {
    match document {
        Some(tree) => defaults_from(
            text_member(tree, "working_dir"@),
            text_member(tree, "agent_type"@),
            bool_member(tree, "auto_approve"@),
        ),
        None => no_defaults(),
    }
}

fn read_setting(raw: Option<&str>) -> (r: Option<String>)
    ensures
        opt_text(r) == setting(opt_str(raw)),
{
    match raw {
        Some(s) => {
            let t = trim_chars(&chars_of(s));
            if t.len() > 0 {
                Some(string_of(&t))
            } else {
                None
            }
        },
        None => None,
    }
}

/// The defaults that the raw settings of a channel stand for: text is trimmed, blank text
/// counts as none, and permission is asked for unless the channel says otherwise.
pub fn channel_defaults(
    working_dir: Option<&str>,
    agent_type: Option<&str>,
    auto_approve: Option<bool>,
) -> (d: ChannelDefaults)
    ensures
        d@ == defaults_from(opt_str(working_dir), opt_str(agent_type), auto_approve),
{
    ChannelDefaults {
        working_dir: read_setting(working_dir),
        agent_type: read_setting(agent_type),
        auto_approve: match auto_approve {
            Some(b) => b,
            None => false,
        },
    }
}

fn member_str<'a>(value: &'a serde_json::Value, key: &str) -> (r: Option<&'a str>)
    ensures
        opt_str(r) == text_member(json_tree(*value), key@),
{
    match json_get(value, key) {
        Some(member) => member.as_str(),
        None => None,
    }
}

fn member_bool(value: &serde_json::Value, key: &str) -> (r: Option<bool>)
    ensures
        r == bool_member(json_tree(*value), key@),
{
    match json_get(value, key) {
        Some(member) => member.as_bool(),
        None => None,
    }
}

/// The defaults that a configuration document holds.
pub fn defaults_in(value: &serde_json::Value) -> (d: ChannelDefaults)
    ensures
        d@ == configured_defaults(Some(json_tree(*value))),
{
    channel_defaults(
        member_str(value, "working_dir"),
        member_str(value, "agent_type"),
        member_bool(value, "auto_approve"),
    )
}

/// Reads the defaults from a channel's configuration. Missing keys, blank text, values of
/// another type and text that is not JSON all leave the default.
pub fn parse(config_json: &str) -> (d: ChannelDefaults)
    ensures
        d@ == configured_defaults(json_of_text(config_json@)),
{
    match read_json(config_json) {
        Ok(value) => defaults_in(&value),
        Err(_) => channel_defaults(None, None, None),
    }
}

/// A configured text is never blank and has no white space round it.
pub proof fn law_setting_is_trimmed(raw: Option<Seq<char>>)
    ensures
        setting(raw) matches Some(s) ==> s.len() > 0 && !is_white(s[0]) && !is_white(s.last()),
{
    if let Some(s) = raw {
        lemma_trimmed(s);
    }
}

/// A setting is what was configured, without the white space round it, and there is one exactly
/// if that is anything.
pub proof fn law_setting_is_kept(lead: Seq<char>, kept: Seq<char>, tail: Seq<char>)
    requires
        all_of(lead, CharSet::White),
        all_of(tail, CharSet::White),
        kept.len() == 0 || (!is_white(kept[0]) && !is_white(kept.last())),
    ensures
        kept.len() > 0 ==> setting(Some(lead + kept + tail)) == Some(kept),
        kept.len() == 0 ==> setting(Some(lead + kept + tail)) is None,
        setting(None) is None,
{
    law_trimmed_takes_the_frame(lead, kept, tail);
}

/// Every default comes from the member of its name, whatever else the configuration holds: the
/// folder and the agent from a string, the permission from a boolean that is true.
pub proof fn law_defaults_come_from_their_members(members: Map<Seq<char>, JsonTree>)
    ensures
        ({
            let d = configured_defaults(Some(JsonTree::Object(members)));
            &&& d.working_dir == if members.contains_key("working_dir"@) {
                match members["working_dir"@] {
                    JsonTree::Str(s) => setting(Some(s)),
                    _ => None,
                }
            } else {
                None
            }
            &&& d.agent_type == if members.contains_key("agent_type"@) {
                match members["agent_type"@] {
                    JsonTree::Str(s) => setting(Some(s)),
                    _ => None,
                }
            } else {
                None
            }
            &&& d.auto_approve <==> members.contains_key("auto_approve"@)
                && members["auto_approve"@] == JsonTree::Bool(true)
        }),
{
}

/// A configuration that is no JSON object, or no JSON at all, leaves every default.
pub proof fn law_other_documents_hold_no_defaults(tree: JsonTree)
    requires
        !(tree is Object),
    ensures
        configured_defaults(Some(tree)).working_dir is None,
        configured_defaults(Some(tree)).agent_type is None,
        !configured_defaults(Some(tree)).auto_approve,
        configured_defaults(None).working_dir is None,
        configured_defaults(None).agent_type is None,
        !configured_defaults(None).auto_approve,
{
}

/// The raw settings do not mix: each default depends on its own setting alone.
pub proof fn law_settings_do_not_mix(
    dir: Option<Seq<char>>,
    agent: Option<Seq<char>>,
    approve: Option<bool>,
)
    ensures
        defaults_from(dir, agent, approve).working_dir == setting(dir),
        defaults_from(dir, agent, approve).agent_type == setting(agent),
        defaults_from(dir, agent, approve).auto_approve <==> approve == Some(true),
{
}

/// Defaults are seen by what they hold, and a channel with nothing configured has none: no
/// folder, no agent, and permission is asked for.
pub proof fn law_defaults_are_seen_as_they_are(d: ChannelDefaults)
    ensures
        d@.working_dir == opt_text(d.working_dir),
        d@.agent_type == opt_text(d.agent_type),
        d@.auto_approve == d.auto_approve,
        no_defaults().working_dir is None,
        no_defaults().agent_type is None,
        !no_defaults().auto_approve,
{
}

} // verus!
