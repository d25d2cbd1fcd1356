use codeg::channel_config::{channel_defaults, parse, ChannelDefaults};

#[test]
fn empty_or_missing_yields_none() {
    assert_eq!(parse("{}"), ChannelDefaults::default());
    assert_eq!(parse("not json"), ChannelDefaults::default());
    assert_eq!(
        parse(r#"{"chat_id":"1","allowed_senders":["7"]}"#),
        ChannelDefaults::default()
    );
}

#[test]
fn parses_both_fields_and_trims() {
    let cfg =
        r#"{"chat_id":"1","working_dir":"  /home/rai/src/codeg  ","agent_type":"claude_code"}"#;
    let d = parse(cfg);
    assert_eq!(d.working_dir.as_deref(), Some("/home/rai/src/codeg"));
    assert_eq!(d.agent_type.as_deref(), Some("claude_code"));
    assert!(!d.auto_approve);
}

#[test]
fn blanks_are_none() {
    let d = parse(r#"{"working_dir":"   ","agent_type":""}"#);
    assert_eq!(d, ChannelDefaults::default());
}

#[test]
fn one_field_present() {
    let d = parse(r#"{"agent_type":"codex"}"#);
    assert_eq!(d.working_dir, None);
    assert_eq!(d.agent_type.as_deref(), Some("codex"));
}

#[test]
fn auto_approve_parsed() {
    assert!(parse(r#"{"auto_approve":true}"#).auto_approve);
    assert!(!parse(r#"{"auto_approve":false}"#).auto_approve);
    assert!(!parse(r#"{"auto_approve":"yes"}"#).auto_approve); // non-bool ignored
}

#[test]
fn config_of_another_type_is_ignored() {
    assert_eq!(parse("[1, 2]"), ChannelDefaults::default());
    assert_eq!(parse("\"working_dir\""), ChannelDefaults::default());
    assert_eq!(parse(r#"{"working_dir": 7}"#), ChannelDefaults::default());
    assert_eq!(parse(""), ChannelDefaults::default());
}

#[test]
fn config_trims_every_kind_of_white_space() {
    let d = parse("{\"working_dir\":\"\\u2003/srv\\u00a0\\n\"}");
    assert_eq!(d.working_dir.as_deref(), Some("/srv"));
    let e = parse(r#"{"working_dir":"a","working_dir":" b "}"#);
    assert_eq!(e.working_dir.as_deref(), Some("b"));
}

#[test]
fn channel_defaults_from_plain_values() {
    let d = channel_defaults(Some(" /w "), Some("\t"), Some(true));
    assert_eq!(d.working_dir.as_deref(), Some("/w"));
    assert_eq!(d.agent_type, None);
    assert!(d.auto_approve);
    assert_eq!(channel_defaults(None, None, None), ChannelDefaults::default());
}
