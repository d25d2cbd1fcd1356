use codeg::title_gen::flow::{
    enabled_read, generate_title, maybe_generate_and_apply_title, provider_id_read,
    provider_loaded, reply_received, title_from_reply, title_refreshed, Provider, TitleJob,
    TitleReply, TitleStep, ENABLED_KEY, PROVIDER_ID_KEY, SYSTEM_PROMPT,
};

fn job() -> TitleJob {
    TitleJob {
        conversation_id: 12,
        user_text: "fix the bug".to_string(),
        assistant_text: "done".to_string(),
    }
}

fn provider(model: Option<&str>) -> Provider {
    Provider {
        api_url: " https://api.example.com/v1// ".to_string(),
        api_key: " key ".to_string(),
        model: model.map(|m| m.to_string()),
    }
}

fn text(s: &str) -> Result<Option<String>, String> {
    Ok(Some(s.to_string()))
}

#[test]
fn settings_have_their_names() {
    assert_eq!(ENABLED_KEY, "title_gen.enabled");
    assert_eq!(PROVIDER_ID_KEY, "title_gen.provider_id");
    assert_eq!(
        SYSTEM_PROMPT,
        "You generate a short title for a coding conversation. \
         Reply with ONLY a 3-5 word title, no quotes, no punctuation."
    );
}

#[test]
fn titles_are_off_unless_switched_on() {
    match maybe_generate_and_apply_title(12, "u".to_string(), "a".to_string()) {
        TitleStep::ReadEnabled(j) => {
            assert_eq!(j.conversation_id, 12);
            assert_eq!(j.user_text, "u");
            assert_eq!(j.assistant_text, "a");
        }
        _ => panic!("reads the switch first"),
    }
    for off in ["false", "TRUE", " true", "", "1"] {
        assert!(matches!(enabled_read(job(), text(off)), TitleStep::Stop));
    }
    assert!(matches!(enabled_read(job(), Ok(None)), TitleStep::Stop));
    assert!(matches!(enabled_read(job(), Err("db".to_string())), TitleStep::Stop));
    assert!(matches!(enabled_read(job(), text("true")), TitleStep::ReadProviderId(_)));
}

#[test]
fn provider_ids_are_whole_numbers() {
    for (raw, id) in [("7", 7), (" 42\n", 42), ("+3", 3), ("-5", -5), ("2147483647", i32::MAX), ("-2147483648", i32::MIN)] {
        match provider_id_read(job(), text(raw)) {
            TitleStep::LoadProvider(_, got) => assert_eq!(got, id),
            _ => panic!("{raw:?} names a provider"),
        }
        assert_eq!(raw.trim().parse::<i32>(), Ok(id));
    }
    for bad in ["", "x", "1.5", "2147483648", "--1", "-", "+", "1 2", "0x10"] {
        assert!(bad.trim().parse::<i32>().is_err());
        assert!(matches!(provider_id_read(job(), text(bad)), TitleStep::Stop));
    }
    assert!(matches!(provider_id_read(job(), Ok(None)), TitleStep::Stop));
    assert!(matches!(provider_id_read(job(), Err("db".to_string())), TitleStep::Stop));
}

#[test]
fn provider_is_asked_with_trimmed_settings() {
    match provider_loaded(job(), Ok(Some(provider(Some(" small "))))) {
        TitleStep::Send(id, req) => {
            assert_eq!(id, 12);
            assert_eq!(req.url, "https://api.example.com/v1/chat/completions");
            assert_eq!(req.key, "key");
            assert_eq!(req.model, "small");
            assert_eq!(req.system, SYSTEM_PROMPT);
            assert_eq!(req.user, "User request:\nfix the bug\n\nAssistant reply:\ndone");
            assert!(!req.stream);
            assert_eq!(req.max_tokens, 20);
            assert_eq!(req.temperature_tenths, 3);
            assert_eq!(req.timeout_secs, 15);
        }
        _ => panic!("the provider can be asked"),
    }
}

#[test]
fn unusable_providers_end_the_matter() {
    assert!(matches!(provider_loaded(job(), Ok(Some(provider(None)))), TitleStep::Stop));
    assert!(matches!(provider_loaded(job(), Ok(Some(provider(Some("  "))))), TitleStep::Stop));
    assert!(matches!(provider_loaded(job(), Ok(None)), TitleStep::Stop));
    assert!(matches!(provider_loaded(job(), Err("db".to_string())), TitleStep::Stop));
    let mut silent = job();
    silent.user_text = " \n".to_string();
    assert!(matches!(provider_loaded(silent, Ok(Some(provider(Some("m"))))), TitleStep::Stop));
    assert!(generate_title("///", "k", "m", "u", "").is_none());
    assert!(generate_title("u", " ", "m", "u", "").is_none());
    assert!(generate_title("u", "k", "", "u", "").is_none());
    assert!(generate_title("u", "k", "m", "", "a").is_none());
    assert!(generate_title("u", "k", "m", "x", "").is_some());
}

#[test]
fn only_a_usable_body_gives_a_title() {
    assert_eq!(title_from_reply(TitleReply::NoAnswer), None);
    assert_eq!(title_from_reply(TitleReply::Refused), None);
    assert_eq!(title_from_reply(TitleReply::Unreadable), None);
    assert_eq!(title_from_reply(TitleReply::Body("<html>".to_string())), None);
    let body = r#"{"choices":[{"message":{"content":"Fix  Login."}}]}"#.to_string();
    match reply_received(12, TitleReply::Body(body)) {
        TitleStep::Refresh(id, title) => {
            assert_eq!(id, 12);
            assert_eq!(title, "Fix Login");
        }
        _ => panic!("the body holds a title"),
    }
    assert!(matches!(reply_received(12, TitleReply::Refused), TitleStep::Stop));
}

#[test]
fn clients_hear_of_changes_only() {
    assert!(matches!(title_refreshed(12, Ok(true)), TitleStep::Announce(12)));
    assert!(matches!(title_refreshed(12, Ok(false)), TitleStep::Stop));
    assert!(matches!(title_refreshed(12, Err("db".to_string())), TitleStep::Stop));
}
