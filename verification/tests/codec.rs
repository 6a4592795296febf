use browser_agent::convo::Brain;
use browser_agent::convo::CONVERSATION_WARNING_THRESHOLD;
use browser_agent::decode::clean_reply;
use browser_agent::decode::parse_step;
use browser_agent::decode::service_error_message;
use browser_agent::decode::DecodeError;
use browser_agent::text::chars_of;
use browser_agent::types::ChatMessage;
use browser_agent::types::Extraction;
use browser_agent::types::PageState;
use browser_agent::types::Step;

fn brain_with_history() -> Brain {
    let mut b = Brain::new();
    b.start_task("find the \"answer\"\nplease");
    b.record_reply("{\"action\":\"Navigate\",\"url\":\"https://example.com\"}");
    b.observe(&PageState {
        url: "https://example.com/".to_string(),
        title: "Example \\ Domain".to_string(),
        dom_snapshot: "[e0] link \"More\"\n  \"text\"".to_string(),
        extracted: vec![Extraction { label: "result".to_string(), content: "42\t!".to_string() }],
        error: Some("boom".to_string()),
    });
    b
}

#[test]
fn memory_round_trip_preserves_turns() {
    let b = brain_with_history();
    let exported = b.export_memory();
    let mut b2 = Brain::new();
    let loaded = b2.load_memory(exported.as_str());
    assert!(loaded);
    assert_eq!(b.turn_count(), b2.turn_count());
    for i in 0..b.turn_count() {
        assert_eq!(b.turn(i).role, b2.turn(i).role);
        assert_eq!(b.turn(i).content, b2.turn(i).content);
    }
}

#[test]
fn memory_round_trip_twice_is_identical() {
    let b = brain_with_history();
    let once = b.export_memory();
    let mut b2 = Brain::new();
    assert!(b2.load_memory(once.as_str()));
    let twice = b2.export_memory();
    assert_eq!(once, twice);
}

#[test]
fn load_memory_rejects_non_system_head() {
    let mut b = Brain::new();
    let turns_before = b.turn_count();
    let loaded = b.load_memory("[{\"role\":\"user\",\"content\":\"hi\"}]");
    assert!(!loaded);
    assert_eq!(b.turn_count(), turns_before);
}

#[test]
fn load_memory_rejects_malformed_text() {
    let mut b = Brain::new();
    assert!(!b.load_memory("not json at all"));
    assert!(!b.load_memory("[{\"role\":\"system\"}]"));
    assert!(!b.load_memory(""));
}

#[test]
fn load_memory_accepts_whitespace_and_swapped_fields() {
    let mut b = Brain::new();
    let text = " [ { \"content\" : \"rules\" , \"role\" : \"system\" } ] ";
    assert!(b.load_memory(text));
    assert_eq!(b.turn_count(), 1);
    assert_eq!(b.turn(0).role, "system");
    assert_eq!(b.turn(0).content, "rules");
}

#[test]
fn fresh_brain_has_one_system_turn() {
    let b = Brain::new();
    assert_eq!(b.turn_count(), 1);
    assert_eq!(b.turn(0).role, "system");
    assert!(b.turn(0).content.contains("ONE step at a time"));
}

#[test]
fn start_task_appends_wrapped_user_turn() {
    let mut b = Brain::new();
    b.start_task("buy milk");
    assert_eq!(b.turn_count(), 2);
    assert_eq!(b.turn(1).role, "user");
    assert_eq!(
        b.turn(1).content,
        "Task: buy milk\n\nThe browser is on the current page. What is your next step?"
    );
}

#[test]
fn observe_formats_page_error_and_extractions() {
    let mut b = Brain::new();
    b.observe(&PageState {
        url: "u".to_string(),
        title: "t".to_string(),
        dom_snapshot: "d".to_string(),
        extracted: vec![
            Extraction { label: "a".to_string(), content: "1".to_string() },
            Extraction { label: "b".to_string(), content: "2".to_string() },
        ],
        error: Some("no element".to_string()),
    });
    assert_eq!(
        b.turn(1).content,
        "Page URL: u\nTitle: t\n\nDOM:\nd\n\nERROR from last step: no element\n\nExtracted [a]: 1\n\nExtracted [b]: 2"
    );
}

#[test]
fn history_warning_crosses_threshold() {
    let mut b = Brain::new();
    assert!(!b.history_warning());
    for i in 0..CONVERSATION_WARNING_THRESHOLD {
        b.record_reply(&format!("turn {}", i));
    }
    assert!(b.history_warning());
}

#[test]
fn request_body_embeds_model_history_and_temperature() {
    let b = brain_with_history();
    let body = b.request_body("gpt-5.2");
    let expected = format!(
        "{{\"model\":\"gpt-5.2\",\"messages\":{},\"temperature\":0.2}}",
        b.export_memory()
    );
    assert_eq!(body, expected);
}

#[test]
fn parse_step_reads_every_action() {
    assert!(matches!(
        parse_step("{\"action\":\"Navigate\",\"url\":\"https://a\"}"),
        Ok(Step::Navigate { url }) if url == "https://a"
    ));
    assert!(matches!(
        parse_step("{\"action\":\"WaitFor\",\"selector\":\"#q\",\"timeout_ms\":5000}"),
        Ok(Step::WaitFor { selector, timeout_ms: 5000 }) if selector == "#q"
    ));
    assert!(matches!(
        parse_step("{\"action\":\"TypeInto\",\"selector\":\"#q\",\"text\":\"X\"}"),
        Ok(Step::TypeInto { selector, text }) if selector == "#q" && text == "X"
    ));
    assert!(matches!(
        parse_step("{\"action\":\"Click\",\"selector\":\"[data-eid='[e0]']\"}"),
        Ok(Step::Click { selector }) if selector == "[data-eid='[e0]']"
    ));
    assert!(matches!(
        parse_step("{\"action\":\"PressKey\",\"key\":\"Enter\"}"),
        Ok(Step::PressKey { key }) if key == "Enter"
    ));
    assert!(matches!(
        parse_step("{\"action\":\"Extract\",\"selector\":\"body\",\"label\":\"main\"}"),
        Ok(Step::Extract { selector, label }) if selector == "body" && label == "main"
    ));
    assert!(matches!(parse_step("{\"action\":\"Screenshot\"}"), Ok(Step::Screenshot)));
    assert!(matches!(parse_step("{\"action\":\"NewTab\"}"), Ok(Step::NewTab)));
    assert!(matches!(
        parse_step("{\"action\":\"Done\",\"summary\":\"found it\"}"),
        Ok(Step::Done { summary }) if summary == "found it"
    ));
}

#[test]
fn parse_step_strips_markdown_fences() {
    let fenced = "```json\n{\"action\":\"Done\",\"summary\":\"X\"}\n```";
    assert!(matches!(
        parse_step(fenced),
        Ok(Step::Done { summary }) if summary == "X"
    ));
    let bare_fence = "```\n{\"action\":\"NewTab\"}\n```";
    assert!(matches!(parse_step(bare_fence), Ok(Step::NewTab)));
    let spaced = "  \n{\"action\":\"Screenshot\"} \t";
    assert!(matches!(parse_step(spaced), Ok(Step::Screenshot)));
}

#[test]
fn clean_reply_strips_repeated_fences() {
    let raw = chars_of("```json```json{\"a\":1}``````");
    let cleaned: Vec<char> = clean_reply(&raw);
    let expected = chars_of("{\"a\":1}");
    assert_eq!(cleaned, expected);
}

#[test]
fn parse_step_decodes_string_escapes() {
    let reply = "{\"action\":\"Done\",\"summary\":\"a\\\"b\\n\\u0041\\\\\"}";
    match parse_step(reply) {
        Ok(Step::Done { summary }) => assert_eq!(summary, "a\"b\nA\\"),
        other => panic!("unexpected: {:?}", other),
    }
}

#[test]
fn parse_step_decodes_surrogate_pairs() {
    let reply = "{\"action\":\"Done\",\"summary\":\"\\uD83D\\uDE00 ok\"}";
    match parse_step(reply) {
        Ok(Step::Done { summary }) => assert_eq!(summary, "\u{1F600} ok"),
        other => panic!("unexpected: {:?}", other),
    }
    // A lone surrogate escape is refused.
    assert!(matches!(
        parse_step("{\"action\":\"Done\",\"summary\":\"\\uD83D\"}"),
        Err(DecodeError::Syntax)
    ));
    assert!(matches!(
        parse_step("{\"action\":\"Done\",\"summary\":\"\\uDE00\"}"),
        Err(DecodeError::Syntax)
    ));
}

#[test]
fn parse_step_rejects_malformed_structure() {
    assert!(matches!(parse_step("not json"), Err(DecodeError::Syntax)));
    assert!(matches!(parse_step(""), Err(DecodeError::Syntax)));
    assert!(matches!(parse_step("[1,2]"), Err(DecodeError::Syntax)));
    assert!(matches!(
        parse_step("{\"action\":\"NewTab\"} trailing"),
        Err(DecodeError::Syntax)
    ));
    assert!(matches!(
        parse_step("{\"action\":\"Click\",\"action\":\"NewTab\"}"),
        Err(DecodeError::Syntax)
    ));
    assert!(matches!(
        parse_step("{\"action\":\"Click\",\"selector\":{\"x\":1}}"),
        Err(DecodeError::Syntax)
    ));
}

#[test]
fn parse_step_rejects_unknown_action() {
    assert!(matches!(parse_step("{\"action\":\"Fly\"}"), Err(DecodeError::UnknownAction)));
}

#[test]
fn parse_step_rejects_missing_or_mistyped_fields() {
    assert!(matches!(parse_step("{\"action\":\"Click\"}"), Err(DecodeError::MissingField)));
    assert!(matches!(parse_step("{\"x\":\"y\"}"), Err(DecodeError::MissingField)));
    assert!(matches!(parse_step("{\"action\":7}"), Err(DecodeError::MissingField)));
    assert!(matches!(
        parse_step("{\"action\":\"WaitFor\",\"selector\":\"#q\",\"timeout_ms\":\"soon\"}"),
        Err(DecodeError::MissingField)
    ));
}

#[test]
fn parse_step_ignores_fields_beyond_the_required_ones() {
    assert!(matches!(
        parse_step("{\"action\":\"Click\",\"selector\":\"a\",\"b\":1}"),
        Ok(Step::Click { selector }) if selector == "a"
    ));
    assert!(matches!(
        parse_step("{\"action\":\"NewTab\",\"note\":\"x\"}"),
        Ok(Step::NewTab)
    ));
    assert!(matches!(
        parse_step("{\"reason\":\"searching\",\"action\":\"Done\",\"summary\":\"s\"}"),
        Ok(Step::Done { summary }) if summary == "s"
    ));
}

#[test]
fn decode_error_messages_are_distinct() {
    let texts = [
        DecodeError::Syntax.message(),
        DecodeError::UnknownAction.message(),
        DecodeError::MissingField.message(),
    ];
    for i in 0..texts.len() {
        for j in 0..texts.len() {
            if i != j {
                assert_ne!(texts[i], texts[j]);
            }
        }
    }
}

#[test]
fn accept_reply_records_reply_even_when_parse_fails() {
    let mut b = Brain::new();
    let before = b.turn_count();
    let r = b.accept_reply("gibberish");
    assert!(r.is_err());
    assert_eq!(b.turn_count(), before + 1);
    assert_eq!(b.turn(before).role, "assistant");
    assert_eq!(b.turn(before).content, "gibberish");

    let r2 = b.accept_reply("{\"action\":\"Done\",\"summary\":\"ok\"}");
    assert!(matches!(r2, Ok(Step::Done { summary }) if summary == "ok"));
    assert_eq!(b.turn_count(), before + 2);
}

#[test]
fn service_error_message_formats_status_and_detail() {
    assert_eq!(
        service_error_message(401, Some("bad key")),
        "OpenAI API error (401): bad key"
    );
    assert_eq!(
        service_error_message(500, None),
        "OpenAI API error (500): Unknown API error"
    );
}

#[test]
fn chat_message_survives_exotic_content() {
    let mut b = Brain::new();
    b.record_reply("tabs\tnewlines\nquotes\"backslash\\control\u{1}end");
    let exported = b.export_memory();
    let mut b2 = Brain::new();
    assert!(b2.load_memory(exported.as_str()));
    assert_eq!(
        b2.turn(1).content,
        "tabs\tnewlines\nquotes\"backslash\\control\u{1}end"
    );
    let _ = ChatMessage { role: "user".to_string(), content: "x".to_string() };
}

#[test]
fn empty_history_array_is_not_adopted() {
    let mut b = Brain::new();
    assert!(!b.load_memory("[]"));
    assert_eq!(b.turn_count(), 1);
}
