use st_narrative::claude::{parse_failure, reply_text, ClaudeClient, API_VERSION, CLAUDE_API_URL};
use st_narrative::llm::Provider;
use st_narrative::sources::{gather, merge_collected, CollectError};
use st_narrative::types::{Signal, SignalSource, Timestamp};

fn signal(source: SignalSource, title: &str) -> Signal {
    Signal {
        source,
        category: "c".to_string(),
        title: title.to_string(),
        description: String::new(),
        metrics: Vec::new(),
        url: None,
        timestamp: Timestamp { secs: 0, nanos: 0 },
    }
}

fn titles(signals: &[Signal]) -> Vec<&str> {
    signals.iter().map(|s| s.title.as_str()).collect()
}

#[test]
fn a_request_puts_one_user_message() {
    let client = ClaudeClient::new("key".to_string(), "model-x".to_string(), 4096);
    let request = client.request("be brief", "hello");
    assert_eq!(request.model, "model-x");
    assert_eq!(request.max_tokens, 4096);
    assert_eq!(request.system, "be brief");
    assert_eq!(request.messages.len(), 1);
    assert_eq!(request.messages[0].role, "user");
    assert_eq!(request.messages[0].content, "hello");
}

#[test]
fn the_headers_carry_key_and_version() {
    let client = ClaudeClient::new("SECRET-REDACTED".to_string(), "m".to_string(), 1);
    let headers = client.headers();
    assert_eq!(
        headers,
        vec![
            ("x-api-key".to_string(), "SECRET-REDACTED".to_string()),
            ("anthropic-version".to_string(), "2023-06-01".to_string()),
        ]
    );
    assert_eq!(API_VERSION, "2023-06-01");
    assert_eq!(CLAUDE_API_URL, "https://api.anthropic.com/v1/messages");
}

#[test]
fn reply_text_joins_text_blocks_by_lines() {
    assert_eq!(reply_text(&vec![]), "");
    assert_eq!(reply_text(&vec![None]), "");
    assert_eq!(reply_text(&vec![Some("a".to_string())]), "a");
    assert_eq!(reply_text(&vec![Some("a".to_string()), None, Some("b".to_string())]), "a\nb");
    assert_eq!(reply_text(&vec![None, Some("a".to_string()), Some("".to_string())]), "a\n");
    assert_eq!(reply_text(&vec![Some("".to_string()), Some("b".to_string())]), "\nb");
    assert_eq!(
        reply_text(&vec![Some("x".to_string()), Some("y".to_string()), Some("z".to_string())]),
        ["x", "y", "z"].join("\n")
    );
}

#[test]
fn a_parse_failure_carries_the_raw_reply() {
    assert_eq!(
        parse_failure("expected value at line 1", "not json"),
        "parse model JSON: expected value at line 1\nraw: not json"
    );
}

#[test]
fn providers_are_selected_by_name() {
    assert_eq!(Provider::from_name("anthropic"), Provider::Anthropic);
    assert_eq!(Provider::from_name("openai"), Provider::OpenAi);
    assert_eq!(Provider::from_name("openrouter"), Provider::OpenRouter);
    assert_eq!(Provider::from_name("Anthropic"), Provider::OpenRouter);
    assert_eq!(Provider::from_name(""), Provider::OpenRouter);
}

#[test]
fn signals_are_merged_in_the_order_of_the_sources() {
    let merged = merge_collected(
        Some(vec![signal(SignalSource::GitHub, "g1"), signal(SignalSource::GitHub, "g2")]),
        Some(vec![signal(SignalSource::SolanaOnchain, "o1")]),
        Some(vec![signal(SignalSource::Social, "s1"), signal(SignalSource::Social, "s2")]),
    )
    .unwrap();
    assert_eq!(titles(&merged), vec!["g1", "g2", "o1", "s1", "s2"]);
}

#[test]
fn one_collector_is_enough_for_a_run() {
    let merged = merge_collected(None, Some(vec![signal(SignalSource::SolanaOnchain, "o1")]), None)
        .unwrap();
    assert_eq!(titles(&merged), vec!["o1"]);
    let merged = merge_collected(None, None, Some(vec![signal(SignalSource::Social, "s1")])).unwrap();
    assert_eq!(titles(&merged), vec!["s1"]);
    let merged = merge_collected(Some(vec![signal(SignalSource::GitHub, "g1")]), None, None).unwrap();
    assert_eq!(titles(&merged), vec!["g1"]);
}

#[test]
fn a_run_without_signals_stops() {
    assert_eq!(merge_collected(None, None, None).unwrap_err(), CollectError::NoSignals);
    assert_eq!(
        merge_collected(Some(vec![]), None, Some(vec![])).unwrap_err(),
        CollectError::NoSignals
    );
    assert_eq!(
        CollectError::NoSignals.message(),
        "No signals collected from any source. Check API keys and network connectivity."
    );
}

#[test]
fn gather_tolerates_every_failure() {
    assert!(gather(None, None, None).is_empty());
    let all = gather(
        Some(vec![signal(SignalSource::GitHub, "g1")]),
        None,
        Some(vec![signal(SignalSource::Social, "s1")]),
    );
    assert_eq!(titles(&all), vec!["g1", "s1"]);
}
