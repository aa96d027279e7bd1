use st_narrative::analysis::ideas::{generate_ideas, ideas_message, RawIdea};
use st_narrative::analysis::synthesizer::{
    narrative_from_raw, identify_narratives, parse_trend, synthesis_message, trend_for,
    RawNarrative, SYSTEM_PROMPT,
};
use st_narrative::types::{Metric, Real, TrendDirection, INFINITY_BITS, ONE_BITS, SIGN_BIT};

fn num(x: f64) -> Real {
    Real { bits: x.to_bits() }
}

fn raw(title: &str, confidence: f64, trend: Option<&str>) -> RawNarrative {
    RawNarrative {
        title: title.to_string(),
        summary: format!("{} in short", title),
        confidence: num(confidence),
        supporting_signals: vec![0, 3, 99],
        trend: trend.map(|t| t.to_string()),
        key_metrics: vec![Metric { name: "m".to_string(), value: num(123.4), unit: String::new() }],
    }
}

#[test]
fn confidence_above_one_becomes_one() {
    assert_eq!(num(1.7).clamp_unit(), num(1.0));
    assert_eq!(narrative_from_raw(raw("n", 1.7, None)).confidence, num(1.0));
}

#[test]
fn confidence_below_zero_becomes_zero() {
    assert_eq!(num(-0.3).clamp_unit(), num(0.0));
    assert_eq!(narrative_from_raw(raw("n", -0.3, None)).confidence, num(0.0));
}

#[test]
fn confidence_in_range_is_kept() {
    for x in [0.0, 0.25, 0.85, 1.0, f64::MIN_POSITIVE, 5e-324] {
        assert_eq!(num(x).clamp_unit(), num(x));
    }
}

#[test]
fn clamping_agrees_with_the_float_it_stands_for() {
    let samples = [
        0.0, -0.0, 1.0, -1.0, 0.5, -0.5, 1.7, -0.3, 1.0000000000000002, 0.9999999999999999,
        f64::MAX, f64::MIN, f64::MIN_POSITIVE, -f64::MIN_POSITIVE, 5e-324, -5e-324,
        f64::INFINITY, f64::NEG_INFINITY, 100.0, -100.0, 2.0, 1e-300, 1e300,
    ];
    for x in samples {
        assert_eq!(num(x).clamp_unit().bits, x.clamp(0.0, 1.0).to_bits(), "{}", x);
    }
    let nan = num(f64::NAN);
    assert_eq!(nan.clamp_unit(), nan);
    assert!(f64::from_bits(nan.clamp_unit().bits).is_nan());
}

#[test]
fn the_named_bit_patterns_are_those_of_the_numbers() {
    assert_eq!(ONE_BITS, 1.0f64.to_bits());
    assert_eq!(INFINITY_BITS, f64::INFINITY.to_bits());
    assert_eq!(SIGN_BIT, (-0.0f64).to_bits());
}

#[test]
fn known_trend_names_are_read_whatever_their_case() {
    assert_eq!(parse_trend("Accelerating"), TrendDirection::Accelerating);
    assert_eq!(parse_trend("accelerating"), TrendDirection::Accelerating);
    assert_eq!(parse_trend("ACCELERATING"), TrendDirection::Accelerating);
    assert_eq!(parse_trend("Stable"), TrendDirection::Stable);
    assert_eq!(parse_trend("steady"), TrendDirection::Stable);
    assert_eq!(parse_trend("Decelerating"), TrendDirection::Decelerating);
    assert_eq!(parse_trend("DECLINING"), TrendDirection::Decelerating);
    assert_eq!(parse_trend("Emerging"), TrendDirection::Emerging);
    assert_eq!(parse_trend("nascent"), TrendDirection::Emerging);
    assert_eq!(parse_trend("Early"), TrendDirection::Emerging);
}

#[test]
fn an_unknown_trend_is_emerging() {
    assert_eq!(parse_trend("sideways"), TrendDirection::Emerging);
    assert_eq!(parse_trend(""), TrendDirection::Emerging);
    assert_eq!(parse_trend(" stable"), TrendDirection::Emerging);
    assert_eq!(parse_trend("accelerating!"), TrendDirection::Emerging);
}

#[test]
fn trend_for_reads_lowercase_names_only() {
    assert_eq!(trend_for("stable"), TrendDirection::Stable);
    assert_eq!(trend_for("Stable"), TrendDirection::Emerging);
}

#[test]
fn a_narrative_keeps_what_the_model_reported() {
    let n = narrative_from_raw(raw("Liquid staking", 0.85, Some("STEADY")));
    assert_eq!(n.title, "Liquid staking");
    assert_eq!(n.summary, "Liquid staking in short");
    assert_eq!(n.confidence, num(0.85));
    assert_eq!(n.supporting_signals, vec![0, 3, 99]);
    assert_eq!(n.trend, TrendDirection::Stable);
    assert_eq!(n.key_metrics.len(), 1);
    assert_eq!(n.key_metrics[0].name, "m");
    assert_eq!(n.key_metrics[0].value, num(123.4));
    assert_eq!(n.key_metrics[0].unit, "");
}

#[test]
fn a_narrative_without_a_trend_is_emerging() {
    assert_eq!(narrative_from_raw(raw("n", 0.5, None)).trend, TrendDirection::Emerging);
}

#[test]
fn narratives_keep_the_order_of_the_reply() {
    let shaped = identify_narratives(vec![
        raw("first", 2.0, Some("accelerating")),
        raw("second", -1.0, Some("sideways")),
        raw("third", 0.5, Some("declining")),
    ]);
    let titles: Vec<&str> = shaped.iter().map(|n| n.title.as_str()).collect();
    assert_eq!(titles, vec!["first", "second", "third"]);
    assert_eq!(shaped[0].confidence, num(1.0));
    assert_eq!(shaped[1].confidence, num(0.0));
    assert_eq!(shaped[2].confidence, num(0.5));
    assert_eq!(shaped[0].trend, TrendDirection::Accelerating);
    assert_eq!(shaped[1].trend, TrendDirection::Emerging);
    assert_eq!(shaped[2].trend, TrendDirection::Decelerating);
    assert!(identify_narratives(Vec::new()).is_empty());
}

#[test]
fn the_synthesis_message_carries_the_digest() {
    assert_eq!(
        synthesis_message("[1]"),
        "Analyze these aggregated signals from the Solana ecosystem and identify emerging narratives:\n\n[1]"
    );
}

#[test]
fn the_ideas_message_carries_the_narratives() {
    assert_eq!(
        ideas_message("[]"),
        "Generate build ideas for these Solana ecosystem narratives:\n\n[]"
    );
}

#[test]
fn the_synthesis_prompt_fixes_the_reply_schema() {
    assert!(SYSTEM_PROMPT.starts_with("You are a senior Solana ecosystem analyst"));
    assert!(SYSTEM_PROMPT.contains("\"supporting_signals\": [0, 3, 7]"));
    assert!(SYSTEM_PROMPT.contains("\"key_metrics\": [{\"name\": \"...\", \"value\": 123.4, \"unit\": \"...\"}]"));
    assert!(SYSTEM_PROMPT.ends_with("contradiction is itself a signal."));
    assert!(st_narrative::analysis::ideas::SYSTEM_PROMPT.contains("\"narrative_index\": 0"));
}

#[test]
fn ideas_are_adopted_one_for_one() {
    let raw = |n: usize| RawIdea {
        title: format!("t{n}"),
        description: format!("d{n}"),
        target_user: format!("u{n}"),
        mvp_scope: format!("m{n}"),
        competitive_landscape: format!("c{n}"),
        timing_rationale: format!("r{n}"),
        narrative_index: n * 7,
    };
    let ideas = generate_ideas(vec![raw(0), raw(1), raw(2)]);
    assert_eq!(ideas.len(), 3);
    for (n, idea) in ideas.iter().enumerate() {
        assert_eq!(idea.title, format!("t{n}"));
        assert_eq!(idea.description, format!("d{n}"));
        assert_eq!(idea.target_user, format!("u{n}"));
        assert_eq!(idea.mvp_scope, format!("m{n}"));
        assert_eq!(idea.competitive_landscape, format!("c{n}"));
        assert_eq!(idea.timing_rationale, format!("r{n}"));
        assert_eq!(idea.narrative_index, n * 7);
    }
    assert!(generate_ideas(Vec::new()).is_empty());
}

#[test]
fn references_beyond_the_run_are_found() {
    let n = narrative_from_raw(raw("n", 0.5, None));
    assert!(!n.supports_are_in_range(99));
    assert!(n.supports_are_in_range(100));
    assert!(!n.supports_are_in_range(0));
    let mut empty = narrative_from_raw(raw("n", 0.5, None));
    empty.supporting_signals.clear();
    assert!(empty.supports_are_in_range(0));
    let idea = generate_ideas(vec![RawIdea {
        title: String::new(),
        description: String::new(),
        target_user: String::new(),
        mvp_scope: String::new(),
        competitive_landscape: String::new(),
        timing_rationale: String::new(),
        narrative_index: 2,
    }])
    .remove(0);
    assert!(idea.narrative_is_in_range(3));
    assert!(!idea.narrative_is_in_range(2));
}

#[test]
fn copies_of_narratives_and_ideas_hold_the_same() {
    let n = narrative_from_raw(raw("Liquid staking", 0.85, Some("Stable")));
    let c = n.clone();
    assert_eq!(c.title, n.title);
    assert_eq!(c.summary, n.summary);
    assert_eq!(c.confidence, n.confidence);
    assert_eq!(c.supporting_signals, n.supporting_signals);
    assert_eq!(c.trend, n.trend);
    assert_eq!(c.key_metrics.len(), n.key_metrics.len());
    assert_eq!(c.key_metrics[0].name, n.key_metrics[0].name);
    let idea = generate_ideas(vec![RawIdea {
        title: "t".to_string(),
        description: "d".to_string(),
        target_user: "u".to_string(),
        mvp_scope: "m".to_string(),
        competitive_landscape: "c".to_string(),
        timing_rationale: "r".to_string(),
        narrative_index: 4,
    }])
    .remove(0);
    let copy = idea.clone();
    assert_eq!(copy.title, "t");
    assert_eq!(copy.description, "d");
    assert_eq!(copy.target_user, "u");
    assert_eq!(copy.mvp_scope, "m");
    assert_eq!(copy.competitive_landscape, "c");
    assert_eq!(copy.timing_rationale, "r");
    assert_eq!(copy.narrative_index, 4);
}
