use st_narrative::output::report::{
    assemble, idea_view, metric_line, narrative_view, signal_view, source_count,
};
use st_narrative::types::{
    count_distinct, BuildIdea, Metric, Narrative, Real, Signal, SignalSource, Timestamp,
    TrendDirection,
};

fn narrative(title: &str, trend: TrendDirection) -> Narrative {
    Narrative {
        title: title.to_string(),
        summary: "summary".to_string(),
        confidence: Real { bits: 0.85f64.to_bits() },
        supporting_signals: vec![0, 3, 7],
        trend,
        key_metrics: Vec::new(),
    }
}

fn idea(index: usize) -> BuildIdea {
    BuildIdea {
        title: "t".to_string(),
        description: "d".to_string(),
        target_user: "u".to_string(),
        mvp_scope: "m".to_string(),
        competitive_landscape: "c".to_string(),
        timing_rationale: "r".to_string(),
        narrative_index: index,
    }
}

fn signal(source: SignalSource, url: Option<&str>) -> Signal {
    Signal {
        source,
        category: "cat".to_string(),
        title: "title".to_string(),
        description: "desc".to_string(),
        metrics: Vec::new(),
        url: url.map(|u| u.to_string()),
        timestamp: Timestamp { secs: 0, nanos: 0 },
    }
}

#[test]
fn labels_and_classes() {
    assert_eq!(SignalSource::GitHub.label(), "GitHub");
    assert_eq!(SignalSource::SolanaOnchain.label(), "Solana Onchain");
    assert_eq!(SignalSource::Social.label(), "Social");
    assert_eq!(TrendDirection::Accelerating.label(), "Accelerating");
    assert_eq!(TrendDirection::Stable.label(), "Stable");
    assert_eq!(TrendDirection::Decelerating.label(), "Decelerating");
    assert_eq!(TrendDirection::Emerging.label(), "Emerging");
    assert_eq!(TrendDirection::Accelerating.css_class(), "text-green-400");
    assert_eq!(TrendDirection::Stable.css_class(), "text-blue-400");
    assert_eq!(TrendDirection::Decelerating.css_class(), "text-red-400");
    assert_eq!(TrendDirection::Emerging.css_class(), "text-yellow-400");
}

#[test]
fn a_metric_line_shows_the_unit_where_there_is_one() {
    let with_unit = Metric {
        name: "avg_tps".to_string(),
        value: Real { bits: 2500.0f64.to_bits() },
        unit: "tx/s".to_string(),
    };
    assert_eq!(metric_line(&with_unit, "2500.0"), "avg_tps: 2500.0 tx/s");
    let without = Metric {
        name: "epoch".to_string(),
        value: Real { bits: 600.0f64.to_bits() },
        unit: String::new(),
    };
    assert_eq!(metric_line(&without, "600.0"), "epoch: 600.0");
}

#[test]
fn a_metric_clone_holds_the_same() {
    let m = Metric { name: "n".to_string(), value: Real { bits: 7 }, unit: "u".to_string() };
    let c = m.clone();
    assert_eq!(c.name, "n");
    assert_eq!(c.value, Real { bits: 7 });
    assert_eq!(c.unit, "u");
}

#[test]
fn a_narrative_view_shows_trend_and_counts() {
    let view = narrative_view(
        &narrative("Liquid staking", TrendDirection::Decelerating),
        85,
        vec!["a: 1.0".to_string()],
    );
    assert_eq!(view.title, "Liquid staking");
    assert_eq!(view.summary, "summary");
    assert_eq!(view.confidence_pct, 85);
    assert_eq!(view.trend, "Decelerating");
    assert_eq!(view.trend_class, "text-red-400");
    assert_eq!(view.signal_count, 3);
    assert_eq!(view.metrics, vec!["a: 1.0".to_string()]);
}

#[test]
fn an_idea_view_names_its_narrative() {
    let narratives = vec![
        narrative("first", TrendDirection::Stable),
        narrative("second", TrendDirection::Stable),
    ];
    assert_eq!(idea_view(&idea(0), &narratives).narrative_title, "first");
    assert_eq!(idea_view(&idea(1), &narratives).narrative_title, "second");
    assert_eq!(idea_view(&idea(2), &narratives).narrative_title, "Unknown");
    assert_eq!(idea_view(&idea(usize::MAX), &narratives).narrative_title, "Unknown");
    assert_eq!(idea_view(&idea(0), &[]).narrative_title, "Unknown");
    let view = idea_view(&idea(0), &narratives);
    assert_eq!(view.title, "t");
    assert_eq!(view.description, "d");
    assert_eq!(view.target_user, "u");
    assert_eq!(view.mvp_scope, "m");
    assert_eq!(view.competitive_landscape, "c");
    assert_eq!(view.timing_rationale, "r");
}

#[test]
fn a_signal_view_shows_an_empty_address_where_there_is_none() {
    let with = signal_view(&signal(SignalSource::Social, Some("https://x")), vec![]);
    assert_eq!(with.url, "https://x");
    assert_eq!(with.source, "Social");
    assert_eq!(with.category, "cat");
    assert_eq!(with.title, "title");
    assert_eq!(with.description, "desc");
    let without = signal_view(&signal(SignalSource::GitHub, None), vec!["m".to_string()]);
    assert_eq!(without.url, "");
    assert_eq!(without.metrics, vec!["m".to_string()]);
}

#[test]
fn sources_are_counted_once_each() {
    assert_eq!(source_count(&[]), 0);
    assert_eq!(source_count(&[signal(SignalSource::GitHub, None)]), 1);
    assert_eq!(
        source_count(&[signal(SignalSource::GitHub, None), signal(SignalSource::GitHub, None)]),
        1
    );
    assert_eq!(
        source_count(&[
            signal(SignalSource::Social, None),
            signal(SignalSource::GitHub, None),
            signal(SignalSource::Social, None),
            signal(SignalSource::SolanaOnchain, None),
        ]),
        3
    );
}

#[test]
fn the_report_counts_signals_and_sources() {
    let signals = vec![signal(SignalSource::Social, None), signal(SignalSource::GitHub, None)];
    let report = assemble("2025-01-01 00:00 UTC".to_string(), &signals, vec![], vec![], vec![]);
    assert_eq!(report.generated_at, "2025-01-01 00:00 UTC");
    assert_eq!(report.total_signals, 2);
    assert_eq!(report.source_count, 2);
    assert!(report.narratives.is_empty());
    assert!(report.build_ideas.is_empty());
    assert!(report.signals.is_empty());
}

#[test]
fn distinct_sources_are_counted_in_any_order() {
    assert_eq!(count_distinct(&vec![]), 0);
    assert_eq!(count_distinct(&vec![SignalSource::Social]), 1);
    assert_eq!(count_distinct(&vec![SignalSource::Social, SignalSource::Social]), 1);
    assert_eq!(
        count_distinct(&vec![SignalSource::Social, SignalSource::GitHub, SignalSource::Social]),
        2
    );
    assert_eq!(
        count_distinct(&vec![
            SignalSource::SolanaOnchain,
            SignalSource::GitHub,
            SignalSource::Social,
            SignalSource::GitHub,
        ]),
        3
    );
}
