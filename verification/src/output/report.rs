//! The view of a finished run that the report template fills in.

use vstd::prelude::*;
use vstd::string::StringExecFns;
use crate::types::{
    count_distinct, sources_in, BuildIdea, Metric, Narrative, Signal, SignalSource,
};

verus! {

/// The whole report.
#[derive(Debug)]
pub struct ReportTemplate {
    pub generated_at: String,
    pub total_signals: usize,
    pub source_count: usize,
    pub narratives: Vec<NarrativeView>,
    pub build_ideas: Vec<BuildIdeaView>,
    pub signals: Vec<SignalView>,
}

/// One narrative as the report shows it.
#[derive(Debug)]
pub struct NarrativeView {
    pub title: String,
    pub summary: String,
    pub confidence_pct: u32,
    pub trend: String,
    pub trend_class: String,
    pub signal_count: usize,
    pub metrics: Vec<String>,
}

/// One build idea as the report shows it.
#[derive(Debug)]
pub struct BuildIdeaView {
    pub title: String,
    pub description: String,
    pub target_user: String,
    pub mvp_scope: String,
    pub competitive_landscape: String,
    pub timing_rationale: String,
    pub narrative_title: String,
}

/// One signal as the report shows it.
#[derive(Debug)]
pub struct SignalView {
    pub source: String,
    pub category: String,
    pub title: String,
    pub description: String,
    pub metrics: Vec<String>,
    pub url: String,
}

/// The line that shows a metric whose value reads `amount`: name and
/// amount, and the unit where there is one.
pub open spec fn metric_line_text(name: Seq<char>, amount: Seq<char>, unit: Seq<char>) -> Seq<
    char,
> {
    if unit.len() == 0 {
        name + ": "@ + amount
    } else {
        name + ": "@ + amount + " "@ + unit
    }
}

/// Writes the line that shows a metric, given the text of its value.
pub fn metric_line(metric: &Metric, amount: &str) -> (line: String)
    ensures
        line@ == metric_line_text(metric.name@, amount@, metric.unit@),
{
    let mut line = metric.name.clone();
    line.append(": ");
    line.append(amount);
    if !metric.unit.as_str().is_empty() {
        line.append(" ");
        line.append(metric.unit.as_str());
    }
    line
}

/// Shows a narrative, given its confidence in percent and the lines of its
/// metrics.
pub fn narrative_view(narrative: &Narrative, confidence_pct: u32, metrics: Vec<String>) -> (view:
    NarrativeView)
    ensures
        view.title@ == narrative.title@,
        view.summary@ == narrative.summary@,
        view.confidence_pct == confidence_pct,
        view.trend@ == narrative.trend.label_text(),
        view.trend_class@ == narrative.trend.css_class_text(),
        view.signal_count == narrative.supporting_signals@.len(),
        view.metrics == metrics,
{
    NarrativeView {
        title: narrative.title.clone(),
        summary: narrative.summary.clone(),
        confidence_pct,
        trend: narrative.trend.label().to_owned(),
        trend_class: narrative.trend.css_class().to_owned(),
        signal_count: narrative.supporting_signals.len(),
        metrics,
    }
}

/// The title of the narrative that an idea refers to; `Unknown` where the
/// idea refers to no narrative of the run.
pub open spec fn narrative_title(narratives: Seq<Narrative>, index: usize) -> Seq<char> {
    if index < narratives.len() {
        narratives[index as int].title@
    } else {
        "Unknown"@
    }
}

/// Shows a build idea beside the title of its narrative.
pub fn idea_view(idea: &BuildIdea, narratives: &[Narrative]) -> (view: BuildIdeaView)
    ensures
        view.title@ == idea.title@,
        view.description@ == idea.description@,
        view.target_user@ == idea.target_user@,
        view.mvp_scope@ == idea.mvp_scope@,
        view.competitive_landscape@ == idea.competitive_landscape@,
        view.timing_rationale@ == idea.timing_rationale@,
        view.narrative_title@ == narrative_title(narratives@, idea.narrative_index),
{
    let narrative_title = if idea.narrative_index < narratives.len() {
        narratives[idea.narrative_index].title.clone()
    } else {
        "Unknown".to_owned()
    };
    BuildIdeaView {
        title: idea.title.clone(),
        description: idea.description.clone(),
        target_user: idea.target_user.clone(),
        mvp_scope: idea.mvp_scope.clone(),
        competitive_landscape: idea.competitive_landscape.clone(),
        timing_rationale: idea.timing_rationale.clone(),
        narrative_title,
    }
}

/// Shows a signal, given the lines of its metrics. A signal without an
/// address shows an empty one.
pub fn signal_view(signal: &Signal, metrics: Vec<String>) -> (view: SignalView)
    ensures
        view.source@ == signal.source.label_text(),
        view.category@ == signal.category@,
        view.title@ == signal.title@,
        view.description@ == signal.description@,
        view.metrics == metrics,
        view.url@ == match signal.url {
            Some(url) => url@,
            None => Seq::<char>::empty(),
        },
{
    let url = match &signal.url {
        Some(url) => url.clone(),
        None => String::new(),
    };
    SignalView {
        source: signal.source.label().to_owned(),
        category: signal.category.clone(),
        title: signal.title.clone(),
        description: signal.description.clone(),
        metrics,
        url,
    }
}

/// The sources from which the signals come.
pub open spec fn sources_of(signals: Seq<Signal>) -> Set<SignalSource> {
    Set::new(
        |source: SignalSource|
            exists|i: int| 0 <= i < signals.len() && (#[trigger] signals[i]).source == source,
    )
}

/// Counts the distinct sources of the signals.
pub fn source_count(signals: &[Signal]) -> (count: usize)
    ensures
        count == sources_of(signals@).len(),
        count <= 3,
{
    let mut all: Vec<SignalSource> = Vec::new();
    let mut i: usize = 0;
    while i < signals.len()
        invariant
            i <= signals.len(),
            all.len() == i,
            forall|j: int| 0 <= j < i ==> all@[j] == signals@[j].source,
        decreases signals.len() - i,
    {
        all.push(signals[i].source);
        i += 1;
    }
    proof {
        assert forall|source: SignalSource|
            sources_of(signals@).contains(source) == sources_in(all@).contains(source) by {
            if sources_of(signals@).contains(source) {
                let j = choose|j: int|
                    0 <= j < signals@.len() && (#[trigger] signals@[j]).source == source;
                assert(all@[j] == source);
            }
            if sources_in(all@).contains(source) {
                let j = choose|j: int| 0 <= j < all@.len() && all@[j] == source;
                assert(signals@[j].source == source);
            }
        }
        assert(sources_of(signals@) =~= sources_in(all@));
    }
    count_distinct(&all)
}

/// Puts the report together from the views of its parts.
pub fn assemble(
    generated_at: String,
    signals: &[Signal],
    narratives: Vec<NarrativeView>,
    build_ideas: Vec<BuildIdeaView>,
    signal_views: Vec<SignalView>,
) -> (report: ReportTemplate)
    ensures
        report.generated_at == generated_at,
        report.total_signals == signals@.len(),
        report.source_count == sources_of(signals@).len(),
        report.narratives == narratives,
        report.build_ideas == build_ideas,
        report.signals == signal_views,
{
    ReportTemplate {
        generated_at,
        total_signals: signals.len(),
        source_count: source_count(signals),
        narratives,
        build_ideas,
        signals: signal_views,
    }
}

} // verus!
