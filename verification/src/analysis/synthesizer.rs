//! The first model stage: from the digest of the groups to narratives.

use vstd::prelude::*;
use vstd::string::StringExecFns;
use crate::text::{lowercase, str_eq, to_lowercase};
use crate::types::{Metric, Narrative, Real, TrendDirection};

verus! {

/// The instructions that fix the shape of the model's reply.
pub const SYSTEM_PROMPT: &'static str = r#"You are a senior Solana ecosystem analyst identifying emerging narratives from cross-source signal data.

A "narrative" is a thematic trend backed by multiple data points across different sources (GitHub developer activity, onchain metrics, DeFi TVL, social/blog signals). A narrative must appear in 2+ signal sources to be credible.

For each narrative you identify, provide:
1. A clear, specific title — name the specific protocols, tools, or primitives involved. "Concentrated Liquidity Migration on Raydium and Orca" not "DeFi growth."
2. A 2-3 sentence summary covering: what is happening, why it matters for the Solana ecosystem, and what structural shift it represents.
3. Confidence score (0.0-1.0) based on signal strength and source diversity.
4. Which signal indices support this narrative (from the input data).
5. Trend direction: "Accelerating" (growing faster), "Stable" (steady), "Decelerating" (slowing), "Emerging" (too early to tell, but signals present).
6. Key quantitative metrics that back the narrative.

Analysis depth requirements:
- **Historical context:** Is this a new trend or continuation of an existing one? What would be unusual or surprising about these numbers?
- **Structural implications:** What does this trend enable or threaten in the ecosystem? Which protocols or categories benefit or lose?
- **Cross-signal validation:** Do GitHub activity, onchain metrics, TVL data, and social signals agree? Explicitly flag divergences (e.g., rising developer activity but flat TVL suggests pre-launch building).
- **Second-order effects:** What follows from this trend? If liquid staking is growing, what does that unlock for DeFi composability?
- **Specificity:** Name specific protocols, repositories, and programs. Reference actual addresses, repo names, and TVL figures from the data.

Respond in JSON:
{
  "narratives": [
    {
      "title": "...",
      "summary": "...",
      "confidence": 0.85,
      "supporting_signals": [0, 3, 7],
      "trend": "Accelerating",
      "key_metrics": [{"name": "...", "value": 123.4, "unit": "..."}]
    }
  ]
}

Rules:
- Only report narratives you're confident about. Quality over quantity.
- Every claim must be backed by specific signals from the input data.
- Quantify everything. "Growing" is weak; "42% increase in new repos" is strong.
- 5-8 narratives is ideal. Fewer if the data doesn't support more.
- Don't invent data. Only use what's in the signals.
- When signals contradict each other, say so — contradiction is itself a signal."#;

/// The message that carries the digest to the model.
pub fn synthesis_message(signals_json: &str) -> (message: String)
    ensures
        message@
            == "Analyze these aggregated signals from the Solana ecosystem and identify emerging narratives:\n\n"@
            + signals_json@,
{
    let mut message = String::from_str(
        "Analyze these aggregated signals from the Solana ecosystem and identify emerging narratives:\n\n",
    );
    message.append(signals_json);
    message
}

/// Whether a lowercase word is one of the trend names the stage knows.
pub open spec fn is_trend_name(lower: Seq<char>) -> bool {
    ||| lower == "accelerating"@
    ||| lower == "stable"@
    ||| lower == "steady"@
    ||| lower == "decelerating"@
    ||| lower == "declining"@
    ||| lower == "emerging"@
    ||| lower == "nascent"@
    ||| lower == "early"@
}

/// The trend that a lowercase word names. A word that names none stands for
/// an emerging trend.
pub open spec fn trend_named(lower: Seq<char>) -> TrendDirection {
    if lower == "accelerating"@ {
        TrendDirection::Accelerating
    } else if lower == "stable"@ || lower == "steady"@ {
        TrendDirection::Stable
    } else if lower == "decelerating"@ || lower == "declining"@ {
        TrendDirection::Decelerating
    } else {
        TrendDirection::Emerging
    }
}

/// Reads a trend from a lowercase word.
pub fn trend_for(lower: &str) -> (trend: TrendDirection)
    ensures
        trend == trend_named(lower@),
        !is_trend_name(lower@) ==> trend == TrendDirection::Emerging,
{
    if str_eq(lower, "accelerating") {
        TrendDirection::Accelerating
    } else if str_eq(lower, "stable") || str_eq(lower, "steady") {
        TrendDirection::Stable
    } else if str_eq(lower, "decelerating") || str_eq(lower, "declining") {
        TrendDirection::Decelerating
    } else {
        TrendDirection::Emerging
    }
}

/// Reads a trend from the model's label, whatever its case.
pub fn parse_trend(s: &str) -> (trend: TrendDirection)
    ensures
        trend == trend_named(lowercase(s@)),
        !is_trend_name(lowercase(s@)) ==> trend == TrendDirection::Emerging,
{
    let lower = to_lowercase(s);
    trend_for(lower.as_str())
}

/// A narrative as the model reported it.
#[derive(Debug)]
pub struct RawNarrative {
    pub title: String,
    pub summary: String,
    pub confidence: Real,
    pub supporting_signals: Vec<usize>,
    pub trend: Option<String>,
    pub key_metrics: Vec<Metric>,
}

/// The trend that a reported label stands for; a missing label stands for an
/// emerging trend.
pub open spec fn trend_of(label: Option<String>) -> TrendDirection {
    match label {
        Some(l) => trend_named(lowercase(l@)),
        None => TrendDirection::Emerging,
    }
}

/// The narrative that a report stands for: the confidence moved into the
/// unit interval, the trend read from its label, everything else as
/// reported.
pub open spec fn shaped(raw: RawNarrative) -> Narrative {
    Narrative {
        title: raw.title,
        summary: raw.summary,
        confidence: raw.confidence.clamped(),
        supporting_signals: raw.supporting_signals,
        trend: trend_of(raw.trend),
        key_metrics: raw.key_metrics,
    }
}

/// Shapes one reported narrative.
pub fn narrative_from_raw(raw: RawNarrative) -> (narrative: Narrative)
    ensures
        narrative == shaped(raw),
        !raw.confidence.is_nan() ==> narrative.confidence.is_in_unit_interval(),
{
    let trend = match &raw.trend {
        Some(label) => parse_trend(label.as_str()),
        None => TrendDirection::Emerging,
    };
    Narrative {
        title: raw.title,
        summary: raw.summary,
        confidence: raw.confidence.clamp_unit(),
        supporting_signals: raw.supporting_signals,
        trend,
        key_metrics: raw.key_metrics,
    }
}

/// Turns the narratives that the model reported into the narratives of the
/// run, in the order in which the model gave them.
pub fn identify_narratives(raw: Vec<RawNarrative>) -> (narratives: Vec<Narrative>)
    ensures
        narratives@.len() == raw@.len(),
        forall|i: int| 0 <= i < raw@.len() ==> #[trigger] narratives@[i] == shaped(raw@[i]),
        forall|i: int|
            0 <= i < raw@.len() && !raw@[i].confidence.is_nan() ==> (
            #[trigger] narratives@[i]).confidence.is_in_unit_interval(),
{
    let mut narratives: Vec<Narrative> = Vec::new();
    for report in it: raw
        invariant
            narratives@.len() == it.index(),
            it.seq() == raw@,
            forall|i: int| 0 <= i < it.index() ==> #[trigger] narratives@[i] == shaped(raw@[i]),
            forall|i: int|
                0 <= i < it.index() && !raw@[i].confidence.is_nan() ==> (
                #[trigger] narratives@[i]).confidence.is_in_unit_interval(),
    {
        narratives.push(narrative_from_raw(report));
    }
    narratives
}

} // verus!
