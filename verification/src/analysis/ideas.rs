//! The second model stage: from narratives to build ideas.

use vstd::prelude::*;
use vstd::string::StringExecFns;
use crate::types::BuildIdea;

verus! {

/// The instructions that fix the shape of the model's reply.
pub const SYSTEM_PROMPT: &'static str = r#"You are a product strategist for the Solana ecosystem. Given identified narratives with supporting data, generate concrete build ideas that an AI agent or small team could implement in one week.

For each build idea, provide:
1. A specific product name/title
2. Clear description of what it does
3. Target user (who uses this and why)
4. MVP scope (what you build in a week — be realistic)
5. Competitive landscape (what exists, what's missing)
6. Timing rationale (why now, not 6 months ago or 6 months from now)
7. Which narrative index this idea supports (from the input)

Generate 3-5 ideas per narrative. Focus on ideas that are:
- Immediately useful (not "build a protocol" — think tools, dashboards, bots)
- Differentiated (not another DEX aggregator)
- Feasible for an AI agent to prototype

Respond in JSON:
{
  "ideas": [
    {
      "title": "...",
      "description": "...",
      "target_user": "...",
      "mvp_scope": "...",
      "competitive_landscape": "...",
      "timing_rationale": "...",
      "narrative_index": 0
    }
  ]
}"#;

/// The message that carries the narratives to the model.
pub fn ideas_message(narratives_json: &str) -> (message: String)
    ensures
        message@ == "Generate build ideas for these Solana ecosystem narratives:\n\n"@
            + narratives_json@,
{
    let mut message = String::from_str(
        "Generate build ideas for these Solana ecosystem narratives:\n\n",
    );
    message.append(narratives_json);
    message
}

/// A build idea as the model reported it.
#[derive(Debug)]
pub struct RawIdea {
    pub title: String,
    pub description: String,
    pub target_user: String,
    pub mvp_scope: String,
    pub competitive_landscape: String,
    pub timing_rationale: String,
    pub narrative_index: usize,
}

/// The build idea that a report stands for: every field as reported, the
/// index of the narrative too.
pub open spec fn adopted(raw: RawIdea) -> BuildIdea {
    BuildIdea {
        title: raw.title,
        description: raw.description,
        target_user: raw.target_user,
        mvp_scope: raw.mvp_scope,
        competitive_landscape: raw.competitive_landscape,
        timing_rationale: raw.timing_rationale,
        narrative_index: raw.narrative_index,
    }
}

/// Turns the ideas that the model reported into the build ideas of the run,
/// one for one and in the order in which the model gave them.
pub fn generate_ideas(raw: Vec<RawIdea>) -> (ideas: Vec<BuildIdea>)
    ensures
        ideas@.len() == raw@.len(),
        forall|i: int| 0 <= i < raw@.len() ==> #[trigger] ideas@[i] == adopted(raw@[i]),
{
    let mut ideas: Vec<BuildIdea> = Vec::new();
    for report in it: raw
        invariant
            ideas@.len() == it.index(),
            it.seq() == raw@,
            forall|i: int| 0 <= i < it.index() ==> #[trigger] ideas@[i] == adopted(raw@[i]),
    {
        ideas.push(
            BuildIdea {
                title: report.title,
                description: report.description,
                target_user: report.target_user,
                mvp_scope: report.mvp_scope,
                competitive_landscape: report.competitive_landscape,
                timing_rationale: report.timing_rationale,
                narrative_index: report.narrative_index,
            },
        );
    }
    ideas
}

} // verus!
