//! Merging what the collectors brought in.

use vstd::prelude::*;
use crate::types::Signal;

pub mod social;
pub mod solana_rpc;

verus! {

/// Why a run cannot go on after collection.
#[derive(Debug, Clone, Copy, PartialEq, Eq, Structural)]
pub enum CollectError {
    /// No collector brought in a signal.
    NoSignals,
}

impl CollectError {
    /// What the error tells the operator.
    pub fn message(&self) -> (message: &'static str)
        ensures
            message@
                == "No signals collected from any source. Check API keys and network connectivity."@,
    {
        "No signals collected from any source. Check API keys and network connectivity."
    }
}

/// The signals of one collector; none if the collector failed.
pub open spec fn collected(outcome: Option<Vec<Signal>>) -> Seq<Signal> {
    match outcome {
        Some(signals) => signals@,
        None => Seq::empty(),
    }
}

/// The signals of all collectors in the fixed order of the sources: code
/// hosting first, then the chain, then the public write-ups.
pub open spec fn merged(
    github: Option<Vec<Signal>>,
    onchain: Option<Vec<Signal>>,
    social: Option<Vec<Signal>>,
) -> Seq<Signal> {
    collected(github) + collected(onchain) + collected(social)
}

/// Puts the signals of the three collectors one after the other, in the
/// order of the sources and not in the order in which the collectors
/// finished. A failed collector adds nothing.
pub fn gather(
    github: Option<Vec<Signal>>,
    onchain: Option<Vec<Signal>>,
    social: Option<Vec<Signal>>,
) -> (signals: Vec<Signal>)
    ensures
        signals@ == merged(github, onchain, social),
{
    let mut signals: Vec<Signal> = Vec::new();
    if let Some(mut found) = github {
        signals.append(&mut found);
    }
    if let Some(mut found) = onchain {
        signals.append(&mut found);
    }
    if let Some(mut found) = social {
        signals.append(&mut found);
    }
    assert(signals@ =~= merged(github, onchain, social));
    signals
}

/// Merges the outcomes of the three collectors for a full run. The run can
/// go on exactly if there is at least one signal: a failed collector is
/// tolerated as long as another one brought something in.
pub fn merge_collected(
    github: Option<Vec<Signal>>,
    onchain: Option<Vec<Signal>>,
    social: Option<Vec<Signal>>,
) -> (outcome: Result<Vec<Signal>, CollectError>)
    ensures
        match outcome {
            Ok(signals) => signals@ == merged(github, onchain, social) && signals@.len() > 0,
            Err(e) => e == CollectError::NoSignals && merged(github, onchain, social).len() == 0,
        },
{
    let signals = gather(github, onchain, social);
    if signals.len() == 0 {
        Err(CollectError::NoSignals)
    } else {
        Ok(signals)
    }
}

} // verus!
