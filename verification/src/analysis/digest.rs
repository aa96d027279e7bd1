//! The digest of the ranked groups that is handed to the synthesizer.

use vstd::prelude::*;
use crate::analysis::aggregator::SignalGroup;
use crate::types::{
    clone_metrics, clone_text, format_rfc3339, metric_models, text_of, Metric, MetricModel, Signal,
};

verus! {

/// One signal as the synthesizer sees it.
#[derive(Debug)]
pub struct SignalDigest {
    pub source: String,
    pub title: String,
    pub description: String,
    pub metrics: Vec<Metric>,
    pub url: Option<String>,
    pub timestamp: String,
}

/// What a `SignalDigest` holds.
pub struct SignalDigestModel {
    pub source: Seq<char>,
    pub title: Seq<char>,
    pub description: Seq<char>,
    pub metrics: Seq<MetricModel>,
    pub url: Option<Seq<char>>,
    pub timestamp: Seq<char>,
}

impl View for SignalDigest {
    type V = SignalDigestModel;

    open spec fn view(&self) -> SignalDigestModel {
        SignalDigestModel {
            source: self.source@,
            title: self.title@,
            description: self.description@,
            metrics: metric_models(self.metrics@),
            url: text_of(self.url),
            timestamp: self.timestamp@,
        }
    }
}

/// One group as the synthesizer sees it.
#[derive(Debug)]
pub struct GroupDigest {
    pub category: String,
    pub signal_count: usize,
    pub source_diversity: usize,
    pub signals: Vec<SignalDigest>,
}

/// The digest of a signal whose timestamp reads `timestamp`.
pub open spec fn digest_of(signal: Signal, timestamp: Seq<char>) -> SignalDigestModel {
    SignalDigestModel {
        source: signal.source.label_text(),
        title: signal.title@,
        description: signal.description@,
        metrics: metric_models(signal.metrics@),
        url: text_of(signal.url),
        timestamp,
    }
}

/// Whether the signal at `index` exists and has a timestamp that can be
/// written down.
pub open spec fn digestible(signals: Seq<Signal>, index: usize) -> bool {
    index < signals.len() && signals[index as int].timestamp.rfc3339() is Some
}

/// Whether `digest` renders `group` over `signals`: the same category and
/// counts, and the group's signals in the group's order.
pub open spec fn renders(digest: GroupDigest, group: SignalGroup, signals: Seq<Signal>) -> bool {
    &&& digest.category@ == group.category@
    &&& digest.signal_count == group.total_signals
    &&& digest.source_diversity == group.source_diversity
    &&& digest.signals@.len() == group.signals@.len()
    &&& forall|m: int|
        0 <= m < group.signals@.len() ==> digestible(signals, group.signals@[m]) && (
        #[trigger] digest.signals@[m])@ == digest_of(
            signals[group.signals@[m] as int],
            signals[group.signals@[m] as int].timestamp.rfc3339()->0,
        )
}

/// Renders one signal, given the text of its timestamp.
pub fn digest_signal(signal: &Signal, timestamp: String) -> (digest: SignalDigest)
    ensures
        digest@ == digest_of(*signal, timestamp@),
{
    SignalDigest {
        source: signal.source.label().to_owned(),
        title: signal.title.clone(),
        description: signal.description.clone(),
        metrics: clone_metrics(&signal.metrics),
        url: clone_text(&signal.url),
        timestamp,
    }
}

/// Renders one group, or nothing if one of its signals cannot be rendered.
pub fn digest_group(signals: &[Signal], group: &SignalGroup) -> (digest: Option<GroupDigest>)
    ensures
        match digest {
            Some(d) => renders(d, *group, signals@),
            None => exists|m: int|
                0 <= m < group.signals@.len() && !digestible(signals@, #[trigger] group.signals@[m]),
        },
{
    let mut rendered: Vec<SignalDigest> = Vec::new();
    let mut m: usize = 0;
    while m < group.signals.len()
        invariant
            m <= group.signals.len(),
            rendered.len() == m,
            forall|j: int|
                0 <= j < m ==> digestible(signals@, group.signals@[j]) && (#[trigger] rendered@[j])@
                    == digest_of(
                    signals@[group.signals@[j] as int],
                    signals@[group.signals@[j] as int].timestamp.rfc3339()->0,
                ),
        decreases group.signals.len() - m,
    {
        let index: usize = group.signals[m];
        if index >= signals.len() {
            assert(!digestible(signals@, group.signals@[m as int]));
            return None;
        }
        match format_rfc3339(signals[index].timestamp.secs, signals[index].timestamp.nanos) {
            Some(timestamp) => {
                rendered.push(digest_signal(&signals[index], timestamp));
            },
            None => {
                assert(!digestible(signals@, group.signals@[m as int]));
                return None;
            },
        }
        m += 1;
    }
    Some(
        GroupDigest {
            category: group.category.clone(),
            signal_count: group.total_signals,
            source_diversity: group.source_diversity,
            signals: rendered,
        },
    )
}

/// Prepares the digest of the ranked groups for the synthesizer: one entry
/// for each group, in order, each with its signals in order. There is no
/// digest if a group names a signal that does not exist or whose timestamp
/// cannot be written down.
pub fn signals_to_json(signals: &[Signal], groups: &[SignalGroup]) -> (digest: Option<
    Vec<GroupDigest>,
>)
    ensures
        match digest {
            Some(d) => d@.len() == groups@.len() && forall|k: int|
                0 <= k < groups@.len() ==> renders(#[trigger] d@[k], groups@[k], signals@),
            None => exists|k: int, m: int|
                0 <= k < groups@.len() && 0 <= m < groups@[k].signals@.len() && !digestible(
                    signals@,
                    #[trigger] groups@[k].signals@[m],
                ),
        },
{
    let mut digest: Vec<GroupDigest> = Vec::new();
    let mut k: usize = 0;
    while k < groups.len()
        invariant
            k <= groups.len(),
            digest.len() == k,
            forall|j: int| 0 <= j < k ==> renders(#[trigger] digest@[j], groups@[j], signals@),
        decreases groups.len() - k,
    {
        match digest_group(signals, &groups[k]) {
            Some(d) => {
                digest.push(d);
            },
            None => {
                proof {
                    let m = choose|m: int|
                        0 <= m < groups@[k as int].signals@.len() && !digestible(
                            signals@,
                            #[trigger] groups@[k as int].signals@[m],
                        );
                    assert(!digestible(signals@, groups@[k as int].signals@[m]));
                }
                return None;
            },
        }
        k += 1;
    }
    Some(digest)
}

} // verus!
