//! The records that flow through the pipeline.

use vstd::prelude::*;

verus! {

/// Where a signal was observed.
#[derive(Debug, Clone, Copy, PartialEq, Eq, Hash, Structural)]
pub enum SignalSource {
    GitHub,
    SolanaOnchain,
    Social,
}

impl SignalSource {
    /// The name under which a source is shown.
    pub open spec fn label_text(self) -> Seq<char> {
        match self {
            SignalSource::GitHub => "GitHub"@,
            SignalSource::SolanaOnchain => "Solana Onchain"@,
            SignalSource::Social => "Social"@,
        }
    }

    /// The name under which the source is shown.
    pub fn label(&self) -> (label: &'static str)
        ensures
            label@ == self.label_text(),
    {
        match self {
            SignalSource::GitHub => "GitHub",
            SignalSource::SolanaOnchain => "Solana Onchain",
            SignalSource::Social => "Social",
        }
    }
}

/// The sources that occur in a sequence of sources.
pub open spec fn sources_in(sources: Seq<SignalSource>) -> Set<SignalSource> {
    Set::new(|source: SignalSource| sources.contains(source))
}

proof fn count_of_sources(sources: Set<SignalSource>, github: bool, onchain: bool, social: bool)
    requires
        sources.contains(SignalSource::GitHub) == github,
        sources.contains(SignalSource::SolanaOnchain) == onchain,
        sources.contains(SignalSource::Social) == social,
    ensures
        sources.finite(),
        sources.len() == (if github { 1int } else { 0 }) + (if onchain { 1int } else { 0 }) + (
        if social { 1int } else { 0 }),
{
    let none = Set::<SignalSource>::empty();
    let first = if github { none.insert(SignalSource::GitHub) } else { none };
    let second = if onchain { first.insert(SignalSource::SolanaOnchain) } else { first };
    let third = if social { second.insert(SignalSource::Social) } else { second };
    assert(sources =~= third);
}

/// Counts the distinct sources in a sequence of sources.
pub fn count_distinct(sources: &Vec<SignalSource>) -> (count: usize)
    ensures
        count == sources_in(sources@).len(),
        count <= 3,
{
    let mut github = false;
    let mut onchain = false;
    let mut social = false;
    let mut i: usize = 0;
    while i < sources.len()
        invariant
            i <= sources.len(),
            github == sources@.take(i as int).contains(SignalSource::GitHub),
            onchain == sources@.take(i as int).contains(SignalSource::SolanaOnchain),
            social == sources@.take(i as int).contains(SignalSource::Social),
        decreases sources.len() - i,
    {
        proof {
            let before = sources@.take(i as int);
            let after = sources@.take(i + 1);
            assert(after =~= before.push(sources@[i as int]));
            assert forall|s: SignalSource| after.contains(s) == (before.contains(s) || s
                == sources@[i as int]) by {
                if before.contains(s) {
                    let j = choose|j: int| 0 <= j < before.len() && before[j] == s;
                    assert(after[j] == s);
                }
                if s == sources@[i as int] {
                    assert(after[i as int] == s);
                }
            }
        }
        match sources[i] {
            SignalSource::GitHub => {
                github = true;
            },
            SignalSource::SolanaOnchain => {
                onchain = true;
            },
            SignalSource::Social => {
                social = true;
            },
        }
        i += 1;
    }
    proof {
        assert(sources@.take(i as int) =~= sources@);
        count_of_sources(sources_in(sources@), github, onchain, social);
    }
    let mut count: usize = 0;
    if github {
        count += 1;
    }
    if onchain {
        count += 1;
    }
    if social {
        count += 1;
    }
    count
}

/// A real number, carried as the bit pattern of its IEEE 754 binary64
/// encoding: one bit of sign, eleven of exponent, fifty-two of fraction. The
/// library moves such numbers around and orders them against zero and one;
/// it does no arithmetic on them.
#[derive(Debug, Clone, Copy, PartialEq, Eq, Structural)]
pub struct Real {
    pub bits: u64,
}

/// The bit that holds the sign of a binary64 number.
pub const SIGN_BIT: u64 = 0x8000_0000_0000_0000;

/// The bits of positive infinity; a larger magnitude is no number.
pub const INFINITY_BITS: u64 = 0x7FF0_0000_0000_0000;

/// The bits of the number one.
pub const ONE_BITS: u64 = 0x3FF0_0000_0000_0000;

impl Real {
    /// The bits without the sign. Among numbers of one sign, a larger
    /// magnitude is a number farther from zero.
    pub open spec fn magnitude(self) -> int {
        if self.bits >= SIGN_BIT {
            self.bits - SIGN_BIT
        } else {
            self.bits as int
        }
    }

    /// Whether the bits encode no number.
    pub open spec fn is_nan(self) -> bool {
        self.magnitude() > INFINITY_BITS
    }

    /// Whether the number is less than zero.
    pub open spec fn is_below_zero(self) -> bool {
        !self.is_nan() && self.bits >= SIGN_BIT && self.magnitude() != 0
    }

    /// Whether the number is greater than one.
    pub open spec fn is_above_one(self) -> bool {
        !self.is_nan() && self.bits < SIGN_BIT && self.magnitude() > ONE_BITS
    }

    /// Whether the number lies between zero and one, both included.
    pub open spec fn is_in_unit_interval(self) -> bool {
        !self.is_nan() && !self.is_below_zero() && !self.is_above_one()
    }

    /// The number moved into the unit interval: zero for a number below
    /// zero, one for a number above one, otherwise the number itself. What
    /// is no number stays as it is.
    pub open spec fn clamped(self) -> Real {
        if self.is_below_zero() {
            Real { bits: 0 }
        } else if self.is_above_one() {
            Real { bits: ONE_BITS }
        } else {
            self
        }
    }

    /// Whatever number goes in, what comes out lies in the unit interval.
    pub proof fn clamped_lies_in_unit_interval(self)
        requires
            !self.is_nan(),
        ensures
            self.clamped().is_in_unit_interval(),
    {
    }

    /// Moves the number into the unit interval.
    pub fn clamp_unit(self) -> (clamped: Real)
        ensures
            clamped == self.clamped(),
            !self.is_nan() ==> clamped.is_in_unit_interval(),
    {
        let negative = self.bits >= SIGN_BIT;
        let magnitude: u64 = if negative {
            self.bits - SIGN_BIT
        } else {
            self.bits
        };
        if magnitude > INFINITY_BITS {
            self
        } else if negative && magnitude != 0 {
            Real { bits: 0 }
        } else if !negative && magnitude > ONE_BITS {
            Real { bits: ONE_BITS }
        } else {
            self
        }
    }
}

/// One named measurement.
#[derive(Debug)]
pub struct Metric {
    pub name: String,
    pub value: Real,
    pub unit: String,
}

/// What a `Metric` holds.
pub struct MetricModel {
    pub name: Seq<char>,
    pub value: Real,
    pub unit: Seq<char>,
}

impl View for Metric {
    type V = MetricModel;

    open spec fn view(&self) -> MetricModel {
        MetricModel { name: self.name@, value: self.value, unit: self.unit@ }
    }
}

impl Clone for Metric {
    fn clone(&self) -> (copy: Self)
        ensures
            copy@ == self@,
    {
        Metric { name: self.name.clone(), value: self.value, unit: self.unit.clone() }
    }
}

/// What a sequence of metrics holds.
pub open spec fn metric_models(metrics: Seq<Metric>) -> Seq<MetricModel> {
    metrics.map_values(|m: Metric| m@)
}

/// A copy of a list of metrics.
pub fn clone_metrics(metrics: &Vec<Metric>) -> (copy: Vec<Metric>)
    ensures
        metric_models(copy@) == metric_models(metrics@),
{
    let mut copy: Vec<Metric> = Vec::new();
    let mut i: usize = 0;
    while i < metrics.len()
        invariant
            i <= metrics.len(),
            copy.len() == i,
            forall|j: int| 0 <= j < i ==> copy@[j]@ == metrics@[j]@,
        decreases metrics.len() - i,
    {
        copy.push(metrics[i].clone());
        i += 1;
    }
    assert(metric_models(copy@) =~= metric_models(metrics@));
    copy
}

/// An instant in UTC: whole seconds since 1970-01-01T00:00:00Z, and the
/// nanoseconds past that second.
#[derive(Debug, Clone, Copy, PartialEq, Eq, Structural)]
pub struct Timestamp {
    pub secs: i64,
    pub nanos: u32,
}

/// The RFC 3339 text of the instant `secs` seconds and `nanos` nanoseconds
/// after the epoch, where the calendar can express that instant.
pub uninterp spec fn rfc3339_text(secs: i64, nanos: u32) -> Option<Seq<char>>;

/// chrono's `DateTime::from_timestamp`, and `DateTime::to_rfc3339` on what it
/// returns. The first yields no date for seconds outside the calendar's range
/// or for nanoseconds that are no part of a second; the second writes the
/// date in UTC, which depends on the date alone. The contract names the text
/// and says nothing of what it holds.
#[verifier::external_body]
pub(crate) fn format_rfc3339(secs: i64, nanos: u32) -> (text: Option<String>)
    ensures
        match text {
            Some(t) => rfc3339_text(secs, nanos) == Some(t@),
            None => rfc3339_text(secs, nanos) is None,
        },
{
    match chrono::DateTime::from_timestamp(secs, nanos) {
        Some(at) => Some(at.to_rfc3339()),
        None => None,
    }
}

impl Timestamp {
    /// The RFC 3339 text of this instant.
    pub open spec fn rfc3339(self) -> Option<Seq<char>> {
        rfc3339_text(self.secs, self.nanos)
    }
}

/// One fact observed at one source. The position of a signal in the
/// collected sequence is the index by which later stages refer to it.
#[derive(Debug)]
pub struct Signal {
    pub source: SignalSource,
    pub category: String,
    pub title: String,
    pub description: String,
    pub metrics: Vec<Metric>,
    pub url: Option<String>,
    pub timestamp: Timestamp,
}

/// The text of an optional string.
pub open spec fn text_of(s: Option<String>) -> Option<Seq<char>> {
    match s {
        Some(t) => Some(t@),
        None => None,
    }
}

/// A copy of an optional string.
pub fn clone_text(s: &Option<String>) -> (copy: Option<String>)
    ensures
        text_of(copy) == text_of(*s),
{
    match s {
        Some(t) => Some(t.clone()),
        None => None,
    }
}

impl Clone for Signal {
    fn clone(&self) -> (copy: Self)
        ensures
            copy.source == self.source,
            copy.category@ == self.category@,
            copy.title@ == self.title@,
            copy.description@ == self.description@,
            metric_models(copy.metrics@) == metric_models(self.metrics@),
            text_of(copy.url) == text_of(self.url),
            copy.timestamp == self.timestamp,
    {
        Signal {
            source: self.source,
            category: self.category.clone(),
            title: self.title.clone(),
            description: self.description.clone(),
            metrics: clone_metrics(&self.metrics),
            url: clone_text(&self.url),
            timestamp: self.timestamp,
        }
    }
}

/// Direction in which a narrative is moving.
#[derive(Debug, Clone, Copy, PartialEq, Eq, Structural)]
pub enum TrendDirection {
    Accelerating,
    Stable,
    Decelerating,
    Emerging,
}

impl TrendDirection {
    /// The name under which a trend is shown.
    pub open spec fn label_text(self) -> Seq<char> {
        match self {
            TrendDirection::Accelerating => "Accelerating"@,
            TrendDirection::Stable => "Stable"@,
            TrendDirection::Decelerating => "Decelerating"@,
            TrendDirection::Emerging => "Emerging"@,
        }
    }

    /// The name under which the trend is shown.
    pub fn label(&self) -> (label: &'static str)
        ensures
            label@ == self.label_text(),
    {
        match self {
            TrendDirection::Accelerating => "Accelerating",
            TrendDirection::Stable => "Stable",
            TrendDirection::Decelerating => "Decelerating",
            TrendDirection::Emerging => "Emerging",
        }
    }

    /// The style class by which a report colours a trend.
    pub open spec fn css_class_text(self) -> Seq<char> {
        match self {
            TrendDirection::Accelerating => "text-green-400"@,
            TrendDirection::Stable => "text-blue-400"@,
            TrendDirection::Decelerating => "text-red-400"@,
            TrendDirection::Emerging => "text-yellow-400"@,
        }
    }

    /// The style class by which a report colours the trend.
    pub fn css_class(&self) -> (class: &'static str)
        ensures
            class@ == self.css_class_text(),
    {
        match self {
            TrendDirection::Accelerating => "text-green-400",
            TrendDirection::Stable => "text-blue-400",
            TrendDirection::Decelerating => "text-red-400",
            TrendDirection::Emerging => "text-yellow-400",
        }
    }
}

/// A trend claim backed by signals. `supporting_signals` are positions in
/// the signal sequence as the model reported them; nothing here vouches
/// that they are in range.
#[derive(Debug)]
pub struct Narrative {
    pub title: String,
    pub summary: String,
    pub confidence: Real,
    pub supporting_signals: Vec<usize>,
    pub trend: TrendDirection,
    pub key_metrics: Vec<Metric>,
}

impl Clone for Narrative {
    fn clone(&self) -> (copy: Self)
        ensures
            copy.title@ == self.title@,
            copy.summary@ == self.summary@,
            copy.confidence == self.confidence,
            copy.supporting_signals@ == self.supporting_signals@,
            copy.trend == self.trend,
            metric_models(copy.key_metrics@) == metric_models(self.key_metrics@),
    {
        let supporting_signals = self.supporting_signals.clone();
        assert(supporting_signals@ =~= self.supporting_signals@);
        Narrative {
            title: self.title.clone(),
            summary: self.summary.clone(),
            confidence: self.confidence,
            supporting_signals,
            trend: self.trend,
            key_metrics: clone_metrics(&self.key_metrics),
        }
    }
}

impl Narrative {
    /// Whether every supporting signal is one of `signal_count` signals.
    pub open spec fn refers_within(self, signal_count: nat) -> bool {
        forall|k: int|
            0 <= k < self.supporting_signals@.len() ==> (#[trigger] self.supporting_signals@[k])
                < signal_count
    }

    /// Checks that the narrative refers to no signal beyond the
    /// `signal_count` that were collected.
    pub fn supports_are_in_range(&self, signal_count: usize) -> (ok: bool)
        ensures
            ok == self.refers_within(signal_count as nat),
    {
        let mut k: usize = 0;
        while k < self.supporting_signals.len()
            invariant
                k <= self.supporting_signals.len(),
                forall|j: int| 0 <= j < k ==> (#[trigger] self.supporting_signals@[j]) < signal_count,
            decreases self.supporting_signals.len() - k,
        {
            if self.supporting_signals[k] >= signal_count {
                return false;
            }
            k += 1;
        }
        true
    }
}

/// A product concept tied to one narrative. `narrative_index` is a position
/// in the narrative sequence as the model reported it.
#[derive(Debug)]
pub struct BuildIdea {
    pub title: String,
    pub description: String,
    pub target_user: String,
    pub mvp_scope: String,
    pub competitive_landscape: String,
    pub timing_rationale: String,
    pub narrative_index: usize,
}

impl Clone for BuildIdea {
    fn clone(&self) -> (copy: Self)
        ensures
            copy.title@ == self.title@,
            copy.description@ == self.description@,
            copy.target_user@ == self.target_user@,
            copy.mvp_scope@ == self.mvp_scope@,
            copy.competitive_landscape@ == self.competitive_landscape@,
            copy.timing_rationale@ == self.timing_rationale@,
            copy.narrative_index == self.narrative_index,
    {
        BuildIdea {
            title: self.title.clone(),
            description: self.description.clone(),
            target_user: self.target_user.clone(),
            mvp_scope: self.mvp_scope.clone(),
            competitive_landscape: self.competitive_landscape.clone(),
            timing_rationale: self.timing_rationale.clone(),
            narrative_index: self.narrative_index,
        }
    }
}

impl BuildIdea {
    /// Checks that the idea refers to one of the `narrative_count`
    /// narratives.
    pub fn narrative_is_in_range(&self, narrative_count: usize) -> (ok: bool)
        ensures
            ok == (self.narrative_index < narrative_count),
    {
        self.narrative_index < narrative_count
    }
}

} // verus!
