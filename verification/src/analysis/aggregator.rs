//! Groups signals by category and ranks the groups by how many independent
//! sources back them.

use vstd::prelude::*;
use crate::analysis::theorems::{groups_hold_every_signal_once, rollup_sums_by_name, sums_by_name};
use crate::text::{lowercase, str_eq, to_lowercase};
use crate::types::{
    count_distinct, metric_models, sources_in, Metric, MetricModel, Real, Signal, SignalSource,
};

verus! {

/// The canonical label that a lowercase category name stands for, if it is a
/// known alias.
pub open spec fn canonical_label(lower: Seq<char>) -> Option<Seq<char>> {
    if lower == "defi"@ || lower == "decentralized finance"@ {
        Some("DeFi"@)
    } else if lower == "nft"@ || lower == "nfts"@ || lower == "non-fungible token"@ || lower
        == "non-fungible tokens"@ {
        Some("NFT"@)
    } else if lower == "depin"@ || lower == "decentralized physical infrastructure"@ {
        Some("DePIN"@)
    } else if lower == "gaming"@ || lower == "gamefi"@ || lower == "game fi"@ {
        Some("Gaming"@)
    } else if lower == "rwa"@ || lower == "real world assets"@ || lower == "real-world assets"@ {
        Some("RWA"@)
    } else if lower == "dao"@ || lower == "daos"@ || lower
        == "decentralized autonomous organization"@ {
        Some("DAO"@)
    } else {
        None
    }
}

/// The category under which a signal is grouped: the canonical label of a
/// known alias, whatever its case, and any other name as it stands.
pub open spec fn normalized(category: Seq<char>) -> Seq<char> {
    match canonical_label(lowercase(category)) {
        Some(label) => label,
        None => category,
    }
}

/// Looks a lowercase category name up in the alias table.
pub fn canonical_for(lower: &str) -> (label: Option<&'static str>)
    ensures
        match label {
            Some(l) => canonical_label(lower@) == Some(l@),
            None => canonical_label(lower@) is None,
        },
{
    if str_eq(lower, "defi") || str_eq(lower, "decentralized finance") {
        Some("DeFi")
    } else if str_eq(lower, "nft") || str_eq(lower, "nfts") || str_eq(lower, "non-fungible token")
        || str_eq(lower, "non-fungible tokens") {
        Some("NFT")
    } else if str_eq(lower, "depin") || str_eq(lower, "decentralized physical infrastructure") {
        Some("DePIN")
    } else if str_eq(lower, "gaming") || str_eq(lower, "gamefi") || str_eq(lower, "game fi") {
        Some("Gaming")
    } else if str_eq(lower, "rwa") || str_eq(lower, "real world assets") || str_eq(
        lower,
        "real-world assets",
    ) {
        Some("RWA")
    } else if str_eq(lower, "dao") || str_eq(lower, "daos") || str_eq(
        lower,
        "decentralized autonomous organization",
    ) {
        Some("DAO")
    } else {
        None
    }
}

/// Maps a free-text category onto its canonical label.
pub fn normalize_category(cat: &str) -> (label: String)
    ensures
        label@ == normalized(cat@),
{
    let lower = to_lowercase(cat);
    match canonical_for(lower.as_str()) {
        Some(label) => label.to_owned(),
        None => cat.to_owned(),
    }
}

proof fn reveal_aliases()
    ensures
        lowercase("DeFi"@) == "defi"@,
        lowercase("NFT"@) == "nft"@,
        lowercase("DePIN"@) == "depin"@,
        lowercase("Gaming"@) == "gaming"@,
        lowercase("RWA"@) == "rwa"@,
        lowercase("DAO"@) == "dao"@,
        "defi"@.len() == 4,
        "decentralized finance"@.len() == 21,
        "nft"@.len() == 3,
        "nfts"@.len() == 4,
        "non-fungible token"@.len() == 18,
        "non-fungible tokens"@.len() == 19,
        "depin"@.len() == 5,
        "decentralized physical infrastructure"@.len() == 37,
        "gaming"@.len() == 6,
        "gamefi"@.len() == 6,
        "game fi"@.len() == 7,
        "rwa"@.len() == 3,
        "real world assets"@.len() == 17,
        "real-world assets"@.len() == 17,
        "dao"@.len() == 3,
        "nft"@[0] == 'n',
        "rwa"@[0] == 'r',
        "dao"@[0] == 'd',
        "defi"@[1] == 'e',
        "nfts"@[1] == 'f',
        "depin"@[0] == 'd',
        "gaming"@[0] == 'g',
        "gamefi"@[0] == 'g',
{
    reveal_strlit("DeFi");
    reveal_strlit("NFT");
    reveal_strlit("DePIN");
    reveal_strlit("Gaming");
    reveal_strlit("RWA");
    reveal_strlit("DAO");
    reveal_strlit("defi");
    reveal_strlit("decentralized finance");
    reveal_strlit("nft");
    reveal_strlit("nfts");
    reveal_strlit("non-fungible token");
    reveal_strlit("non-fungible tokens");
    reveal_strlit("depin");
    reveal_strlit("decentralized physical infrastructure");
    reveal_strlit("gaming");
    reveal_strlit("gamefi");
    reveal_strlit("game fi");
    reveal_strlit("rwa");
    reveal_strlit("real world assets");
    reveal_strlit("real-world assets");
    reveal_strlit("dao");
    assert(lowercase("DeFi"@) =~= "defi"@);
    assert(lowercase("NFT"@) =~= "nft"@);
    assert(lowercase("DePIN"@) =~= "depin"@);
    assert(lowercase("Gaming"@) =~= "gaming"@);
    assert(lowercase("RWA"@) =~= "rwa"@);
    assert(lowercase("DAO"@) =~= "dao"@);
}

/// Normalizing a category that is already normalized changes nothing.
pub proof fn normalize_is_idempotent(category: Seq<char>)
    ensures
        normalized(normalized(category)) == normalized(category),
{
    reveal_aliases();
}

/// The category under which the signal at position `i` is grouped.
pub open spec fn category_at(signals: Seq<Signal>, i: int) -> Seq<char> {
    normalized(signals[i].category@)
}

/// The positions below `upto` of the signals grouped under `category`, in
/// ascending order.
pub open spec fn members_below(signals: Seq<Signal>, category: Seq<char>, upto: int) -> Seq<usize>
    decreases upto,
{
    if upto <= 0 {
        Seq::empty()
    } else if upto <= signals.len() && category_at(signals, upto - 1) == category {
        members_below(signals, category, upto - 1).push((upto - 1) as usize)
    } else {
        members_below(signals, category, upto - 1)
    }
}

/// The positions of all signals grouped under `category`, in ascending order.
pub open spec fn members(signals: Seq<Signal>, category: Seq<char>) -> Seq<usize> {
    members_below(signals, category, signals.len() as int)
}

/// `members_below` lists exactly the positions below `upto` that fall under
/// the category, each once and in ascending order.
pub proof fn members_below_lists_category(signals: Seq<Signal>, category: Seq<char>, upto: int)
    requires
        0 <= upto <= signals.len() <= usize::MAX,
    ensures
        forall|k: int|
            0 <= k < members_below(signals, category, upto).len() ==> {
                let at = #[trigger] members_below(signals, category, upto)[k];
                at < upto && category_at(signals, at as int) == category
            },
        forall|j: int, k: int|
            0 <= j < k < members_below(signals, category, upto).len() ==> members_below(
                signals,
                category,
                upto,
            )[j] < members_below(signals, category, upto)[k],
        forall|at: int|
            0 <= at < upto && #[trigger] category_at(signals, at) == category ==> members_below(
                signals,
                category,
                upto,
            ).contains(at as usize),
    decreases upto,
{
    if upto > 0 {
        members_below_lists_category(signals, category, upto - 1);
        let earlier = members_below(signals, category, upto - 1);
        let now = members_below(signals, category, upto);
        assert forall|at: int| 0 <= at < upto && #[trigger] category_at(signals, at)
            == category implies now.contains(at as usize) by {
            if at < upto - 1 {
                let k = choose|k: int| 0 <= k < earlier.len() && earlier[k] == at as usize;
                assert(now[k] == at as usize);
            } else {
                assert(now[now.len() - 1] == at as usize);
            }
        }
    }
}

/// Whether `category` is among `categories`.
spec fn lists_category(categories: Seq<String>, category: Seq<char>) -> bool {
    exists|j: int| 0 <= j < categories.len() && (#[trigger] categories[j])@ == category
}

/// Whether `category` is among `categories` at position `from` or later.
spec fn lists_category_from(categories: Seq<String>, from: int, category: Seq<char>) -> bool {
    exists|j: int| from <= j < categories.len() && (#[trigger] categories[j])@ == category
}

/// Finds the position of a category among those seen so far.
fn position_of(categories: &Vec<String>, category: &String) -> (found: Option<usize>)
    ensures
        match found {
            Some(j) => j < categories.len() && categories@[j as int]@ == category@,
            None => forall|j: int| 0 <= j < categories.len() ==> categories@[j]@ != category@,
        },
{
    let mut j: usize = 0;
    while j < categories.len()
        invariant
            j <= categories.len(),
            forall|k: int| 0 <= k < j ==> categories@[k]@ != category@,
        decreases categories.len() - j,
    {
        if str_eq(categories[j].as_str(), category.as_str()) {
            return Some(j);
        }
        j += 1;
    }
    None
}

/// Splits the positions of the signals by category. The categories come in
/// the order in which they first occur.
fn partition(signals: &[Signal]) -> (parts: (Vec<String>, Vec<Vec<usize>>))
    ensures
        parts.0.len() == parts.1.len(),
        forall|j: int|
            0 <= j < parts.0.len() ==> (#[trigger] parts.1@[j])@ == members(signals@, parts.0@[j]@)
                && parts.1@[j]@.len() > 0,
        forall|j: int, k: int|
            0 <= j < k < parts.0.len() ==> (#[trigger] parts.0@[j])@ != (#[trigger] parts.0@[k])@,
        forall|p: int|
            0 <= p < signals.len() ==> lists_category(parts.0@, #[trigger] category_at(signals@, p)),
{
    let mut categories: Vec<String> = Vec::new();
    let mut lists: Vec<Vec<usize>> = Vec::new();
    let mut i: usize = 0;
    while i < signals.len()
        invariant
            i <= signals.len(),
            categories.len() == lists.len(),
            forall|j: int|
                0 <= j < categories.len() ==> (#[trigger] lists@[j])@ == members_below(
                    signals@,
                    categories@[j]@,
                    i as int,
                ) && lists@[j]@.len() > 0,
            forall|j: int, k: int|
                0 <= j < k < categories.len() ==> (#[trigger] categories@[j])@ != (
                #[trigger] categories@[k])@,
            forall|p: int|
                0 <= p < i ==> lists_category(categories@, #[trigger] category_at(signals@, p)),
        decreases signals.len() - i,
    {
        let category = normalize_category(signals[i].category.as_str());
        let ghost before = categories@;
        let ghost slot: int;
        match position_of(&categories, &category) {
            Some(j) => {
                lists[j].push(i);
                proof {
                    slot = j as int;
                }
            },
            None => {
                proof {
                    slot = categories.len() as int;
                }
                proof {
                    members_below_lists_category(signals@, category@, i as int);
                    let earlier = members_below(signals@, category@, i as int);
                    if earlier.len() > 0 {
                        let at = earlier[0];
                        assert(lists_category(before, category_at(signals@, at as int)));
                        assert(false);
                    }
                }
                let mut list: Vec<usize> = Vec::new();
                list.push(i);
                categories.push(category);
                lists.push(list);
            },
        }
        proof {
            assert forall|p: int| 0 <= p < i + 1 implies lists_category(
                categories@,
                #[trigger] category_at(signals@, p),
            ) by {
                if p < i {
                    assert(lists_category(before, category_at(signals@, p)));
                    let j = choose|j: int|
                        0 <= j < before.len() && (#[trigger] before[j])@ == category_at(
                            signals@,
                            p,
                        );
                    assert(categories@[j]@ == category_at(signals@, p));
                } else {
                    assert(categories@[slot]@ == category_at(signals@, p));
                }
            }
        }
        i += 1;
    }
    (categories, lists)
}

/// One metric name rolled up over a group: the unit under which the name
/// first occurred, and every value reported under the name, in the order of
/// the group's signals and of each signal's metrics. The values are the terms
/// of the sum that stands for the group.
#[derive(Debug)]
pub struct MetricRollup {
    pub name: String,
    pub unit: String,
    pub terms: Vec<Real>,
}

/// What a `MetricRollup` holds.
pub struct RollupModel {
    pub name: Seq<char>,
    pub unit: Seq<char>,
    pub terms: Seq<Real>,
}

impl View for MetricRollup {
    type V = RollupModel;

    open spec fn view(&self) -> RollupModel {
        RollupModel { name: self.name@, unit: self.unit@, terms: self.terms@ }
    }
}

impl Clone for MetricRollup {
    fn clone(&self) -> (copy: Self)
        ensures
            copy@ == self@,
    {
        let terms = self.terms.clone();
        assert(terms@ =~= self.terms@);
        MetricRollup { name: self.name.clone(), unit: self.unit.clone(), terms }
    }
}

/// What a sequence of rollups holds.
pub open spec fn rollup_models(rollups: Seq<MetricRollup>) -> Seq<RollupModel> {
    rollups.map_values(|r: MetricRollup| r@)
}

/// The first position at or after `from` of the rollup named `name`.
pub open spec fn entry_named(rollups: Seq<RollupModel>, name: Seq<char>, from: int) -> Option<int>
    decreases rollups.len() - from,
{
    if from < 0 || from >= rollups.len() {
        None
    } else if rollups[from].name == name {
        Some(from)
    } else {
        entry_named(rollups, name, from + 1)
    }
}

/// Adds one metric to a rollup: its value joins the terms of the entry that
/// bears its name, or it opens a new entry under its own unit.
pub open spec fn absorb(rollups: Seq<RollupModel>, metric: MetricModel) -> Seq<RollupModel> {
    match entry_named(rollups, metric.name, 0) {
        Some(j) => rollups.update(
            j,
            RollupModel {
                name: rollups[j].name,
                unit: rollups[j].unit,
                terms: rollups[j].terms.push(metric.value),
            },
        ),
        None => rollups.push(
            RollupModel { name: metric.name, unit: metric.unit, terms: seq![metric.value] },
        ),
    }
}

/// The rollup of a sequence of metrics, taken in order.
pub open spec fn rollup(metrics: Seq<MetricModel>) -> Seq<RollupModel>
    decreases metrics.len(),
{
    if metrics.len() == 0 {
        Seq::empty()
    } else {
        absorb(rollup(metrics.drop_last()), metrics.last())
    }
}

/// The sources from which the signals at the positions `members` come.
pub open spec fn sources_among(signals: Seq<Signal>, members: Seq<usize>) -> Set<SignalSource> {
    Set::new(
        |source: SignalSource|
            exists|k: int|
                0 <= k < members.len() && signals[(#[trigger] members[k]) as int].source == source,
    )
}

/// The metrics of the signals at the positions `members`, in order.
pub open spec fn metrics_among(signals: Seq<Signal>, members: Seq<usize>) -> Seq<MetricModel>
    decreases members.len(),
{
    if members.len() == 0 {
        Seq::empty()
    } else {
        metrics_among(signals, members.drop_last()) + metric_models(
            signals[members.last() as int].metrics@,
        )
    }
}

/// Signals of one category, with what they add up to.
#[derive(Debug)]
pub struct SignalGroup {
    pub category: String,
    pub signals: Vec<usize>,
    pub source_diversity: usize,
    pub total_signals: usize,
    pub key_metrics: Vec<MetricRollup>,
}

/// What a `SignalGroup` holds.
pub struct GroupModel {
    pub category: Seq<char>,
    pub signals: Seq<usize>,
    pub source_diversity: usize,
    pub total_signals: usize,
    pub key_metrics: Seq<RollupModel>,
}

impl View for SignalGroup {
    type V = GroupModel;

    open spec fn view(&self) -> GroupModel {
        GroupModel {
            category: self.category@,
            signals: self.signals@,
            source_diversity: self.source_diversity,
            total_signals: self.total_signals,
            key_metrics: rollup_models(self.key_metrics@),
        }
    }
}

impl Clone for SignalGroup {
    fn clone(&self) -> (copy: Self)
        ensures
            copy@ == self@,
    {
        let signals = self.signals.clone();
        assert(signals@ =~= self.signals@);
        let mut key_metrics: Vec<MetricRollup> = Vec::new();
        let mut i: usize = 0;
        while i < self.key_metrics.len()
            invariant
                i <= self.key_metrics.len(),
                key_metrics.len() == i,
                forall|j: int| 0 <= j < i ==> key_metrics@[j]@ == self.key_metrics@[j]@,
            decreases self.key_metrics.len() - i,
        {
            key_metrics.push(self.key_metrics[i].clone());
            i += 1;
        }
        assert(rollup_models(key_metrics@) =~= rollup_models(self.key_metrics@));
        SignalGroup {
            category: self.category.clone(),
            signals,
            source_diversity: self.source_diversity,
            total_signals: self.total_signals,
            key_metrics,
        }
    }
}

/// The group that the signals at the positions `members` form under
/// `category`.
pub open spec fn group_over(signals: Seq<Signal>, category: Seq<char>, members: Seq<usize>)
    -> GroupModel {
    GroupModel {
        category,
        signals: members,
        source_diversity: sources_among(signals, members).len() as usize,
        total_signals: members.len() as usize,
        key_metrics: rollup(metrics_among(signals, members)),
    }
}

/// The group of all signals that fall under `category`.
pub open spec fn group_of(signals: Seq<Signal>, category: Seq<char>) -> GroupModel {
    group_over(signals, category, members(signals, category))
}

/// Counts the distinct sources among the signals at the positions `members`.
pub fn count_sources(signals: &[Signal], members: &Vec<usize>) -> (count: usize)
    requires
        forall|k: int| 0 <= k < members.len() ==> members@[k] < signals.len(),
    ensures
        count == sources_among(signals@, members@).len(),
        count <= 3,
{
    let mut picked: Vec<SignalSource> = Vec::new();
    let mut k: usize = 0;
    while k < members.len()
        invariant
            k <= members.len(),
            picked.len() == k,
            forall|j: int| 0 <= j < members.len() ==> members@[j] < signals.len(),
            forall|j: int| 0 <= j < k ==> picked@[j] == signals@[members@[j] as int].source,
        decreases members.len() - k,
    {
        picked.push(signals[members[k]].source);
        k += 1;
    }
    proof {
        assert forall|source: SignalSource|
            sources_among(signals@, members@).contains(source) == sources_in(picked@).contains(
                source,
            ) by {
            if sources_among(signals@, members@).contains(source) {
                let j = choose|j: int|
                    0 <= j < members@.len() && signals@[(#[trigger] members@[j]) as int].source
                        == source;
                assert(picked@[j] == source);
            }
            if sources_in(picked@).contains(source) {
                let j = choose|j: int| 0 <= j < picked@.len() && picked@[j] == source;
                assert(signals@[members@[j] as int].source == source);
            }
        }
        assert(sources_among(signals@, members@) =~= sources_in(picked@));
    }
    count_distinct(&picked)
}

/// Adds one metric to a running rollup.
fn absorb_metric(rollups: &mut Vec<MetricRollup>, metric: &Metric)
    ensures
        rollup_models(final(rollups)@) == absorb(rollup_models(old(rollups)@), metric@),
{
    let ghost models = rollup_models(rollups@);
    let mut j: usize = 0;
    while j < rollups.len()
        invariant
            j <= rollups.len(),
            rollups@ == old(rollups)@,
            models == rollup_models(rollups@),
            entry_named(models, metric@.name, 0) == entry_named(models, metric@.name, j as int),
        decreases rollups.len() - j,
    {
        if str_eq(rollups[j].name.as_str(), metric.name.as_str()) {
            rollups[j].terms.push(metric.value);
            assert(rollup_models(rollups@) =~= absorb(models, metric@));
            return ;
        }
        j += 1;
    }
    let mut terms: Vec<Real> = Vec::new();
    terms.push(metric.value);
    rollups.push(MetricRollup { name: metric.name.clone(), unit: metric.unit.clone(), terms });
    assert(rollup_models(rollups@) =~= absorb(models, metric@));
}

/// Rolls up the metrics of the signals at the positions `members`.
pub fn roll_up(signals: &[Signal], members: &Vec<usize>) -> (rollups: Vec<MetricRollup>)
    requires
        forall|k: int| 0 <= k < members.len() ==> members@[k] < signals.len(),
    ensures
        rollup_models(rollups@) == rollup(metrics_among(signals@, members@)),
        sums_by_name(rollup_models(rollups@), metrics_among(signals@, members@)),
{
    let mut rollups: Vec<MetricRollup> = Vec::new();
    assert(rollup_models(rollups@) =~= Seq::empty());
    let mut k: usize = 0;
    while k < members.len()
        invariant
            k <= members.len(),
            forall|j: int| 0 <= j < members.len() ==> members@[j] < signals.len(),
            rollup_models(rollups@) == rollup(metrics_among(signals@, members@.take(k as int))),
        decreases members.len() - k,
    {
        let signal = &signals[members[k]];
        let ghost earlier = metrics_among(signals@, members@.take(k as int));
        let ghost own = metric_models(signal.metrics@);
        let mut t: usize = 0;
        assert(earlier + own.take(0) =~= earlier);
        while t < signal.metrics.len()
            invariant
                t <= signal.metrics.len(),
                own == metric_models(signal.metrics@),
                rollup_models(rollups@) == rollup(earlier + own.take(t as int)),
            decreases signal.metrics.len() - t,
        {
            absorb_metric(&mut rollups, &signal.metrics[t]);
            proof {
                let flat = earlier + own.take(t as int);
                let next = earlier + own.take(t + 1);
                assert(next.drop_last() =~= flat);
                assert(next.last() == signal.metrics@[t as int]@);
            }
            t += 1;
        }
        proof {
            assert(own.take(t as int) =~= own);
            assert(members@.take(k + 1).drop_last() =~= members@.take(k as int));
        }
        k += 1;
    }
    proof {
        assert(members@.take(k as int) =~= members@);
        rollup_sums_by_name(metrics_among(signals@, members@));
    }
    rollups
}

/// Forms the group of the signals at the positions `members`.
fn summarize(signals: &[Signal], category: String, members: Vec<usize>) -> (group: SignalGroup)
    requires
        forall|k: int| 0 <= k < members.len() ==> members@[k] < signals.len(),
    ensures
        group@ == group_over(signals@, category@, members@),
{
    let source_diversity: usize = count_sources(signals, &members);
    let key_metrics = roll_up(signals, &members);
    let total_signals: usize = members.len();
    SignalGroup { category, signals: members, source_diversity, total_signals, key_metrics }
}

/// What a sequence of groups holds.
pub open spec fn group_models(groups: Seq<SignalGroup>) -> Seq<GroupModel> {
    groups.map_values(|g: SignalGroup| g@)
}

/// The ranking: more sources first; among equals, more signals first; among
/// those, the group whose first signal comes earlier.
pub open spec fn ranks_before(a: GroupModel, b: GroupModel) -> bool {
    ||| a.source_diversity > b.source_diversity
    ||| a.source_diversity == b.source_diversity && a.total_signals > b.total_signals
    ||| a.source_diversity == b.source_diversity && a.total_signals == b.total_signals
        && a.signals.len() > 0 && b.signals.len() > 0 && a.signals[0] < b.signals[0]
}

/// Whether one of `groups` stands for `category`.
pub open spec fn has_group(groups: Seq<GroupModel>, category: Seq<char>) -> bool {
    exists|k: int| 0 <= k < groups.len() && (#[trigger] groups[k]).category == category
}

/// Whether `groups` is the aggregation of `signals`: every group is the
/// whole, non-empty group of its category, every signal's category has its
/// group, and the groups stand in ranking order.
pub open spec fn is_aggregation(signals: Seq<Signal>, groups: Seq<GroupModel>) -> bool {
    &&& forall|k: int|
        0 <= k < groups.len() ==> #[trigger] groups[k] == group_of(signals, groups[k].category)
            && groups[k].signals.len() > 0
    &&& forall|p: int|
        0 <= p < signals.len() ==> has_group(groups, #[trigger] category_at(signals, p))
    &&& forall|j: int, k: int|
        0 <= j < k < groups.len() ==> ranks_before(#[trigger] groups[j], #[trigger] groups[k])
}

/// The number of signals that the groups hold together.
pub open spec fn total_members(groups: Seq<GroupModel>) -> int
    decreases groups.len(),
{
    if groups.len() == 0 {
        0
    } else {
        total_members(groups.drop_last()) + groups.last().total_signals
    }
}

/// Whether group `a` comes before group `b` in the ranking.
fn outranks(a: &SignalGroup, b: &SignalGroup) -> (before: bool)
    requires
        a.signals@.len() > 0,
        b.signals@.len() > 0,
    ensures
        before == ranks_before(a@, b@),
{
    if a.source_diversity != b.source_diversity {
        a.source_diversity > b.source_diversity
    } else if a.total_signals != b.total_signals {
        a.total_signals > b.total_signals
    } else {
        a.signals[0] < b.signals[0]
    }
}

/// Puts a group at its place in a ranked sequence.
fn insert_ranked(ranked: &mut Vec<SignalGroup>, group: SignalGroup)
    requires
        group.signals@.len() > 0,
        forall|k: int|
            0 <= k < old(ranked).len() ==> (#[trigger] old(ranked)@[k]).signals@.len() > 0
                && old(ranked)@[k].signals@[0] != group.signals@[0],
        forall|j: int, k: int|
            0 <= j < k < old(ranked).len() ==> ranks_before(
                (#[trigger] old(ranked)@[j])@,
                (#[trigger] old(ranked)@[k])@,
            ),
    ensures
        exists|at: int|
            0 <= at <= old(ranked).len() && final(ranked)@ == #[trigger] old(ranked)@.insert(
                at,
                group,
            ),
        forall|j: int, k: int|
            0 <= j < k < final(ranked).len() ==> ranks_before(
                (#[trigger] final(ranked)@[j])@,
                (#[trigger] final(ranked)@[k])@,
            ),
{
    let mut at: usize = 0;
    while at < ranked.len() && outranks(&ranked[at], &group)
        invariant
            at <= ranked.len(),
            ranked@ == old(ranked)@,
            group.signals@.len() > 0,
            forall|k: int|
                0 <= k < ranked.len() ==> (#[trigger] ranked@[k]).signals@.len() > 0
                    && ranked@[k].signals@[0] != group.signals@[0],
            forall|j: int| 0 <= j < at ==> ranks_before((#[trigger] ranked@[j])@, group@),
        decreases ranked.len() - at,
    {
        at += 1;
    }
    let ghost before = ranked@;
    proof {
        assert forall|k: int| at <= k < before.len() implies ranks_before(
            group@,
            (#[trigger] before[k])@,
        ) by {
            assert(ranks_before(group@, before[at as int]@));
            if at < k {
                assert(ranks_before(before[at as int]@, before[k]@));
            }
        }
    }
    ranked.insert(at, group);
    proof {
        let after = ranked@;
        assert(after == before.insert(at as int, group));
        assert forall|j: int, k: int| 0 <= j < k < after.len() implies ranks_before(
            (#[trigger] after[j])@,
            (#[trigger] after[k])@,
        ) by {
            if k < at {
                assert(after[j] == before[j] && after[k] == before[k]);
            } else if k == at {
                assert(after[j] == before[j]);
            } else if j < at {
                assert(after[j] == before[j] && after[k] == before[k - 1]);
                assert(ranks_before(before[j]@, group@));
                assert(ranks_before(group@, before[k - 1]@));
            } else if j == at {
                assert(after[k] == before[k - 1]);
            } else {
                assert(after[j] == before[j - 1] && after[k] == before[k - 1]);
            }
        }
    }
}

/// Groups the signals by normalized category and ranks the groups: the
/// groups backed by more distinct sources come first, then those with more
/// signals, then those whose first signal was collected earlier.
#[verifier::loop_isolation(false)]
pub fn aggregate(signals: &[Signal]) -> (groups: Vec<SignalGroup>)
    ensures
        is_aggregation(signals@, group_models(groups@)),
        total_members(group_models(groups@)) == signals.len(),
{
    let (mut categories, mut lists) = partition(signals);
    let ghost all = categories@;
    let mut ranked: Vec<SignalGroup> = Vec::new();
    while categories.len() > 0
        invariant
            categories.len() == lists.len(),
            categories@.len() <= all.len(),
            categories@ == all.take(categories@.len() as int),
            forall|j: int|
                0 <= j < categories.len() ==> (#[trigger] lists@[j])@ == members(
                    signals@,
                    all[j]@,
                ) && lists@[j]@.len() > 0,
            forall|k: int|
                0 <= k < ranked.len() ==> (#[trigger] ranked@[k])@ == group_of(
                    signals@,
                    ranked@[k].category@,
                ) && ranked@[k].signals@.len() > 0,
            forall|k: int|
                0 <= k < ranked.len() ==> lists_category_from(
                    all,
                    categories.len() as int,
                    (#[trigger] ranked@[k]).category@,
                ),
            forall|j: int|
                categories.len() <= j < all.len() ==> has_group(
                    group_models(ranked@),
                    (#[trigger] all[j])@,
                ),
            forall|j: int, k: int|
                0 <= j < k < ranked.len() ==> ranks_before(
                    (#[trigger] ranked@[j])@,
                    (#[trigger] ranked@[k])@,
                ),
        decreases categories.len(),
    {
        let ghost m = categories.len() - 1;
        let category = categories.pop().unwrap();
        let members = lists.pop().unwrap();
        proof {
            assert(category == all[m]);
            members_below_lists_category(signals@, category@, signals@.len() as int);
        }
        let group = summarize(signals, category, members);
        let ghost before = ranked@;
        proof {
            assert forall|k: int| 0 <= k < before.len() implies (#[trigger] before[k]).signals@[0]
                != group.signals@[0] by {
                members_below_lists_category(
                    signals@,
                    before[k].category@,
                    signals@.len() as int,
                );
                assert(lists_category_from(all, m + 1, before[k].category@));
                let j = choose|j: int|
                    m < j < all.len() && (#[trigger] all[j])@ == before[k].category@;
                assert(all[m]@ != all[j]@);
            }
        }
        insert_ranked(&mut ranked, group);
        proof {
            let at = choose|at: int|
                0 <= at <= before.len() && ranked@ == #[trigger] before.insert(at, group);
            assert forall|k: int| 0 <= k < ranked.len() implies (#[trigger] ranked@[k])@
                == group_of(signals@, ranked@[k].category@) && ranked@[k].signals@.len() > 0
                && lists_category_from(all, m, ranked@[k].category@) by {
                if k < at {
                    assert(ranked@[k] == before[k]);
                    assert(lists_category_from(all, m + 1, before[k].category@));
                    let j = choose|j: int|
                        m < j < all.len() && (#[trigger] all[j])@ == before[k].category@;
                    assert(all[j]@ == ranked@[k].category@);
                } else if k == at {
                    assert(all[m]@ == ranked@[k].category@);
                } else {
                    assert(ranked@[k] == before[k - 1]);
                    assert(lists_category_from(all, m + 1, before[k - 1].category@));
                    let j = choose|j: int|
                        m < j < all.len() && (#[trigger] all[j])@ == before[k - 1].category@;
                    assert(all[j]@ == ranked@[k].category@);
                }
            }
            assert forall|j: int| m <= j < all.len() implies has_group(
                group_models(ranked@),
                (#[trigger] all[j])@,
            ) by {
                if j == m {
                    assert(group_models(ranked@)[at].category == all[j]@);
                } else {
                    let k = choose|k: int|
                        0 <= k < before.len() && (#[trigger] group_models(before)[k]).category
                            == all[j]@;
                    let moved = if k < at { k } else { k + 1 };
                    assert(ranked@[moved] == before[k]);
                    assert(group_models(ranked@)[moved].category == all[j]@);
                }
            }
        }
    }
    proof {
        let models = group_models(ranked@);
        assert forall|p: int| 0 <= p < signals@.len() implies has_group(
            models,
            #[trigger] category_at(signals@, p),
        ) by {
            assert(lists_category(all, category_at(signals@, p)));
            let j = choose|j: int|
                0 <= j < all.len() && (#[trigger] all[j])@ == category_at(signals@, p);
            assert(has_group(models, all[j]@));
        }
        assert forall|j: int, k: int| 0 <= j < k < models.len() implies ranks_before(
            #[trigger] models[j],
            #[trigger] models[k],
        ) by {
            assert(models[j] == ranked@[j]@ && models[k] == ranked@[k]@);
        }
        groups_hold_every_signal_once(signals@, models);
    }
    ranked
}

} // verus!
