//! What holds of every aggregation: it counts each signal once, the signals
//! determine it, and a rolled-up metric gathers exactly the values reported
//! under its name.

use vstd::prelude::*;
use crate::analysis::aggregator::{
    absorb, category_at, entry_named, group_of, has_group, is_aggregation, members,
    members_below, members_below_lists_category, metrics_among, ranks_before, rollup,
    sources_among, total_members, GroupModel, RollupModel,
};
use crate::types::{metric_models, MetricModel, Real, Signal};

verus! {

/// How many of the signals below `upto` fall under the categories of the
/// first `k` groups, counted group by group.
spec fn counted_below(signals: Seq<Signal>, groups: Seq<GroupModel>, upto: int, k: int) -> int
    decreases k,
{
    if k <= 0 {
        0
    } else {
        counted_below(signals, groups, upto, k - 1) + members_below(
            signals,
            groups[k - 1].category,
            upto,
        ).len()
    }
}

/// How many of the first `k` groups stand for `category`.
spec fn groups_for(groups: Seq<GroupModel>, category: Seq<char>, k: int) -> int
    decreases k,
{
    if k <= 0 {
        0
    } else {
        groups_for(groups, category, k - 1) + if groups[k - 1].category == category {
            1int
        } else {
            0
        }
    }
}

/// No two groups of an aggregation stand for the same category.
pub proof fn categories_are_distinct(signals: Seq<Signal>, groups: Seq<GroupModel>)
    requires
        is_aggregation(signals, groups),
    ensures
        forall|j: int, k: int|
            0 <= j < k < groups.len() ==> (#[trigger] groups[j]).category != (
            #[trigger] groups[k]).category,
{
    assert forall|j: int, k: int| 0 <= j < k < groups.len() implies (#[trigger] groups[j]).category
        != (#[trigger] groups[k]).category by {
        if groups[j].category == groups[k].category {
            assert(groups[j] == group_of(signals, groups[j].category));
            assert(groups[k] == group_of(signals, groups[k].category));
            assert(ranks_before(groups[j], groups[k]));
        }
    }
}

proof fn one_group_per_category(
    signals: Seq<Signal>,
    groups: Seq<GroupModel>,
    category: Seq<char>,
    k: int,
)
    requires
        is_aggregation(signals, groups),
        0 <= k <= groups.len(),
    ensures
        groups_for(groups, category, k) == if has_group(groups.take(k), category) {
            1int
        } else {
            0
        },
    decreases k,
{
    if k > 0 {
        one_group_per_category(signals, groups, category, k - 1);
        categories_are_distinct(signals, groups);
        let shorter = groups.take(k - 1);
        let longer = groups.take(k);
        if groups[k - 1].category == category {
            assert(longer[k - 1].category == category);
            if has_group(shorter, category) {
                let j = choose|j: int|
                    0 <= j < shorter.len() && (#[trigger] shorter[j]).category == category;
                assert(groups[j].category == groups[k - 1].category);
            }
        } else {
            if has_group(shorter, category) {
                let j = choose|j: int|
                    0 <= j < shorter.len() && (#[trigger] shorter[j]).category == category;
                assert(longer[j].category == category);
            }
            if has_group(longer, category) {
                let j = choose|j: int|
                    0 <= j < longer.len() && (#[trigger] longer[j]).category == category;
                assert(shorter[j].category == category);
            }
        }
    }
}

proof fn counted_grows_with_signal(
    signals: Seq<Signal>,
    groups: Seq<GroupModel>,
    upto: int,
    k: int,
)
    requires
        0 <= upto < signals.len(),
        0 <= k <= groups.len(),
    ensures
        counted_below(signals, groups, upto + 1, k) == counted_below(signals, groups, upto, k)
            + groups_for(groups, category_at(signals, upto), k),
    decreases k,
{
    if k > 0 {
        counted_grows_with_signal(signals, groups, upto, k - 1);
    }
}

proof fn counted_below_nothing(signals: Seq<Signal>, groups: Seq<GroupModel>, k: int)
    ensures
        counted_below(signals, groups, 0, k) == 0,
    decreases k,
{
    if k > 0 {
        counted_below_nothing(signals, groups, k - 1);
    }
}

proof fn counted_covers_prefix(signals: Seq<Signal>, groups: Seq<GroupModel>, upto: int)
    requires
        is_aggregation(signals, groups),
        0 <= upto <= signals.len(),
    ensures
        counted_below(signals, groups, upto, groups.len() as int) == upto,
    decreases upto,
{
    if upto == 0 {
        counted_below_nothing(signals, groups, groups.len() as int);
    } else {
        counted_covers_prefix(signals, groups, upto - 1);
        counted_grows_with_signal(signals, groups, upto - 1, groups.len() as int);
        one_group_per_category(
            signals,
            groups,
            category_at(signals, upto - 1),
            groups.len() as int,
        );
        assert(groups.take(groups.len() as int) =~= groups);
    }
}

proof fn members_fit(signals: Seq<Signal>, category: Seq<char>, upto: int)
    requires
        0 <= upto,
    ensures
        members_below(signals, category, upto).len() <= upto,
    decreases upto,
{
    if upto > 0 {
        members_fit(signals, category, upto - 1);
    }
}

proof fn counted_is_total(signals: Seq<Signal>, groups: Seq<GroupModel>, k: int)
    requires
        is_aggregation(signals, groups),
        signals.len() <= usize::MAX,
        0 <= k <= groups.len(),
    ensures
        counted_below(signals, groups, signals.len() as int, k) == total_members(groups.take(k)),
    decreases k,
{
    if k > 0 {
        counted_is_total(signals, groups, k - 1);
        assert(groups.take(k).drop_last() =~= groups.take(k - 1));
        assert(groups.take(k).last() == groups[k - 1]);
        assert(groups[k - 1] == group_of(signals, groups[k - 1].category));
        members_fit(signals, groups[k - 1].category, signals.len() as int);
    }
}

/// The groups of an aggregation hold every signal exactly once: their sizes
/// add up to the number of signals.
pub proof fn groups_hold_every_signal_once(signals: Seq<Signal>, groups: Seq<GroupModel>)
    requires
        is_aggregation(signals, groups),
        signals.len() <= usize::MAX,
    ensures
        total_members(groups) == signals.len(),
{
    counted_covers_prefix(signals, groups, signals.len() as int);
    counted_is_total(signals, groups, groups.len() as int);
    assert(groups.take(groups.len() as int) =~= groups);
}

/// The position in `b` of the group that equals `a[k]`.
spec fn twin(a: Seq<GroupModel>, b: Seq<GroupModel>, k: int) -> int {
    choose|at: int| 0 <= at < b.len() && #[trigger] b[at] == a[k]
}

proof fn twin_exists(signals: Seq<Signal>, a: Seq<GroupModel>, b: Seq<GroupModel>, k: int)
    requires
        is_aggregation(signals, a),
        is_aggregation(signals, b),
        signals.len() <= usize::MAX,
        0 <= k < a.len(),
    ensures
        0 <= twin(a, b, k) < b.len(),
        b[twin(a, b, k)] == a[k],
{
    let category = a[k].category;
    assert(a[k] == group_of(signals, category));
    members_below_lists_category(signals, category, signals.len() as int);
    let first = a[k].signals[0];
    assert(first == members(signals, category)[0]);
    assert(has_group(b, category_at(signals, first as int)));
    let at = choose|at: int| 0 <= at < b.len() && (#[trigger] b[at]).category == category;
    assert(b[at] == group_of(signals, b[at].category));
    assert(b[at] == a[k]);
}

proof fn twin_keeps_order(
    signals: Seq<Signal>,
    a: Seq<GroupModel>,
    b: Seq<GroupModel>,
    j: int,
    k: int,
)
    requires
        is_aggregation(signals, a),
        is_aggregation(signals, b),
        signals.len() <= usize::MAX,
        0 <= j < k < a.len(),
    ensures
        twin(a, b, j) < twin(a, b, k),
{
    twin_exists(signals, a, b, j);
    twin_exists(signals, a, b, k);
    let tj = twin(a, b, j);
    let tk = twin(a, b, k);
    assert(ranks_before(a[j], a[k]));
    if tk < tj {
        assert(ranks_before(b[tk], b[tj]));
    }
}

proof fn twin_is_not_earlier(
    signals: Seq<Signal>,
    a: Seq<GroupModel>,
    b: Seq<GroupModel>,
    k: int,
)
    requires
        is_aggregation(signals, a),
        is_aggregation(signals, b),
        signals.len() <= usize::MAX,
        0 <= k < a.len(),
    ensures
        k <= twin(a, b, k),
    decreases k,
{
    twin_exists(signals, a, b, k);
    if k > 0 {
        twin_is_not_earlier(signals, a, b, k - 1);
        twin_keeps_order(signals, a, b, k - 1, k);
    }
}

proof fn twin_is_not_later(
    signals: Seq<Signal>,
    a: Seq<GroupModel>,
    b: Seq<GroupModel>,
    k: int,
)
    requires
        is_aggregation(signals, a),
        is_aggregation(signals, b),
        signals.len() <= usize::MAX,
        0 <= k < a.len(),
    ensures
        twin(a, b, k) + (a.len() - k) <= b.len(),
    decreases a.len() - k,
{
    twin_exists(signals, a, b, k);
    if k + 1 < a.len() {
        twin_is_not_later(signals, a, b, k + 1);
        twin_keeps_order(signals, a, b, k, k + 1);
    }
}

proof fn no_longer_than(signals: Seq<Signal>, a: Seq<GroupModel>, b: Seq<GroupModel>)
    requires
        is_aggregation(signals, a),
        is_aggregation(signals, b),
        signals.len() <= usize::MAX,
    ensures
        a.len() <= b.len(),
{
    if a.len() > 0 {
        twin_is_not_later(signals, a, b, 0);
        twin_exists(signals, a, b, 0);
    }
}

/// The signals determine their aggregation: any two aggregations of the same
/// signals hold the same groups, with the same members and the same rolled-up
/// metrics, in the same order.
pub proof fn aggregation_is_determined(
    signals: Seq<Signal>,
    a: Seq<GroupModel>,
    b: Seq<GroupModel>,
)
    requires
        is_aggregation(signals, a),
        is_aggregation(signals, b),
        signals.len() <= usize::MAX,
    ensures
        a == b,
{
    no_longer_than(signals, a, b);
    no_longer_than(signals, b, a);
    assert forall|k: int| 0 <= k < a.len() implies a[k] == b[k] by {
        twin_exists(signals, a, b, k);
        twin_is_not_earlier(signals, a, b, k);
        twin_is_not_later(signals, a, b, k);
    }
    assert(a =~= b);
}

/// Whether two sequences of signals say the same to the aggregator: signal
/// by signal the same source, the same category and the same metrics.
pub open spec fn same_content(a: Seq<Signal>, b: Seq<Signal>) -> bool {
    &&& a.len() == b.len()
    &&& forall|i: int|
        #![trigger a[i]]
        #![trigger b[i]]
        0 <= i < a.len() ==> {
            &&& a[i].source == b[i].source
            &&& a[i].category@ == b[i].category@
            &&& metric_models(a[i].metrics@) == metric_models(b[i].metrics@)
        }
}

proof fn members_depend_on_content(a: Seq<Signal>, b: Seq<Signal>, category: Seq<char>, upto: int)
    requires
        same_content(a, b),
        upto <= a.len(),
    ensures
        members_below(a, category, upto) == members_below(b, category, upto),
    decreases upto,
{
    if upto > 0 {
        members_depend_on_content(a, b, category, upto - 1);
        assert(a[upto - 1].category@ == b[upto - 1].category@);
    }
}

proof fn metrics_depend_on_content(a: Seq<Signal>, b: Seq<Signal>, positions: Seq<usize>)
    requires
        same_content(a, b),
        forall|k: int| 0 <= k < positions.len() ==> positions[k] < a.len(),
    ensures
        metrics_among(a, positions) == metrics_among(b, positions),
    decreases positions.len(),
{
    if positions.len() > 0 {
        metrics_depend_on_content(a, b, positions.drop_last());
        let last = positions.last() as int;
        assert(metric_models(a[last].metrics@) == metric_models(b[last].metrics@));
    }
}

proof fn sources_depend_on_content(a: Seq<Signal>, b: Seq<Signal>, positions: Seq<usize>)
    requires
        same_content(a, b),
        forall|k: int| 0 <= k < positions.len() ==> positions[k] < a.len(),
    ensures
        sources_among(a, positions) == sources_among(b, positions),
{
    assert forall|source| sources_among(a, positions).contains(source) == sources_among(
        b,
        positions,
    ).contains(source) by {
        if sources_among(a, positions).contains(source) {
            let k = choose|k: int|
                0 <= k < positions.len() && a[(#[trigger] positions[k]) as int].source == source;
            assert(b[positions[k] as int].source == source);
        }
        if sources_among(b, positions).contains(source) {
            let k = choose|k: int|
                0 <= k < positions.len() && b[(#[trigger] positions[k]) as int].source == source;
            assert(a[positions[k] as int].source == source);
        }
    }
    assert(sources_among(a, positions) =~= sources_among(b, positions));
}

proof fn aggregation_carries_over(a: Seq<Signal>, b: Seq<Signal>, groups: Seq<GroupModel>)
    requires
        same_content(a, b),
        a.len() <= usize::MAX,
        is_aggregation(a, groups),
    ensures
        is_aggregation(b, groups),
{
    assert forall|k: int| 0 <= k < groups.len() implies #[trigger] groups[k] == group_of(
        b,
        groups[k].category,
    ) by {
        let category = groups[k].category;
        members_depend_on_content(a, b, category, a.len() as int);
        members_below_lists_category(a, category, a.len() as int);
        metrics_depend_on_content(a, b, members(a, category));
        sources_depend_on_content(a, b, members(a, category));
    }
    assert forall|p: int| 0 <= p < b.len() implies has_group(
        groups,
        #[trigger] category_at(b, p),
    ) by {
        assert(category_at(a, p) == category_at(b, p));
    }
}

/// Aggregation depends on what the signals say and on nothing else: signals
/// with the same sources, categories and metrics, in the same order, have the
/// same aggregation, whichever way it was computed.
pub proof fn aggregation_depends_on_content(
    a: Seq<Signal>,
    b: Seq<Signal>,
    groups_of_a: Seq<GroupModel>,
    groups_of_b: Seq<GroupModel>,
)
    requires
        same_content(a, b),
        a.len() <= usize::MAX,
        is_aggregation(a, groups_of_a),
        is_aggregation(b, groups_of_b),
    ensures
        groups_of_a == groups_of_b,
{
    aggregation_carries_over(a, b, groups_of_a);
    aggregation_is_determined(b, groups_of_a, groups_of_b);
}

/// The values of the metrics named `name`, in order.
pub open spec fn values_named(metrics: Seq<MetricModel>, name: Seq<char>) -> Seq<Real>
    decreases metrics.len(),
{
    if metrics.len() == 0 {
        Seq::empty()
    } else if metrics.last().name == name {
        values_named(metrics.drop_last(), name).push(metrics.last().value)
    } else {
        values_named(metrics.drop_last(), name)
    }
}

/// The unit of the first metric named `name`; the empty text if there is
/// none.
pub open spec fn first_unit(metrics: Seq<MetricModel>, name: Seq<char>) -> Seq<char>
    decreases metrics.len(),
{
    if metrics.len() == 0 {
        Seq::empty()
    } else if values_named(metrics.drop_last(), name).len() > 0 {
        first_unit(metrics.drop_last(), name)
    } else if metrics.last().name == name {
        metrics.last().unit
    } else {
        Seq::empty()
    }
}

/// Whether a rollup sums `metrics` by name: no name twice, and under each
/// name all the values reported under it, in order, with the unit under
/// which the name first occurred.
pub open spec fn sums_by_name(rollups: Seq<RollupModel>, metrics: Seq<MetricModel>) -> bool {
    &&& forall|j: int, k: int|
        0 <= j < k < rollups.len() ==> (#[trigger] rollups[j]).name != (#[trigger] rollups[k]).name
    &&& forall|j: int|
        0 <= j < rollups.len() ==> {
            &&& (#[trigger] rollups[j]).terms == values_named(metrics, rollups[j].name)
            &&& rollups[j].terms.len() > 0
            &&& rollups[j].unit == first_unit(metrics, rollups[j].name)
        }
    &&& forall|name: Seq<char>|
        #[trigger] values_named(metrics, name).len() > 0 ==> entry_named(rollups, name, 0) is Some
}

proof fn entry_named_finds(rollups: Seq<RollupModel>, name: Seq<char>, from: int)
    requires
        0 <= from,
    ensures
        match entry_named(rollups, name, from) {
            Some(at) => from <= at < rollups.len() && rollups[at].name == name,
            None => forall|j: int| from <= j < rollups.len() ==> (#[trigger] rollups[j]).name != name,
        },
    decreases rollups.len() - from,
{
    if from < rollups.len() && rollups[from].name != name {
        entry_named_finds(rollups, name, from + 1);
    }
}

/// The rollup of a sequence of metrics sums them by name.
pub proof fn rollup_sums_by_name(metrics: Seq<MetricModel>)
    ensures
        sums_by_name(rollup(metrics), metrics),
    decreases metrics.len(),
{
    if metrics.len() > 0 {
        let earlier = metrics.drop_last();
        let metric = metrics.last();
        let before = rollup(earlier);
        let after = rollup(metrics);
        rollup_sums_by_name(earlier);
        entry_named_finds(before, metric.name, 0);
        assert(after == absorb(before, metric));
        match entry_named(before, metric.name, 0) {
            Some(at) => {
                assert forall|j: int| 0 <= j < after.len() implies {
                    &&& (#[trigger] after[j]).terms == values_named(metrics, after[j].name)
                    &&& after[j].terms.len() > 0
                    &&& after[j].unit == first_unit(metrics, after[j].name)
                } by {
                    if j != at {
                        assert(after[j] == before[j]);
                        assert(before[j].name != before[at].name);
                    }
                }
                assert forall|name: Seq<char>| #[trigger]
                    values_named(metrics, name).len() > 0 implies entry_named(after, name, 0)
                    is Some by {
                    entry_named_finds(after, name, 0);
                    if name == metric.name {
                        assert(after[at].name == name);
                    } else {
                        assert(values_named(earlier, name).len() > 0);
                        entry_named_finds(before, name, 0);
                        let found = entry_named(before, name, 0)->0;
                        assert(after[found].name == name);
                    }
                }
            },
            None => {
                assert forall|name: Seq<char>| #[trigger]
                    values_named(metrics, name).len() > 0 implies entry_named(after, name, 0)
                    is Some by {
                    entry_named_finds(after, name, 0);
                    if name == metric.name {
                        assert(after[before.len() as int].name == name);
                    } else {
                        assert(values_named(earlier, name).len() > 0);
                        entry_named_finds(before, name, 0);
                        let found = entry_named(before, name, 0)->0;
                        assert(after[found].name == name);
                    }
                }
                assert forall|j: int| 0 <= j < after.len() implies {
                    &&& (#[trigger] after[j]).terms == values_named(metrics, after[j].name)
                    &&& after[j].terms.len() > 0
                    &&& after[j].unit == first_unit(metrics, after[j].name)
                } by {
                    if j < before.len() {
                        assert(after[j] == before[j]);
                    } else {
                        assert(values_named(earlier, metric.name).len() == 0);
                        assert(after[j].terms =~= values_named(metrics, metric.name));
                    }
                }
            },
        }
    }
}

} // verus!
