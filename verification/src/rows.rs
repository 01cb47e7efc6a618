//! What cutting off the probe side of an anti-join does to the rows that come out.

use crate::laws::{
    lemma_left_anti_join_is_cut_off, lemma_right_anti_join_is_cut_off, lemma_rows_needed_go_down,
    open_left, open_right, stopped_after, taken_to_have,
};
use crate::plan::{NodeView, PlanView};
use crate::push_limit_into_anti_join::{
    build_side, cut_down, probe_rows, probe_side, rows_needed,
};
use vstd::prelude::*;

verus! {

/// The first `n` rows, or all where there are fewer.
pub open spec fn first<K>(rows: Seq<K>, n: nat) -> Seq<K> {
    if n < rows.len() {
        rows.take(n as int)
    } else {
        rows
    }
}

/// The rows after the first `n`.
pub open spec fn later<K>(rows: Seq<K>, n: nat) -> Seq<K> {
    if n < rows.len() {
        rows.skip(n as int)
    } else {
        seq![]
    }
}

/// What an anti-join returns: the keys of the probe side, in order, that the build side has not.
pub open spec fn anti_join<K>(probe: Seq<K>, build: Seq<K>) -> Seq<K> {
    probe.filter(|k: K| !build.contains(k))
}

/// Cutting off the probe side after `n` rows leaves the first `limit` rows of an anti-join as they
/// are exactly where enough of them come out of the first `n` rows, or none of the later rows
/// would come out.
pub proof fn lemma_cut_off_exact<K>(probe: Seq<K>, build: Seq<K>, n: nat, limit: nat)
    ensures
        first(anti_join(first(probe, n), build), limit) == first(anti_join(probe, build), limit)
            <==> anti_join(first(probe, n), build).len() >= limit || anti_join(
            later(probe, n),
            build,
        ).len() == 0,
{
    let unmatched = |k: K| !build.contains(k);
    let head = first(probe, n);
    let tail = later(probe, n);
    assert(probe =~= head + tail);
    Seq::filter_distributes_over_add(head, tail, unmatched);
    let a = anti_join(head, build);
    let b = anti_join(tail, build);
    assert(anti_join(probe, build) == a + b);
    if a.len() >= limit || b.len() == 0 {
        assert(first(a + b, limit) =~= first(a, limit));
    } else {
        assert(first(a, limit).len() == a.len());
        assert(first(a + b, limit).len() > a.len());
    }
}

/// A row either matches or comes out.
proof fn lemma_split<K>(rows: Seq<K>, build: Seq<K>)
    ensures
        rows.filter(|k: K| build.contains(k)).len() + anti_join(rows, build).len() == rows.len(),
    decreases rows.len(),
{
    reveal(Seq::filter);
    if rows.len() > 0 {
        lemma_split(rows.drop_last(), build);
    }
}

/// Whether no key of the build side is the key of two rows of the probe side.
pub open spec fn matches_once<K>(probe: Seq<K>, build: Seq<K>) -> bool {
    forall|i: int, j: int|
        0 <= i < j < probe.len() && #[trigger] probe[i] == #[trigger] probe[j] ==> !build.contains(
            probe[i],
        )
}

/// Where no key of the build side has two rows of the probe side, there are no more rows that
/// match than the build side has rows.
proof fn lemma_matched<K>(rows: Seq<K>, build: Seq<K>)
    requires
        matches_once(rows, build),
    ensures
        rows.filter(|k: K| build.contains(k)).no_duplicates(),
        rows.filter(|k: K| build.contains(k)).len() <= build.len(),
    decreases rows.len(),
{
    let matched = |k: K| build.contains(k);
    let out = rows.filter(matched);
    reveal(Seq::filter);
    if rows.len() > 0 {
        let rest = rows.drop_last();
        lemma_matched(rest, build);
        if build.contains(rows.last()) && rest.filter(matched).contains(rows.last()) {
            rest.lemma_filter_contains_rev(matched, rows.last());
            let i = choose|i: int| 0 <= i < rest.len() && rest[i] == rows.last();
            assert(rows[i] == rows[rows.len() - 1]);
        }
    }
    assert forall|k: K| out.to_set().contains(k) implies build.to_set().contains(k) by {
        let i = choose|i: int| 0 <= i < out.len() && out[i] == k;
        rows.lemma_filter_pred(matched, i);
    }
    out.unique_seq_to_set();
    build.lemma_cardinality_of_set();
    vstd::set_lib::lemma_len_subset(out.to_set(), build.to_set());
}

/// Whether the probe side of the anti-join `plan` has no row limit of its own that is replaced when
/// it is cut off.
pub open spec fn keeps_own_limit(plan: PlanView) -> bool
    recommends
        plan.node.is_anti_join(),
{
    let probe = plan.children[probe_side(plan.node->HashJoin_0.join_type)];
    probe.node.fetch() is None || !probe.accepts_fetch()
}

/// The number of rows after which the probe side is cut off is large enough: where the probe side
/// has no row limit of its own that is replaced, the build side has no more than the `n` rows that
/// it is taken to have, and no key of it is the key of two rows of the probe side, the first
/// `limit` rows that come out stay the same.
pub proof fn lemma_cut_off_suffices<K>(
    plan: PlanView,
    limit: nat,
    n: nat,
    probe: Seq<K>,
    build: Seq<K>,
)
    requires
        plan.node.is_anti_join(),
        keeps_own_limit(plan),
        taken_to_have(build_side(plan).statistics, n),
        build.len() <= n,
        matches_once(probe, build),
    ensures
        probe_rows(plan, limit) == limit + n,
        first(anti_join(first(probe, probe_rows(plan, limit)), build), limit) == first(
            anti_join(probe, build),
            limit,
        ),
{
    let head = first(probe, limit + n);
    assert(matches_once(head, build)) by {
        assert forall|i: int, j: int|
            0 <= i < j < head.len() && #[trigger] head[i] == #[trigger] head[j] implies
            !build.contains(head[i]) by {
            assert(probe[i] == probe[j]);
        }
    }
    lemma_split(head, build);
    lemma_matched(head, build);
    lemma_cut_off_exact(probe, build, limit + n, limit);
}

/// Where a row limit of the probe side is replaced by a larger one, the first `limit` rows of an
/// anti-join stay as they are exactly where enough of them came out under the old limit, or none
/// of the rows that the new one lets through besides would come out.
pub proof fn lemma_raised_limit<K>(source: Seq<K>, build: Seq<K>, had: nat, n: nat, limit: nat)
    requires
        had <= n,
    ensures
        first(anti_join(first(source, n), build), limit) == first(
            anti_join(first(source, had), build),
            limit,
        ) <==> anti_join(first(source, had), build).len() >= limit || anti_join(
            later(first(source, n), had),
            build,
        ).len() == 0,
{
    assert(first(first(source, n), had) =~= first(source, had));
    lemma_cut_off_exact(first(source, n), build, had, limit);
}

/// What a global limit passes on of `rows`: at most `fetch` of them after the first `skip`.
pub open spec fn passed_on<K>(rows: Seq<K>, skip: nat, fetch: nat) -> Seq<K> {
    if skip < rows.len() {
        first(rows.skip(skip as int), fetch)
    } else {
        seq![]
    }
}

/// A global limit needs no more rows than it skips and passes on.
pub proof fn lemma_rows_needed<K>(rows: Seq<K>, skip: nat, fetch: nat)
    ensures
        passed_on(first(rows, skip + fetch), skip, fetch) == passed_on(rows, skip, fetch),
{
    assert(passed_on(first(rows, skip + fetch), skip, fetch) =~= passed_on(rows, skip, fetch));
}

/// A join that stops after the rows that a global limit over it passes on leaves what the limit
/// passes on as it is exactly where the limit skips none, or passes on none, or the join has no
/// rows beyond those that the limit skips, or beyond those that it passes on.
pub proof fn lemma_stop_after_fetch<K>(rows: Seq<K>, skip: nat, fetch: nat)
    ensures
        passed_on(first(rows, fetch), skip, fetch) == passed_on(rows, skip, fetch) <==> skip == 0
            || fetch == 0 || rows.len() <= skip || rows.len() <= fetch,
{
    let stopped = passed_on(first(rows, fetch), skip, fetch);
    let whole = passed_on(rows, skip, fetch);
    if skip == 0 || fetch == 0 || rows.len() <= skip || rows.len() <= fetch {
        assert(stopped =~= whole);
    } else {
        assert(stopped.len() < whole.len());
    }
}

/// A global limit over an anti-join passes on the same rows when the probe side is cut off, where
/// the probe side has no row limit of its own that is replaced, the build side has no more than the
/// `n` rows that it is taken to have, and no key of it is the key of two rows of the probe side.
pub proof fn lemma_limit_over_cut_off_join<K>(
    plan: PlanView,
    skip: nat,
    fetch: nat,
    n: nat,
    probe: Seq<K>,
    build: Seq<K>,
)
    requires
        plan.node.is_anti_join(),
        keeps_own_limit(plan),
        taken_to_have(build_side(plan).statistics, n),
        build.len() <= n,
        matches_once(probe, build),
    ensures
        ({
            let limit = rows_needed(NodeView::GlobalLimit { skip, fetch: Some(fetch) })->0;
            passed_on(anti_join(first(probe, probe_rows(plan, limit)), build), skip, fetch)
                == passed_on(anti_join(probe, build), skip, fetch)
        }),
{
    let cut = anti_join(first(probe, probe_rows(plan, skip + fetch)), build);
    lemma_cut_off_suffices(plan, skip + fetch, n, probe, build);
    lemma_rows_needed(cut, skip, fetch);
    lemma_rows_needed(anti_join(probe, build), skip, fetch);
}

/// A query for `fetch` rows after the first `skip` of an open anti-join passes on the same rows
/// after the rule as before it. The rule stops the input whose rows are returned after the rows
/// that are skipped, those that are passed on, and as many more as the other input is taken to
/// have: the `n` rows that DataFusion reports, or a thousand where it reports none. That input had
/// no row limit of its own that is replaced; the other one has no more rows than that, and no key
/// of it is the key of two rows.
pub proof fn lemma_query_passes_on_the_same_rows<K>(
    query: PlanView,
    skip: nat,
    fetch: nat,
    n: nat,
    stop: nat,
    probe: Seq<K>,
    build: Seq<K>,
)
    requires
        query.node == (NodeView::GlobalLimit { skip, fetch: Some(fetch) }),
        query.children.len() == 1,
        query.children[0].node matches NodeView::HashJoin(join) && (open_left(join) || open_right(
            join,
        )),
        query.children[0].children.len() == 2,
        ({
            let join = query.children[0];
            let out = cut_down(query, None).children[0];
            let p: int = if open_left(join.node->HashJoin_0) {
                0
            } else {
                1
            };
            &&& keeps_own_limit(join)
            &&& taken_to_have(join.children[1 - p].statistics, n)
            &&& stopped_after(join.children[p], out.children[p], stop)
        }),
        build.len() <= n,
        matches_once(probe, build),
    ensures
        stop == skip + fetch + n,
        passed_on(anti_join(first(probe, stop), build), skip, fetch) == passed_on(
            anti_join(probe, build),
            skip,
            fetch,
        ),
{
    let join = query.children[0];
    lemma_rows_needed_go_down(query, None);
    assert(cut_down(query, None).children[0] == cut_down(join, Some(skip + fetch)));
    if open_left(join.node->HashJoin_0) {
        lemma_left_anti_join_is_cut_off(join, skip + fetch, n);
    } else {
        lemma_right_anti_join_is_cut_off(join, skip + fetch, n);
    }
    lemma_limit_over_cut_off_join(join, skip, fetch, n, probe, build);
}

} // verus!
