//! Simple and clear anti-join limit optimization.

use crate::error::PlanError;
use crate::join::JoinType;
use crate::plan::{
    lemma_children, lemma_same_schema, nearest, plans, rows, Node, NodeView, Plan, PlanView,
    Reported,
};
use crate::transformed::Transformed;
use datafusion_common::config::ConfigOptions;
use vstd::prelude::*;

verus! {

/// The number of rows that a build side of unknown size is taken to have.
pub const DEFAULT_BUILD_ROWS: usize = 1000;

/// The number of rows of its input after which the node needs no more: for a global limit those
/// that it skips and those that it passes on, for any other node the limit that it reports.
pub open spec fn rows_needed(node: NodeView) -> Option<nat> {
    match node {
        NodeView::GlobalLimit { skip, fetch: Some(fetch) } => Some(skip + fetch),
        _ => node.fetch(),
    }
}

/// The place of the input of an anti-join whose rows are returned; the other is its build side.
pub open spec fn probe_side(join_type: JoinType) -> int {
    if join_type == JoinType::LeftAnti {
        0
    } else {
        1
    }
}

/// The number of rows, exact or estimated, in what DataFusion reports, if there is one.
pub open spec fn reported_rows(statistics: Reported) -> Option<usize> {
    match statistics {
        Reported::Known(statistics) => statistics.num_rows.value(),
        _ => None,
    }
}

/// The number of rows that the build side `build` is taken to have.
pub open spec fn build_rows(build: PlanView) -> nat {
    match reported_rows(build.statistics) {
        Some(n) => n as nat,
        None => DEFAULT_BUILD_ROWS as nat,
    }
}

/// The plan cut off after `n` rows: by its own row limit where it can be given one, in place of the
/// one that it has, and else by a local limit over it.
pub open spec fn cut_off(plan: PlanView, n: nat) -> PlanView {
    if plan.accepts_fetch() {
        plan.with_fetch(n)
    } else {
        PlanView {
            node: NodeView::LocalLimit { fetch: n },
            statistics: Reported::Unread,
            children: seq![plan],
        }
    }
}

/// The build side of the anti-join `plan`.
pub open spec fn build_side(plan: PlanView) -> PlanView
    recommends
        plan.node.is_anti_join(),
{
    plan.children[1 - probe_side(plan.node->HashJoin_0.join_type)]
}

/// The number of rows that the probe side of the anti-join `plan` is cut off after, where `limit`
/// rows of the join are needed.
pub open spec fn probe_rows(plan: PlanView, limit: nat) -> nat
    recommends
        plan.node.is_anti_join(),
{
    limit + build_rows(build_side(plan))
}

/// The anti-join `plan` with its probe side cut off so that `limit` rows can still come out.
pub open spec fn limited_join(plan: PlanView, limit: nat) -> PlanView
    recommends
        plan.node.is_open_anti_join(),
{
    let probe = probe_side(plan.node->HashJoin_0.join_type);
    PlanView {
        children: plan.children.update(
            probe,
            cut_off(plan.children[probe], probe_rows(plan, limit)),
        ),
        statistics: Reported::Unread,
        ..plan
    }
}

/// Whether the plan holds an open anti-join of which a limited number of rows is needed.
/// `inherited` is the number of rows that is needed of the plan.
pub open spec fn touched(plan: PlanView, inherited: Option<nat>) -> bool
    decreases plan,
{
    let limit = nearest(rows_needed(plan.node), inherited);
    if plan.node.is_open_anti_join() && limit is Some {
        true
    } else {
        exists|i: int| 0 <= i < plan.children.len() && touched(#[trigger] plan.children[i], limit)
    }
}

/// The plan with the probe side cut off of every open anti-join of which a limited number of rows
/// is needed, below no other such anti-join. A join that carries a limit is passed by: it keeps the
/// limit, and the number of rows that is needed of it goes on below it. `inherited` is the number
/// of rows that is needed of the plan. What DataFusion reports of a node above a join that is cut
/// off is to be asked again.
pub open spec fn cut_down(plan: PlanView, inherited: Option<nat>) -> PlanView
    decreases plan,
{
    let limit = nearest(rows_needed(plan.node), inherited);
    if plan.node.is_open_anti_join() && limit is Some {
        limited_join(plan, limit->0)
    } else {
        PlanView {
            children: Seq::new(
                plan.children.len(),
                |i: int|
                    if 0 <= i < plan.children.len() {
                        cut_down(plan.children[i], limit)
                    } else {
                        arbitrary()
                    },
            ),
            statistics: if touched(plan, inherited) {
                Reported::Unread
            } else {
                plan.statistics
            },
            ..plan
        }
    }
}

/// Whether DataFusion was asked for the rows of every build side whose size the rule needs, and
/// every number of rows that the rule works out is a machine number.
pub open spec fn limits_fit(plan: PlanView, inherited: Option<nat>) -> bool
    decreases plan,
{
    let limit = nearest(rows_needed(plan.node), inherited);
    &&& rows_needed(plan.node) matches Some(n) ==> n <= usize::MAX
    &&& if plan.node.is_open_anti_join() && limit is Some {
        &&& build_side(plan).statistics !is Unread
        &&& probe_rows(plan, limit->0) <= usize::MAX
    } else {
        forall|i: int|
            0 <= i < plan.children.len() ==> limits_fit(#[trigger] plan.children[i], limit)
    }
}

/// An anti-join with its probe side cut off is fit for its inputs and has the same schema.
pub proof fn lemma_limited_join_keeps(plan: PlanView, limit: nat)
    requires
        plan.wf(),
        plan.node.is_open_anti_join(),
    ensures
        limited_join(plan, limit).wf(),
        limited_join(plan, limit).schema() == plan.schema(),
{
    let probe = probe_side(plan.node->HashJoin_0.join_type);
    let out = limited_join(plan, limit);
    assert(plan.children[probe].wf());
    assert(out.children[probe].schema() == plan.children[probe].schema());
    assert forall|i: int| 0 <= i < out.children.len() implies (#[trigger] out.children[i]).wf()
        && out.children[i].schema() == plan.children[i].schema() by {
        assert(plan.children[i].wf());
    }
    lemma_same_schema(
        PlanView { statistics: Reported::Unread, ..plan },
        out.children,
    );
}

/// The rule keeps every node fit for its inputs, and the schema of the plan.
pub proof fn lemma_cut_down_keeps(plan: PlanView, inherited: Option<nat>)
    requires
        plan.wf(),
    ensures
        cut_down(plan, inherited).wf(),
        cut_down(plan, inherited).schema() == plan.schema(),
    decreases plan,
{
    let limit = nearest(rows_needed(plan.node), inherited);
    let out = cut_down(plan, inherited);
    if plan.node.is_open_anti_join() && limit is Some {
        lemma_limited_join_keeps(plan, limit->0);
    } else {
        assert forall|i: int| 0 <= i < plan.children.len() implies (#[trigger] out.children[i]).wf()
            && out.children[i].schema() == plan.children[i].schema() by {
            lemma_cut_down_keeps(plan.children[i], limit);
        }
        lemma_same_schema(PlanView { statistics: out.statistics, ..plan }, out.children);
    }
}

/// Whether no node of the plan limits its rows.
pub open spec fn free_of_limits(plan: PlanView) -> bool
    decreases plan,
{
    &&& plan.node.fetch() is None
    &&& forall|i: int| 0 <= i < plan.children.len() ==> free_of_limits(#[trigger] plan.children[i])
}

/// A plan without an open anti-join of which a limited number of rows is needed is left as it is.
pub proof fn lemma_untouched(plan: PlanView, inherited: Option<nat>)
    requires
        !touched(plan, inherited),
    ensures
        cut_down(plan, inherited) == plan,
    decreases plan,
{
    let limit = nearest(rows_needed(plan.node), inherited);
    let out = cut_down(plan, inherited);
    assert forall|i: int| 0 <= i < plan.children.len() implies #[trigger] out.children[i]
        == plan.children[i] by {
        lemma_untouched(plan.children[i], limit);
    }
    assert(out.children =~= plan.children);
}

/// A plan in which no node limits its rows is left as it is.
pub proof fn lemma_no_limit_no_change(plan: PlanView)
    requires
        free_of_limits(plan),
    ensures
        limits_fit(plan, None),
        !touched(plan, None),
        cut_down(plan, None) == plan,
    decreases plan,
{
    assert forall|i: int| 0 <= i < plan.children.len() implies !touched(
        #[trigger] plan.children[i],
        None,
    ) && limits_fit(plan.children[i], None) by {
        lemma_no_limit_no_change(plan.children[i]);
    }
    lemma_untouched(plan, None);
}

/// A plan without an open anti-join is left as it is, whatever the limits.
pub proof fn lemma_no_anti_join_no_change(plan: PlanView, inherited: Option<nat>)
    requires
        plan.free_of_open_anti_joins(),
    ensures
        !touched(plan, inherited),
        cut_down(plan, inherited) == plan,
    decreases plan,
{
    let limit = nearest(rows_needed(plan.node), inherited);
    assert forall|i: int| 0 <= i < plan.children.len() implies !touched(
        #[trigger] plan.children[i],
        limit,
    ) by {
        lemma_no_anti_join_no_change(plan.children[i], limit);
    }
    lemma_untouched(plan, inherited);
}

/// The number of rows that is needed of the node that `path` leads to: the nearest limit, its own
/// or one above it.
pub open spec fn limit_at(plan: PlanView, path: Seq<int>, inherited: Option<nat>) -> Option<nat>
    decreases path.len(),
{
    let limit = nearest(rows_needed(plan.node), inherited);
    if path.len() > 0 {
        limit_at(plan.children[path[0]], path.drop_first(), limit)
    } else {
        limit
    }
}

/// Whether no node above the one that `path` leads to is an open anti-join of which a limited
/// number of rows is needed.
pub open spec fn reached(plan: PlanView, path: Seq<int>, inherited: Option<nat>) -> bool
    decreases path.len(),
{
    let limit = nearest(rows_needed(plan.node), inherited);
    path.len() > 0 ==> !(plan.node.is_open_anti_join() && limit is Some) && reached(
        plan.children[path[0]],
        path.drop_first(),
        limit,
    )
}

/// An open anti-join of which a limited number of rows is needed, and under no other such
/// anti-join, has its probe side cut off; every other node that is under no such anti-join stays as
/// it is, and so does what DataFusion reports of it where no such anti-join is under it.
pub proof fn lemma_each_node(plan: PlanView, path: Seq<int>, inherited: Option<nat>)
    requires
        plan.has_path(path),
        reached(plan, path, inherited),
    ensures
        cut_down(plan, inherited).has_path(path),
        ({
            let before = plan.at(path);
            let after = cut_down(plan, inherited).at(path);
            let limit = limit_at(plan, path, inherited);
            if before.node.is_open_anti_join() && limit is Some {
                after == limited_join(before, limit->0)
            } else {
                &&& after.node == before.node
                &&& after.children.len() == before.children.len()
                &&& after.statistics == if touched(before, limit) {
                    Reported::Unread
                } else {
                    before.statistics
                }
            }
        }),
    decreases path.len(),
{
    let limit = nearest(rows_needed(plan.node), inherited);
    if path.len() > 0 {
        lemma_each_node(plan.children[path[0]], path.drop_first(), limit);
    }
}

/// A join that carries a limit, and is under no open anti-join of which a limited number of rows is
/// needed, keeps its limit and its inputs' places, and the rule goes on below it with the number
/// of rows that is needed of it.
pub proof fn lemma_carried_limit_stays(plan: PlanView, path: Seq<int>, inherited: Option<nat>)
    requires
        plan.has_path(path),
        reached(plan, path, inherited),
        plan.at(path).node.carries_limit(),
    ensures
        cut_down(plan, inherited).has_path(path),
        ({
            let before = plan.at(path);
            let after = cut_down(plan, inherited).at(path);
            let limit = limit_at(plan, path, inherited);
            &&& after.node == before.node
            &&& after.children.len() == before.children.len()
            &&& forall|i: int|
                0 <= i < before.children.len() ==> #[trigger] after.children[i] == cut_down(
                    before.children[i],
                    limit,
                )
        }),
    decreases path.len(),
{
    let limit = nearest(rows_needed(plan.node), inherited);
    if path.len() > 0 {
        lemma_carried_limit_stays(plan.children[path[0]], path.drop_first(), limit);
    }
}

/// A join that carries a limit and is the probe side of an anti-join stands below the local limit
/// that cuts it off, as it is.
pub proof fn lemma_carried_limit_of_probe_side(plan: PlanView, n: nat)
    requires
        plan.node.carries_limit(),
    ensures
        cut_off(plan, n).node == (NodeView::LocalLimit { fetch: n }),
        cut_off(plan, n).children == seq![plan],
{
}

/// A plan cut off after `n` rows has `n` as its row limit and has the same schema.
pub proof fn lemma_cut_off(plan: PlanView, n: nat)
    ensures
        cut_off(plan, n).node.fetch() == Some(n),
        cut_off(plan, n).schema() == plan.schema(),
        plan.wf() ==> cut_off(plan, n).wf(),
{
}

/// Where a plan can be given a row limit, cutting it off forgets the limit that it had, the
/// smaller one too.
pub proof fn lemma_limit_replaced(plan: PlanView, had: nat, n: nat)
    requires
        plan.accepts_fetch(),
    ensures
        plan.with_fetch(had).node.fetch() == Some(had),
        cut_off(plan.with_fetch(had), n) == cut_off(plan, n),
        cut_off(plan, n).node.fetch() == Some(n),
{
}

/// The rule touches the probe side of an anti-join alone: the build side stays as it is, and the
/// probe side has a row limit of the rows needed of the join and as many more as the build side
/// is taken to have.
pub proof fn lemma_only_probe_side_changes(plan: PlanView, limit: nat)
    requires
        plan.wf(),
        plan.node.is_open_anti_join(),
    ensures
        ({
            let probe = probe_side(plan.node->HashJoin_0.join_type);
            let out = limited_join(plan, limit);
            &&& out.children.len() == 2
            &&& out.children[1 - probe] == build_side(plan)
            &&& out.children[probe].node.fetch() == Some(limit + build_rows(build_side(plan)))
            &&& out.node == plan.node
        }),
{
}

/// The number of rows, exact or estimated, in what DataFusion reports, if there is one.
fn rows_of(statistics: Reported) -> (r: Option<usize>)
    ensures
        r == reported_rows(statistics),
{
    match statistics {
        Reported::Known(statistics) => statistics.num_rows.get_value(),
        _ => None,
    }
}

/// Cuts off the probe side of the anti-join `plan` so that `limit` rows can still come out: after
/// that many rows and as many more as the build side has. A hash join of another kind is returned
/// as it is.
pub fn optimize_anti_join(plan: Plan, limit: usize) -> (r: Result<Plan, PlanError>)
    requires
        plan@.wf(),
        plan@.node is HashJoin,
        !plan@.node.carries_limit(),
        plan@.node.is_open_anti_join() ==> build_side(plan@).statistics !is Unread && probe_rows(
            plan@,
            limit as nat,
        ) <= usize::MAX,
    ensures
        r matches Ok(out) && out@.wf() && out@ == if plan@.node.is_open_anti_join() {
            limited_join(plan@, limit as nat)
        } else {
            plan@
        },
{
    proof {
        lemma_children(plan);
        if plan@.node.is_open_anti_join() {
            lemma_limited_join_keeps(plan@, limit as nat);
        }
    }
    let ghost whole = plan@;
    let Plan { node, statistics, children } = plan;
    match node {
        Node::HashJoin(join) => {
            if !join.join_type.is_anti() {
                return Ok(Plan { node: Node::HashJoin(join), statistics, children });
            }
            let probe_is_left = match join.join_type {
                JoinType::LeftAnti => true,
                _ => false,
            };
            let mut children = children;
            let right = children.pop().unwrap();
            let left = children.pop().unwrap();
            assert(whole.children =~= seq![left@, right@]);
            assert(whole.children[0].wf() && whole.children[1].wf());
            let (build_side, probe_side) = if probe_is_left {
                (right, left)
            } else {
                (left, right)
            };
            proof {
                lemma_children(build_side);
            }
            let build_rows = rows_of(build_side.statistics).unwrap_or(DEFAULT_BUILD_ROWS);
            let max_probe_rows = limit + build_rows;
            let limited_probe = match probe_side.with_fetch(max_probe_rows) {
                Ok(fetched) => fetched,
                Err(probe_side) => Plan::local_limit(probe_side, max_probe_rows),
            };
            let (left, right) = if probe_is_left {
                (limited_probe, build_side)
            } else {
                (build_side, limited_probe)
            };
            let ghost out = limited_join(whole, limit as nat);
            assert(out.children =~= seq![left@, right@]);
            assert(out.children[0].wf() && out.children[1].wf());
            Plan::hash_join(
                left,
                right,
                join.on,
                join.filter,
                join.join_type,
                join.projection,
                join.partition_mode,
                join.null_equality,
            )
        },
        // The plan is a hash join.
        node => Ok(Plan { node, statistics, children }),
    }
}

/// Rewrites `plan`, of which `parent_limit` rows are needed.
pub fn optimize_with_limit(plan: Plan, parent_limit: Option<usize>) -> (r: Result<Plan, PlanError>)
    requires
        plan@.wf(),
        limits_fit(plan@, rows(parent_limit)),
    ensures
        r matches Ok(out) && out@.wf() && out@ == cut_down(plan@, rows(parent_limit)),
{
    let t = rewrite(plan, parent_limit)?;
    Ok(t.data)
}

/// Rewrites `plan`, of which `parent_limit` rows are needed, and says whether a join was cut off.
fn rewrite(plan: Plan, parent_limit: Option<usize>) -> (r: Result<Transformed<Plan>, PlanError>)
    requires
        plan@.wf(),
        limits_fit(plan@, rows(parent_limit)),
    ensures
        r matches Ok(t) && t.data@.wf() && t.data@ == cut_down(plan@, rows(parent_limit))
            && t.transformed == touched(plan@, rows(parent_limit)),
    decreases plan,
{
    proof {
        lemma_children(plan);
    }
    let ghost whole = plan@;
    let own_limit = match &plan.node {
        Node::GlobalLimit { skip, fetch: Some(fetch) } => Some(*skip + *fetch),
        _ => plan.fetch(),
    };
    let current_limit = match own_limit {
        Some(limit) => Some(limit),
        None => parent_limit,
    };
    let open = match &plan.node {
        Node::HashJoin(join) => join.join_type.is_anti() && join.limit.is_none(),
        _ => false,
    };
    if open {
        if let Some(limit) = current_limit {
            let new_join = optimize_anti_join(plan, limit)?;
            return Ok(Transformed::yes(new_join));
        }
    }
    let ghost out = cut_down(whole, rows(parent_limit));
    if plan.children.len() == 0 {
        assert(out.children =~= whole.children);
        return Ok(Transformed::no(plan));
    }
    let Plan { node, statistics, children } = plan;
    let ghost given = children@;
    let mut new_children: Vec<Plan> = Vec::new();
    let mut changed = false;
    for child in it: children
        invariant
            it.seq() == given,
            given == plan.children@,
            plans(given) == whole.children,
            whole.wf(),
            forall|i: int|
                0 <= i < whole.children.len() ==> limits_fit(
                    #[trigger] whole.children[i],
                    rows(current_limit),
                ),
            new_children@.len() == it.index(),
            forall|i: int|
                0 <= i < new_children@.len() ==> (#[trigger] new_children@[i])@ == cut_down(
                    given[i]@,
                    rows(current_limit),
                ) && new_children@[i]@.wf(),
            changed == exists|i: int|
                0 <= i < it.index() && touched(#[trigger] whole.children[i], rows(current_limit)),
    {
        assert(whole.children[it.index() as int].wf());
        let t = rewrite(child, current_limit)?;
        if t.transformed {
            changed = true;
        }
        new_children.push(t.data);
    }
    proof {
        lemma_cut_down_keeps(whole, rows(parent_limit));
        assert forall|i: int| 0 <= i < given.len() implies #[trigger] plans(new_children@)[i]
            == out.children[i] by {
            assert(plans(new_children@)[i] == new_children@[i]@);
        }
        assert(plans(new_children@) =~= out.children);
    }
    if changed {
        let plan = Plan::rebuild(node, Reported::Unread, new_children)?;
        Ok(Transformed::yes(plan))
    } else {
        let plan = Plan::rebuild(node, statistics, new_children)?;
        Ok(Transformed::no(plan))
    }
}

/// Whether DataFusion was asked for the rows of every build side whose size the rule needs on
/// `plan`, of which `parent_limit` rows are needed, and every number of rows that it works out is a
/// machine number.
fn check_limits(plan: &Plan, parent_limit: Option<usize>) -> (r: bool)
    requires
        plan@.wf(),
    ensures
        r == limits_fit(plan@, rows(parent_limit)),
    decreases plan,
{
    proof {
        lemma_children(*plan);
    }
    let own_limit = match &plan.node {
        Node::GlobalLimit { skip, fetch: Some(fetch) } => match skip.checked_add(*fetch) {
            Some(limit) => Some(limit),
            None => {
                return false;
            },
        },
        _ => plan.fetch(),
    };
    let current_limit = match own_limit {
        Some(limit) => Some(limit),
        None => parent_limit,
    };
    if let Node::HashJoin(join) = &plan.node {
        if join.join_type.is_anti() && join.limit.is_none() {
            if let Some(limit) = current_limit {
                let build_side = match join.join_type {
                    JoinType::LeftAnti => &plan.children[1],
                    _ => &plan.children[0],
                };
                proof {
                    lemma_children(*build_side);
                }
                if build_side.statistics == Reported::Unread {
                    return false;
                }
                let build_rows = rows_of(build_side.statistics).unwrap_or(DEFAULT_BUILD_ROWS);
                return limit.checked_add(build_rows).is_some();
            }
        }
    }
    let mut i: usize = 0;
    while i < plan.children.len()
        invariant
            i <= plan.children@.len(),
            plan@.wf(),
            plan@.children == plans(plan.children@),
            forall|j: int|
                0 <= j < i ==> limits_fit(#[trigger] plan@.children[j], rows(current_limit)),
            limits_fit(plan@, rows(parent_limit)) == (forall|j: int|
                0 <= j < plan@.children.len() ==> limits_fit(
                    #[trigger] plan@.children[j],
                    rows(current_limit),
                )),
        decreases plan.children@.len() - i,
    {
        assert(plan@.children[i as int].wf());
        if !check_limits(&plan.children[i], current_limit) {
            return false;
        }
        i = i + 1;
    }
    true
}

/// Push limits into anti-joins for early termination.
#[derive(Debug)]
pub struct PushLimitIntoAntiJoin {}

impl PushLimitIntoAntiJoin {
    /// The rule.
    pub fn new() -> (r: Self)
        ensures
            r == (PushLimitIntoAntiJoin {  }),
    {
        PushLimitIntoAntiJoin {  }
    }

    /// Whether DataFusion was asked for the rows of every build side whose size the rule needs on
    /// `plan`, and every number of rows that the rule works out is a machine number.
    pub fn accepts(&self, plan: &Plan) -> (r: bool)
        requires
            plan@.wf(),
        ensures
            r == limits_fit(plan@, None),
    {
        check_limits(plan, None)
    }

    /// Rewrites `plan`: the probe side is cut off of every open anti-join of which a limited number
    /// of rows is needed, below no other such anti-join.
    pub fn optimize(&self, plan: Plan, _config: &ConfigOptions) -> (r: Result<Plan, PlanError>)
        requires
            plan@.wf(),
            limits_fit(plan@, None),
        ensures
            r matches Ok(out) && out@ == cut_down(plan@, None) && out@.wf() && out@.schema()
                == plan@.schema(),
    {
        proof {
            lemma_cut_down_keeps(plan@, None);
        }
        optimize_with_limit(plan, None)
    }

    /// The name of the rule.
    pub fn name(&self) -> (r: &'static str)
        ensures
            r@ == "push_limit_into_anti_join"@,
    {
        "push_limit_into_anti_join"
    }

    /// Whether the rule returns a plan with the schema of the one that it is given, as it does:
    /// with the same columns in the same order, of the same names, types and metadata, the same of
    /// which can hold a null, and with the same metadata itself.
    pub fn schema_check(&self) -> (r: bool)
        ensures
            r,
    {
        true
    }
}

impl Default for PushLimitIntoAntiJoin {
    fn default() -> (r: Self)
        ensures
            r == (PushLimitIntoAntiJoin {  }),
    {
        PushLimitIntoAntiJoin {  }
    }
}

} // verus!
