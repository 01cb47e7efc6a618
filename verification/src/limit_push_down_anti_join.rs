//! Pushes limits into anti-joins to enable early termination.

use crate::error::PlanError;
use crate::hash_join_limit_pushdown::HashJoinLimitPushdownExec;
use crate::plan::{
    lemma_children, lemma_same_schema, nearest, plans, rows, Node, NodeView, Plan, PlanView,
    Precision, Statistics,
};
use crate::transformed::Transformed;
use datafusion_common::config::ConfigOptions;
use vstd::prelude::*;

verus! {

/// The limit of the node itself, if it is one of those that limit: the rows that it passes on.
pub open spec fn own_limit(node: NodeView) -> Option<nat> {
    match node {
        NodeView::GlobalLimit { skip, fetch } => fetch,
        NodeView::LocalLimit { fetch } => Some(fetch),
        NodeView::CoalescePartitions { fetch } => fetch,
        _ => None,
    }
}

/// The plan with the nearest limit above written into every open anti-join that has one above it,
/// below no other such anti-join. A join that carries a limit is passed by: it keeps the limit,
/// and the nearest one above goes on below it. `inherited` is the nearest limit above the plan.
pub open spec fn pushed_down(plan: PlanView, inherited: Option<nat>) -> PlanView
    decreases plan,
{
    let limit = nearest(own_limit(plan.node), inherited);
    if plan.node.is_open_anti_join() && limit is Some {
        plan.with_limit(limit)
    } else {
        PlanView {
            children: Seq::new(
                plan.children.len(),
                |i: int|
                    if 0 <= i < plan.children.len() {
                        pushed_down(plan.children[i], limit)
                    } else {
                        arbitrary()
                    },
            ),
            ..plan
        }
    }
}

/// The rule keeps every node fit for its inputs, and the schema of the plan.
pub proof fn lemma_pushed_down_keeps(plan: PlanView, inherited: Option<nat>)
    requires
        plan.wf(),
    ensures
        pushed_down(plan, inherited).wf(),
        pushed_down(plan, inherited).schema() == plan.schema(),
    decreases plan,
{
    let limit = nearest(own_limit(plan.node), inherited);
    let out = pushed_down(plan, inherited);
    if plan.node.is_open_anti_join() && limit is Some {
    } else {
        assert forall|i: int| 0 <= i < plan.children.len() implies (#[trigger] out.children[i]).wf()
            && out.children[i].schema() == plan.children[i].schema() by {
            lemma_pushed_down_keeps(plan.children[i], limit);
        }
        lemma_same_schema(plan, out.children);
    }
}

/// The plan with the limits taken out of its hash joins.
pub open spec fn without_limits(plan: PlanView) -> PlanView
    decreases plan,
{
    PlanView {
        children: Seq::new(
            plan.children.len(),
            |i: int|
                if 0 <= i < plan.children.len() {
                    without_limits(plan.children[i])
                } else {
                    arbitrary()
                },
        ),
        ..plan.with_limit(None)
    }
}

/// The rule changes nothing of a plan but the limits of its hash joins.
pub proof fn lemma_only_limits_change(plan: PlanView, inherited: Option<nat>)
    ensures
        without_limits(pushed_down(plan, inherited)) == without_limits(plan),
    decreases plan,
{
    let limit = nearest(own_limit(plan.node), inherited);
    let out = pushed_down(plan, inherited);
    assert forall|i: int| 0 <= i < plan.children.len() implies #[trigger] without_limits(
        out,
    ).children[i] == without_limits(plan).children[i] by {
        if !(plan.node.is_open_anti_join() && limit is Some) {
            lemma_only_limits_change(plan.children[i], limit);
        }
    }
    assert(without_limits(out).children =~= without_limits(plan).children);
}

/// Whether no open anti-join stands below one that the rule writes a limit into.
pub open spec fn done_at_once(plan: PlanView, inherited: Option<nat>) -> bool
    decreases plan,
{
    let limit = nearest(own_limit(plan.node), inherited);
    if plan.node.is_open_anti_join() && limit is Some {
        forall|i: int|
            0 <= i < plan.children.len() ==> (
            #[trigger] plan.children[i]).free_of_open_anti_joins()
    } else {
        forall|i: int|
            0 <= i < plan.children.len() ==> done_at_once(#[trigger] plan.children[i], limit)
    }
}

/// Under a limit, the rule changes every plan with an open anti-join.
proof fn lemma_open_anti_join_changes(plan: PlanView, inherited: Option<nat>)
    requires
        inherited is Some,
        !plan.free_of_open_anti_joins(),
    ensures
        pushed_down(plan, inherited) != plan,
    decreases plan,
{
    let limit = nearest(own_limit(plan.node), inherited);
    let out = pushed_down(plan, inherited);
    if !plan.node.is_open_anti_join() {
        let i = choose|i: int|
            0 <= i < plan.children.len() && !(
            #[trigger] plan.children[i]).free_of_open_anti_joins();
        lemma_open_anti_join_changes(plan.children[i], limit);
        assert(out.children[i] != plan.children[i]);
    }
}

/// A second run of the rule changes nothing exactly where no open anti-join stands below one that
/// the first run writes a limit into: such a join, which the first run does not reach, gets its
/// limit in the second.
pub proof fn lemma_second_run(plan: PlanView, inherited: Option<nat>)
    ensures
        pushed_down(pushed_down(plan, inherited), inherited) == pushed_down(plan, inherited)
            <==> done_at_once(plan, inherited),
    decreases plan,
{
    let limit = nearest(own_limit(plan.node), inherited);
    let once = pushed_down(plan, inherited);
    let twice = pushed_down(once, inherited);
    if plan.node.is_open_anti_join() && limit is Some {
        assert forall|i: int| 0 <= i < plan.children.len() implies (twice.children[i]
            == once.children[i] <==> (#[trigger] plan.children[i]).free_of_open_anti_joins()) by {
            if plan.children[i].free_of_open_anti_joins() {
                lemma_no_anti_join_no_change(plan.children[i], limit);
            } else {
                lemma_open_anti_join_changes(plan.children[i], limit);
            }
        }
    } else {
        assert forall|i: int| 0 <= i < plan.children.len() implies (twice.children[i]
            == once.children[i] <==> done_at_once(#[trigger] plan.children[i], limit)) by {
            lemma_second_run(plan.children[i], limit);
        }
    }
    if done_at_once(plan, inherited) {
        assert forall|i: int| 0 <= i < twice.children.len() implies #[trigger] twice.children[i]
            == once.children[i] by {
            let child = plan.children[i];
        }
        assert(twice.children =~= once.children);
    }
}

/// Whether no node of the plan is a limit.
pub open spec fn free_of_limits(plan: PlanView) -> bool
    decreases plan,
{
    &&& own_limit(plan.node) is None
    &&& forall|i: int| 0 <= i < plan.children.len() ==> free_of_limits(#[trigger] plan.children[i])
}

/// A plan without a limit is left as it is.
pub proof fn lemma_no_limit_no_change(plan: PlanView)
    requires
        free_of_limits(plan),
    ensures
        pushed_down(plan, None) == plan,
    decreases plan,
{
    let out = pushed_down(plan, None);
    assert forall|i: int| 0 <= i < plan.children.len() implies #[trigger] out.children[i]
        == plan.children[i] by {
        lemma_no_limit_no_change(plan.children[i]);
    }
    assert(out.children =~= plan.children);
}

/// A plan without an open anti-join is left as it is, whatever the limits.
pub proof fn lemma_no_anti_join_no_change(plan: PlanView, inherited: Option<nat>)
    requires
        plan.free_of_open_anti_joins(),
    ensures
        pushed_down(plan, inherited) == plan,
    decreases plan,
{
    let limit = nearest(own_limit(plan.node), inherited);
    let out = pushed_down(plan, inherited);
    assert forall|i: int| 0 <= i < plan.children.len() implies #[trigger] out.children[i]
        == plan.children[i] by {
        lemma_no_anti_join_no_change(plan.children[i], limit);
    }
    assert(out.children =~= plan.children);
}

/// The nearest limit at the node that `path` leads to, its own or one above it.
pub open spec fn limit_at(plan: PlanView, path: Seq<int>, inherited: Option<nat>) -> Option<nat>
    decreases path.len(),
{
    let limit = nearest(own_limit(plan.node), inherited);
    if path.len() > 0 {
        limit_at(plan.children[path[0]], path.drop_first(), limit)
    } else {
        limit
    }
}

/// Whether no node above the one that `path` leads to is an open anti-join under a limit.
pub open spec fn reached(plan: PlanView, path: Seq<int>, inherited: Option<nat>) -> bool
    decreases path.len(),
{
    let limit = nearest(own_limit(plan.node), inherited);
    path.len() > 0 ==> !(plan.node.is_open_anti_join() && limit is Some) && reached(
        plan.children[path[0]],
        path.drop_first(),
        limit,
    )
}

/// An open anti-join under a limit, and under no other such anti-join, gets the nearest limit;
/// every other node stays as it is.
pub proof fn lemma_each_node(plan: PlanView, path: Seq<int>, inherited: Option<nat>)
    requires
        plan.has_path(path),
    ensures
        pushed_down(plan, inherited).has_path(path),
        ({
            let before = plan.at(path);
            let after = pushed_down(plan, inherited).at(path);
            let limit = limit_at(plan, path, inherited);
            if reached(plan, path, inherited) && before.node.is_open_anti_join() && limit is Some {
                after == before.with_limit(limit)
            } else {
                after.node == before.node && after.statistics == before.statistics
                    && after.children.len() == before.children.len()
            }
        }),
    decreases path.len(),
{
    let limit = nearest(own_limit(plan.node), inherited);
    if path.len() > 0 {
        if plan.node.is_open_anti_join() && limit is Some {
            assert(pushed_down(plan, inherited).children == plan.children);
        } else {
            lemma_each_node(plan.children[path[0]], path.drop_first(), limit);
        }
    }
}

/// A join that carries a limit keeps it, wherever it stands; where the rule reaches it, the rule
/// goes on below it with the nearest limit above.
pub proof fn lemma_carried_limit_stays(plan: PlanView, path: Seq<int>, inherited: Option<nat>)
    requires
        plan.has_path(path),
        plan.at(path).node.carries_limit(),
    ensures
        pushed_down(plan, inherited).has_path(path),
        pushed_down(plan, inherited).at(path).node == plan.at(path).node,
        reached(plan, path, inherited) ==> {
            let before = plan.at(path);
            let after = pushed_down(plan, inherited).at(path);
            forall|i: int|
                0 <= i < before.children.len() ==> #[trigger] after.children[i] == pushed_down(
                    before.children[i],
                    limit_at(plan, path, inherited),
                )
        },
    decreases path.len(),
{
    let limit = nearest(own_limit(plan.node), inherited);
    lemma_each_node(plan, path, inherited);
    if path.len() > 0 && !(plan.node.is_open_anti_join() && limit is Some) {
        lemma_carried_limit_stays(plan.children[path[0]], path.drop_first(), limit);
    }
}

/// Optimizer rule that pushes limits into anti-joins for early termination.
///
/// For anti-joins (LeftAnti/RightAnti) with limits, this rule pushes the limit down into the
/// hash join to enable early termination during execution. Each partition will stop processing
/// once it produces its local limit.
#[derive(Debug)]
pub struct LimitPushDownAntiJoin {}

impl LimitPushDownAntiJoin {
    /// The rule.
    pub fn new() -> (r: Self)
        ensures
            r == (LimitPushDownAntiJoin {  }),
    {
        LimitPushDownAntiJoin {  }
    }

    /// Whether the probe side is large enough for the limit to save work: its size is unknown, or
    /// it has at least a hundred times as many rows as the limit, so that at least 99 in a
    /// hundred are left out.
    pub fn is_probe_side_large(stats: &Statistics, limit: usize) -> (r: bool)
        ensures
            r == (stats.num_rows.value() matches Some(n) ==> n >= limit * 100),
            stats.num_rows matches Precision::Exact(n) ==> r == (n >= limit * 100),
            stats.num_rows matches Precision::Inexact(n) ==> r == (n >= limit * 100),
            stats.num_rows is Absent ==> r,
    {
        match stats.num_rows {
            Precision::Exact(n) | Precision::Inexact(n) => match limit.checked_mul(100) {
                Some(threshold) => n >= threshold,
                None => false,
            },
            Precision::Absent => true,
        }
    }

    /// The limit of the node at the top of `plan`, if it is one of those that limit.
    pub fn extract_limit(plan: &Plan) -> (r: Option<usize>)
        ensures
            rows(r) == own_limit(plan@.node),
            plan.node matches Node::GlobalLimit { fetch, .. } ==> r == fetch,
            plan.node matches Node::LocalLimit { fetch } ==> r == Some(fetch),
            plan.node matches Node::CoalescePartitions { fetch } ==> r == fetch,
            plan.node is HashJoin || plan.node is Operator ==> r is None,
    {
        match &plan.node {
            Node::GlobalLimit { fetch, .. } => *fetch,
            Node::LocalLimit { fetch } => Some(*fetch),
            Node::CoalescePartitions { fetch } => *fetch,
            _ => None,
        }
    }

    /// Rewrites `plan`, whose nearest limit above is `parent_limit`.
    pub fn optimize_plan(plan: Plan, parent_limit: Option<usize>) -> (r: Result<
        Transformed<Plan>,
        PlanError,
    >)
        requires
            plan@.wf(),
        ensures
            r matches Ok(t) && t.data@ == pushed_down(plan@, rows(parent_limit)) && t.data@.wf()
                && t.transformed == (plan@.children.len() > 0),
        decreases plan,
    {
        proof {
            lemma_children(plan);
        }
        let ghost whole = plan@;
        let current_limit = match LimitPushDownAntiJoin::extract_limit(&plan) {
            Some(limit) => Some(limit),
            None => parent_limit,
        };
        let Plan { node, statistics, children } = plan;
        let open = match &node {
            Node::HashJoin(join) => join.join_type.is_anti() && join.limit.is_none(),
            _ => false,
        };
        if open {
            if let Some(limit) = current_limit {
                assert(whole.with_children(whole.children) == whole);
                let new_hash_join = Plan::rebuild(node, statistics, children)?;
                let new_join = HashJoinLimitPushdownExec::new(new_hash_join, limit);
                return Ok(Transformed::yes(new_join.into_plan()));
            }
        }
        if children.len() == 0 {
            let plan = Plan { node, statistics, children };
            proof {
                lemma_children(plan);
                assert(pushed_down(whole, rows(parent_limit)).children =~= whole.children);
            }
            return Ok(Transformed::no(plan));
        }
        let ghost given = children@;
        let ghost out = pushed_down(whole, rows(parent_limit));
        let mut new_children: Vec<Plan> = Vec::new();
        for child in it: children
            invariant
                it.seq() == given,
                given == plan.children@,
                plans(given) == whole.children,
                whole.wf(),
                new_children@.len() == it.index(),
                forall|i: int|
                    0 <= i < new_children@.len() ==> (#[trigger] new_children@[i])@ == pushed_down(
                        given[i]@,
                        rows(current_limit),
                    ) && new_children@[i]@.wf(),
        {
            assert(whole.children[it.index() as int].wf());
            let t = LimitPushDownAntiJoin::optimize_plan(child, current_limit)?;
            new_children.push(t.data);
        }
        proof {
            lemma_pushed_down_keeps(whole, rows(parent_limit));
            assert forall|i: int| 0 <= i < given.len() implies #[trigger] plans(new_children@)[i]
                == out.children[i] by {
                assert(plans(new_children@)[i] == new_children@[i]@);
            }
            assert(plans(new_children@) =~= out.children);
        }
        let plan = Plan::rebuild(node, statistics, new_children)?;
        Ok(Transformed::yes(plan))
    }

    /// Rewrites `plan`: the nearest limit above is written into every open anti-join that has one
    /// above it, below no other such anti-join.
    pub fn optimize(&self, plan: Plan, _config: &ConfigOptions) -> (r: Result<Plan, PlanError>)
        requires
            plan@.wf(),
        ensures
            r matches Ok(out) && out@ == pushed_down(plan@, None) && out@.wf() && out@.schema()
                == plan@.schema(),
    {
        proof {
            lemma_pushed_down_keeps(plan@, None);
        }
        let t = LimitPushDownAntiJoin::optimize_plan(plan, None)?;
        Ok(t.data)
    }

    /// The name of the rule.
    pub fn name(&self) -> (r: &'static str)
        ensures
            r@ == "LimitPushDownAntiJoin"@,
    {
        "LimitPushDownAntiJoin"
    }

    /// Whether the rule returns a plan with the schema of the one that it is given, as it does:
    /// with the same columns in the same order, of the same names, types and metadata, the same of
    /// which can hold a null, and with the same metadata itself.
    pub fn schema_check(&self) -> (r: bool)
        ensures
            r,
    {
        true
    }
}

impl Default for LimitPushDownAntiJoin {
    fn default() -> (r: Self)
        ensures
            r == (LimitPushDownAntiJoin {  }),
    {
        LimitPushDownAntiJoin {  }
    }
}

} // verus!
