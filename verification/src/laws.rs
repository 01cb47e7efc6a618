//! What the plans and the rules promise, stated field by field on the plans themselves.

use crate::display::{decimal, DisplayFormatType};
use crate::hash_join_limit_pushdown::limited_text;
use crate::join::{
    has_column, has_key, hash_join_schema, joined_columns, joined_metadata, projected, valid_join,
    Column, Field, FieldView, JoinType, Key, KeyView, Schema, SchemaView,
};
use crate::limit_push_down_anti_join::{
    lemma_each_node, own_limit, pushed_down, without_limits,
};
use crate::outside::mark_type;
use crate::plan::{
    plans, rows, HashJoin, HashJoinView, Node, NodeView, Operator, OperatorView, Plan, PlanView,
    Precision, Reported, Statistics,
};
use crate::push_limit_into_anti_join::{
    build_rows, build_side, cut_down, cut_off, lemma_untouched, limited_join, limits_fit,
    probe_rows, probe_side, rows_needed, touched,
};
use vstd::prelude::*;

verus! {

/// Whether the rows that a build side is taken to have are `n`: the figure that DataFusion reports,
/// exact or estimated, and a thousand where it reports none.
pub open spec fn taken_to_have(build: Reported, n: nat) -> bool {
    match build {
        Reported::Known(Statistics { num_rows: Precision::Exact(k) }) => n == k,
        Reported::Known(Statistics { num_rows: Precision::Inexact(k) }) => n == k,
        _ => n == 1000,
    }
}

/// Whether `after` is the hash join `before` in all but its limit.
pub open spec fn same_but_limit(before: HashJoinView, after: HashJoinView) -> bool {
    &&& after.on == before.on
    &&& after.filter == before.filter
    &&& after.join_type == before.join_type
    &&& after.projection == before.projection
    &&& after.partition_mode == before.partition_mode
    &&& after.null_equality == before.null_equality
    &&& after.schema == before.schema
}

/// Whether `after` is the plan `before` stopped after `n` rows: the same operator or the same merge
/// over the same inputs, with `n` as its row limit, where it takes one, and else `before` as it
/// is under a local limit.
pub open spec fn stopped_after(before: PlanView, after: PlanView, n: nat) -> bool {
    match before.node {
        NodeView::CoalescePartitions { .. } => {
            &&& after.node == (NodeView::CoalescePartitions { fetch: Some(n) })
            &&& after.children == before.children
        },
        NodeView::Operator(operator) if operator.accepts_fetch => {
            &&& after.node is Operator
            &&& after.node->Operator_0.fetch == Some(n)
            &&& after.node->Operator_0.handle == operator.handle
            &&& after.node->Operator_0.schema == operator.schema
            &&& after.node->Operator_0.accepts_fetch
            &&& after.children == before.children
        },
        _ => {
            &&& after.node == (NodeView::LocalLimit { fetch: n })
            &&& after.children.len() == 1
            &&& after.children[0] == before
        },
    }
}

/// Whether `join` is an anti-join that returns rows of its left input and carries no limit.
pub open spec fn open_left(join: HashJoinView) -> bool {
    join.join_type == JoinType::LeftAnti && join.limit == None::<nat>
}

/// Whether `join` is an anti-join that returns rows of its right input and carries no limit.
pub open spec fn open_right(join: HashJoinView) -> bool {
    join.join_type == JoinType::RightAnti && join.limit == None::<nat>
}

// What the types stand for.

/// A column stands for its name and its place.
pub proof fn lemma_column_stands_for(c: Column)
    ensures
        c@.name == c.name@,
        c@.index == c.index,
{
}

/// A key stands for its handle and its columns, in order.
pub proof fn lemma_key_stands_for(k: Key)
    ensures
        k@.handle == k.handle,
        k@.columns.len() == k.columns@.len(),
        forall|i: int| 0 <= i < k.columns@.len() ==> #[trigger] k@.columns[i] == k.columns@[i]@,
{
}

/// A field stands for its name, type, nullability and metadata.
pub proof fn lemma_field_stands_for(f: Field)
    ensures
        f@.name == f.name@,
        f@.data_type == f.data_type,
        f@.nullable == f.nullable,
        f@.metadata == f.metadata@,
{
}

/// A schema stands for its columns, in order, and its metadata.
pub proof fn lemma_schema_stands_for(s: Schema)
    ensures
        s@.fields.len() == s.fields@.len(),
        forall|i: int| 0 <= i < s.fields@.len() ==> #[trigger] s@.fields[i] == s.fields@[i]@,
        s@.metadata == s.metadata@,
{
}

/// A hash join stands for all that it is made of.
pub proof fn lemma_hash_join_stands_for(join: HashJoin)
    ensures
        join@.on.len() == join.on@.len(),
        forall|i: int|
            0 <= i < join.on@.len() ==> (#[trigger] join@.on[i]).0 == join.on@[i].0@ && join@.on[i].1
                == join.on@[i].1@,
        join@.filter == join.filter,
        join@.join_type == join.join_type,
        join@.projection is Some <==> join.projection is Some,
        join.projection matches Some(p) ==> join@.projection->0 == p@,
        join@.partition_mode == join.partition_mode,
        join@.null_equality == join.null_equality,
        join@.schema == join.schema@,
        join@.limit is Some <==> join.limit is Some,
        join.limit matches Some(n) ==> join@.limit->0 == n,
{
}

/// An operator stands for all that it is made of.
pub proof fn lemma_operator_stands_for(operator: Operator)
    ensures
        operator@.handle == operator.handle,
        operator@.schema == operator.schema@,
        operator@.fetch is Some <==> operator.fetch is Some,
        operator.fetch matches Some(n) ==> operator@.fetch->0 == n,
        operator@.accepts_fetch == operator.accepts_fetch,
{
}

/// A node stands for one of its own kind, with the same numbers.
pub proof fn lemma_node_stands_for(node: Node)
    ensures
        node matches Node::GlobalLimit { skip, fetch: Some(fetch) } ==> node@
            == (NodeView::GlobalLimit { skip: skip as nat, fetch: Some(fetch as nat) }),
        node matches Node::GlobalLimit { skip, fetch: None } ==> node@ == (NodeView::GlobalLimit {
            skip: skip as nat,
            fetch: None,
        }),
        node matches Node::LocalLimit { fetch } ==> node@ == (NodeView::LocalLimit {
            fetch: fetch as nat,
        }),
        node matches Node::CoalescePartitions { fetch: Some(fetch) } ==> node@
            == (NodeView::CoalescePartitions { fetch: Some(fetch as nat) }),
        node matches Node::CoalescePartitions { fetch: None } ==> node@
            == (NodeView::CoalescePartitions { fetch: None }),
        node matches Node::HashJoin(join) ==> node@ == NodeView::HashJoin(join@),
        node matches Node::Operator(operator) ==> node@ == NodeView::Operator(operator@),
{
}

/// A plan stands for its node, what is reported of it, and its inputs, in order.
pub proof fn lemma_plan_stands_for(plan: Plan)
    ensures
        plan@.node == plan.node@,
        plan@.statistics == plan.statistics,
        plan@.children.len() == plan.children@.len(),
        forall|i: int|
            0 <= i < plan.children@.len() ==> #[trigger] plan@.children[i] == plan.children@[i]@,
{
    crate::plan::lemma_children(plan);
}

/// A number of rows stands for itself, where there is one.
pub proof fn lemma_rows_stand_for(n: usize)
    ensures
        rows(Some(n)) == Some(n as nat),
        rows(None) == None::<nat>,
{
}

/// A list of plans stands for what each of them stands for, in order.
pub proof fn lemma_plans_stand_for(v: Seq<Plan>)
    ensures
        plans(v).len() == v.len(),
        forall|i: int| 0 <= i < v.len() ==> #[trigger] plans(v)[i] == v[i]@,
{
}

// What can be asked of a plan and of its nodes.

/// The figure of a precision is its number, exact or estimated.
pub proof fn lemma_figure(n: usize)
    ensures
        Precision::Exact(n).value() == Some(n),
        Precision::Inexact(n).value() == Some(n),
        Precision::Absent.value() == None::<usize>,
{
}

/// An anti-join is a hash join that returns the unmatched rows of its left or of its right input;
/// it is open where it carries no limit.
pub proof fn lemma_kinds_of_joins(node: NodeView, join: HashJoinView)
    ensures
        !(node is HashJoin) ==> !node.is_anti_join() && !node.is_open_anti_join()
            && !node.carries_limit(),
        NodeView::HashJoin(join).is_anti_join() <==> join.join_type == JoinType::LeftAnti
            || join.join_type == JoinType::RightAnti,
        NodeView::HashJoin(join).is_open_anti_join() <==> open_left(join) || open_right(join),
        NodeView::HashJoin(join).carries_limit() <==> join.limit is Some,
{
}

/// The row limit that a node reports is the number in it; a hash join reports none.
pub proof fn lemma_reported_limit(
    skip: nat,
    fetch: Option<nat>,
    n: nat,
    join: HashJoinView,
    operator: OperatorView,
)
    ensures
        (NodeView::GlobalLimit { skip, fetch }).fetch() == fetch,
        (NodeView::LocalLimit { fetch: n }).fetch() == Some(n),
        (NodeView::CoalescePartitions { fetch }).fetch() == fetch,
        NodeView::HashJoin(join).fetch() == None::<nat>,
        NodeView::Operator(operator).fetch() == operator.fetch,
{
}

/// A limit and a merge have the schema of their input; a hash join and an operator have their own.
pub proof fn lemma_schema_of(plan: PlanView)
    ensures
        plan.node matches NodeView::HashJoin(join) ==> plan.schema() == join.schema,
        plan.node matches NodeView::Operator(operator) ==> plan.schema() == operator.schema,
        !(plan.node is HashJoin) && !(plan.node is Operator) && plan.children.len() > 0
            ==> plan.schema() == plan.children[0].schema(),
{
}

/// A limit put into a hash join changes nothing else of it, and nothing of any other node.
pub proof fn lemma_only_the_limit_is_put_in(plan: PlanView, limit: Option<nat>)
    ensures
        ({
            let out = plan.with_limit(limit);
            &&& plan.node matches NodeView::HashJoin(join) ==> {
                &&& out.node is HashJoin
                &&& out.node->HashJoin_0.limit == limit
                &&& same_but_limit(join, out.node->HashJoin_0)
                &&& out.statistics == plan.statistics
                &&& out.children == plan.children
            }
            &&& !(plan.node is HashJoin) ==> out == plan
        }),
{
}

/// Merges take a row limit, operators where they say so, and no other node does.
pub proof fn lemma_who_takes_a_limit(plan: PlanView)
    ensures
        plan.node is CoalescePartitions ==> plan.accepts_fetch(),
        plan.node matches NodeView::Operator(operator) ==> plan.accepts_fetch()
            == operator.accepts_fetch,
        plan.node is GlobalLimit || plan.node is LocalLimit || plan.node is HashJoin
            ==> !plan.accepts_fetch(),
{
}

/// A row limit given to a plan that takes one stops it there and changes nothing else of it.
pub proof fn lemma_only_the_row_limit_is_given(plan: PlanView, n: nat)
    ensures
        plan.node is CoalescePartitions || (plan.node matches NodeView::Operator(operator)
            && operator.accepts_fetch) ==> stopped_after(plan, plan.with_fetch(n), n),
        plan.with_fetch(n).children == plan.children,
        plan.with_fetch(n).statistics == Reported::Unread,
{
}

/// A node put over other inputs has these inputs, and stays what it is; a hash join stays one of
/// the same keys, filter, type, projection, mode, null equality and limit.
pub proof fn lemma_only_the_inputs_are_replaced(plan: PlanView, children: Seq<PlanView>)
    ensures
        ({
            let out = plan.with_children(children);
            &&& out.children == children
            &&& out.statistics == plan.statistics
            &&& !(plan.node is HashJoin) ==> out.node == plan.node
            &&& plan.node matches NodeView::HashJoin(join) ==> {
                &&& out.node is HashJoin
                &&& same_but_limit(
                    join,
                    HashJoinView { schema: join.schema, ..out.node->HashJoin_0 },
                )
                &&& out.node->HashJoin_0.limit == join.limit
                &&& out.node->HashJoin_0.schema == hash_join_schema(
                    children[0].schema(),
                    children[1].schema(),
                    join.join_type,
                    join.projection,
                )
            }
        }),
{
}

/// An operator can be put over any inputs, a limit and a merge over any one, and a hash join over
/// two of which it could be made.
pub proof fn lemma_what_inputs_are_taken(plan: PlanView, children: Seq<PlanView>)
    ensures
        !(plan.node is HashJoin) ==> plan.accepts_children(children),
        plan.node matches NodeView::HashJoin(join) ==> plan.accepts_children(children)
            == valid_join(
            children[0].schema().fields,
            children[1].schema().fields,
            join.on,
            join.join_type,
            join.projection,
        ),
{
}

/// A plan is fit exactly where its inputs are, there are as many as its node needs, and a hash join
/// could be made of them, has the schema that comes out of them, and has a limit only where it is
/// an anti-join.
pub proof fn lemma_fit(plan: PlanView)
    ensures
        plan.wf() <==> {
            &&& forall|i: int| 0 <= i < plan.children.len() ==> (#[trigger] plan.children[i]).wf()
            &&& !(plan.node is HashJoin) && !(plan.node is Operator) ==> plan.children.len() == 1
            &&& plan.node matches NodeView::HashJoin(join) ==> {
                let left = plan.children[0].schema();
                let right = plan.children[1].schema();
                &&& plan.children.len() == 2
                &&& valid_join(left.fields, right.fields, join.on, join.join_type, join.projection)
                &&& join.schema == hash_join_schema(left, right, join.join_type, join.projection)
                &&& join.limit is Some ==> join.join_type == JoinType::LeftAnti || join.join_type
                    == JoinType::RightAnti
            }
        },
{
}

/// A path is followed down input by input, and ends where no place is left.
pub proof fn lemma_path(plan: PlanView, i: int, path: Seq<int>)
    ensures
        plan.has_path(seq![]),
        plan.at(seq![]) == plan,
        plan.has_path(seq![i] + path) <==> 0 <= i < plan.children.len()
            && plan.children[i].has_path(path),
        0 <= i < plan.children.len() ==> plan.at(seq![i] + path) == plan.children[i].at(path),
{
    assert((seq![i] + path).drop_first() =~= path);
}

/// A plan is free of open anti-joins exactly where its node is none and its inputs are.
pub proof fn lemma_free_of_open_anti_joins(plan: PlanView)
    ensures
        plan.free_of_open_anti_joins() <==> {
            &&& !(plan.node matches NodeView::HashJoin(join) && (open_left(join) || open_right(
                join,
            )))
            &&& forall|i: int|
                0 <= i < plan.children.len() ==> (
                #[trigger] plan.children[i]).free_of_open_anti_joins()
        },
{
}

// What a hash join is made of.

/// A hash join can be made exactly where it has a key, each column that a key reads is in its input
/// under that name and in that place, and the projection names joined columns alone.
pub proof fn lemma_when_a_join_can_be_made(
    left: Seq<FieldView>,
    right: Seq<FieldView>,
    on: Seq<(KeyView, KeyView)>,
    join_type: JoinType,
    projection: Option<Seq<usize>>,
)
    ensures
        valid_join(left, right, on, join_type, projection) <==> {
            &&& on.len() > 0
            &&& forall|i: int, j: int|
                0 <= i < on.len() && 0 <= j < on[i].0.columns.len() ==> {
                    let c = #[trigger] on[i].0.columns[j];
                    c.index < left.len() && left[c.index as int].name == c.name
                }
            &&& forall|i: int, j: int|
                0 <= i < on.len() && 0 <= j < on[i].1.columns.len() ==> {
                    let c = #[trigger] on[i].1.columns[j];
                    c.index < right.len() && right[c.index as int].name == c.name
                }
            &&& projection matches Some(p) ==> forall|i: int|
                0 <= i < p.len() ==> (#[trigger] p[i]) < joined_columns(
                    left,
                    right,
                    join_type,
                ).len()
        },
{
    let by_columns = {
        &&& forall|i: int, j: int|
            0 <= i < on.len() && 0 <= j < on[i].0.columns.len() ==> has_column(
                left,
                #[trigger] on[i].0.columns[j],
            )
        &&& forall|i: int, j: int|
            0 <= i < on.len() && 0 <= j < on[i].1.columns.len() ==> has_column(
                right,
                #[trigger] on[i].1.columns[j],
            )
    };
    let by_keys = forall|i: int|
        0 <= i < on.len() ==> has_key(left, (#[trigger] on[i]).0) && has_key(right, on[i].1);
    assert(by_keys ==> by_columns);
    assert(by_columns ==> by_keys);
}

/// An anti-join without a projection returns the columns of the input whose rows it returns, as
/// they are.
pub proof fn lemma_anti_join_returns_its_input(left: SchemaView, right: SchemaView)
    ensures
        hash_join_schema(left, right, JoinType::LeftAnti, None).fields == left.fields,
        hash_join_schema(left, right, JoinType::RightAnti, None).fields == right.fields,
{
}

/// The columns of a join are those of its left and then those of its right input, or of one of
/// them alone; none changes its name, its type or its metadata, and one can hold a null where it
/// could before or the other input may lack a match. A mark join adds a column.
pub proof fn lemma_joined_columns(left: Seq<FieldView>, right: Seq<FieldView>, join_type: JoinType)
    ensures
        ({
            let out = joined_columns(left, right, join_type);
            let both = join_type == JoinType::Inner || join_type == JoinType::Left || join_type
                == JoinType::Right || join_type == JoinType::Full;
            let of_left = join_type == JoinType::LeftSemi || join_type == JoinType::LeftAnti
                || join_type == JoinType::LeftMark;
            let marks = join_type == JoinType::LeftMark || join_type == JoinType::RightMark;
            let pads_left = join_type == JoinType::Right || join_type == JoinType::Full;
            let pads_right = join_type == JoinType::Left || join_type == JoinType::Full;
            let taken = if both {
                left + right
            } else if of_left {
                left
            } else {
                right
            };
            &&& out.len() == taken.len() + if marks {
                1int
            } else {
                0
            }
            &&& forall|i: int|
                0 <= i < taken.len() ==> {
                    let f = #[trigger] out[i];
                    let may_lack = both && if i < left.len() {
                        pads_left
                    } else {
                        pads_right
                    };
                    &&& f.name == taken[i].name
                    &&& f.data_type == taken[i].data_type
                    &&& f.metadata == taken[i].metadata
                    &&& f.nullable == (taken[i].nullable || may_lack)
                }
            &&& marks ==> {
                &&& out.last().name == "mark"@
                &&& out.last().data_type == mark_type(join_type)
                &&& !out.last().nullable
                &&& out.last().metadata == Map::<String, String>::empty()
            }
        }),
{
}

/// The metadata of a join's schema has every key of both inputs; where both have one, the value is
/// that of the input whose rows a right, right semi or right anti-join keeps, and else of the left.
pub proof fn lemma_joined_metadata(
    left: Map<String, String>,
    right: Map<String, String>,
    join_type: JoinType,
    k: String,
)
    ensures
        ({
            let out = joined_metadata(left, right, join_type);
            let right_wins = join_type == JoinType::Right || join_type == JoinType::RightSemi
                || join_type == JoinType::RightAnti;
            &&& out.contains_key(k) <==> left.contains_key(k) || right.contains_key(k)
            &&& left.contains_key(k) && (!right.contains_key(k) || !right_wins) ==> out[k]
                == left[k]
            &&& right.contains_key(k) && (!left.contains_key(k) || right_wins) ==> out[k]
                == right[k]
        }),
{
}

/// A projection takes, in its order, the columns that it names; without one all are taken. The
/// metadata stays.
pub proof fn lemma_projection(
    schema: SchemaView,
    p: Seq<usize>,
    left: SchemaView,
    right: SchemaView,
    join_type: JoinType,
)
    ensures
        projected(schema, None) == schema,
        projected(schema, Some(p)).metadata == schema.metadata,
        projected(schema, Some(p)).fields.len() == p.len(),
        forall|i: int|
            0 <= i < p.len() ==> #[trigger] projected(schema, Some(p)).fields[i]
                == schema.fields[p[i] as int],
        hash_join_schema(left, right, join_type, None).fields == joined_columns(
            left.fields,
            right.fields,
            join_type,
        ),
        hash_join_schema(left, right, join_type, None).metadata == joined_metadata(
            left.metadata,
            right.metadata,
            join_type,
        ),
        hash_join_schema(left, right, join_type, Some(p)) == projected(
            hash_join_schema(left, right, join_type, None),
            Some(p),
        ),
{
}

// What the first rule does: it writes limits into anti-joins.

/// The limit above an open anti-join is written into it. The join after has the keys, the filter,
/// the type, the projection, the mode, the null equality and the schema of the join before, over
/// the same inputs.
pub proof fn lemma_limit_is_written_into_the_join(plan: PlanView, limit: nat)
    requires
        plan.node matches NodeView::HashJoin(join) && (open_left(join) || open_right(join)),
    ensures
        ({
            let out = pushed_down(plan, Some(limit));
            &&& out.node is HashJoin
            &&& out.node->HashJoin_0.limit == Some(limit)
            &&& same_but_limit(plan.node->HashJoin_0, out.node->HashJoin_0)
            &&& out.children == plan.children
            &&& out.statistics == plan.statistics
        }),
{
}

/// Any other hash join, and an open anti-join with no limit above, stays as it is, its limit too;
/// its inputs are rewritten under the limit above it.
pub proof fn lemma_other_joins_pass_the_limit_on(plan: PlanView, inherited: Option<nat>)
    requires
        plan.node matches NodeView::HashJoin(join) && (inherited is None || !(open_left(join)
            || open_right(join))),
    ensures
        ({
            let out = pushed_down(plan, inherited);
            &&& out.node == plan.node
            &&& out.statistics == plan.statistics
            &&& out.children.len() == plan.children.len()
            &&& forall|i: int|
                0 <= i < plan.children.len() ==> #[trigger] out.children[i] == pushed_down(
                    plan.children[i],
                    inherited,
                )
        }),
{
}

/// A node that is no hash join stays as it is. Its inputs are rewritten under its own limit, where
/// it is a limit or a merge that has a number, and else under the one above it; the rows that a
/// global limit skips are not counted, and what an operator says of its row limit is not asked.
pub proof fn lemma_nearest_limit_goes_down(plan: PlanView, inherited: Option<nat>)
    requires
        !(plan.node is HashJoin),
    ensures
        ({
            let out = pushed_down(plan, inherited);
            let below = match plan.node {
                NodeView::GlobalLimit { skip, fetch: Some(n) } => Some(n),
                NodeView::LocalLimit { fetch: n } => Some(n),
                NodeView::CoalescePartitions { fetch: Some(n) } => Some(n),
                _ => inherited,
            };
            &&& out.node == plan.node
            &&& out.statistics == plan.statistics
            &&& out.children.len() == plan.children.len()
            &&& forall|i: int|
                0 <= i < plan.children.len() ==> #[trigger] out.children[i] == pushed_down(
                    plan.children[i],
                    below,
                )
        }),
{
}

/// The limit that a node itself sets is the number in it, where it is a limit or a merge.
pub proof fn lemma_own_limit(
    skip: nat,
    fetch: Option<nat>,
    n: nat,
    join: HashJoinView,
    operator: OperatorView,
)
    ensures
        own_limit(NodeView::GlobalLimit { skip, fetch }) == fetch,
        own_limit(NodeView::LocalLimit { fetch: n }) == Some(n),
        own_limit(NodeView::CoalescePartitions { fetch }) == fetch,
        own_limit(NodeView::HashJoin(join)) == None::<nat>,
        own_limit(NodeView::Operator(operator)) == None::<nat>,
{
}

/// Taking the limits out of a plan leaves every other field of a hash join as it is, and every node
/// that is none; it goes on in the inputs.
pub proof fn lemma_without_limits(plan: PlanView)
    ensures
        ({
            let out = without_limits(plan);
            &&& plan.node matches NodeView::HashJoin(join) ==> {
                &&& out.node is HashJoin
                &&& out.node->HashJoin_0.limit == None::<nat>
                &&& same_but_limit(join, out.node->HashJoin_0)
            }
            &&& !(plan.node is HashJoin) ==> out.node == plan.node
            &&& out.statistics == plan.statistics
            &&& out.children.len() == plan.children.len()
            &&& forall|i: int|
                0 <= i < plan.children.len() ==> #[trigger] out.children[i] == without_limits(
                    plan.children[i],
                )
        }),
{
}

/// Wherever a hash join stands in a plan, a hash join stands there after the rule, with the keys,
/// the filter, the type, the projection, the mode, the null equality and the schema that it had,
/// and with the limit that it carried, if it carried one.
pub proof fn lemma_joins_keep_all_but_limits(plan: PlanView, path: Seq<int>, inherited: Option<nat>)
    requires
        plan.has_path(path),
        plan.at(path).node is HashJoin,
    ensures
        ({
            let out = pushed_down(plan, inherited);
            let before = plan.at(path).node->HashJoin_0;
            let after = out.at(path).node->HashJoin_0;
            &&& out.has_path(path)
            &&& out.at(path).node is HashJoin
            &&& same_but_limit(before, after)
            &&& before.limit is Some ==> after.limit == before.limit
            &&& out.at(path).children.len() == plan.at(path).children.len()
        }),
    decreases path.len(),
{
    lemma_each_node(plan, path, inherited);
}

// What the second rule does: it cuts off the probe sides of anti-joins.

/// Of an open left anti-join of which `limit` rows are needed the left input is stopped after that
/// many rows and as many more as the right one is taken to have. The join and the right input
/// stay as they are.
pub proof fn lemma_left_anti_join_is_cut_off(plan: PlanView, limit: nat, n: nat)
    requires
        plan.node matches NodeView::HashJoin(join) && open_left(join),
        plan.children.len() == 2,
        taken_to_have(plan.children[1].statistics, n),
    ensures
        ({
            let out = cut_down(plan, Some(limit));
            &&& out.node == plan.node
            &&& out.statistics == Reported::Unread
            &&& out.children.len() == 2
            &&& stopped_after(plan.children[0], out.children[0], limit + n)
            &&& out.children[0].statistics == Reported::Unread
            &&& out.children[1] == plan.children[1]
        }),
{
}

/// Of an open right anti-join of which `limit` rows are needed the right input is stopped after
/// that many rows and as many more as the left one is taken to have. The join and the left input
/// stay as they are.
pub proof fn lemma_right_anti_join_is_cut_off(plan: PlanView, limit: nat, n: nat)
    requires
        plan.node matches NodeView::HashJoin(join) && open_right(join),
        plan.children.len() == 2,
        taken_to_have(plan.children[0].statistics, n),
    ensures
        ({
            let out = cut_down(plan, Some(limit));
            &&& out.node == plan.node
            &&& out.statistics == Reported::Unread
            &&& out.children.len() == 2
            &&& stopped_after(plan.children[1], out.children[1], limit + n)
            &&& out.children[1].statistics == Reported::Unread
            &&& out.children[0] == plan.children[0]
        }),
{
}

/// What is made of an open anti-join of which `limit` rows are needed is the same, whether the rows
/// needed come from above or are handed in.
pub proof fn lemma_cut_off_join_is_the_limited_join(plan: PlanView, limit: nat)
    requires
        plan.node matches NodeView::HashJoin(join) && (open_left(join) || open_right(join)),
    ensures
        cut_down(plan, Some(limit)) == limited_join(plan, limit),
{
}

/// A plan that is cut off is stopped after so many rows, over what it was over.
pub proof fn lemma_cut_off_stops(plan: PlanView, n: nat)
    ensures
        stopped_after(plan, cut_off(plan, n), n),
        cut_off(plan, n).statistics == Reported::Unread,
{
}

/// The rows after which the probe side of an anti-join is cut off are those that are needed and as
/// many more as the other input is taken to have.
pub proof fn lemma_rows_of_the_probe_side(plan: PlanView, limit: nat, n: nat)
    requires
        plan.node is HashJoin,
    ensures
        plan.node->HashJoin_0.join_type == JoinType::LeftAnti ==> {
            &&& probe_side(JoinType::LeftAnti) == 0
            &&& build_side(plan) == plan.children[1]
            &&& taken_to_have(plan.children[1].statistics, n) ==> build_rows(plan.children[1]) == n
                && probe_rows(plan, limit) == limit + n
        },
        plan.node->HashJoin_0.join_type == JoinType::RightAnti ==> {
            &&& probe_side(JoinType::RightAnti) == 1
            &&& build_side(plan) == plan.children[0]
            &&& taken_to_have(plan.children[0].statistics, n) ==> build_rows(plan.children[0]) == n
                && probe_rows(plan, limit) == limit + n
        },
{
}

/// The rows that a node needs of its input are those that it passes on and, for a global limit,
/// those that it skips before them.
pub proof fn lemma_rows_that_a_node_needs(
    skip: nat,
    n: nat,
    fetch: Option<nat>,
    join: HashJoinView,
    operator: OperatorView,
)
    ensures
        rows_needed(NodeView::GlobalLimit { skip, fetch: Some(n) }) == Some(skip + n),
        rows_needed(NodeView::GlobalLimit { skip, fetch: None }) == None::<nat>,
        rows_needed(NodeView::LocalLimit { fetch: n }) == Some(n),
        rows_needed(NodeView::CoalescePartitions { fetch }) == fetch,
        rows_needed(NodeView::HashJoin(join)) == None::<nat>,
        rows_needed(NodeView::Operator(operator)) == operator.fetch,
{
}

/// Every node but an open anti-join of which a limited number of rows is needed stays as it is,
/// over as many inputs. The inputs are rewritten for the rows that the node itself needs, where it
/// says how many: a global limit those that it skips and those that it passes on. Else they are
/// rewritten for those that are needed of the node. What is reported of the node stays where no
/// input changes, and is to be asked again where one may have.
pub proof fn lemma_rows_needed_go_down(plan: PlanView, inherited: Option<nat>)
    requires
        plan.node matches NodeView::HashJoin(join) ==> inherited is None || !(open_left(join)
            || open_right(join)),
    ensures
        ({
            let out = cut_down(plan, inherited);
            let below = match plan.node {
                NodeView::GlobalLimit { skip, fetch: Some(n) } => Some(skip + n),
                NodeView::LocalLimit { fetch: n } => Some(n),
                NodeView::CoalescePartitions { fetch: Some(n) } => Some(n),
                NodeView::Operator(OperatorView { fetch: Some(n), .. }) => Some(n),
                _ => inherited,
            };
            &&& out.node == plan.node
            &&& out.children.len() == plan.children.len()
            &&& forall|i: int|
                0 <= i < plan.children.len() ==> #[trigger] out.children[i] == cut_down(
                    plan.children[i],
                    below,
                )
            &&& out == plan || out.statistics == Reported::Unread
            &&& touched(plan, inherited) <==> exists|i: int|
                0 <= i < plan.children.len() && touched(#[trigger] plan.children[i], below)
        }),
{
    if !touched(plan, inherited) {
        lemma_untouched(plan, inherited);
    }
}

/// A rewrite touches an open anti-join of which a limited number of rows is needed, and what is not
/// touched stays.
pub proof fn lemma_what_is_touched(plan: PlanView, inherited: Option<nat>)
    ensures
        (plan.node matches NodeView::HashJoin(join) && (open_left(join) || open_right(join)))
            && inherited is Some ==> touched(plan, inherited),
        !touched(plan, inherited) ==> cut_down(plan, inherited) == plan,
        touched(plan, inherited) ==> cut_down(plan, inherited).statistics == Reported::Unread,
{
    if !touched(plan, inherited) {
        lemma_untouched(plan, inherited);
    }
}

/// The rule can be run on an open left anti-join of which `limit` rows are needed exactly where the
/// right input was asked for its rows and the sum is a machine number; the like holds of an open
/// right one.
pub proof fn lemma_when_a_join_can_be_cut_off(plan: PlanView, limit: nat, n: nat)
    requires
        plan.node is HashJoin,
    ensures
        open_left(plan.node->HashJoin_0) && taken_to_have(plan.children[1].statistics, n) ==> (
        limits_fit(plan, Some(limit)) <==> plan.children[1].statistics != Reported::Unread && limit
            + n <= usize::MAX),
        open_right(plan.node->HashJoin_0) && taken_to_have(plan.children[0].statistics, n) ==> (
        limits_fit(plan, Some(limit)) <==> plan.children[0].statistics != Reported::Unread && limit
            + n <= usize::MAX),
{
}

/// The rule can be run on any other plan exactly where it can be run on the inputs and the rows
/// that a global limit skips and passes on are a machine number.
pub proof fn lemma_when_a_plan_can_be_rewritten(plan: PlanView, inherited: Option<nat>)
    requires
        plan.node matches NodeView::HashJoin(join) ==> inherited is None || !(open_left(join)
            || open_right(join)),
    ensures
        ({
            let own = match plan.node {
                NodeView::GlobalLimit { skip, fetch: Some(n) } => Some(skip + n),
                NodeView::LocalLimit { fetch: n } => Some(n),
                NodeView::CoalescePartitions { fetch: Some(n) } => Some(n),
                NodeView::Operator(OperatorView { fetch: Some(n), .. }) => Some(n),
                _ => None,
            };
            let below = if own is Some {
                own
            } else {
                inherited
            };
            limits_fit(plan, inherited) <==> {
                &&& own is Some ==> own->0 <= usize::MAX
                &&& forall|i: int|
                    0 <= i < plan.children.len() ==> limits_fit(#[trigger] plan.children[i], below)
            }
        }),
{
}

// What is printed.

/// The number that a text of decimal digits stands for.
pub open spec fn number(text: Seq<char>) -> nat
    decreases text.len(),
{
    if text.len() == 0 {
        0
    } else {
        (10 * number(text.drop_last()) + (text.last() as int - 48)) as nat
    }
}

/// A number is printed in digits that stand for it, the first of them zero only where it is alone.
pub proof fn lemma_decimal_stands_for(n: nat)
    ensures
        decimal(n).len() > 0,
        forall|i: int| 0 <= i < decimal(n).len() ==> '0' <= #[trigger] decimal(n)[i] <= '9',
        number(decimal(n)) == n,
        decimal(n)[0] == '0' ==> decimal(n).len() == 1,
        n > 0 ==> decimal(n)[0] != '0',
    decreases n,
{
    if n < 10 {
        assert(decimal(n).drop_last() =~= seq![]);
        reveal_with_fuel(number, 2);
    } else {
        lemma_decimal_stands_for(n / 10);
        assert(decimal(n).drop_last() =~= decimal(n / 10));
    }
}

/// A limited join prints its name, its limit and the text of its hash join, in this order, on one
/// line or, in a tree, on a line each.
pub proof fn lemma_limited_join_prints(limit: nat, inner: Seq<char>)
    ensures
        limited_text(DisplayFormatType::Default, limit, inner)
            == "HashJoinLimitPushdownExec: limit="@ + decimal(limit) + ", inner=["@ + inner + "]"@,
        limited_text(DisplayFormatType::Verbose, limit, inner) == limited_text(
            DisplayFormatType::Default,
            limit,
            inner,
        ),
        limited_text(DisplayFormatType::TreeRender, limit, inner)
            == "HashJoinLimitPushdownExec\n"@ + "limit="@ + decimal(limit) + "\n"@ + inner,
{
}

} // verus!
