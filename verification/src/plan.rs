//! The physical plan that the rules read and rewrite.

use crate::error::PlanError;
use crate::join::{hash_join_schema, indices, keys, project, valid_join};
use crate::join::{JoinType, Key, KeyView, Schema, SchemaView};
use crate::outside::{check_hash_join, join_schema};
use datafusion_common::NullEquality;
use datafusion_physical_plan::joins::utils::JoinFilter;
use datafusion_physical_plan::joins::PartitionMode;
use vstd::prelude::*;

verus! {

/// How well a figure of the statistics is known.
#[derive(Debug, Clone, Copy, PartialEq, Eq, Structural)]
pub enum Precision {
    /// The figure is exact.
    Exact(usize),
    /// The figure is an estimate.
    Inexact(usize),
    /// Nothing is known.
    Absent,
}

impl Precision {
    /// The figure, exact or estimated.
    pub open spec fn value(self) -> Option<usize> {
        match self {
            Precision::Exact(n) | Precision::Inexact(n) => Some(n),
            Precision::Absent => None,
        }
    }

    /// The figure, exact or estimated; `None` where nothing is known.
    pub fn get_value(&self) -> (r: Option<usize>)
        ensures
            r == self.value(),
            self matches Precision::Exact(n) ==> r == Some(*n),
            self matches Precision::Inexact(n) ==> r == Some(*n),
            self is Absent ==> r is None,
    {
        match self {
            Precision::Exact(n) | Precision::Inexact(n) => Some(*n),
            Precision::Absent => None,
        }
    }
}

/// What is known of the rows that a node returns.
#[derive(Debug, Clone, Copy, PartialEq, Eq, Structural)]
pub struct Statistics {
    pub num_rows: Precision,
}

/// What DataFusion reports of the rows that a node returns.
#[derive(Debug, Clone, Copy, PartialEq, Eq, Structural)]
pub enum Reported {
    /// It has not been asked since the node was made.
    Unread,
    /// It was asked and gave an error.
    Failed,
    /// What it said.
    Known(Statistics),
}

/// A hash join: everything but its two inputs.
#[derive(Debug)]
pub struct HashJoin {
    /// The pairs of expressions, one over the left and one over the right input, that have to be
    /// equal.
    pub on: Vec<(Key, Key)>,
    pub filter: Option<JoinFilter>,
    pub join_type: JoinType,
    /// The joined columns that are returned; all of them where there is no projection.
    pub projection: Option<Vec<usize>>,
    pub partition_mode: PartitionMode,
    pub null_equality: NullEquality,
    /// The columns that the join returns.
    pub schema: Schema,
    /// The number of rows after which a partition of the join may stop.
    pub limit: Option<usize>,
}

/// What a [`HashJoin`] stands for.
#[verifier::ext_equal]
pub struct HashJoinView {
    pub on: Seq<(KeyView, KeyView)>,
    pub filter: Option<JoinFilter>,
    pub join_type: JoinType,
    pub projection: Option<Seq<usize>>,
    pub partition_mode: PartitionMode,
    pub null_equality: NullEquality,
    pub schema: SchemaView,
    pub limit: Option<nat>,
}

/// A number of rows, where there is one.
pub open spec fn rows(n: Option<usize>) -> Option<nat> {
    match n {
        Some(n) => Some(n as nat),
        None => None,
    }
}

/// The node's own limit, or else the one from above.
pub open spec fn nearest(own: Option<nat>, inherited: Option<nat>) -> Option<nat> {
    if own is Some {
        own
    } else {
        inherited
    }
}

impl View for HashJoin {
    type V = HashJoinView;

    open spec fn view(&self) -> HashJoinView {
        HashJoinView {
            on: keys(self.on@),
            filter: self.filter,
            join_type: self.join_type,
            projection: indices(self.projection),
            partition_mode: self.partition_mode,
            null_equality: self.null_equality,
            schema: self.schema@,
            limit: rows(self.limit),
        }
    }
}

impl HashJoin {
    /// The number of rows after which a partition of the join may stop.
    pub fn limit(&self) -> (r: Option<usize>)
        ensures
            r == self.limit,
            rows(r) == self@.limit,
    {
        self.limit
    }
}

/// A node of any other kind. The rules ask it for its row limit alone. Whether it takes the inputs
/// that a rewrite gives it is for the caller to find out, when the node is made of them.
#[derive(Debug)]
pub struct Operator {
    /// By which the caller finds the node again.
    pub handle: usize,
    /// The columns that the node returns.
    pub schema: Schema,
    /// The number of rows after which the node stops, if it has such a limit.
    pub fetch: Option<usize>,
    /// Whether the node can be given a row limit.
    pub accepts_fetch: bool,
}

/// What an [`Operator`] stands for.
#[verifier::ext_equal]
pub struct OperatorView {
    pub handle: usize,
    pub schema: SchemaView,
    pub fetch: Option<nat>,
    pub accepts_fetch: bool,
}

impl View for Operator {
    type V = OperatorView;

    open spec fn view(&self) -> OperatorView {
        OperatorView {
            handle: self.handle,
            schema: self.schema@,
            fetch: rows(self.fetch),
            accepts_fetch: self.accepts_fetch,
        }
    }
}

/// What a node of a plan does.
#[derive(Debug)]
pub enum Node {
    /// Passes on at most `fetch` rows of its one input after the first `skip`.
    GlobalLimit { skip: usize, fetch: Option<usize> },
    /// Passes on at most `fetch` rows of each partition of its one input.
    LocalLimit { fetch: usize },
    /// Merges the partitions of its one input and passes on at most `fetch` rows.
    CoalescePartitions { fetch: Option<usize> },
    /// Joins its left and its right input.
    HashJoin(HashJoin),
    /// Anything else, with any number of inputs.
    Operator(Operator),
}

/// What a [`Node`] stands for.
#[verifier::ext_equal]
pub enum NodeView {
    GlobalLimit { skip: nat, fetch: Option<nat> },
    LocalLimit { fetch: nat },
    CoalescePartitions { fetch: Option<nat> },
    HashJoin(HashJoinView),
    Operator(OperatorView),
}

impl View for Node {
    type V = NodeView;

    open spec fn view(&self) -> NodeView {
        match *self {
            Node::GlobalLimit { skip, fetch } => NodeView::GlobalLimit {
                skip: skip as nat,
                fetch: rows(fetch),
            },
            Node::LocalLimit { fetch } => NodeView::LocalLimit { fetch: fetch as nat },
            Node::CoalescePartitions { fetch } => NodeView::CoalescePartitions {
                fetch: rows(fetch),
            },
            Node::HashJoin(join) => NodeView::HashJoin(join@),
            Node::Operator(operator) => NodeView::Operator(operator@),
        }
    }
}

impl NodeView {
    /// Whether the node is a hash anti-join.
    pub open spec fn is_anti_join(self) -> bool {
        self matches NodeView::HashJoin(join) && join.join_type.anti()
    }

    /// Whether the node is an open anti-join: a hash anti-join that carries no limit yet.
    pub open spec fn is_open_anti_join(self) -> bool {
        self matches NodeView::HashJoin(join) && join.join_type.anti() && join.limit is None
    }

    /// Whether the node is a hash join that carries a limit.
    pub open spec fn carries_limit(self) -> bool {
        self matches NodeView::HashJoin(join) && join.limit is Some
    }

    /// The row limit that the node itself reports: for a global limit the rows that it passes on,
    /// those that it skips not counted.
    pub open spec fn fetch(self) -> Option<nat> {
        match self {
            NodeView::GlobalLimit { skip, fetch } => fetch,
            NodeView::LocalLimit { fetch } => Some(fetch),
            NodeView::CoalescePartitions { fetch } => fetch,
            NodeView::HashJoin(_) => None,
            NodeView::Operator(operator) => operator.fetch,
        }
    }
}

/// A physical plan: a node over the plans that feed it.
#[derive(Debug)]
pub struct Plan {
    pub node: Node,
    /// What DataFusion reports of the node's rows.
    pub statistics: Reported,
    pub children: Vec<Plan>,
}

/// What a [`Plan`] stands for.
#[verifier::ext_equal]
pub struct PlanView {
    pub node: NodeView,
    pub statistics: Reported,
    pub children: Seq<PlanView>,
}

/// What the plan `plan` stands for.
pub open spec fn plan_view(plan: Plan) -> PlanView
    decreases plan,
{
    PlanView {
        node: plan.node@,
        statistics: plan.statistics,
        children: Seq::new(
            plan.children@.len(),
            |i: int|
                if 0 <= i < plan.children@.len() {
                    plan_view(plan.children@[i])
                } else {
                    arbitrary()
                },
        ),
    }
}

impl View for Plan {
    type V = PlanView;

    open spec fn view(&self) -> PlanView {
        plan_view(*self)
    }
}

/// What a list of plans stands for.
pub open spec fn plans(v: Seq<Plan>) -> Seq<PlanView> {
    v.map_values(|p: Plan| p@)
}

impl PlanView {
    /// The columns that the plan returns.
    pub open spec fn schema(self) -> SchemaView
        decreases self,
    {
        match self.node {
            NodeView::HashJoin(join) => join.schema,
            NodeView::Operator(operator) => operator.schema,
            _ => if self.children.len() > 0 {
                self.children[0].schema()
            } else {
                SchemaView { fields: seq![], metadata: Map::empty() }
            },
        }
    }

    /// The hash join with the limit `limit` in place of its own; any other node as it is.
    pub open spec fn with_limit(self, limit: Option<nat>) -> PlanView {
        match self.node {
            NodeView::HashJoin(join) => PlanView {
                node: NodeView::HashJoin(HashJoinView { limit, ..join }),
                ..self
            },
            _ => self,
        }
    }

    /// Whether the node can be given a row limit.
    pub open spec fn accepts_fetch(self) -> bool {
        match self.node {
            NodeView::CoalescePartitions { .. } => true,
            NodeView::Operator(operator) => operator.accepts_fetch,
            _ => false,
        }
    }

    /// The node with the row limit `fetch` in place of its own, where it can be given one. What
    /// DataFusion reports of its rows is then to be asked again.
    pub open spec fn with_fetch(self, fetch: nat) -> PlanView {
        PlanView {
            node: match self.node {
                NodeView::CoalescePartitions { .. } => NodeView::CoalescePartitions {
                    fetch: Some(fetch),
                },
                NodeView::Operator(operator) => NodeView::Operator(
                    OperatorView { fetch: Some(fetch), ..operator },
                ),
                node => node,
            },
            statistics: Reported::Unread,
            ..self
        }
    }

    /// Whether the node has as many inputs as it needs, and a limit only on an anti-join.
    pub open spec fn fits_children(self) -> bool {
        match self.node {
            NodeView::HashJoin(join) => self.children.len() == 2 && (join.limit is Some
                ==> join.join_type.anti()),
            NodeView::Operator(_) => true,
            _ => self.children.len() == 1,
        }
    }

    /// Whether the node can be put over the inputs `children`, as many as it has: a hash join only
    /// where it could be made of them.
    pub open spec fn accepts_children(self, children: Seq<PlanView>) -> bool {
        self.node matches NodeView::HashJoin(join) ==> valid_join(
            children[0].schema().fields,
            children[1].schema().fields,
            join.on,
            join.join_type,
            join.projection,
        )
    }

    /// The node over the inputs `children`. A hash join has the schema that comes out of them.
    pub open spec fn with_children(self, children: Seq<PlanView>) -> PlanView {
        PlanView {
            node: match self.node {
                NodeView::HashJoin(join) => NodeView::HashJoin(
                    HashJoinView {
                        schema: hash_join_schema(
                            children[0].schema(),
                            children[1].schema(),
                            join.join_type,
                            join.projection,
                        ),
                        ..join
                    },
                ),
                node => node,
            },
            children,
            ..self
        }
    }

    /// Whether the node has the inputs that it needs. A hash join could be made of its inputs,
    /// it has the schema that then comes out, and only an anti-join has a limit.
    pub open spec fn node_wf(self) -> bool {
        &&& self.fits_children()
        &&& self.accepts_children(self.children)
        &&& self.node matches NodeView::HashJoin(join) ==> join.schema == hash_join_schema(
            self.children[0].schema(),
            self.children[1].schema(),
            join.join_type,
            join.projection,
        )
    }

    /// Whether `path`, the places of the inputs to go down to, leads to a node of the plan.
    pub open spec fn has_path(self, path: Seq<int>) -> bool
        decreases path.len(),
    {
        path.len() > 0 ==> 0 <= path[0] < self.children.len() && self.children[path[0]].has_path(
            path.drop_first(),
        )
    }

    /// The plan that `path` leads to.
    pub open spec fn at(self, path: Seq<int>) -> PlanView
        decreases path.len(),
    {
        if path.len() > 0 {
            self.children[path[0]].at(path.drop_first())
        } else {
            self
        }
    }

    /// Whether no node of the plan is an open anti-join.
    pub open spec fn free_of_open_anti_joins(self) -> bool
        decreases self,
    {
        &&& !self.node.is_open_anti_join()
        &&& forall|i: int|
            0 <= i < self.children.len() ==> (
            #[trigger] self.children[i]).free_of_open_anti_joins()
    }

    /// Whether every node of the plan has the inputs that it needs.
    pub open spec fn wf(self) -> bool
        decreases self,
    {
        &&& self.node_wf()
        &&& forall|i: int| 0 <= i < self.children.len() ==> (#[trigger] self.children[i]).wf()
    }
}

/// The children of what a plan stands for are what its children stand for.
pub proof fn lemma_children(plan: Plan)
    ensures
        plan@.node == plan.node@,
        plan@.statistics == plan.statistics,
        plan@.children == plans(plan.children@),
{
    assert(plan@.children =~= plans(plan.children@));
}

/// A node can be put over inputs that have the same schemas as its own, and nothing else of it
/// changes.
pub proof fn lemma_same_schema(plan: PlanView, children: Seq<PlanView>)
    requires
        plan.wf(),
        children.len() == plan.children.len(),
        forall|i: int|
            0 <= i < children.len() ==> (#[trigger] children[i]).schema()
                == plan.children[i].schema(),
        forall|i: int| 0 <= i < children.len() ==> (#[trigger] children[i]).wf(),
    ensures
        plan.accepts_children(children),
        plan.with_children(children) == (PlanView { children, ..plan }),
        plan.with_children(children).wf(),
        plan.with_children(children).schema() == plan.schema(),
{
    if plan.node is HashJoin {
        assert(children[0].schema() == plan.children[0].schema());
        assert(children[1].schema() == plan.children[1].schema());
    }
}

impl Plan {
    /// A limit on the whole of `input`: at most `fetch` rows after the first `skip`.
    pub fn global_limit(input: Plan, skip: usize, fetch: Option<usize>) -> (r: Plan)
        ensures
            r@ == (PlanView {
                node: NodeView::GlobalLimit { skip: skip as nat, fetch: rows(fetch) },
                statistics: Reported::Unread,
                children: seq![input@],
            }),
            input@.wf() ==> r@.wf(),
    {
        Plan::over(Node::GlobalLimit { skip, fetch }, input)
    }

    /// A limit on each partition of `input`: at most `fetch` rows.
    pub fn local_limit(input: Plan, fetch: usize) -> (r: Plan)
        ensures
            r@ == (PlanView {
                node: NodeView::LocalLimit { fetch: fetch as nat },
                statistics: Reported::Unread,
                children: seq![input@],
            }),
            input@.wf() ==> r@.wf(),
    {
        Plan::over(Node::LocalLimit { fetch }, input)
    }

    /// The merged partitions of `input`, cut off after `fetch` rows.
    pub fn coalesce_partitions(input: Plan, fetch: Option<usize>) -> (r: Plan)
        ensures
            r@ == (PlanView {
                node: NodeView::CoalescePartitions { fetch: rows(fetch) },
                statistics: Reported::Unread,
                children: seq![input@],
            }),
            input@.wf() ==> r@.wf(),
    {
        Plan::over(Node::CoalescePartitions { fetch }, input)
    }

    /// The node `node` over the one input `input`.
    fn over(node: Node, input: Plan) -> (r: Plan)
        ensures
            r@ == (PlanView {
                node: node@,
                statistics: Reported::Unread,
                children: seq![input@],
            }),
    {
        let mut children: Vec<Plan> = Vec::new();
        children.push(input);
        let r = Plan { node, statistics: Reported::Unread, children };
        proof {
            lemma_children(r);
            assert(r@.children =~= seq![input@]);
        }
        r
    }

    /// A node of any other kind over the inputs `children`.
    pub fn operator(operator: Operator, children: Vec<Plan>) -> (r: Plan)
        ensures
            r@ == (PlanView {
                node: NodeView::Operator(operator@),
                statistics: Reported::Unread,
                children: plans(children@),
            }),
            (forall|i: int| 0 <= i < children@.len() ==> (#[trigger] children@[i])@.wf())
                ==> r@.wf(),
    {
        let r = Plan {
            node: Node::Operator(operator),
            statistics: Reported::Unread,
            children,
        };
        proof {
            lemma_children(r);
        }
        r
    }

    /// The hash join of `left` and `right`, without a limit. DataFusion decides whether it can be
    /// made and what schema it has.
    pub fn hash_join(
        left: Plan,
        right: Plan,
        on: Vec<(Key, Key)>,
        filter: Option<JoinFilter>,
        join_type: JoinType,
        projection: Option<Vec<usize>>,
        partition_mode: PartitionMode,
        null_equality: NullEquality,
    ) -> (r: Result<Plan, PlanError>)
        requires
            left@.wf(),
            right@.wf(),
        ensures
            r is Ok <==> valid_join(
                left@.schema().fields,
                right@.schema().fields,
                keys(on@),
                join_type,
                indices(projection),
            ),
            r matches Ok(plan) ==> plan@.wf() && plan@ == (PlanView {
                node: NodeView::HashJoin(
                    HashJoinView {
                        on: keys(on@),
                        filter,
                        join_type,
                        projection: indices(projection),
                        partition_mode,
                        null_equality,
                        schema: hash_join_schema(
                            left@.schema(),
                            right@.schema(),
                            join_type,
                            indices(projection),
                        ),
                        limit: None,
                    },
                ),
                statistics: Reported::Unread,
                children: seq![left@, right@],
            }),
            r matches Err(e) ==> e is DataFusion,
    {
        let picked = match &projection {
            Some(p) => Some(p.clone()),
            None => None,
        };
        assert(indices(picked) == indices(projection));
        if let Some(e) = check_hash_join(
            left.schema(),
            right.schema(),
            &on,
            join_type,
            picked,
            partition_mode,
            null_equality,
        ) {
            return Err(PlanError::DataFusion(e));
        }
        let joined = join_schema(left.schema(), right.schema(), join_type);
        let schema = project(joined, &projection);
        let mut children: Vec<Plan> = Vec::new();
        children.push(left);
        children.push(right);
        let plan = Plan {
            node: Node::HashJoin(
                HashJoin {
                    on,
                    filter,
                    join_type,
                    projection,
                    partition_mode,
                    null_equality,
                    schema,
                    limit: None,
                },
            ),
            statistics: Reported::Unread,
            children,
        };
        proof {
            lemma_children(plan);
            assert(plan@.children =~= seq![left@, right@]);
        }
        Ok(plan)
    }

    /// The node over the inputs `children`. A hash join keeps its limit.
    pub fn with_new_children(self, children: Vec<Plan>) -> (r: Result<Plan, PlanError>)
        requires
            self@.wf(),
            children@.len() == self@.children.len(),
            forall|i: int| 0 <= i < children@.len() ==> (#[trigger] children@[i])@.wf(),
        ensures
            r is Ok <==> self@.accepts_children(plans(children@)),
            r matches Ok(plan) ==> plan@.wf() && plan@ == (PlanView {
                statistics: Reported::Unread,
                ..self@.with_children(plans(children@))
            }),
            r matches Err(e) ==> e is DataFusion,
    {
        proof {
            lemma_children(self);
        }
        Plan::rebuild(self.node, Reported::Unread, children)
    }

    /// The node `node` over the inputs `children`, of whose rows DataFusion reports `statistics`.
    pub(crate) fn rebuild(node: Node, statistics: Reported, children: Vec<Plan>) -> (r: Result<
        Plan,
        PlanError,
    >)
        requires
            (PlanView { node: node@, statistics, children: plans(children@) }).fits_children(),
            forall|i: int| 0 <= i < children@.len() ==> (#[trigger] children@[i])@.wf(),
        ensures
            ({
                let given = PlanView { node: node@, statistics, children: plans(children@) };
                &&& r is Ok <==> given.accepts_children(given.children)
                &&& r matches Ok(plan) ==> plan@ == given.with_children(given.children)
                    && plan@.wf()
                &&& r matches Err(e) ==> e is DataFusion
            }),
    {
        match node {
            Node::HashJoin(join) => {
                let ghost given = plans(children@);
                let mut children = children;
                let right = children.pop().unwrap();
                let left = children.pop().unwrap();
                assert(given =~= seq![left@, right@]);
                assert(left@.wf() && right@.wf());
                let limit = join.limit;
                let plan = Plan::hash_join(
                    left,
                    right,
                    join.on,
                    join.filter,
                    join.join_type,
                    join.projection,
                    join.partition_mode,
                    join.null_equality,
                )?;
                Ok(plan.with_limit(limit).with_statistics(statistics))
            },
            node => {
                let plan = Plan { node, statistics, children };
                proof {
                    lemma_children(plan);
                }
                Ok(plan)
            },
        }
    }

    /// The hash join with the limit `limit` in place of its own; any other node as it is.
    pub(crate) fn with_limit(self, limit: Option<usize>) -> (r: Plan)
        requires
            self@.wf(),
            limit is Some ==> self@.node.is_anti_join(),
        ensures
            r@ == self@.with_limit(rows(limit)),
            r@.wf(),
    {
        proof {
            lemma_children(self);
        }
        let Plan { node, statistics, children } = self;
        let node = match node {
            Node::HashJoin(join) => Node::HashJoin(HashJoin { limit, ..join }),
            node => node,
        };
        let r = Plan { node, statistics, children };
        proof {
            lemma_children(r);
        }
        r
    }

    /// The row limit that the node at the top reports.
    pub fn fetch(&self) -> (r: Option<usize>)
        ensures
            rows(r) == self@.node.fetch(),
            self.node matches Node::GlobalLimit { fetch, .. } ==> r == fetch,
            self.node matches Node::LocalLimit { fetch } ==> r == Some(fetch),
            self.node matches Node::CoalescePartitions { fetch } ==> r == fetch,
            self.node matches Node::Operator(operator) ==> r == operator.fetch,
            self.node is HashJoin ==> r is None,
    {
        match &self.node {
            Node::GlobalLimit { fetch, .. } => *fetch,
            Node::LocalLimit { fetch } => Some(*fetch),
            Node::CoalescePartitions { fetch } => *fetch,
            Node::HashJoin(_) => None,
            Node::Operator(operator) => operator.fetch,
        }
    }

    /// The plan with the row limit `fetch` on the node at its top, in place of the one that it has;
    /// the plan itself, as an error,
    /// where that node cannot be given one.
    pub fn with_fetch(self, fetch: usize) -> (r: Result<Plan, Plan>)
        ensures
            r is Ok <==> self@.accepts_fetch(),
            r matches Ok(plan) ==> plan@ == self@.with_fetch(fetch as nat),
            r matches Err(plan) ==> plan == self,
    {
        proof {
            lemma_children(self);
        }
        let Plan { node, statistics, children } = self;
        let node = match node {
            Node::CoalescePartitions { .. } => Node::CoalescePartitions { fetch: Some(fetch) },
            Node::Operator(operator) => {
                if !operator.accepts_fetch {
                    return Err(Plan { node: Node::Operator(operator), statistics, children });
                }
                Node::Operator(Operator { fetch: Some(fetch), ..operator })
            },
            node => {
                return Err(Plan { node, statistics, children });
            },
        };
        let plan = Plan { node, statistics: Reported::Unread, children };
        proof {
            lemma_children(plan);
        }
        Ok(plan)
    }

    /// The plan with `statistics` as what DataFusion reports of its rows.
    pub fn with_statistics(self, statistics: Reported) -> (r: Plan)
        ensures
            r@ == (PlanView { statistics, ..self@ }),
            r@.wf() == self@.wf(),
    {
        let r = Plan { node: self.node, statistics, children: self.children };
        proof {
            lemma_children(self);
            lemma_children(r);
        }
        r
    }

    /// The columns that the plan returns.
    pub fn schema(&self) -> (r: &Schema)
        requires
            self@.wf(),
        ensures
            r@ == self@.schema(),
        decreases self,
    {
        proof {
            lemma_children(*self);
        }
        match &self.node {
            Node::HashJoin(join) => &join.schema,
            Node::Operator(operator) => &operator.schema,
            _ => {
                assert(self@.children[0].wf());
                self.children[0].schema()
            },
        }
    }
}

} // verus!
