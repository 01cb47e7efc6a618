//! A hash anti-join that may stop early.

use crate::display::{decimal, decimal_text, DisplayFormatType};
use crate::error::PlanError;
use crate::join::Schema;
use crate::plan::{lemma_children, lemma_same_schema, plans, Node, Plan, PlanView, Reported};
use vstd::prelude::*;

verus! {

/// A hash anti-join and the number of rows after which each of its partitions may stop.
#[derive(Debug)]
pub struct HashJoinLimitPushdownExec {
    /// The hash join.
    inner: Plan,
    /// The limit of each partition.
    limit: usize,
}

/// What a [`HashJoinLimitPushdownExec`] stands for.
#[verifier::ext_equal]
pub struct LimitedJoinView {
    pub inner: PlanView,
    pub limit: nat,
}

impl View for HashJoinLimitPushdownExec {
    type V = LimitedJoinView;

    closed spec fn view(&self) -> LimitedJoinView {
        LimitedJoinView { inner: self.inner@, limit: self.limit as nat }
    }
}

/// How a limited join prints its limit around `inner`, the text of the hash join.
pub open spec fn limited_text(t: DisplayFormatType, limit: nat, inner: Seq<char>) -> Seq<char> {
    match t {
        DisplayFormatType::Default | DisplayFormatType::Verbose => {
            "HashJoinLimitPushdownExec: limit="@ + decimal(limit) + ", inner=["@ + inner + "]"@
        },
        DisplayFormatType::TreeRender => {
            "HashJoinLimitPushdownExec\n"@ + "limit="@ + decimal(limit) + "\n"@ + inner
        },
    }
}

/// Prints the limit `limit` around `inner`, the text of the hash join.
pub fn fmt_limited_join(t: DisplayFormatType, limit: usize, inner: &str) -> (r: String)
    ensures
        r@ == limited_text(t, limit as nat, inner@),
{
    match t {
        DisplayFormatType::Default | DisplayFormatType::Verbose => {
            let mut f = "HashJoinLimitPushdownExec: limit=".to_owned();
            f.append(decimal_text(limit).as_str());
            f.append(", inner=[");
            f.append(inner);
            f.append("]");
            f
        },
        DisplayFormatType::TreeRender => {
            let mut f = "HashJoinLimitPushdownExec\n".to_owned();
            f.append("limit=");
            f.append(decimal_text(limit).as_str());
            f.append("\n");
            f.append(inner);
            f
        },
    }
}

impl HashJoinLimitPushdownExec {
    /// The join is an anti-join over the inputs that it needs, and carries no other limit.
    #[verifier::type_invariant]
    spec fn inv(self) -> bool {
        self.inner@.wf() && self.inner@.node.is_open_anti_join()
    }

    /// The anti-join `inner`, to stop after `limit` rows.
    pub fn new(inner: Plan, limit: usize) -> (r: Self)
        requires
            inner@.wf(),
            inner@.node.is_open_anti_join(),
        ensures
            r@ == (LimitedJoinView { inner: inner@, limit: limit as nat }),
    {
        HashJoinLimitPushdownExec { inner, limit }
    }

    /// The limit of each partition.
    pub fn limit(&self) -> (r: usize)
        ensures
            r == self@.limit,
    {
        self.limit
    }

    /// The hash join.
    pub fn inner(&self) -> (r: &Plan)
        ensures
            r@ == self@.inner,
            r@.wf(),
            r@.node.is_open_anti_join(),
    {
        proof {
            use_type_invariant(self);
        }
        &self.inner
    }

    /// How the node shows itself in a printed plan. `inner` is the text of the hash join, printed
    /// in the same way.
    pub fn fmt_as(&self, t: DisplayFormatType, inner: &str) -> (r: String)
        ensures
            r@ == limited_text(t, self@.limit, inner@),
    {
        fmt_limited_join(t, self.limit, inner)
    }

    /// The name of the node.
    pub fn name(&self) -> (r: &'static str)
        ensures
            r@ == "HashJoinLimitPushdownExec"@,
    {
        "HashJoinLimitPushdownExec"
    }

    /// The columns that the node returns: those of the hash join.
    pub fn schema(&self) -> (r: &Schema)
        ensures
            r@ == self@.inner.schema(),
    {
        proof {
            use_type_invariant(self);
        }
        self.inner.schema()
    }

    /// The inputs of the hash join.
    pub fn children(&self) -> (r: &Vec<Plan>)
        ensures
            plans(r@) == self@.inner.children,
    {
        proof {
            lemma_children(self.inner);
        }
        &self.inner.children
    }

    /// The node over the inputs `children`, with the same limit. There have to be two, and
    /// DataFusion has to accept the hash join that is made anew of them.
    pub fn with_new_children(self, children: Vec<Plan>) -> (r: Result<Self, PlanError>)
        requires
            forall|i: int| 0 <= i < children@.len() ==> (#[trigger] children@[i])@.wf(),
        ensures
            children@.len() != 2 ==> (r matches Err(PlanError::Internal(message)) && message@
                == "HashJoinExec requires exactly 2 children"@),
            children@.len() == 2 ==> {
                &&& r is Ok <==> self@.inner.accepts_children(plans(children@))
                &&& r matches Ok(new) ==> new@ == (LimitedJoinView {
                    inner: PlanView {
                        statistics: Reported::Unread,
                        ..self@.inner.with_children(plans(children@))
                    },
                    limit: self@.limit,
                })
                &&& r matches Err(e) ==> e is DataFusion
            },
    {
        if children.len() != 2 {
            return Err(
                PlanError::Internal("HashJoinExec requires exactly 2 children".to_owned()),
            );
        }
        proof {
            use_type_invariant(&self);
            lemma_children(self.inner);
        }
        let limit = self.limit;
        let ghost given = plans(children@);
        let mut children = children;
        let right = children.pop().unwrap();
        let left = children.pop().unwrap();
        assert(given =~= seq![left@, right@]);
        assert(left@.wf() && right@.wf());
        match self.inner.node {
            Node::HashJoin(inner) => {
                let new_hash_join = Plan::hash_join(
                    left,
                    right,
                    inner.on,
                    inner.filter,
                    inner.join_type,
                    inner.projection,
                    inner.partition_mode,
                    inner.null_equality,
                )?;
                Ok(HashJoinLimitPushdownExec::new(new_hash_join, limit))
            },
            // The inner plan is a hash join.
            _ => Err(PlanError::Internal("HashJoinExec requires exactly 2 children".to_owned())),
        }
    }

    /// The hash join itself, with the limit written into it.
    pub fn into_plan(self) -> (r: Plan)
        ensures
            r@ == self@.inner.with_limit(Some(self@.limit)),
            r@.wf(),
    {
        proof {
            use_type_invariant(&self);
        }
        self.inner.with_limit(Some(self.limit))
    }
}

/// A limited join can be put over its own inputs, and that changes nothing of its hash join.
pub proof fn lemma_own_children(exec: LimitedJoinView)
    requires
        exec.inner.wf(),
        exec.inner.node.is_open_anti_join(),
    ensures
        exec.inner.accepts_children(exec.inner.children),
        exec.inner.with_children(exec.inner.children) == exec.inner,
{
    lemma_same_schema(exec.inner, exec.inner.children);
}

} // verus!
