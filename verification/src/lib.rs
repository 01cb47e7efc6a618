//! Pushing row limits into hash anti-joins of a physical query plan.
//!
//! A query that wants only so many rows of an anti-join need not run it to its end. Two rules
//! rewrite a [`plan::Plan`] to that effect. [`limit_push_down_anti_join`] writes the limit into the
//! join, which may then stop early; [`push_limit_into_anti_join`] cuts off the input whose rows
//! the join returns. Each rule is proved to give exactly the plan that its spec function says, to
//! keep the schema of the plan, and never to fail on a plan whose joins could be made.
//! [`rows`] says what the rewrites do to the rows that come out, and [`laws`] what becomes of every
//! field of a plan.
//!
//! DataFusion decides whether a hash join can be made and what schema it has; what is taken
//! from it on trust stands in [`outside`].

pub mod display;
pub mod error;
pub mod hash_join_limit_pushdown;
pub mod join;
pub mod laws;
pub mod limit_push_down_anti_join;
pub mod outside;
pub mod plan;
pub mod push_limit_into_anti_join;
pub mod rows;
pub mod transformed;
