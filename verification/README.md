# anti_join_limit

Two optimizer rules for physical query plans that push row limits into hash anti-joins, verified
with Verus.

- `src/` is the verified library. `plan.rs` and `join.rs` hold the plan and its invariant,
  `limit_push_down_anti_join.rs` and `push_limit_into_anti_join.rs` the rules and their laws,
  `hash_join_limit_pushdown.rs` the anti-join with a limit, `rows.rs` what the rewrites do to the
  rows that come out, and `outside.rs` what is taken from DataFusion on trust.
- `app/` runs the rules on DataFusion's own plans: it reads a plan into the library's, has a rule
  rewrite it, and makes DataFusion's plan of the result.
- `tests/` run the library together with DataFusion.

The probe side of an anti-join is cut off after the rows that are needed and as many more as the
build side is taken to have. The rows that come out stay the same where the build side has no more
rows than that, no key of it is the key of two rows of the probe side, and the probe side has no
row limit of its own that is replaced: one that can be given a row limit loses the one that it
had, also where that was the smaller. `rows.rs` states exactly when the rows stay the same, for a
probe side that is cut off and for one whose limit is raised.

A join key is any expression over the columns of an input; the library knows it by a handle and
by the columns that it reads. What DataFusion reports of the rows of a build side is read with the
plan. Of a node that a rewrite makes anew it is to be asked again.

A join that carries a limit already is passed by: both rules leave it the limit that it carries
and go on below it.
