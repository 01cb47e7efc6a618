use anti_join_limit::error::PlanError;
use anti_join_limit::hash_join_limit_pushdown::HashJoinLimitPushdownExec;
use anti_join_limit::join::{Column, Field, JoinType, Key, Schema};
use anti_join_limit::plan::{HashJoin, Node, Operator, Plan, Precision, Reported, Statistics};
use anti_join_limit::push_limit_into_anti_join::{
    optimize_anti_join, optimize_with_limit, PushLimitIntoAntiJoin,
};
use arrow::datatypes::DataType;
use datafusion_common::config::ConfigOptions;
use datafusion_common::NullEquality;
use datafusion_physical_plan::joins::PartitionMode;
use std::collections::HashMap;

fn source(handle: usize, columns: Vec<&str>, num_rows: Precision, accepts_fetch: bool) -> Plan {
    let operator = Operator {
        handle,
        schema: Schema::new(fields(columns)),
        fetch: None,
        accepts_fetch,
    };
    Plan::operator(operator, vec![]).with_statistics(known(num_rows))
}

/// Columns of text where they are named `data`, and of numbers where they are not.
fn fields(names: Vec<&str>) -> Vec<Field> {
    let data_type = |name| if name == "data" { DataType::Utf8 } else { DataType::Int32 };
    names.into_iter().map(|name| Field::new(name, data_type(name), false)).collect()
}

fn known(num_rows: Precision) -> Reported {
    Reported::Known(Statistics { num_rows })
}

fn key(name: &str, index: usize) -> Key {
    Key { handle: 0, columns: vec![Column::new(name, index)] }
}

/// Five rows of ids and data, and two rows of ids.
fn create_test_data() -> (Plan, Plan) {
    (
        source(0, vec!["id", "data"], Precision::Exact(5), false),
        source(1, vec!["id"], Precision::Exact(2), false),
    )
}

fn join_of(left: Plan, right: Plan, join_type: JoinType) -> Result<Plan, PlanError> {
    Plan::hash_join(
        left,
        right,
        vec![(key("id", 0), key("id", 0))],
        None,
        join_type,
        None,
        PartitionMode::Partitioned,
        NullEquality::NullEqualsNull,
    )
}

fn hash_join(plan: &Plan) -> Option<&HashJoin> {
    match &plan.node {
        Node::HashJoin(join) => Some(join),
        _ => None,
    }
}

fn local_limit(plan: &Plan) -> Option<usize> {
    match plan.node {
        Node::LocalLimit { fetch } => Some(fetch),
        _ => None,
    }
}

fn handle(plan: &Plan) -> usize {
    match &plan.node {
        Node::Operator(operator) => operator.handle,
        _ => panic!("not an operator"),
    }
}

fn optimize(plan: Plan) -> Plan {
    let optimizer = PushLimitIntoAntiJoin::new();
    assert!(optimizer.accepts(&plan));
    optimizer.optimize(plan, &ConfigOptions::default()).unwrap()
}

#[test]
fn test_with_skip_and_fetch() -> Result<(), PlanError> {
    let (left, right) = create_test_data();

    // Create LeftAnti join
    let anti_join = join_of(left, right, JoinType::LeftAnti)?;

    // Add limit with skip
    let limit = Plan::global_limit(anti_join, 10, Some(90));

    // Apply optimization
    let optimizer = PushLimitIntoAntiJoin::new();
    let optimized = optimizer.optimize(limit, &ConfigOptions::default())?;

    // Verify the optimization happened
    assert!(matches!(optimized.node, Node::GlobalLimit { .. }));
    let join_node = &optimized.children[0];
    assert!(hash_join(join_node).is_some());

    // Limit should be (skip + fetch) + build_rows = (10 + 90) + 2 = 102
    assert_eq!(local_limit(&join_node.children[0]).unwrap(), 102);

    Ok(())
}

#[test]
fn test_push_limit_into_left_anti_join() -> Result<(), PlanError> {
    let (left, right) = create_test_data();

    // Create LeftAnti join
    let anti_join = join_of(left, right, JoinType::LeftAnti)?;

    // Add limit on top
    let limit = Plan::global_limit(anti_join, 0, Some(2));

    // Apply optimization
    let optimizer = PushLimitIntoAntiJoin::new();
    let optimized = optimizer.optimize(limit, &ConfigOptions::default())?;

    // Verify structure
    assert!(matches!(optimized.node, Node::GlobalLimit { .. }));
    assert_eq!(optimized.fetch(), Some(2));

    let join_node = &optimized.children[0];
    assert!(hash_join(join_node).is_some());

    // Check that LocalLimit was added to the probe side (left for LeftAnti)
    let local_limit =
        local_limit(&join_node.children[0]).expect("Expected LocalLimitExec on probe side");

    // Verify the limit value (2 + 2 build rows = 4)
    assert_eq!(local_limit, 4);

    Ok(())
}

#[test]
fn right_anti_join_is_cut_off_on_the_right() {
    let (left, right) = create_test_data();
    let join = join_of(left, right, JoinType::RightAnti).unwrap();
    let optimized = optimize(Plan::local_limit(join, 7));
    let join = &optimized.children[0];
    // The build side has 5 rows.
    assert_eq!(local_limit(&join.children[1]), Some(12));
    assert_eq!(handle(&join.children[1].children[0]), 1);
    assert_eq!(handle(&join.children[0]), 0);
}

#[test]
fn unknown_build_side_counts_as_a_thousand_rows() {
    let left = source(0, vec!["id"], Precision::Exact(5), false);
    let right = source(1, vec!["id"], Precision::Absent, false);
    let join = join_of(left, right, JoinType::LeftAnti).unwrap();
    let optimized = optimize(Plan::global_limit(join, 0, Some(1)));
    assert_eq!(local_limit(&optimized.children[0].children[0]), Some(1001));
}

#[test]
fn estimated_build_side_counts_as_known() {
    let left = source(0, vec!["id"], Precision::Exact(5), false);
    let right = source(1, vec!["id"], Precision::Inexact(30), false);
    let join = join_of(left, right, JoinType::LeftAnti).unwrap();
    let optimized = optimize(Plan::global_limit(join, 0, Some(1)));
    assert_eq!(local_limit(&optimized.children[0].children[0]), Some(31));
}

#[test]
fn probe_side_that_takes_a_limit_is_given_it() {
    let left = source(4, vec!["id"], Precision::Exact(5), true);
    let right = source(1, vec!["id"], Precision::Exact(2), true);
    let join = join_of(left, right, JoinType::LeftAnti).unwrap();
    let optimized = optimize(Plan::global_limit(join, 0, Some(3)));
    let join = &optimized.children[0];
    assert_eq!(handle(&join.children[0]), 4);
    assert_eq!(join.children[0].fetch(), Some(5));
    assert_eq!(join.children[1].fetch(), None);
}

#[test]
fn coalesced_probe_side_is_given_the_limit() {
    let (left, right) = create_test_data();
    let left = Plan::coalesce_partitions(left, None);
    let join = join_of(left, right, JoinType::LeftAnti).unwrap();
    let optimized = optimize(Plan::global_limit(join, 0, Some(3)));
    let probe = &optimized.children[0].children[0];
    assert!(matches!(probe.node, Node::CoalescePartitions { fetch: Some(5) }));
}

#[test]
fn limit_of_any_operator_reaches_the_join() {
    let (left, right) = create_test_data();
    let join = join_of(left, right, JoinType::LeftAnti).unwrap();
    let operator = Operator {
        handle: 9,
        schema: Schema::new(fields(vec!["id", "data"])),
        fetch: Some(40),
        accepts_fetch: true,
    };
    let optimized = optimize(Plan::operator(operator, vec![join]));
    assert_eq!(local_limit(&optimized.children[0].children[0]), Some(42));
}

#[test]
fn nothing_changes_without_limit_or_anti_join() {
    let anti = || {
        let (left, right) = create_test_data();
        join_of(left, right, JoinType::LeftAnti).unwrap()
    };
    let semi = || {
        let (left, right) = create_test_data();
        Plan::global_limit(join_of(left, right, JoinType::LeftSemi).unwrap(), 1, Some(2))
    };
    assert_eq!(format!("{:?}", optimize(anti())), format!("{:?}", anti()));
    assert_eq!(format!("{:?}", optimize(semi())), format!("{:?}", semi()));
}

#[test]
fn nothing_below_a_limited_anti_join_is_touched() {
    let (left, right) = create_test_data();
    let lower = join_of(left, right, JoinType::LeftAnti).unwrap();
    let upper =
        join_of(lower, source(2, vec!["id"], Precision::Exact(1), false), JoinType::LeftAnti)
            .unwrap();
    let optimized = optimize(Plan::global_limit(upper, 0, Some(3)));
    let probe = &optimized.children[0].children[0];
    assert_eq!(local_limit(probe), Some(4));
    let lower = &probe.children[0];
    assert!(hash_join(lower).is_some());
    assert_eq!(handle(&lower.children[0]), 0);
}

#[test]
fn schema_stays_the_same() {
    let map = |key: &str, value: &str| HashMap::from([(key.to_string(), value.to_string())]);
    let id = Field { metadata: map("unit", "m"), ..Field::new("id", DataType::Int32, false) };
    let data = Field::new("data", DataType::Utf8, true);
    let operator = Operator {
        handle: 0,
        schema: Schema { fields: vec![id, data], metadata: map("owner", "me") },
        fetch: None,
        accepts_fetch: false,
    };
    let (_, right) = create_test_data();
    let join = join_of(Plan::operator(operator, vec![]), right, JoinType::LeftAnti).unwrap();
    let optimized = optimize(Plan::global_limit(join, 0, Some(3)));
    let schema = optimized.schema();
    assert_eq!(schema.metadata, map("owner", "me"));
    let columns = &schema.fields;
    assert_eq!(columns.len(), 2);
    assert_eq!(columns[0].name, "id");
    assert_eq!(columns[0].data_type, DataType::Int32);
    assert!(!columns[0].nullable);
    assert_eq!(columns[0].metadata, map("unit", "m"));
    assert_eq!(columns[1].name, "data");
    assert_eq!(columns[1].data_type, DataType::Utf8);
    assert!(columns[1].nullable);
    assert!(columns[1].metadata.is_empty());
}

#[test]
fn join_that_carries_a_limit_is_not_cut_off() {
    let (left, right) = create_test_data();
    let join = join_of(left, right, JoinType::LeftAnti).unwrap();
    let join = HashJoinLimitPushdownExec::new(join, 5).into_plan();
    let optimized = optimize(Plan::global_limit(join, 0, Some(9)));
    let join = &optimized.children[0];
    assert_eq!(hash_join(join).unwrap().limit(), Some(5));
    assert_eq!(handle(&join.children[0]), 0);
    assert_eq!(handle(&join.children[1]), 1);
}

#[test]
fn rows_needed_go_on_below_a_join_that_carries_a_limit() {
    let (left, right) = create_test_data();
    let lower = join_of(left, right, JoinType::LeftAnti).unwrap();
    let other = source(2, vec!["id"], Precision::Exact(1), false);
    let upper = join_of(lower, other, JoinType::LeftAnti).unwrap();
    let upper = HashJoinLimitPushdownExec::new(upper, 5).into_plan();
    let optimized = optimize(Plan::global_limit(upper, 0, Some(9)));
    let upper = &optimized.children[0];
    assert_eq!(hash_join(upper).unwrap().limit(), Some(5));
    assert_eq!(local_limit(&upper.children[0].children[0]), Some(11));
}

#[test]
fn probe_side_that_carries_a_limit_is_cut_off_as_it_is() {
    let (left, right) = create_test_data();
    let probe = join_of(left, right, JoinType::LeftAnti).unwrap();
    let probe = HashJoinLimitPushdownExec::new(probe, 5).into_plan();
    let build = source(2, vec!["id"], Precision::Exact(1), false);
    let join = join_of(probe, build, JoinType::LeftAnti).unwrap();
    let optimized = optimize(Plan::global_limit(join, 0, Some(9)));
    let cut = &optimized.children[0].children[0];
    assert_eq!(local_limit(cut), Some(10));
    assert_eq!(hash_join(&cut.children[0]).unwrap().limit(), Some(5));
}

#[test]
fn rows_of_what_is_made_anew_are_to_be_asked_again() {
    let (left, right) = create_test_data();
    let join = join_of(left, right, JoinType::LeftAnti)
        .unwrap()
        .with_statistics(known(Precision::Inexact(5)));
    let (other, _) = create_test_data();
    let both = join_of(Plan::local_limit(join, 3), other, JoinType::Inner)
        .unwrap()
        .with_statistics(known(Precision::Inexact(4)));
    let out = optimize(both);
    assert_eq!(out.statistics, Reported::Unread);
    assert_eq!(out.children[0].statistics, Reported::Unread);
    assert_eq!(out.children[1].statistics, known(Precision::Exact(5)));
    let join = &out.children[0].children[0];
    assert_eq!(join.statistics, Reported::Unread);
    assert_eq!(join.children[0].statistics, Reported::Unread);
    assert_eq!(join.children[0].children[0].statistics, known(Precision::Exact(5)));
    assert_eq!(join.children[1].statistics, known(Precision::Exact(2)));
}

#[test]
fn own_limit_of_the_probe_side_is_replaced() {
    let (left, right) = create_test_data();
    let left = Plan::coalesce_partitions(left, Some(1));
    let join = join_of(left, right, JoinType::LeftAnti).unwrap();
    let optimized = optimize(Plan::global_limit(join, 0, Some(3)));
    let probe = &optimized.children[0].children[0];
    assert!(matches!(probe.node, Node::CoalescePartitions { fetch: Some(5) }));
    assert_eq!(handle(&probe.children[0]), 0);
}

#[test]
fn own_limit_of_a_probe_side_that_takes_none_is_kept() {
    let (left, right) = create_test_data();
    let join = join_of(Plan::local_limit(left, 1), right, JoinType::LeftAnti).unwrap();
    let optimized = optimize(Plan::global_limit(join, 0, Some(3)));
    let probe = &optimized.children[0].children[0];
    assert_eq!(local_limit(probe), Some(5));
    assert_eq!(local_limit(&probe.children[0]), Some(1));
}

#[test]
fn build_side_that_cannot_say_counts_as_a_thousand_rows() {
    let (left, right) = create_test_data();
    let join =
        join_of(left, right.with_statistics(Reported::Failed), JoinType::LeftAnti).unwrap();
    let optimized = optimize(Plan::global_limit(join, 0, Some(1)));
    assert_eq!(local_limit(&optimized.children[0].children[0]), Some(1001));
}

#[test]
fn build_side_has_to_be_asked_first() {
    let rule = PushLimitIntoAntiJoin::new();
    let plan = |build: Reported, fetch: Option<usize>| {
        let (left, right) = create_test_data();
        let join = join_of(left, right.with_statistics(build), JoinType::LeftAnti).unwrap();
        Plan::global_limit(join, 0, fetch)
    };
    assert!(!rule.accepts(&plan(Reported::Unread, Some(1))));
    assert!(rule.accepts(&plan(Reported::Unread, None)));
    assert!(rule.accepts(&plan(Reported::Failed, Some(1))));
}

#[test]
fn join_on_expressions_is_cut_off_too() {
    let (left, right) = create_test_data();
    let sum = Key { handle: 8, columns: vec![Column::new("data", 1), Column::new("id", 0)] };
    let join = Plan::hash_join(
        left,
        right,
        vec![(sum, key("id", 0))],
        None,
        JoinType::LeftAnti,
        None,
        PartitionMode::Partitioned,
        NullEquality::NullEqualsNull,
    )
    .unwrap();
    let optimized = optimize(Plan::global_limit(join, 0, Some(2)));
    let join = &optimized.children[0];
    assert_eq!(local_limit(&join.children[0]), Some(4));
    let on = &hash_join(join).unwrap().on;
    assert_eq!(on[0].0.handle, 8);
    assert_eq!(on[0].0.columns.len(), 2);
}

#[test]
fn other_hash_join_is_returned_as_it_is() {
    let join = || {
        let (left, right) = create_test_data();
        join_of(left, right, JoinType::Inner).unwrap()
    };
    let out = optimize_anti_join(join(), 5).unwrap();
    assert_eq!(format!("{out:?}"), format!("{:?}", join()));
}

#[test]
fn limit_from_above_is_used() {
    let (left, right) = create_test_data();
    let join = join_of(left, right, JoinType::LeftAnti).unwrap();
    let out = optimize_with_limit(join, Some(8)).unwrap();
    assert_eq!(local_limit(&out.children[0]), Some(10));
}

#[test]
fn numbers_out_of_range_are_refused() {
    let rule = PushLimitIntoAntiJoin::default();
    let (left, right) = create_test_data();
    let join = join_of(left, right, JoinType::LeftAnti).unwrap();
    // Two rows of the build side have to be added.
    assert!(!rule.accepts(&Plan::global_limit(join, 0, Some(usize::MAX - 1))));
    let (left, right) = create_test_data();
    let join = join_of(left, right, JoinType::LeftAnti).unwrap();
    assert!(rule.accepts(&Plan::global_limit(join, 0, Some(usize::MAX - 2))));
    let (left, _) = create_test_data();
    assert!(!rule.accepts(&Plan::global_limit(left, 1, Some(usize::MAX))));
    let (left, _) = create_test_data();
    assert!(rule.accepts(&Plan::global_limit(left, 1, None)));
}

#[test]
fn rule_describes_itself_too() {
    let rule = PushLimitIntoAntiJoin::new();
    assert_eq!(rule.name(), "push_limit_into_anti_join");
    assert!(rule.schema_check());
}

/// The first rows that an anti-join returns.
fn anti_join(probe: &[i32], build: &[i32], limit: usize) -> Vec<i32> {
    probe.iter().copied().filter(|k| !build.contains(k)).take(limit).collect()
}

/// The number of rows after which the rule cuts off the probe side under the limit `limit`.
fn rows_kept(build: &[i32], limit: usize) -> usize {
    let left = source(0, vec!["id"], Precision::Absent, false);
    let right = source(1, vec!["id"], Precision::Exact(build.len()), false);
    let join = join_of(left, right, JoinType::LeftAnti).unwrap();
    let optimized = optimize(Plan::global_limit(join, 0, Some(limit)));
    local_limit(&optimized.children[0].children[0]).unwrap()
}

#[test]
fn cut_off_probe_side_still_gives_enough_rows() {
    let probe: Vec<i32> = (0..100).collect();
    let build = [0, 2, 4];
    let cut = &probe[..rows_kept(&build, 5)];
    assert_eq!(cut.len(), 8);
    assert_eq!(anti_join(cut, &build, 5), anti_join(&probe, &build, 5));
    assert_eq!(anti_join(cut, &build, 5), vec![1, 3, 5, 6, 7]);
}

#[test]
fn cut_off_probe_side_loses_rows_behind_repeated_keys() {
    let probe = [1, 1, 1, 2];
    let build = [1];
    let cut = &probe[..rows_kept(&build, 1)];
    assert_eq!(anti_join(&probe, &build, 1), vec![2]);
    assert!(anti_join(cut, &build, 1).is_empty());
}
