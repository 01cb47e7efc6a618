use anti_join_limit::hash_join_limit_pushdown::HashJoinLimitPushdownExec;
use anti_join_limit::join::{Column, Field, JoinType, Key, Schema};
use anti_join_limit::limit_push_down_anti_join::LimitPushDownAntiJoin;
use anti_join_limit::plan::{HashJoin, Node, Operator, Plan, Precision, Reported, Statistics};
use arrow::datatypes::DataType;
use datafusion_common::config::ConfigOptions;
use datafusion_common::NullEquality;
use datafusion_physical_plan::joins::PartitionMode;

fn empty(handle: usize) -> Plan {
    let operator = Operator {
        handle,
        schema: Schema::new(vec![
            Field::new("a", DataType::Int32, false),
            Field::new("b", DataType::Int32, false),
        ]),
        fetch: None,
        accepts_fetch: false,
    };
    let statistics = Statistics { num_rows: Precision::Exact(0) };
    Plan::operator(operator, vec![]).with_statistics(Reported::Known(statistics))
}

fn key(name: &str, index: usize) -> Key {
    Key { handle: 0, columns: vec![Column::new(name, index)] }
}

fn join_of(left: Plan, right: Plan, join_type: JoinType) -> Plan {
    Plan::hash_join(
        left,
        right,
        vec![(key("a", 0), key("a", 0))],
        None,
        join_type,
        None,
        PartitionMode::Partitioned,
        NullEquality::NullEqualsNull,
    )
    .unwrap()
}

fn create_test_join(join_type: JoinType) -> Plan {
    join_of(empty(0), empty(1), join_type)
}

fn hash_join(plan: &Plan) -> Option<&HashJoin> {
    match &plan.node {
        Node::HashJoin(join) => Some(join),
        _ => None,
    }
}

fn optimize(plan: Plan) -> Plan {
    let optimizer = LimitPushDownAntiJoin::new();
    let config = ConfigOptions::default();
    optimizer.optimize(plan, &config).unwrap()
}

#[test]
fn test_limit_pushed_to_left_anti_join() {
    let join = create_test_join(JoinType::LeftAnti);
    let limit = Plan::global_limit(join, 0, Some(100));

    let optimized = optimize(limit);

    // Check that the limit was pushed down
    assert!(matches!(optimized.node, Node::GlobalLimit { skip: 0, fetch: Some(100) }));
    if let Some(hash_join) = hash_join(&optimized.children[0]) {
        assert_eq!(hash_join.limit(), Some(100));
    } else {
        panic!("Expected HashJoinExec with limit under GlobalLimitExec");
    }
}

#[test]
fn test_limit_pushed_to_right_anti_join() {
    let join = create_test_join(JoinType::RightAnti);
    let coalesce = Plan::coalesce_partitions(join, Some(50));

    let optimized = optimize(coalesce);

    // Check that the limit was pushed down
    assert!(matches!(optimized.node, Node::CoalescePartitions { fetch: Some(50) }));
    if let Some(hash_join) = hash_join(&optimized.children[0]) {
        assert_eq!(hash_join.limit(), Some(50));
    } else {
        panic!("Expected HashJoinExec with limit under CoalescePartitionsExec");
    }
}

#[test]
fn test_no_limit_push_for_inner_join() {
    let join = create_test_join(JoinType::Inner);
    let limit = Plan::global_limit(join, 0, Some(100));

    let optimized = optimize(limit);

    // Check that limit was NOT pushed down (inner join)
    assert!(matches!(optimized.node, Node::GlobalLimit { .. }));
    assert_eq!(hash_join(&optimized.children[0]).unwrap().limit(), None);
}

#[test]
fn local_limit_reaches_the_join_through_other_nodes() {
    let operator = Operator {
        handle: 7,
        schema: Schema::new(vec![Field::new("a", DataType::Int32, false)]),
        // The rule asks limit nodes alone: this one is passed over.
        fetch: Some(3),
        accepts_fetch: true,
    };
    let middle = Plan::operator(operator, vec![create_test_join(JoinType::LeftAnti)]);
    let optimized = optimize(Plan::local_limit(middle, 20));
    let join = &optimized.children[0].children[0];
    assert_eq!(hash_join(join).unwrap().limit(), Some(20));
    match &optimized.children[0].node {
        Node::Operator(operator) => {
            assert_eq!(operator.handle, 7);
            assert_eq!(operator.fetch, Some(3));
        }
        _ => panic!("the operator was replaced"),
    }
}

#[test]
fn nearest_limit_wins_and_skip_is_not_counted() {
    let inner = Plan::global_limit(create_test_join(JoinType::LeftAnti), 5, Some(30));
    let optimized = optimize(Plan::local_limit(inner, 10));
    assert_eq!(hash_join(&optimized.children[0].children[0]).unwrap().limit(), Some(30));
}

#[test]
fn limit_node_without_a_number_passes_the_one_above() {
    let inner = Plan::global_limit(create_test_join(JoinType::LeftAnti), 5, None);
    let optimized = optimize(Plan::local_limit(inner, 10));
    assert_eq!(hash_join(&optimized.children[0].children[0]).unwrap().limit(), Some(10));
}

#[test]
fn nothing_below_a_limited_join_is_touched() {
    let lower = create_test_join(JoinType::LeftAnti);
    let upper = join_of(lower, empty(2), JoinType::LeftAnti);
    let optimized = optimize(Plan::global_limit(upper, 0, Some(4)));
    let upper = &optimized.children[0];
    assert_eq!(hash_join(upper).unwrap().limit(), Some(4));
    assert_eq!(hash_join(&upper.children[0]).unwrap().limit(), None);
}

#[test]
fn both_inputs_of_another_join_are_searched() {
    let left = create_test_join(JoinType::LeftAnti);
    let right = create_test_join(JoinType::RightAnti);
    let optimized = optimize(Plan::local_limit(join_of(left, right, JoinType::Inner), 6));
    let inner = &optimized.children[0];
    assert_eq!(hash_join(inner).unwrap().limit(), None);
    assert_eq!(hash_join(&inner.children[0]).unwrap().limit(), Some(6));
    assert_eq!(hash_join(&inner.children[1]).unwrap().limit(), Some(6));
}

#[test]
fn plan_without_limit_is_left_alone() {
    let optimized = optimize(create_test_join(JoinType::RightAnti));
    assert_eq!(hash_join(&optimized).unwrap().limit(), None);
}

#[test]
fn second_run_changes_nothing() {
    let plan = || Plan::global_limit(create_test_join(JoinType::LeftAnti), 0, Some(9));
    let once = optimize(plan());
    let twice = optimize(optimize(plan()));
    assert_eq!(format!("{once:?}"), format!("{twice:?}"));
}

fn limited(join: Plan, limit: usize) -> Plan {
    HashJoinLimitPushdownExec::new(join, limit).into_plan()
}

#[test]
fn join_that_carries_a_limit_keeps_it() {
    for (carried, above) in [(5, 9), (9, 5)] {
        let join = limited(create_test_join(JoinType::LeftAnti), carried);
        let optimized = optimize(Plan::global_limit(join, 0, Some(above)));
        assert_eq!(hash_join(&optimized.children[0]).unwrap().limit(), Some(carried));
    }
}

#[test]
fn limit_above_goes_on_below_a_join_that_carries_one() {
    let lower = create_test_join(JoinType::RightAnti);
    let upper = limited(join_of(lower, empty(2), JoinType::LeftAnti), 5);
    let optimized = optimize(Plan::global_limit(upper, 0, Some(9)));
    let upper = &optimized.children[0];
    assert_eq!(hash_join(upper).unwrap().limit(), Some(5));
    assert_eq!(hash_join(&upper.children[0]).unwrap().limit(), Some(9));
}

#[test]
fn second_run_reaches_below_what_the_first_one_limited() {
    let lower = create_test_join(JoinType::LeftAnti);
    let upper = join_of(lower, empty(2), JoinType::LeftAnti);
    let once = optimize(Plan::global_limit(upper, 0, Some(4)));
    assert_eq!(hash_join(&once.children[0].children[0]).unwrap().limit(), None);
    let twice = optimize(once);
    assert_eq!(hash_join(&twice.children[0]).unwrap().limit(), Some(4));
    assert_eq!(hash_join(&twice.children[0].children[0]).unwrap().limit(), Some(4));
}

#[test]
fn only_the_limit_changes() {
    let plan = || Plan::global_limit(create_test_join(JoinType::LeftAnti), 0, Some(9));
    let optimized = optimize(plan());
    assert_eq!(format!("{:?}", optimized.schema()), format!("{:?}", plan().schema()));
    assert_eq!(
        format!("{optimized:?}").replace("limit: Some(9)", "limit: None"),
        format!("{:?}", plan())
    );
}

#[test]
fn transformed_tells_leaves_apart() {
    let leaf = LimitPushDownAntiJoin::optimize_plan(empty(3), Some(1)).unwrap();
    assert!(!leaf.transformed);
    let join = create_test_join(JoinType::LeftAnti);
    let join = LimitPushDownAntiJoin::optimize_plan(join, Some(1)).unwrap();
    assert!(join.transformed);
    assert_eq!(hash_join(&join.data).unwrap().limit(), Some(1));
    let limit = Plan::local_limit(empty(4), 2);
    assert!(LimitPushDownAntiJoin::optimize_plan(limit, None).unwrap().transformed);
}

#[test]
fn extract_limit_reads_limit_nodes_alone() {
    let limit = Plan::global_limit(empty(0), 3, Some(8));
    assert_eq!(LimitPushDownAntiJoin::extract_limit(&limit), Some(8));
    let limit = Plan::local_limit(empty(0), 5);
    assert_eq!(LimitPushDownAntiJoin::extract_limit(&limit), Some(5));
    let limit = Plan::coalesce_partitions(empty(0), Some(6));
    assert_eq!(LimitPushDownAntiJoin::extract_limit(&limit), Some(6));
    let join = create_test_join(JoinType::LeftAnti);
    assert_eq!(LimitPushDownAntiJoin::extract_limit(&join), None);
    assert_eq!(LimitPushDownAntiJoin::extract_limit(&empty(0)), None);
}

#[test]
fn probe_side_is_large_from_a_hundred_times_the_limit() {
    let large = |num_rows, limit| {
        LimitPushDownAntiJoin::is_probe_side_large(&Statistics { num_rows }, limit)
    };
    assert!(large(Precision::Exact(1000), 10));
    assert!(!large(Precision::Exact(999), 10));
    assert!(large(Precision::Inexact(1000), 10));
    assert!(!large(Precision::Inexact(999), 10));
    assert!(large(Precision::Absent, usize::MAX));
    assert!(large(Precision::Exact(0), 0));
    assert!(large(Precision::Exact(usize::MAX), usize::MAX / 100));
    assert!(!large(Precision::Exact(usize::MAX), usize::MAX / 100 + 1));
    assert!(!large(Precision::Inexact(usize::MAX), usize::MAX));
}

#[test]
fn rule_describes_itself() {
    let rule = LimitPushDownAntiJoin::default();
    assert_eq!(rule.name(), "LimitPushDownAntiJoin");
    assert!(rule.schema_check());
}
