use sql_optimizer_labs::bench::{
    children_precede, collect_plan_stats, csv_field, is_suspicious, list_len_of,
    non_column_key_count_of, plan_stats_checked, warning_summary, workload_fits, workload_totals,
};
use sql_optimizer_labs::rule_counts::{rank_rule_counts, rule_counts_fit};
use sql_optimizer_labs::{Expr, Value};

fn col(s: &str) -> Expr {
    Expr::Column(s.to_string())
}

/// `(proj (list a) (scan t (list a b)))` in recursive-expression order.
fn simple_plan() -> Vec<Expr> {
    vec![
        col("t"),
        col("a"),
        col("b"),
        Expr::List(vec![1, 2]),
        Expr::Scan([0, 3]),
        Expr::List(vec![1]),
        Expr::Proj([5, 4]),
    ]
}

/// A hash join with a bare `list` symbol as left keys, a constant among the
/// right keys, and a scan of no column.
fn broken_plan() -> Vec<Expr> {
    vec![
        Expr::Inner,
        col("list"),
        col("a"),
        Expr::Constant(Value::Int(1)),
        Expr::List(vec![2, 3]),
        col("t"),
        Expr::List(vec![]),
        Expr::Scan([5, 6]),
        Expr::HashJoin([0, 1, 4, 7, 7]),
    ]
}

#[test]
fn stats_of_a_simple_plan() {
    let nodes = simple_plan();
    assert!(children_precede(&nodes));
    let s = collect_plan_stats(&nodes);
    assert_eq!(s.total_nodes, 7);
    assert_eq!(s.plan_nodes, 2);
    assert_eq!(s.scan_nodes, 1);
    assert_eq!(s.scan_columns, 2);
    assert_eq!(s.proj_nodes, 1);
    assert_eq!(s.filter_nodes, 0);
    assert_eq!(s.max_depth, 4);
    assert!(!is_suspicious(&s));
    assert_eq!(warning_summary(&s), "none");
}

#[test]
fn stats_of_a_broken_plan() {
    let nodes = broken_plan();
    let s = collect_plan_stats(&nodes);
    assert_eq!(s.total_nodes, 9);
    assert_eq!(s.plan_nodes, 2);
    assert_eq!(s.hashjoin_nodes, 1);
    assert_eq!(s.empty_scan_schemas, 1);
    assert_eq!(s.bare_list_symbols, 1);
    assert_eq!(s.hashjoin_empty_keys, 1);
    assert_eq!(s.hashjoin_non_column_keys, 1);
    assert_eq!(s.max_depth, 3);
    assert!(is_suspicious(&s));
    assert_eq!(
        warning_summary(&s),
        "empty_scans=1; bare_list_symbols=1; hashjoin_empty_keys=1; hashjoin_non_column_keys=1"
    );
}

#[test]
fn single_warning_has_no_separator() {
    let mut s = collect_plan_stats(&simple_plan());
    s.hashjoin_empty_keys = 12;
    assert_eq!(warning_summary(&s), "hashjoin_empty_keys=12");
}

#[test]
fn list_helpers() {
    let nodes = broken_plan();
    assert_eq!(list_len_of(&nodes, 4), 2);
    assert_eq!(list_len_of(&nodes, 1), 0);
    assert_eq!(non_column_key_count_of(&nodes, 4), 1);
    assert_eq!(non_column_key_count_of(&nodes, 6), 0);
    assert_eq!(non_column_key_count_of(&nodes, 2), 0);
}

#[test]
fn checked_stats_and_order() {
    assert!(!children_precede(&vec![Expr::Nested(0)]));
    let s = plan_stats_checked(&simple_plan()).unwrap();
    assert_eq!(s.total_nodes, 7);
}

#[test]
fn workload_totals_sum_and_count() {
    let a = collect_plan_stats(&simple_plan());
    let b = collect_plan_stats(&broken_plan());
    let before = vec![a, b];
    let after = vec![a, a];
    assert!(workload_fits(&before, &after));
    let t = workload_totals(&before, &after);
    assert_eq!(t.before_plan_nodes, 4);
    assert_eq!(t.after_plan_nodes, 4);
    assert_eq!(t.before_scan_columns, 2);
    assert_eq!(t.after_scan_columns, 4);
    assert_eq!(t.suspicious_plans, 0);
    let t = workload_totals(&after, &before);
    assert_eq!(t.suspicious_plans, 1);
    let mut huge = a;
    huge.plan_nodes = usize::MAX;
    assert!(!workload_fits(&vec![huge, a], &after));
}

#[test]
fn csv_field_replaces_commas() {
    assert_eq!(csv_field("a,b,,c"), "a b  c");
    assert_eq!(csv_field("plain"), "plain");
    assert_eq!(csv_field(""), "");
}

#[test]
fn rule_counts_rank_by_total_then_name() {
    let pairs = vec![
        ("b".to_string(), 2),
        ("a".to_string(), 2),
        ("c".to_string(), 5),
        ("b".to_string(), 1),
    ];
    assert!(rule_counts_fit(&pairs));
    assert_eq!(
        rank_rule_counts(&pairs),
        vec![("c".to_string(), 5), ("b".to_string(), 3), ("a".to_string(), 2)]
    );
    let ties = vec![("x".to_string(), 1), ("a".to_string(), 1)];
    assert_eq!(rank_rule_counts(&ties), vec![("a".to_string(), 1), ("x".to_string(), 1)]);
    assert_eq!(rank_rule_counts(&vec![]), Vec::<(String, usize)>::new());
    assert!(!rule_counts_fit(&vec![("r".to_string(), usize::MAX), ("r".to_string(), 1)]));
}

#[test]
fn plan_node_counts_add_up() {
    for nodes in [simple_plan(), broken_plan()] {
        let s = collect_plan_stats(&nodes);
        let values_limits = nodes
            .iter()
            .filter(|e| matches!(e, Expr::Values(_) | Expr::Limit(_)))
            .count();
        assert_eq!(s.total_nodes, nodes.len());
        assert_eq!(
            s.plan_nodes,
            s.scan_nodes + s.proj_nodes + s.filter_nodes + s.order_nodes + s.topn_nodes + s.agg_nodes
                + s.join_nodes + s.hashjoin_nodes + s.empty_nodes + values_limits
        );
        assert!(s.empty_scan_schemas <= s.scan_nodes);
        assert!(s.hashjoin_empty_keys <= 2 * s.hashjoin_nodes);
    }
    assert_eq!(collect_plan_stats(&vec![]).max_depth, 0);
}
