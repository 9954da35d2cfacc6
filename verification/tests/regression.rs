use sql_optimizer_labs::column_set::ColumnSet;
use sql_optimizer_labs::plan::analyze_columns;
use sql_optimizer_labs::Expr;

/// The column set of `(scan t (list a b))`, built node by node as an e-graph
/// analyses it: every class's set from those of its children.
#[test]
fn scan_columns_do_not_include_table_name() {
    let t = analyze_columns(&Expr::Column("t".to_string()), &vec![]);
    let a = analyze_columns(&Expr::Column("a".to_string()), &vec![]);
    let b = analyze_columns(&Expr::Column("b".to_string()), &vec![]);
    let list = analyze_columns(&Expr::List(vec![1, 2]), &vec![&a, &b]);
    let cols: ColumnSet = analyze_columns(&Expr::Scan([0, 3]), &vec![&t, &list]);

    assert!(cols.contains("a"));
    assert!(cols.contains("b"));
    assert!(!cols.contains("t"));
}
