use sql_optimizer_labs::column_set::ColumnSet;
use sql_optimizer_labs::plan::{
    analyze_columns, cancel_rules, column_merge, column_prune, join_rules, merge, merge_rules,
    predicate_pushdown_rules, projection_pushdown_rules, pushdown, rules, Condition, RuleApplier,
};
use sql_optimizer_labs::Expr;

fn set(names: &[&str]) -> ColumnSet {
    let mut s = ColumnSet::new();
    for n in names {
        s.insert(n);
    }
    s
}

#[test]
fn column_set_basics() {
    let mut s = set(&["b", "a", "b"]);
    assert_eq!(s.len(), 2);
    assert!(s.contains("a") && s.contains("b") && !s.contains("c"));
    assert_eq!(s.names(), vec!["a".to_string(), "b".to_string()]);
    s.extend(&set(&["c"]));
    assert_eq!(s.len(), 3);
    assert!(set(&["a"]).is_subset(&s));
    assert!(!s.is_subset(&set(&["a"])));
    assert!(set(&["x"]).is_disjoint(&s));
    assert!(!set(&["a", "x"]).is_disjoint(&s));
    assert!(ColumnSet::new().is_subset(&ColumnSet::new()));
}

#[test]
fn columns_of_projection_and_agg() {
    let exprs = set(&["a"]);
    let child = set(&["a", "b", "c"]);
    let p = analyze_columns(&Expr::Proj([0, 1]), &vec![&exprs, &child]);
    assert_eq!(p.names(), vec!["a".to_string()]);
    let keys = set(&["k"]);
    let g = analyze_columns(&Expr::Agg([0, 1, 2]), &vec![&exprs, &keys, &child]);
    assert_eq!(g.names(), vec!["a".to_string(), "k".to_string()]);
    let f = analyze_columns(&Expr::Filter([0, 1]), &vec![&keys, &child]);
    assert_eq!(f.len(), 4);
    let c = analyze_columns(&Expr::Constant(sql_optimizer_labs::Value::Int(1)), &vec![]);
    assert_eq!(c.len(), 0);
}

#[test]
fn merge_keeps_the_smaller_set() {
    let mut to = set(&["a", "b"]);
    assert_eq!(merge(&mut to, set(&["a"])), (true, false));
    assert_eq!(to.names(), vec!["a".to_string()]);
    let mut to = set(&["a"]);
    assert_eq!(merge(&mut to, set(&["b"])), (false, true));
    assert_eq!(to.names(), vec!["a".to_string()]);
    assert_eq!(merge(&mut to, set(&["b", "c"])), (false, true));
    assert_eq!(to.names(), vec!["a".to_string()]);
}

#[test]
fn column_merge_is_sorted_and_symmetric() {
    let l = set(&["c", "a"]);
    let r = set(&["b", "a"]);
    let m = column_merge(&l, &r);
    assert_eq!(m, vec!["a".to_string(), "b".to_string(), "c".to_string()]);
    assert_eq!(column_merge(&r, &l), m);
    assert_eq!(column_merge(&ColumnSet::new(), &ColumnSet::new()), Vec::<String>::new());
}

#[test]
fn column_prune_keeps_items_within_filter() {
    let filter = set(&["a", "b"]);
    let x = set(&["a"]);
    let y = set(&["c"]);
    let z = set(&["a", "b"]);
    let e = ColumnSet::new();
    assert_eq!(column_prune(&filter, &vec![10, 11, 12, 13], &vec![&x, &y, &z, &e]), vec![10, 12, 13]);
    assert_eq!(column_prune(&filter, &vec![], &vec![]), Vec::<usize>::new());
}

fn names(v: &[sql_optimizer_labs::plan::Rule]) -> Vec<String> {
    v.iter().map(|r| r.name.clone()).collect()
}

#[test]
fn rule_tables_hold_the_rules() {
    assert_eq!(
        names(&cancel_rules()),
        ["limit-0", "limit-null", "order-null", "filter-true", "filter-false", "inner-join-false",
            "proj-on-empty", "filter-on-empty", "order-on-empty", "limit-on-empty"]
    );
    assert_eq!(names(&merge_rules()), ["limit-order-topn", "filter-merge", "proj-merge"]);
    assert_eq!(names(&join_rules()), ["inner-join-assoc", "hash-join-on-one-eq", "hash-join-on-two-eq"]);
    assert_eq!(projection_pushdown_rules().len(), 8);
    assert_eq!(predicate_pushdown_rules().len(), 8);
    let all = rules();
    assert_eq!(all.len(), 8 + 3 + 10 + 8 + 3);
    assert_eq!(all[0].name, "pushdown-proj-order");
    assert_eq!(all[8].name, "inner-join-assoc");
    assert_eq!(all[11].name, "limit-0");
    assert_eq!(all[21].name, "pushdown-filter-over-order");
    assert_eq!(all[29].name, "limit-order-topn");
}

#[test]
fn pushdown_builds_the_swap_rule() {
    let r = pushdown("filter", "?cond", "limit", "?limit ?offset");
    assert_eq!(r.name, "pushdown-filter-over-limit");
    assert_eq!(r.searcher, "(filter ?cond (limit ?limit ?offset ?child))");
    assert!(matches!(&r.applier, RuleApplier::Pattern(p) if p == "(limit ?limit ?offset (filter ?cond ?child))"));
    assert!(r.conditions.is_empty());
}

#[test]
fn conditional_rules_carry_their_conditions() {
    let j = join_rules();
    assert!(matches!(&j[0].conditions[..], [Condition::ColumnsDisjoint(a, b)] if a == "?cond2" && b == "?left"));
    assert_eq!(j[2].conditions.len(), 4);
    let p = projection_pushdown_rules();
    assert!(matches!(&p[6].applier, RuleApplier::ColumnMerge(a, b) if a == "?list1" && b == "?list2"));
    assert!(matches!(&p[7].applier, RuleApplier::ColumnPrune(a, b) if a == "?filter" && b == "?list"));
    assert!(matches!(&p[7].conditions[..], [Condition::IsList(v)] if v == "?list"));
}

#[test]
fn rule_names_are_distinct() {
    let mut all = names(&rules());
    assert_eq!(all.len(), 32);
    all.sort();
    all.dedup();
    assert_eq!(all.len(), 32);
}
