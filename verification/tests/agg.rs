use sql_optimizer_labs::agg::{analyze_aggs, copy_exprs, holds_list, list_of, plan_select, Error};
use sql_optimizer_labs::agg_extractor::{AggExtractor, Reply, Request, Step};
use sql_optimizer_labs::{Expr, Value};

/// A small e-graph: one node per class, hash-consed by its debug text, with
/// the aggregate analysis of each class.
struct Graph {
    nodes: Vec<Expr>,
    aggs: Vec<Vec<Expr>>,
}

impl Graph {
    fn new() -> Graph {
        Graph { nodes: Vec::new(), aggs: Vec::new() }
    }

    fn add(&mut self, e: Expr) -> usize {
        let key = format!("{:?}", e);
        if let Some(i) = self.nodes.iter().position(|n| format!("{:?}", n) == key) {
            return i;
        }
        let kids = e.children();
        let child_aggs: Vec<&Vec<Expr>> = kids.iter().map(|c| &self.aggs[*c]).collect();
        let a = analyze_aggs(&e, &child_aggs);
        self.nodes.push(e);
        self.aggs.push(a);
        self.nodes.len() - 1
    }

    fn col(&mut self, name: &str) -> usize {
        self.add(Expr::Column(name.to_string()))
    }

    fn text(&self, id: usize) -> String {
        format!("{:?}", self.nodes[id])
    }
}

/// Answers the machine's requests from the graph until it is done.
fn run(g: &mut Graph, start: (AggExtractor, Step)) -> Result<usize, Error> {
    let (mut m, mut s) = start;
    loop {
        let req = match s {
            Step::Done(r) => return r,
            Step::Request(req) => req,
        };
        let reply = match req {
            Request::Aggs(id) => Reply::Aggs(copy_exprs(&g.aggs[id])),
            Request::List(id) => {
                let nodes = vec![g.nodes[id].copy()];
                assert!(holds_list(&nodes), "expected a list");
                Reply::List(list_of(&nodes))
            }
            Request::Node(id) => Reply::Node(g.nodes[id].copy()),
            Request::Add(e) => Reply::Added(g.add(e)),
        };
        assert!(m.accepts(&reply));
        s = m.step(reply);
    }
}

struct Query {
    from: usize,
    where_: usize,
    having: usize,
    groupby: usize,
    orderby: usize,
}

/// `(scan t (list a b))`, `true` filters, empty group and order lists.
fn base(g: &mut Graph) -> Query {
    let t = g.col("t");
    let a = g.col("a");
    let b = g.col("b");
    let cols = g.add(Expr::List(vec![a, b]));
    let from = g.add(Expr::Scan([t, cols]));
    let tru = g.add(Expr::Constant(Value::Bool(true)));
    let empty = g.add(Expr::List(vec![]));
    Query { from, where_: tru, having: tru, groupby: empty, orderby: empty }
}

#[test]
fn aggregates_of_a_tree() {
    let a = Expr::Column("a".to_string());
    let none: Vec<Expr> = vec![];
    let max_a = analyze_aggs(&Expr::Max(0), &vec![&none]);
    assert_eq!(format!("{:?}", max_a), "[Max(0)]");
    // an aggregate over an aggregate yields only the outer one
    let outer = analyze_aggs(&Expr::Sum(1), &vec![&max_a]);
    assert_eq!(format!("{:?}", outer), "[Sum(1)]");
    let count = vec![Expr::Count(4)];
    let add = analyze_aggs(&Expr::Add([1, 2]), &vec![&max_a, &count]);
    assert_eq!(format!("{:?}", add), "[Max(0), Count(4)]");
    // plan nodes and leaves have none
    assert!(analyze_aggs(&Expr::Filter([1, 2]), &vec![&max_a, &count]).is_empty());
    assert!(analyze_aggs(&a, &vec![]).is_empty());
}

#[test]
fn list_of_a_class() {
    let with_list = vec![Expr::Column("x".to_string()), Expr::List(vec![3, 4]), Expr::List(vec![5])];
    assert!(holds_list(&with_list));
    assert_eq!(list_of(&with_list), vec![3, 4]);
    let bare = vec![Expr::Column("list".to_string())];
    assert!(holds_list(&bare));
    assert_eq!(list_of(&bare), Vec::<usize>::new());
    assert!(!holds_list(&vec![Expr::Column("x".to_string())]));
}

#[test]
fn select_without_aggregates_stacks_filter_order_proj() {
    let mut g = Graph::new();
    let q = base(&mut g);
    let a = g.col("a");
    let projection = g.add(Expr::List(vec![a]));
    let root = run(&mut g, plan_select(q.from, q.where_, q.having, q.groupby, q.orderby, projection)).unwrap();
    let f1 = g.add(Expr::Filter([q.where_, q.from]));
    let f2 = g.add(Expr::Filter([q.having, f1]));
    let o = g.add(Expr::Order([q.orderby, f2]));
    assert_eq!(root, g.add(Expr::Proj([projection, o])));
}

#[test]
fn select_with_aggregate_builds_agg_node() {
    let mut g = Graph::new();
    let q = base(&mut g);
    let a = g.col("a");
    let b = g.col("b");
    let max_a = g.add(Expr::Max(a));
    let projection = g.add(Expr::List(vec![max_a]));
    let groupby = g.add(Expr::List(vec![b]));
    let root = run(&mut g, plan_select(q.from, q.where_, q.having, groupby, q.orderby, projection)).unwrap();

    let f1 = g.add(Expr::Filter([q.where_, q.from]));
    let aggs = g.add(Expr::List(vec![max_a]));
    let agg = g.add(Expr::Agg([aggs, groupby, f1]));
    let nested = g.add(Expr::Nested(max_a));
    let new_projection = g.add(Expr::List(vec![nested]));
    let f2 = g.add(Expr::Filter([q.having, agg]));
    let o = g.add(Expr::Order([q.orderby, f2]));
    assert_eq!(root, g.add(Expr::Proj([new_projection, o])));
    assert!(g.text(root).starts_with("Proj"));
}

#[test]
fn aggregate_ids_are_sorted_and_distinct() {
    let mut g = Graph::new();
    let q = base(&mut g);
    let a = g.col("a");
    let b = g.col("b");
    let sum_b = g.add(Expr::Sum(b));
    let max_a = g.add(Expr::Max(a));
    let projection = g.add(Expr::List(vec![sum_b, max_a, sum_b]));
    run(&mut g, plan_select(q.from, q.where_, q.having, q.groupby, q.orderby, projection)).unwrap();
    let expected = g.add(Expr::List(vec![sum_b.min(max_a), sum_b.max(max_a)]));
    let f1 = g.add(Expr::Filter([q.where_, q.from]));
    let before = g.nodes.len();
    g.add(Expr::Agg([expected, q.groupby, f1]));
    assert_eq!(g.nodes.len(), before);
}

#[test]
fn aggregate_in_where_is_refused() {
    let mut g = Graph::new();
    let q = base(&mut g);
    let a = g.col("a");
    let sum_a = g.add(Expr::Sum(a));
    let one = g.add(Expr::Constant(Value::Int(1)));
    let cond = g.add(Expr::Gt([sum_a, one]));
    let projection = g.add(Expr::List(vec![a]));
    let r = run(&mut g, plan_select(q.from, cond, q.having, q.groupby, q.orderby, projection));
    assert_eq!(r, Err(Error::AggInWhere));
}

#[test]
fn aggregate_in_group_by_is_refused() {
    let mut g = Graph::new();
    let q = base(&mut g);
    let a = g.col("a");
    let sum_a = g.add(Expr::Sum(a));
    let groupby = g.add(Expr::List(vec![sum_a]));
    let projection = g.add(Expr::List(vec![a]));
    let r = run(&mut g, plan_select(q.from, q.where_, q.having, groupby, q.orderby, projection));
    assert_eq!(r, Err(Error::AggInGroupBy));
}

#[test]
fn nested_aggregate_is_refused_with_outer_name() {
    let mut g = Graph::new();
    let q = base(&mut g);
    let a = g.col("a");
    let sum_a = g.add(Expr::Sum(a));
    let max_sum = g.add(Expr::Max(sum_a));
    let projection = g.add(Expr::List(vec![max_sum]));
    let r = run(&mut g, plan_select(q.from, q.where_, q.having, q.groupby, q.orderby, projection));
    assert_eq!(r, Err(Error::NestedAgg("max".to_string())));
}

#[test]
fn column_outside_aggregate_is_refused() {
    let mut g = Graph::new();
    let q = base(&mut g);
    let a = g.col("a");
    let b = g.col("b");
    let max_b = g.add(Expr::Max(b));
    let projection = g.add(Expr::List(vec![a, max_b]));
    let r = run(&mut g, plan_select(q.from, q.where_, q.having, q.groupby, q.orderby, projection));
    assert_eq!(r, Err(Error::ColumnNotInAgg("a".to_string())));
}

#[test]
fn group_key_is_a_schema_entry() {
    let mut g = Graph::new();
    let q = base(&mut g);
    let a = g.col("a");
    let groupby = g.add(Expr::List(vec![a]));
    let projection = g.add(Expr::List(vec![a]));
    let root = run(&mut g, plan_select(q.from, q.where_, q.having, groupby, q.orderby, projection)).unwrap();
    let nested = g.add(Expr::Nested(a));
    let new_projection = g.add(Expr::List(vec![nested]));
    match &g.nodes[root] {
        Expr::Proj([p, _]) => assert_eq!(*p, new_projection),
        other => panic!("unexpected root {:?}", other),
    }
}

#[test]
fn machine_accepts_only_the_awaited_reply() {
    let (m, s) = plan_select(0, 1, 2, 3, 4, 5);
    assert!(matches!(s, Step::Request(Request::Aggs(1))));
    assert!(m.accepts(&Reply::Aggs(vec![])));
    assert!(!m.accepts(&Reply::Added(0)));
    assert!(!m.accepts(&Reply::List(vec![])));
    assert!(!m.accepts(&Reply::Node(Expr::Inner)));
}

#[test]
fn default_group_and_order_clauses_are_kept() {
    // GROUP BY and ORDER BY left at `(list)`, which the e-graph holds as the
    // bare column `list`.
    let mut g = Graph::new();
    let t = g.col("t");
    let a = g.col("a");
    let cols = g.add(Expr::List(vec![a]));
    let from = g.add(Expr::Scan([t, cols]));
    let tru = g.add(Expr::Constant(Value::Bool(true)));
    let list = g.col("list");
    let sum_a = g.add(Expr::Sum(a));
    let projection = g.add(Expr::List(vec![sum_a]));
    let root = run(&mut g, plan_select(from, tru, tru, list, list, projection)).unwrap();

    let f1 = g.add(Expr::Filter([tru, from]));
    let agg = g.add(Expr::Agg([projection, list, f1]));
    let nested = g.add(Expr::Nested(sum_a));
    let new_projection = g.add(Expr::List(vec![nested]));
    let f2 = g.add(Expr::Filter([tru, agg]));
    let order = g.add(Expr::Order([list, f2]));
    assert_eq!(root, g.add(Expr::Proj([new_projection, order])));
}

#[test]
fn nested_aggregate_is_found_before_group_keys_are_read() {
    let mut g = Graph::new();
    let q = base(&mut g);
    let a = g.col("a");
    let sum_a = g.add(Expr::Sum(a));
    let max_sum = g.add(Expr::Max(sum_a));
    let projection = g.add(Expr::List(vec![max_sum]));
    // a GROUP BY class that holds no list at all
    let groupby = g.col("b");
    let r = run(&mut g, plan_select(q.from, q.where_, q.having, groupby, q.orderby, projection));
    assert_eq!(r, Err(Error::NestedAgg("max".to_string())));
}
