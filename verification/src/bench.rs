//! The logic of the TPC-H evaluation: plan statistics of an extracted plan,
//! the warnings they raise, and the totals over a workload.
use vstd::prelude::*;

use crate::agg::expr_views;
use crate::language::{Expr, ExprView, Id, Op};

verus! {

/// Statistics of a plan tree (a list of nodes whose children come earlier).
#[derive(Debug, Clone, Copy)]
pub struct PlanStats {
    pub total_nodes: usize,
    pub plan_nodes: usize,
    pub scan_nodes: usize,
    pub scan_columns: usize,
    pub filter_nodes: usize,
    pub proj_nodes: usize,
    pub order_nodes: usize,
    pub topn_nodes: usize,
    pub agg_nodes: usize,
    pub join_nodes: usize,
    pub hashjoin_nodes: usize,
    pub empty_nodes: usize,
    pub max_depth: usize,
    pub empty_scan_schemas: usize,
    pub bare_list_symbols: usize,
    pub hashjoin_empty_keys: usize,
    pub hashjoin_non_column_keys: usize,
}

/// The mathematical content of [`PlanStats`].
pub struct StatsView {
    pub total_nodes: nat,
    pub plan_nodes: nat,
    pub scan_nodes: nat,
    pub scan_columns: nat,
    pub filter_nodes: nat,
    pub proj_nodes: nat,
    pub order_nodes: nat,
    pub topn_nodes: nat,
    pub agg_nodes: nat,
    pub join_nodes: nat,
    pub hashjoin_nodes: nat,
    pub empty_nodes: nat,
    pub max_depth: nat,
    pub empty_scan_schemas: nat,
    pub bare_list_symbols: nat,
    pub hashjoin_empty_keys: nat,
    pub hashjoin_non_column_keys: nat,
}

impl View for PlanStats {
    type V = StatsView;

    open spec fn view(&self) -> StatsView {
        StatsView {
            total_nodes: self.total_nodes as nat,
            plan_nodes: self.plan_nodes as nat,
            scan_nodes: self.scan_nodes as nat,
            scan_columns: self.scan_columns as nat,
            filter_nodes: self.filter_nodes as nat,
            proj_nodes: self.proj_nodes as nat,
            order_nodes: self.order_nodes as nat,
            topn_nodes: self.topn_nodes as nat,
            agg_nodes: self.agg_nodes as nat,
            join_nodes: self.join_nodes as nat,
            hashjoin_nodes: self.hashjoin_nodes as nat,
            empty_nodes: self.empty_nodes as nat,
            max_depth: self.max_depth as nat,
            empty_scan_schemas: self.empty_scan_schemas as nat,
            bare_list_symbols: self.bare_list_symbols as nat,
            hashjoin_empty_keys: self.hashjoin_empty_keys as nat,
            hashjoin_non_column_keys: self.hashjoin_non_column_keys as nat,
        }
    }
}

/// The characters `list`.
pub open spec fn list_text() -> Seq<char> {
    seq!['l', 'i', 's', 't']
}

/// Whether every child of a node comes before it, as in a recursive
/// expression.
pub open spec fn children_before(nodes: Seq<ExprView>) -> bool {
    forall|i: int, k: int|
        0 <= i < nodes.len() && 0 <= k < nodes[i].children.len() ==> #[trigger] nodes[i].children[k] < i
}

/// The number of items of the list at `id`; 0 when the node is not a list.
pub open spec fn list_len(nodes: Seq<ExprView>, id: Id) -> nat {
    if nodes[id as int].op is List {
        nodes[id as int].children.len()
    } else {
        0
    }
}

/// The number of items in `items` whose node is not a column.
pub open spec fn count_non_columns(nodes: Seq<ExprView>, items: Seq<Id>) -> nat
    decreases items.len(),
{
    if items.len() == 0 {
        0
    } else {
        count_non_columns(nodes, items.drop_last()) + if nodes[items.last() as int].op is Column {
            0nat
        } else {
            1nat
        }
    }
}

/// The number of keys of the list at `id` that are not columns; 0 when the
/// node is not a list.
pub open spec fn non_column_key_count(nodes: Seq<ExprView>, id: Id) -> nat {
    if nodes[id as int].op is List {
        count_non_columns(nodes, nodes[id as int].children)
    } else {
        0
    }
}

/// The largest of the depths of the nodes `items`, 0 for none.
pub open spec fn max_child_depth(nodes: Seq<ExprView>, items: Seq<Id>, i: int) -> nat
    decreases i, 0nat, items.len(),
{
    if items.len() == 0 {
        0
    } else {
        let d = if 0 <= items.last() < i { depth(nodes, items.last() as int) } else { 0 };
        let rest = max_child_depth(nodes, items.drop_last(), i);
        if d > rest { d } else { rest }
    }
}

/// The depth of the tree rooted at node `i`: 1 more than its deepest child.
pub open spec fn depth(nodes: Seq<ExprView>, i: int) -> nat
    decreases i, 1nat, 0nat,
{
    if i < 0 {
        0
    } else {
        1 + max_child_depth(nodes, nodes[i].children, i)
    }
}

/// The statistics after counting node `i` into `s`.
pub open spec fn count_node(s: StatsView, nodes: Seq<ExprView>, i: int) -> StatsView {
    let e = nodes[i];
    let d = depth(nodes, i);
    let s = StatsView {
        total_nodes: s.total_nodes + 1,
        max_depth: if d > s.max_depth { d } else { s.max_depth },
        ..s
    };
    match e.op {
        Op::Scan => {
            let width = list_len(nodes, e.children[1]);
            StatsView {
                plan_nodes: s.plan_nodes + 1,
                scan_nodes: s.scan_nodes + 1,
                scan_columns: s.scan_columns + width,
                empty_scan_schemas: s.empty_scan_schemas + if width == 0 { 1nat } else { 0nat },
                ..s
            }
        },
        Op::Values | Op::Limit => StatsView { plan_nodes: s.plan_nodes + 1, ..s },
        Op::Proj => StatsView { plan_nodes: s.plan_nodes + 1, proj_nodes: s.proj_nodes + 1, ..s },
        Op::Filter => StatsView { plan_nodes: s.plan_nodes + 1, filter_nodes: s.filter_nodes + 1, ..s },
        Op::Order => StatsView { plan_nodes: s.plan_nodes + 1, order_nodes: s.order_nodes + 1, ..s },
        Op::TopN => StatsView { plan_nodes: s.plan_nodes + 1, topn_nodes: s.topn_nodes + 1, ..s },
        Op::Agg => StatsView { plan_nodes: s.plan_nodes + 1, agg_nodes: s.agg_nodes + 1, ..s },
        Op::Join => StatsView { plan_nodes: s.plan_nodes + 1, join_nodes: s.join_nodes + 1, ..s },
        Op::HashJoin => {
            let l = e.children[1];
            let r = e.children[2];
            StatsView {
                plan_nodes: s.plan_nodes + 1,
                hashjoin_nodes: s.hashjoin_nodes + 1,
                hashjoin_empty_keys: s.hashjoin_empty_keys + (if list_len(nodes, l) == 0 { 1nat } else { 0nat })
                    + (if list_len(nodes, r) == 0 { 1nat } else { 0nat }),
                hashjoin_non_column_keys: s.hashjoin_non_column_keys + non_column_key_count(nodes, l)
                    + non_column_key_count(nodes, r),
                ..s
            }
        },
        Op::Empty => StatsView { plan_nodes: s.plan_nodes + 1, empty_nodes: s.empty_nodes + 1, ..s },
        Op::Column(c) => if c == list_text() {
            StatsView { bare_list_symbols: s.bare_list_symbols + 1, ..s }
        } else {
            s
        },
        _ => s,
    }
}

/// All counters zero.
pub open spec fn zero_stats() -> StatsView {
    StatsView {
        total_nodes: 0,
        plan_nodes: 0,
        scan_nodes: 0,
        scan_columns: 0,
        filter_nodes: 0,
        proj_nodes: 0,
        order_nodes: 0,
        topn_nodes: 0,
        agg_nodes: 0,
        join_nodes: 0,
        hashjoin_nodes: 0,
        empty_nodes: 0,
        max_depth: 0,
        empty_scan_schemas: 0,
        bare_list_symbols: 0,
        hashjoin_empty_keys: 0,
        hashjoin_non_column_keys: 0,
    }
}

/// The statistics of the first `n` nodes.
pub open spec fn stats_upto(nodes: Seq<ExprView>, n: nat) -> StatsView
    decreases n,
{
    if n == 0 {
        zero_stats()
    } else {
        count_node(stats_upto(nodes, (n - 1) as nat), nodes, n - 1)
    }
}

/// The statistics of a plan: node counts by kind, the scanned columns, the
/// greatest depth, and the shapes that suggest a broken plan (scans of no
/// column, bare `list` symbols, hash joins with no key or non-column keys).
pub open spec fn plan_stats(nodes: Seq<ExprView>) -> StatsView {
    stats_upto(nodes, nodes.len())
}

/// Whether every counter of `s` is at most `t`'s.
pub open spec fn stats_le(s: StatsView, t: StatsView) -> bool {
    &&& s.total_nodes <= t.total_nodes
    &&& s.plan_nodes <= t.plan_nodes
    &&& s.scan_nodes <= t.scan_nodes
    &&& s.scan_columns <= t.scan_columns
    &&& s.filter_nodes <= t.filter_nodes
    &&& s.proj_nodes <= t.proj_nodes
    &&& s.order_nodes <= t.order_nodes
    &&& s.topn_nodes <= t.topn_nodes
    &&& s.agg_nodes <= t.agg_nodes
    &&& s.join_nodes <= t.join_nodes
    &&& s.hashjoin_nodes <= t.hashjoin_nodes
    &&& s.empty_nodes <= t.empty_nodes
    &&& s.max_depth <= t.max_depth
    &&& s.empty_scan_schemas <= t.empty_scan_schemas
    &&& s.bare_list_symbols <= t.bare_list_symbols
    &&& s.hashjoin_empty_keys <= t.hashjoin_empty_keys
    &&& s.hashjoin_non_column_keys <= t.hashjoin_non_column_keys
}

/// Whether every counter of `s` fits in a `usize`.
pub open spec fn stats_fit(s: StatsView) -> bool {
    &&& s.total_nodes <= usize::MAX
    &&& s.plan_nodes <= usize::MAX
    &&& s.scan_nodes <= usize::MAX
    &&& s.scan_columns <= usize::MAX
    &&& s.filter_nodes <= usize::MAX
    &&& s.proj_nodes <= usize::MAX
    &&& s.order_nodes <= usize::MAX
    &&& s.topn_nodes <= usize::MAX
    &&& s.agg_nodes <= usize::MAX
    &&& s.join_nodes <= usize::MAX
    &&& s.hashjoin_nodes <= usize::MAX
    &&& s.empty_nodes <= usize::MAX
    &&& s.max_depth <= usize::MAX
    &&& s.empty_scan_schemas <= usize::MAX
    &&& s.bare_list_symbols <= usize::MAX
    &&& s.hashjoin_empty_keys <= usize::MAX
    &&& s.hashjoin_non_column_keys <= usize::MAX
}

/// Counting more nodes never lowers a counter.
proof fn lemma_stats_monotone(nodes: Seq<ExprView>, k: nat, n: nat)
    requires
        k <= n,
    ensures
        stats_le(stats_upto(nodes, k), stats_upto(nodes, n)),
    decreases n - k,
{
    if k < n {
        lemma_stats_monotone(nodes, k, (n - 1) as nat);
    }
}


/// The number of nodes among the first `n` whose operator satisfies `f`.
pub open spec fn count_where(nodes: Seq<ExprView>, n: nat, f: spec_fn(Op) -> bool) -> nat
    decreases n,
{
    if n == 0 {
        0
    } else {
        count_where(nodes, (n - 1) as nat, f) + if f(nodes[n - 1].op) { 1nat } else { 0nat }
    }
}

/// The sum of `f` over the first `n` nodes.
pub open spec fn sum_over(nodes: Seq<ExprView>, n: nat, f: spec_fn(ExprView) -> nat) -> nat
    decreases n,
{
    if n == 0 {
        0
    } else {
        sum_over(nodes, (n - 1) as nat, f) + f(nodes[n - 1])
    }
}

/// The columns a scan node reads: the items of its column list.
pub open spec fn scan_width(nodes: Seq<ExprView>, e: ExprView) -> nat {
    if e.op is Scan { list_len(nodes, e.children[1]) } else { 0 }
}

/// The key lists of a hash join node that are empty.
pub open spec fn empty_key_lists(nodes: Seq<ExprView>, e: ExprView) -> nat {
    if e.op is HashJoin {
        (if list_len(nodes, e.children[1]) == 0 { 1nat } else { 0nat }) + (if list_len(nodes, e.children[2]) == 0 {
            1nat
        } else {
            0nat
        })
    } else {
        0
    }
}

/// The keys of a hash join node that are not columns.
pub open spec fn non_column_keys(nodes: Seq<ExprView>, e: ExprView) -> nat {
    if e.op is HashJoin {
        non_column_key_count(nodes, e.children[1]) + non_column_key_count(nodes, e.children[2])
    } else {
        0
    }
}

/// The per-kind counters after the first `n` nodes (see
/// [`lemma_plan_stats_kinds`]).
proof fn lemma_stats_upto_kinds(nodes: Seq<ExprView>, n: nat)
    requires
        n <= nodes.len(),
    ensures
        ({
            let s = stats_upto(nodes, n);
            &&& s.scan_nodes == count_where(nodes, n, |o: Op| o is Scan)
            &&& s.proj_nodes == count_where(nodes, n, |o: Op| o is Proj)
            &&& s.filter_nodes == count_where(nodes, n, |o: Op| o is Filter)
            &&& s.order_nodes == count_where(nodes, n, |o: Op| o is Order)
            &&& s.topn_nodes == count_where(nodes, n, |o: Op| o is TopN)
            &&& s.agg_nodes == count_where(nodes, n, |o: Op| o is Agg)
            &&& s.join_nodes == count_where(nodes, n, |o: Op| o is Join)
            &&& s.hashjoin_nodes == count_where(nodes, n, |o: Op| o is HashJoin)
            &&& s.empty_nodes == count_where(nodes, n, |o: Op| o is Empty)
            &&& s.bare_list_symbols == count_where(nodes, n, |o: Op| o == Op::Column(list_text()))
            &&& s.scan_columns == sum_over(nodes, n, |e: ExprView| scan_width(nodes, e))
            &&& s.empty_scan_schemas == sum_over(
                nodes,
                n,
                |e: ExprView| if e.op is Scan && scan_width(nodes, e) == 0 { 1nat } else { 0nat },
            )
            &&& s.hashjoin_empty_keys == sum_over(nodes, n, |e: ExprView| empty_key_lists(nodes, e))
            &&& s.hashjoin_non_column_keys == sum_over(nodes, n, |e: ExprView| non_column_keys(nodes, e))
        }),
    decreases n,
{
    if n > 0 {
        lemma_stats_upto_kinds(nodes, (n - 1) as nat);
    }
}

/// Each per-kind counter of the statistics counts exactly the nodes of its
/// kind: scans, projections, filters, orders, top-n nodes, aggregations,
/// joins, hash joins and empty plans; the bare `list` symbols are exactly the
/// columns named `list`; the scanned columns are the items of every scan's
/// column list, the empty scan schemas the scans with none; and the empty and
/// non-column keys are summed over the key lists of every hash join.
pub proof fn lemma_plan_stats_kinds(nodes: Seq<ExprView>)
    ensures
        ({
            let s = plan_stats(nodes);
            &&& s.scan_nodes == count_where(nodes, nodes.len(), |o: Op| o is Scan)
            &&& s.proj_nodes == count_where(nodes, nodes.len(), |o: Op| o is Proj)
            &&& s.filter_nodes == count_where(nodes, nodes.len(), |o: Op| o is Filter)
            &&& s.order_nodes == count_where(nodes, nodes.len(), |o: Op| o is Order)
            &&& s.topn_nodes == count_where(nodes, nodes.len(), |o: Op| o is TopN)
            &&& s.agg_nodes == count_where(nodes, nodes.len(), |o: Op| o is Agg)
            &&& s.join_nodes == count_where(nodes, nodes.len(), |o: Op| o is Join)
            &&& s.hashjoin_nodes == count_where(nodes, nodes.len(), |o: Op| o is HashJoin)
            &&& s.empty_nodes == count_where(nodes, nodes.len(), |o: Op| o is Empty)
            &&& s.bare_list_symbols == count_where(nodes, nodes.len(), |o: Op| o == Op::Column(list_text()))
            &&& s.scan_columns == sum_over(nodes, nodes.len(), |e: ExprView| scan_width(nodes, e))
            &&& s.empty_scan_schemas == sum_over(
                nodes,
                nodes.len(),
                |e: ExprView| if e.op is Scan && scan_width(nodes, e) == 0 { 1nat } else { 0nat },
            )
            &&& s.hashjoin_empty_keys == sum_over(nodes, nodes.len(), |e: ExprView| empty_key_lists(nodes, e))
            &&& s.hashjoin_non_column_keys == sum_over(nodes, nodes.len(), |e: ExprView| non_column_keys(nodes, e))
        }),
{
    lemma_stats_upto_kinds(nodes, nodes.len());
}

/// The number of `values` and `limit` nodes among the first `n` nodes.
pub open spec fn values_limit_upto(nodes: Seq<ExprView>, n: nat) -> nat
    decreases n,
{
    if n == 0 {
        0
    } else {
        values_limit_upto(nodes, (n - 1) as nat) + if nodes[n - 1].op is Values || nodes[n - 1].op is Limit {
            1nat
        } else {
            0nat
        }
    }
}

/// The greatest depth among the first `n` nodes; 0 for none.
pub open spec fn height_upto(nodes: Seq<ExprView>, n: nat) -> nat
    decreases n,
{
    if n == 0 {
        0
    } else {
        let d = depth(nodes, n - 1);
        let h = height_upto(nodes, (n - 1) as nat);
        if d > h { d } else { h }
    }
}

/// The counters after the first `n` nodes (see [`lemma_plan_stats_laws`]).
proof fn lemma_stats_upto_laws(nodes: Seq<ExprView>, n: nat)
    requires
        n <= nodes.len(),
    ensures
        ({
            let s = stats_upto(nodes, n);
            &&& s.total_nodes == n
            &&& s.plan_nodes == s.scan_nodes + s.proj_nodes + s.filter_nodes + s.order_nodes + s.topn_nodes
                + s.agg_nodes + s.join_nodes + s.hashjoin_nodes + s.empty_nodes + values_limit_upto(nodes, n)
            &&& s.empty_scan_schemas <= s.scan_nodes
            &&& s.hashjoin_empty_keys <= 2 * s.hashjoin_nodes
            &&& s.max_depth == height_upto(nodes, n)
            &&& forall|i: int| 0 <= i < n ==> #[trigger] depth(nodes, i) <= s.max_depth
            &&& n > 0 ==> s.max_depth > 0
        }),
    decreases n,
{
    if n > 0 {
        lemma_stats_upto_laws(nodes, (n - 1) as nat);
        assert(depth(nodes, n - 1) >= 1);
    }
}

/// The statistics of a plan add up: one count per node; the plan nodes are
/// those of each counted kind plus the `values` and `limit` nodes; no more
/// empty scan schemas than scans; at most two empty key lists per hash join;
/// and the greatest depth is the height of the tallest tree, 0 exactly when
/// there is no node.
pub proof fn lemma_plan_stats_laws(nodes: Seq<ExprView>)
    ensures
        ({
            let s = plan_stats(nodes);
            &&& s.total_nodes == nodes.len()
            &&& s.plan_nodes == s.scan_nodes + s.proj_nodes + s.filter_nodes + s.order_nodes + s.topn_nodes
                + s.agg_nodes + s.join_nodes + s.hashjoin_nodes + s.empty_nodes + values_limit_upto(nodes, nodes.len())
            &&& s.empty_scan_schemas <= s.scan_nodes
            &&& s.hashjoin_empty_keys <= 2 * s.hashjoin_nodes
            &&& s.max_depth == height_upto(nodes, nodes.len())
            &&& forall|i: int| 0 <= i < nodes.len() ==> #[trigger] depth(nodes, i) <= s.max_depth
            &&& (s.max_depth == 0 <==> nodes.len() == 0)
        }),
{
    lemma_stats_upto_laws(nodes, nodes.len());
}

/// The depth of a node is at most one more than its index.
proof fn lemma_depth_bound(nodes: Seq<ExprView>, i: int)
    requires
        children_before(nodes),
        0 <= i < nodes.len(),
    ensures
        depth(nodes, i) <= i + 1,
    decreases i, 1nat, 0nat,
{
    lemma_max_child_depth_bound(nodes, nodes[i].children, i);
}

/// The deepest of some earlier nodes is at most as deep as the index of the
/// node they are children of.
proof fn lemma_max_child_depth_bound(nodes: Seq<ExprView>, items: Seq<Id>, i: int)
    requires
        children_before(nodes),
        0 <= i < nodes.len(),
    ensures
        max_child_depth(nodes, items, i) <= i,
    decreases i, 0nat, items.len(),
{
    if items.len() > 0 {
        lemma_max_child_depth_bound(nodes, items.drop_last(), i);
        if 0 <= items.last() < i {
            lemma_depth_bound(nodes, items.last() as int);
        }
    }
}

/// The number of items of the list at `id`; 0 when the node is not a list.
pub fn list_len_of(nodes: &Vec<Expr>, id: Id) -> (r: usize)
    requires
        id < nodes@.len(),
    ensures
        r == list_len(expr_views(nodes@), id),
{
    match &nodes[id] {
        Expr::List(ids) => ids.len(),
        _ => 0,
    }
}

/// The number of keys of the list at `id` that are not columns; 0 when the
/// node is not a list.
pub fn non_column_key_count_of(nodes: &Vec<Expr>, id: Id) -> (r: usize)
    requires
        id < nodes@.len(),
        children_before(expr_views(nodes@)),
    ensures
        r == non_column_key_count(expr_views(nodes@), id),
{
    let ghost v = expr_views(nodes@);
    match &nodes[id] {
        Expr::List(ids) => {
            let mut count: usize = 0;
            for k in 0..ids.len()
                invariant
                    v == expr_views(nodes@),
                    nodes@[id as int] == Expr::List(*ids),
                    id < nodes@.len(),
                    children_before(v),
                    count == count_non_columns(v, ids@.take(k as int)),
                    count <= k,
            {
                assert(ids@.take(k + 1).drop_last() == ids@.take(k as int));
                let item = ids[k];
                assert(v[id as int].children[k as int] == item);
                assert(item < id);
                let is_column = match &nodes[item] {
                    Expr::Column(_) => true,
                    _ => false,
                };
                if !is_column {
                    count = count + 1;
                }
            }
            assert(ids@.take(ids@.len() as int) == ids@);
            count
        },
        _ => 0,
    }
}

/// Whether the text of a column is `list`.
fn is_list_text(c: &String) -> (r: bool)
    ensures
        r == (c@ == list_text()),
{
    let v = crate::text::chars_of(c.as_str());
    crate::text::same_chars(&v, &vec!['l', 'i', 's', 't'])
}


/// Counts node `i`, of depth `d`, into `st` (see [`count_node`]).
fn count_node_exec(st: &mut PlanStats, nodes: &Vec<Expr>, i: usize, d: usize)
    requires
        i < nodes@.len(),
        children_before(expr_views(nodes@)),
        d == depth(expr_views(nodes@), i as int),
        stats_fit(count_node(old(st)@, expr_views(nodes@), i as int)),
    ensures
        final(st)@ == count_node(old(st)@, expr_views(nodes@), i as int),
{
    let ghost v = expr_views(nodes@);
    proof {
        nodes@[i as int].lemma_well_formed();
    }
    st.total_nodes = st.total_nodes + 1;
    if d > st.max_depth {
        st.max_depth = d;
    }
    match &nodes[i] {
        Expr::Scan(a) => {
            let width = list_len_of(nodes, a[1]);
            st.plan_nodes = st.plan_nodes + 1;
            st.scan_nodes = st.scan_nodes + 1;
            st.scan_columns = st.scan_columns + width;
            if width == 0 {
                st.empty_scan_schemas = st.empty_scan_schemas + 1;
            }
        },
        Expr::Values(_) | Expr::Limit(_) => {
            st.plan_nodes = st.plan_nodes + 1;
        },
        Expr::Proj(_) => {
            st.plan_nodes = st.plan_nodes + 1;
            st.proj_nodes = st.proj_nodes + 1;
        },
        Expr::Filter(_) => {
            st.plan_nodes = st.plan_nodes + 1;
            st.filter_nodes = st.filter_nodes + 1;
        },
        Expr::Order(_) => {
            st.plan_nodes = st.plan_nodes + 1;
            st.order_nodes = st.order_nodes + 1;
        },
        Expr::TopN(_) => {
            st.plan_nodes = st.plan_nodes + 1;
            st.topn_nodes = st.topn_nodes + 1;
        },
        Expr::Agg(_) => {
            st.plan_nodes = st.plan_nodes + 1;
            st.agg_nodes = st.agg_nodes + 1;
        },
        Expr::Join(_) => {
            st.plan_nodes = st.plan_nodes + 1;
            st.join_nodes = st.join_nodes + 1;
        },
        Expr::HashJoin(a) => {
            st.plan_nodes = st.plan_nodes + 1;
            st.hashjoin_nodes = st.hashjoin_nodes + 1;
            let l = a[1];
            let r = a[2];
            let left_empty: usize = if list_len_of(nodes, l) == 0 { 1 } else { 0 };
            let right_empty: usize = if list_len_of(nodes, r) == 0 { 1 } else { 0 };
            st.hashjoin_empty_keys = st.hashjoin_empty_keys + left_empty + right_empty;
            let left_nc = non_column_key_count_of(nodes, l);
            let right_nc = non_column_key_count_of(nodes, r);
            st.hashjoin_non_column_keys = st.hashjoin_non_column_keys + left_nc + right_nc;
        },
        Expr::Empty(_) => {
            st.plan_nodes = st.plan_nodes + 1;
            st.empty_nodes = st.empty_nodes + 1;
        },
        Expr::Column(c) => {
            if is_list_text(c) {
                st.bare_list_symbols = st.bare_list_symbols + 1;
            }
        },
        _ => {},
    }
}

/// The statistics of a plan whose nodes are listed children first (see
/// [`plan_stats`]).
pub fn collect_plan_stats(nodes: &Vec<Expr>) -> (r: PlanStats)
    requires
        children_before(expr_views(nodes@)),
        stats_fit(plan_stats(expr_views(nodes@))),
    ensures
        r@ == plan_stats(expr_views(nodes@)),
{
    let ghost v = expr_views(nodes@);
    let mut st = PlanStats {
        total_nodes: 0,
        plan_nodes: 0,
        scan_nodes: 0,
        scan_columns: 0,
        filter_nodes: 0,
        proj_nodes: 0,
        order_nodes: 0,
        topn_nodes: 0,
        agg_nodes: 0,
        join_nodes: 0,
        hashjoin_nodes: 0,
        empty_nodes: 0,
        max_depth: 0,
        empty_scan_schemas: 0,
        bare_list_symbols: 0,
        hashjoin_empty_keys: 0,
        hashjoin_non_column_keys: 0,
    };
    let mut depths: Vec<usize> = Vec::new();
    for i in 0..nodes.len()
        invariant
            v == expr_views(nodes@),
            children_before(v),
            stats_fit(plan_stats(v)),
            depths@.len() == i,
            forall|k: int| 0 <= k < i ==> depths@[k] == depth(v, k),
            st@ == stats_upto(v, i as nat),
    {
        let children = nodes[i].children();
        let mut m: usize = 0;
        for j in 0..children.len()
            invariant
                v == expr_views(nodes@),
                children_before(v),
                0 <= i < v.len(),
                children@ == v[i as int].children,
                depths@.len() == i,
                forall|k: int| 0 <= k < i ==> depths@[k] == depth(v, k),
                m == max_child_depth(v, children@.take(j as int), i as int),
        {
            assert(children@.take(j + 1).drop_last() == children@.take(j as int));
            let c = children[j];
            assert(v[i as int].children[j as int] == c);
            assert(c < i);
            assert(children@.take(j + 1).last() == c);
            let d = depths[c];
            assert(d == depth(v, c as int));
            assert(max_child_depth(v, children@.take(j + 1), i as int) == (if depth(v, c as int) > m {
                depth(v, c as int)
            } else {
                m as nat
            }));
            if d > m {
                m = d;
            }
        }
        assert(children@.take(children@.len() as int) == children@);
        proof {
            lemma_depth_bound(v, i as int);
            lemma_stats_monotone(v, (i + 1) as nat, v.len());
        }
        let d = m + 1;
        depths.push(d);
        count_node_exec(&mut st, nodes, i, d);
    }
    st
}

/// Whether the statistics show a shape of a broken plan.
pub open spec fn suspicious(s: StatsView) -> bool {
    s.empty_scan_schemas > 0 || s.bare_list_symbols > 0 || s.hashjoin_empty_keys > 0
        || s.hashjoin_non_column_keys > 0
}

/// Whether the statistics show a shape of a broken plan: a scan of no
/// column, a bare `list` symbol, a hash join with no key or a non-column key.
pub fn is_suspicious(stats: &PlanStats) -> (r: bool)
    ensures
        r == suspicious(stats@),
{
    stats.empty_scan_schemas > 0 || stats.bare_list_symbols > 0 || stats.hashjoin_empty_keys > 0
        || stats.hashjoin_non_column_keys > 0
}

/// `label=n`.
pub open spec fn warning_item(label: Seq<char>, n: nat) -> Seq<char> {
    label + seq!['='] + crate::text::nat_decimal(n)
}

/// The warnings of the statistics, in order: each nonzero count of a broken
/// shape, labelled.
pub open spec fn warning_items(s: StatsView) -> Seq<Seq<char>> {
    let a = if s.empty_scan_schemas > 0 {
        seq![warning_item("empty_scans"@, s.empty_scan_schemas)]
    } else {
        Seq::empty()
    };
    let b = if s.bare_list_symbols > 0 {
        seq![warning_item("bare_list_symbols"@, s.bare_list_symbols)]
    } else {
        Seq::empty()
    };
    let c = if s.hashjoin_empty_keys > 0 {
        seq![warning_item("hashjoin_empty_keys"@, s.hashjoin_empty_keys)]
    } else {
        Seq::empty()
    };
    let d = if s.hashjoin_non_column_keys > 0 {
        seq![warning_item("hashjoin_non_column_keys"@, s.hashjoin_non_column_keys)]
    } else {
        Seq::empty()
    };
    a + b + c + d
}

/// The items joined by a separator.
pub open spec fn join_texts(items: Seq<Seq<char>>, sep: Seq<char>) -> Seq<char>
    decreases items.len(),
{
    if items.len() == 0 {
        Seq::empty()
    } else if items.len() == 1 {
        items[0]
    } else {
        join_texts(items.drop_last(), sep) + sep + items.last()
    }
}

/// The warning summary: the warnings joined by `; `, or `none`.
pub open spec fn warning_text(s: StatsView) -> Seq<char> {
    if warning_items(s).len() == 0 {
        "none"@
    } else {
        join_texts(warning_items(s), "; "@)
    }
}

/// A joined list of nonempty items starts with the first item's first character.
proof fn lemma_join_first(items: Seq<Seq<char>>, sep: Seq<char>)
    requires
        items.len() > 0,
        items[0].len() > 0,
    ensures
        join_texts(items, sep).len() > 0,
        join_texts(items, sep)[0] == items[0][0],
    decreases items.len(),
{
    if items.len() > 1 {
        lemma_join_first(items.drop_last(), sep);
    }
}

/// A plan's warning summary is `none` exactly when its statistics show no
/// suspicious shape: every suspicious plan gets at least one warning.
pub proof fn lemma_warnings_none_iff_not_suspicious(s: StatsView)
    ensures
        (warning_text(s) == "none"@) <==> !suspicious(s),
{
    reveal_strlit("none");
    reveal_strlit("empty_scans");
    reveal_strlit("bare_list_symbols");
    reveal_strlit("hashjoin_empty_keys");
    reveal_strlit("hashjoin_non_column_keys");
    let items = warning_items(s);
    if suspicious(s) {
        assert(items.len() > 0);
        assert(items[0].len() > 0 && items[0][0] != 'n');
        lemma_join_first(items, "; "@);
    } else {
        assert(items.len() == 0);
    }
}

/// Appends `label=n`, preceded by `; ` unless it is the first warning.
fn push_warning(out: &mut Vec<char>, items: Ghost<Seq<Seq<char>>>, label: &str, n: usize) -> (r: Ghost<
    Seq<Seq<char>>,
>)
    requires
        old(out)@ == join_texts(items@, "; "@),
        (old(out)@.len() == 0) == (items@.len() == 0),
        forall|i: int| 0 <= i < items@.len() ==> (#[trigger] items@[i]).len() > 0,
    ensures
        r@ == items@.push(warning_item(label@, n as nat)),
        final(out)@ == join_texts(r@, "; "@),
        final(out)@.len() > 0,
        forall|i: int| 0 <= i < r@.len() ==> (#[trigger] r@[i]).len() > 0,
{
    let ghost item = warning_item(label@, n as nat);
    if out.len() > 0 {
        let sep = crate::text::chars_of("; ");
        crate::text::extend_chars(out, &sep);
    }
    let l = crate::text::chars_of(label);
    crate::text::extend_chars(out, &l);
    out.push('=');
    crate::text::push_decimal(n as u64, out);
    let ghost r = items@.push(item);
    proof {
        assert(r.drop_last() =~= items@);
        if items@.len() == 0 {
            assert(out@ =~= item);
        } else {
            assert(out@ =~= join_texts(items@, "; "@) + "; "@ + item);
        }
    }
    Ghost(r)
}

/// The warning summary of the statistics (see [`warning_text`]).
pub fn warning_summary(stats: &PlanStats) -> (r: String)
    ensures
        r@ == warning_text(stats@),
{
    let mut out: Vec<char> = Vec::new();
    let mut items: Ghost<Seq<Seq<char>>> = Ghost(Seq::empty());
    if stats.empty_scan_schemas > 0 {
        items = push_warning(&mut out, items, "empty_scans", stats.empty_scan_schemas);
    }
    if stats.bare_list_symbols > 0 {
        items = push_warning(&mut out, items, "bare_list_symbols", stats.bare_list_symbols);
    }
    if stats.hashjoin_empty_keys > 0 {
        items = push_warning(&mut out, items, "hashjoin_empty_keys", stats.hashjoin_empty_keys);
    }
    if stats.hashjoin_non_column_keys > 0 {
        items = push_warning(&mut out, items, "hashjoin_non_column_keys", stats.hashjoin_non_column_keys);
    }
    assert(items@ =~= warning_items(stats@));
    if out.len() == 0 {
        String::from_str("none")
    } else {
        crate::text::string_of(&out)
    }
}


/// The views of a list of statistics.
pub open spec fn stats_views(v: Seq<PlanStats>) -> Seq<StatsView> {
    Seq::new(v.len(), |i: int| v[i]@)
}

/// The total plan nodes over a workload.
pub open spec fn total_plan_nodes(v: Seq<StatsView>) -> nat
    decreases v.len(),
{
    if v.len() == 0 { 0 } else { total_plan_nodes(v.drop_last()) + v.last().plan_nodes }
}

/// The total scanned columns over a workload.
pub open spec fn total_scan_columns(v: Seq<StatsView>) -> nat
    decreases v.len(),
{
    if v.len() == 0 { 0 } else { total_scan_columns(v.drop_last()) + v.last().scan_columns }
}

/// The number of suspicious plans of a workload.
pub open spec fn count_suspicious(v: Seq<StatsView>) -> nat
    decreases v.len(),
{
    if v.len() == 0 {
        0
    } else {
        count_suspicious(v.drop_last()) + if suspicious(v.last()) { 1nat } else { 0nat }
    }
}

/// The headline totals of a workload: plan nodes and scanned columns before
/// and after optimization, and the number of suspicious optimized plans.
pub struct WorkloadTotals {
    pub before_plan_nodes: usize,
    pub after_plan_nodes: usize,
    pub before_scan_columns: usize,
    pub after_scan_columns: usize,
    pub suspicious_plans: usize,
}

/// The totals over the statistics of the plans before and after optimization.
pub fn workload_totals(before: &Vec<PlanStats>, after: &Vec<PlanStats>) -> (r: WorkloadTotals)
    requires
        total_plan_nodes(stats_views(before@)) <= usize::MAX,
        total_plan_nodes(stats_views(after@)) <= usize::MAX,
        total_scan_columns(stats_views(before@)) <= usize::MAX,
        total_scan_columns(stats_views(after@)) <= usize::MAX,
    ensures
        r.before_plan_nodes == total_plan_nodes(stats_views(before@)),
        r.after_plan_nodes == total_plan_nodes(stats_views(after@)),
        r.before_scan_columns == total_scan_columns(stats_views(before@)),
        r.after_scan_columns == total_scan_columns(stats_views(after@)),
        r.suspicious_plans == count_suspicious(stats_views(after@)),
{
    let (bp, bs, _) = sums(before);
    let (ap, a_s, sus) = sums(after);
    WorkloadTotals {
        before_plan_nodes: bp,
        after_plan_nodes: ap,
        before_scan_columns: bs,
        after_scan_columns: a_s,
        suspicious_plans: sus,
    }
}

/// Totals never shrink as plans are added.
proof fn lemma_totals_prefix(v: Seq<StatsView>, k: int)
    requires
        0 <= k <= v.len(),
    ensures
        total_plan_nodes(v.take(k)) <= total_plan_nodes(v),
        total_scan_columns(v.take(k)) <= total_scan_columns(v),
        count_suspicious(v.take(k)) <= k,
    decreases v.len() - k,
{
    lemma_suspicious_bound(v.take(k));
    if k < v.len() {
        lemma_totals_prefix(v, k + 1);
        assert(v.take(k + 1).drop_last() == v.take(k));
    } else {
        assert(v.take(k) == v);
    }
}

/// At most every plan is suspicious.
proof fn lemma_suspicious_bound(v: Seq<StatsView>)
    ensures
        count_suspicious(v) <= v.len(),
    decreases v.len(),
{
    if v.len() > 0 {
        lemma_suspicious_bound(v.drop_last());
    }
}

/// The plan nodes, scanned columns and suspicious plans of a workload.
fn sums(v: &Vec<PlanStats>) -> (r: (usize, usize, usize))
    requires
        total_plan_nodes(stats_views(v@)) <= usize::MAX,
        total_scan_columns(stats_views(v@)) <= usize::MAX,
    ensures
        r.0 == total_plan_nodes(stats_views(v@)),
        r.1 == total_scan_columns(stats_views(v@)),
        r.2 == count_suspicious(stats_views(v@)),
{
    let ghost sv = stats_views(v@);
    let mut p: usize = 0;
    let mut c: usize = 0;
    let mut n: usize = 0;
    for i in 0..v.len()
        invariant
            sv == stats_views(v@),
            total_plan_nodes(sv) <= usize::MAX,
            total_scan_columns(sv) <= usize::MAX,
            p == total_plan_nodes(sv.take(i as int)),
            c == total_scan_columns(sv.take(i as int)),
            n == count_suspicious(sv.take(i as int)),
    {
        assert(sv.take(i + 1).drop_last() == sv.take(i as int));
        assert(sv.take(i + 1).last() == v@[i as int]@);
        proof {
            lemma_totals_prefix(sv, i + 1);
        }
        p = p + v[i].plan_nodes;
        c = c + v[i].scan_columns;
        if is_suspicious(&v[i]) {
            n = n + 1;
        }
    }
    assert(sv.take(v@.len() as int) == sv);
    (p, c, n)
}

/// A CSV field without commas: each `,` becomes a space.
pub open spec fn csv_text(s: Seq<char>) -> Seq<char> {
    Seq::new(s.len(), |i: int| if s[i] == ',' { ' ' } else { s[i] })
}

/// A text as a CSV field (see [`csv_text`]).
pub fn csv_field(s: &str) -> (r: String)
    ensures
        r@ == csv_text(s@),
{
    let v = crate::text::chars_of(s);
    let mut out: Vec<char> = Vec::new();
    for i in 0..v.len()
        invariant
            out@ == csv_text(v@.take(i as int)),
    {
        let c = if v[i] == ',' { ' ' } else { v[i] };
        out.push(c);
        assert(out@ =~= csv_text(v@.take(i + 1)));
    }
    assert(v@.take(v@.len() as int) == v@);
    crate::text::string_of(&out)
}

/// Whether every child of a node comes before it (see [`children_before`]).
pub fn children_precede(nodes: &Vec<Expr>) -> (r: bool)
    ensures
        r == children_before(expr_views(nodes@)),
{
    let ghost v = expr_views(nodes@);
    for i in 0..nodes.len()
        invariant
            v == expr_views(nodes@),
            forall|a: int, k: int| 0 <= a < i && 0 <= k < v[a].children.len() ==> #[trigger] v[a].children[k] < a,
    {
        let c = nodes[i].children();
        for k in 0..c.len()
            invariant
                v == expr_views(nodes@),
                0 <= i < v.len(),
                c@ == v[i as int].children,
                forall|a: int, k2: int| 0 <= a < i && 0 <= k2 < v[a].children.len() ==> #[trigger] v[a].children[k2] < a,
                forall|k2: int| 0 <= k2 < k ==> #[trigger] c@[k2] < i,
        {
            if c[k] >= i {
                assert(v[i as int].children[k as int] >= i);
                return false;
            }
        }
    }
    true
}

/// Whether counting node `i` into `st` keeps every counter within `usize`.
fn node_fits(st: &PlanStats, nodes: &Vec<Expr>, i: usize, d: usize) -> (r: bool)
    requires
        i < nodes@.len(),
        children_before(expr_views(nodes@)),
        d == depth(expr_views(nodes@), i as int),
        stats_fit(st@),
    ensures
        r == stats_fit(count_node(st@, expr_views(nodes@), i as int)),
{
    let ghost v = expr_views(nodes@);
    proof {
        nodes@[i as int].lemma_well_formed();
    }
    assert(v[i as int] == nodes@[i as int]@);
    if st.total_nodes == usize::MAX {
        return false;
    }
    let m = usize::MAX;
    match &nodes[i] {
        Expr::Scan(a) => {
            assert(v[i as int].children[1] == a[1]);
            let width = list_len_of(nodes, a[1]);
            st.plan_nodes < m && st.scan_nodes < m && st.scan_columns <= m - width
                && (width != 0 || st.empty_scan_schemas < m)
        },
        Expr::Values(_) | Expr::Limit(_) => st.plan_nodes < m,
        Expr::Proj(_) => st.plan_nodes < m && st.proj_nodes < m,
        Expr::Filter(_) => st.plan_nodes < m && st.filter_nodes < m,
        Expr::Order(_) => st.plan_nodes < m && st.order_nodes < m,
        Expr::TopN(_) => st.plan_nodes < m && st.topn_nodes < m,
        Expr::Agg(_) => st.plan_nodes < m && st.agg_nodes < m,
        Expr::Join(_) => st.plan_nodes < m && st.join_nodes < m,
        Expr::HashJoin(a) => {
            assert(v[i as int].children[1] == a[1] && v[i as int].children[2] == a[2]);
            let l = a[1];
            let r = a[2];
            let left_empty: usize = if list_len_of(nodes, l) == 0 { 1 } else { 0 };
            let right_empty: usize = if list_len_of(nodes, r) == 0 { 1 } else { 0 };
            let left_nc = non_column_key_count_of(nodes, l);
            let right_nc = non_column_key_count_of(nodes, r);
            st.plan_nodes < m && st.hashjoin_nodes < m && st.hashjoin_empty_keys <= m - left_empty - right_empty
                && left_nc <= m - st.hashjoin_non_column_keys
                && right_nc <= m - st.hashjoin_non_column_keys - left_nc
        },
        Expr::Empty(_) => st.plan_nodes < m && st.empty_nodes < m,
        Expr::Column(c) => !is_list_text(c) || st.bare_list_symbols < m,
        _ => true,
    }
}

/// The statistics of a plan whose nodes are listed children first (see
/// [`plan_stats`]), or `None` when a counter does not fit in a `usize`.
pub fn plan_stats_checked(nodes: &Vec<Expr>) -> (r: Option<PlanStats>)
    requires
        children_before(expr_views(nodes@)),
    ensures
        r is Some <==> stats_fit(plan_stats(expr_views(nodes@))),
        r is Some ==> r->0@ == plan_stats(expr_views(nodes@)),
{
    let ghost v = expr_views(nodes@);
    let mut st = PlanStats {
        total_nodes: 0,
        plan_nodes: 0,
        scan_nodes: 0,
        scan_columns: 0,
        filter_nodes: 0,
        proj_nodes: 0,
        order_nodes: 0,
        topn_nodes: 0,
        agg_nodes: 0,
        join_nodes: 0,
        hashjoin_nodes: 0,
        empty_nodes: 0,
        max_depth: 0,
        empty_scan_schemas: 0,
        bare_list_symbols: 0,
        hashjoin_empty_keys: 0,
        hashjoin_non_column_keys: 0,
    };
    let mut depths: Vec<usize> = Vec::new();
    for i in 0..nodes.len()
        invariant
            v == expr_views(nodes@),
            children_before(v),
            depths@.len() == i,
            forall|k: int| 0 <= k < i ==> depths@[k] == depth(v, k),
            st@ == stats_upto(v, i as nat),
            stats_fit(st@),
    {
        let children = nodes[i].children();
        let mut m: usize = 0;
        for j in 0..children.len()
            invariant
                v == expr_views(nodes@),
                children_before(v),
                0 <= i < v.len(),
                children@ == v[i as int].children,
                depths@.len() == i,
                forall|k: int| 0 <= k < i ==> depths@[k] == depth(v, k),
                m == max_child_depth(v, children@.take(j as int), i as int),
        {
            assert(children@.take(j + 1).drop_last() == children@.take(j as int));
            let c = children[j];
            assert(v[i as int].children[j as int] == c);
            assert(c < i);
            assert(children@.take(j + 1).last() == c);
            let d = depths[c];
            assert(d == depth(v, c as int));
            assert(max_child_depth(v, children@.take(j + 1), i as int) == (if depth(v, c as int) > m {
                depth(v, c as int)
            } else {
                m as nat
            }));
            if d > m {
                m = d;
            }
        }
        assert(children@.take(children@.len() as int) == children@);
        proof {
            lemma_depth_bound(v, i as int);
        }
        let d = m + 1;
        if !node_fits(&st, nodes, i, d) {
            proof {
                lemma_stats_monotone(v, (i + 1) as nat, v.len());
            }
            return None;
        }
        depths.push(d);
        count_node_exec(&mut st, nodes, i, d);
    }
    Some(st)
}


/// Whether the totals of a workload fit in a `usize` (the requirement of
/// [`workload_totals`]).
pub fn workload_fits(before: &Vec<PlanStats>, after: &Vec<PlanStats>) -> (r: bool)
    ensures
        r == (total_plan_nodes(stats_views(before@)) <= usize::MAX && total_plan_nodes(stats_views(after@))
            <= usize::MAX && total_scan_columns(stats_views(before@)) <= usize::MAX && total_scan_columns(
            stats_views(after@),
        ) <= usize::MAX),
{
    sums_fit(before) && sums_fit(after)
}

/// Whether the plan nodes and scanned columns of a workload each total at
/// most `usize::MAX`.
fn sums_fit(v: &Vec<PlanStats>) -> (r: bool)
    ensures
        r == (total_plan_nodes(stats_views(v@)) <= usize::MAX && total_scan_columns(stats_views(v@)) <= usize::MAX),
{
    let ghost sv = stats_views(v@);
    let mut p: usize = 0;
    let mut c: usize = 0;
    for i in 0..v.len()
        invariant
            sv == stats_views(v@),
            p == total_plan_nodes(sv.take(i as int)),
            c == total_scan_columns(sv.take(i as int)),
    {
        assert(sv.take(i + 1).drop_last() == sv.take(i as int));
        assert(sv.take(i + 1).last() == v@[i as int]@);
        if v[i].plan_nodes > usize::MAX - p || v[i].scan_columns > usize::MAX - c {
            proof {
                lemma_totals_prefix(sv, i + 1);
            }
            return false;
        }
        p = p + v[i].plan_nodes;
        c = c + v[i].scan_columns;
    }
    assert(sv.take(v@.len() as int) == sv);
    true
}
} // verus!
