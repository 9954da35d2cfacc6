//! Aggregate analysis and the extraction of aggregates from SELECT
//! statements into an `agg` plan node.
use vstd::prelude::*;

use crate::agg_extractor::{AggExtractor, Awaiting, Phase, Request, Step, start, wf};
use crate::language::{Expr, ExprView, Id, Op};

verus! {

/// The data type of aggregate analysis: the aggregate nodes within a tree.
pub type AggSet = Vec<Expr>;

/// The views of a list of nodes.
pub open spec fn expr_views(v: Seq<Expr>) -> Seq<ExprView> {
    Seq::new(v.len(), |i: int| v[i]@)
}

/// The concatenation of a sequence of sequences, in order.
pub open spec fn concat_all<A>(s: Seq<Seq<A>>) -> Seq<A>
    decreases s.len(),
{
    if s.len() == 0 {
        Seq::empty()
    } else {
        concat_all(s.drop_last()) + s.last()
    }
}

/// Whether the aggregates of the children of a node with this operator pass
/// through it: expression operators, lists, nesting and order keys.
pub open spec fn passes_aggs(op: Op) -> bool {
    match op {
        Op::Nested | Op::List | Op::Neg | Op::Not | Op::IsNull | Op::Add | Op::Sub | Op::Mul
        | Op::Div | Op::Eq | Op::Neq | Op::Gt | Op::Lt | Op::Gte | Op::Lte | Op::And | Op::Or
        | Op::Xor | Op::Asc | Op::Desc => true,
        _ => false,
    }
}

/// The aggregates in a tree, given the aggregates of the children of its root:
/// an aggregate node is its own only aggregate (an aggregate over an
/// aggregate yields only the outer one); expression nodes collect those of
/// their children in order; plan nodes and leaves have none.
pub open spec fn node_aggs(e: ExprView, child: Seq<Seq<ExprView>>) -> Seq<ExprView> {
    if crate::language::is_agg_op(e.op) {
        seq![e]
    } else if passes_aggs(e.op) {
        concat_all(child)
    } else {
        Seq::empty()
    }
}

/// The items of a concatenation are those of its parts.
proof fn lemma_concat_all_members<A>(s: Seq<Seq<A>>)
    ensures
        forall|k: int, j: int| 0 <= k < s.len() && 0 <= j < s[k].len() ==> concat_all(s).contains(#[trigger] s[k][j]),
        forall|x: A| #[trigger] concat_all(s).contains(x) ==> exists|k: int, j: int|
            0 <= k < s.len() && 0 <= j < s[k].len() && #[trigger] s[k][j] == x,
    decreases s.len(),
{
    if s.len() > 0 {
        let t = s.drop_last();
        lemma_concat_all_members(t);
        let c = concat_all(t) + s.last();
        assert(concat_all(s) == c);
        assert forall|k: int, j: int| 0 <= k < s.len() && 0 <= j < s[k].len() implies c.contains(
            #[trigger] s[k][j],
        ) by {
            if k < t.len() {
                assert(s[k] == t[k]);
                assert(concat_all(t).contains(t[k][j]));
                let i = choose|i: int| 0 <= i < concat_all(t).len() && concat_all(t)[i] == t[k][j];
                assert(c[i] == s[k][j]);
            } else {
                assert(c[concat_all(t).len() + j] == s[k][j]);
            }
        }
        assert forall|x: A| #[trigger] c.contains(x) implies exists|k: int, j: int|
            0 <= k < s.len() && 0 <= j < s[k].len() && #[trigger] s[k][j] == x by {
            let i = choose|i: int| 0 <= i < c.len() && c[i] == x;
            if i < concat_all(t).len() {
                assert(concat_all(t)[i] == x);
                assert(concat_all(t).contains(x));
                let (k, j) = choose|k: int, j: int| 0 <= k < t.len() && 0 <= j < t[k].len() && #[trigger] t[k][j] == x;
                assert(s[k] == t[k]);
            } else {
                let j = i - concat_all(t).len();
                assert(s[s.len() - 1][j] == x);
            }
        }
    }
}

/// The aggregates found in a tree: an aggregate node is its own only
/// aggregate (what lies below it is not looked at); an expression node — a
/// list, a nested reference, an arithmetic, comparison or logical operator,
/// `isnull`, or an `asc`/`desc` order key — has every aggregate of every child,
/// child by child in order, and no other; a plan node, a constant or a column
/// has none.
pub proof fn lemma_aggregates_of_tree(e: ExprView, child: Seq<Seq<ExprView>>)
    ensures
        (e.op is Max || e.op is Min || e.op is Sum || e.op is Avg || e.op is Count) ==> node_aggs(e, child) == seq![e],
        (e.op is Nested || e.op is List || e.op is IsNull || e.op is Neg || e.op is Not || e.op is Add
            || e.op is Sub || e.op is Mul || e.op is Div || e.op is Eq || e.op is Neq || e.op is Gt
            || e.op is Lt || e.op is Gte || e.op is Lte || e.op is And || e.op is Or || e.op is Xor
            || e.op is Asc || e.op is Desc) ==> {
            &&& node_aggs(e, child) == concat_all(child)
            &&& forall|k: int, j: int| 0 <= k < child.len() && 0 <= j < child[k].len()
                ==> node_aggs(e, child).contains(#[trigger] child[k][j])
            &&& forall|x: ExprView| #[trigger] node_aggs(e, child).contains(x) ==> exists|k: int, j: int|
                0 <= k < child.len() && 0 <= j < child[k].len() && #[trigger] child[k][j] == x
        },
        (e.op is Constant || e.op is Column || e.op is Empty || e.op is Scan || e.op is Values
            || e.op is Proj || e.op is Filter || e.op is Order || e.op is Limit || e.op is TopN
            || e.op is Agg || e.op is Join || e.op is HashJoin) ==> node_aggs(e, child).len() == 0,
{
    lemma_concat_all_members(child);
}

/// The views of the aggregate sets of the children.
pub open spec fn agg_set_views(v: Seq<&AggSet>) -> Seq<Seq<ExprView>> {
    Seq::new(v.len(), |i: int| expr_views(v[i]@))
}

/// A copy of a list of nodes.
pub fn copy_exprs(v: &Vec<Expr>) -> (r: Vec<Expr>)
    ensures
        expr_views(r@) == expr_views(v@),
{
    let mut r: Vec<Expr> = Vec::new();
    for i in 0..v.len()
        invariant
            expr_views(r@) == expr_views(v@).take(i as int),
    {
        let ghost prev = r@;
        let e = v[i].copy();
        r.push(e);
        assert(expr_views(r@) =~= expr_views(prev).push(e@));
        assert(expr_views(v@).take(i + 1) =~= expr_views(v@).take(i as int).push(v@[i as int]@));
    }
    assert(expr_views(v@).take(v.len() as int) == expr_views(v@));
    r
}

/// Appends copies of the nodes of `src` to `dst`.
pub fn extend_exprs(dst: &mut Vec<Expr>, src: &Vec<Expr>)
    ensures
        expr_views(final(dst)@) == expr_views(old(dst)@) + expr_views(src@),
{
    let ghost start = expr_views(dst@);
    for i in 0..src.len()
        invariant
            expr_views(dst@) == start + expr_views(src@).take(i as int),
    {
        let ghost prev = dst@;
        let e = src[i].copy();
        dst.push(e);
        assert(expr_views(dst@) =~= expr_views(prev).push(e@));
        assert(expr_views(src@).take(i + 1) =~= expr_views(src@).take(i as int).push(src@[i as int]@));
        assert(start + expr_views(src@).take(i + 1) =~= (start + expr_views(src@).take(i as int)).push(src@[i as int]@));
    }
    assert(expr_views(src@).take(src.len() as int) == expr_views(src@));
}

/// The aggregate analysis of a node: all aggregates in its tree, given the
/// aggregate sets of its children in order.
pub fn analyze_aggs(enode: &Expr, children: &Vec<&AggSet>) -> (r: AggSet)
    requires
        children@.len() == enode@.children.len(),
    ensures
        expr_views(r@) == node_aggs(enode@, agg_set_views(children@)),
{
    let ghost views = agg_set_views(children@);
    if enode.is_agg() {
        let mut r: Vec<Expr> = Vec::new();
        r.push(enode.copy());
        assert(expr_views(r@) =~= seq![enode@]);
        return r;
    }
    let passes = match enode {
        Expr::Nested(_) | Expr::List(_) | Expr::Neg(_) | Expr::Not(_) | Expr::IsNull(_)
        | Expr::Add(_) | Expr::Sub(_) | Expr::Mul(_) | Expr::Div(_) | Expr::Eq(_) | Expr::Neq(_)
        | Expr::Gt(_) | Expr::Lt(_) | Expr::Gte(_) | Expr::Lte(_) | Expr::And(_) | Expr::Or(_)
        | Expr::Xor(_) | Expr::Asc(_) | Expr::Desc(_) => true,
        _ => false,
    };
    let mut r: Vec<Expr> = Vec::new();
    if passes {
        for i in 0..children.len()
            invariant
                views == agg_set_views(children@),
                expr_views(r@) == concat_all(views.take(i as int)),
        {
            extend_exprs(&mut r, children[i]);
            assert(views.take(i + 1).drop_last() == views.take(i as int));
        }
        assert(views.take(children@.len() as int) == views);
    } else {
        assert(expr_views(r@) =~= Seq::<ExprView>::empty());
    }
    r
}


/// An error of aggregate extraction.
#[derive(Debug, PartialEq, Eq)]
pub enum Error {
    /// Aggregate function calls cannot be nested; carries the outer aggregate's name.
    NestedAgg(String),
    /// The WHERE clause cannot contain aggregates.
    AggInWhere,
    /// The GROUP BY clause cannot contain aggregates.
    AggInGroupBy,
    /// A column must appear in the GROUP BY clause or be used in an aggregate
    /// function; carries the column.
    ColumnNotInAgg(String),
}

/// The mathematical content of an [`Error`].
pub enum ErrorView {
    NestedAgg(Seq<char>),
    AggInWhere,
    AggInGroupBy,
    ColumnNotInAgg(Seq<char>),
}

impl View for Error {
    type V = ErrorView;

    open spec fn view(&self) -> ErrorView {
        match self {
            Error::NestedAgg(s) => ErrorView::NestedAgg(s@),
            Error::AggInWhere => ErrorView::AggInWhere,
            Error::AggInGroupBy => ErrorView::AggInGroupBy,
            Error::ColumnNotInAgg(s) => ErrorView::ColumnNotInAgg(s@),
        }
    }
}

/// Whether a class holds a node that makes it a list: a `list` node, or the
/// bare column `list`, which stands for the empty list.
pub open spec fn has_list(nodes: Seq<ExprView>) -> bool {
    exists|i: int| 0 <= i < nodes.len() && (nodes[i].op is List || nodes[i].op == Op::Column(list_name()))
}

/// The characters `list`.
pub open spec fn list_name() -> Seq<char> {
    seq!['l', 'i', 's', 't']
}

/// The index of the first `list` node among `nodes`, if any.
pub open spec fn first_list(nodes: Seq<ExprView>) -> Option<int>
    decreases nodes.len(),
{
    if nodes.len() == 0 {
        None
    } else if nodes[0].op is List {
        Some(0)
    } else {
        match first_list(nodes.drop_first()) {
            Some(i) => Some(i + 1),
            None => None,
        }
    }
}

/// The items of the list that a class stands for: those of its first `list`
/// node, or none when it holds the bare column `list` instead.
pub open spec fn class_list(nodes: Seq<ExprView>) -> Seq<Id> {
    match first_list(nodes) {
        Some(i) => nodes[i].children,
        None => Seq::empty(),
    }
}

/// The items of the list that a class with the nodes `nodes` stands for
/// (see [`class_list`]); `None` when it holds no list.
fn find_list(nodes: &Vec<Expr>) -> (r: Option<Vec<Id>>)
    ensures
        r is Some <==> has_list(expr_views(nodes@)),
        r is Some ==> r->0@ == class_list(expr_views(nodes@)),
{
    let ghost v = expr_views(nodes@);
    let mut i: usize = 0;
    assert(v.skip(0) == v);
    while i < nodes.len()
        invariant
            i <= nodes@.len(),
            v == expr_views(nodes@),
            forall|k: int| 0 <= k < i ==> !(v[k].op is List),
            first_list(v) == (match first_list(v.skip(i as int)) {
                Some(k) => Some(k + i),
                None => None::<int>,
            }),
        decreases nodes@.len() - i,
    {
        assert(v.skip(i as int).drop_first() == v.skip(i + 1));
        assert(v.skip(i as int)[0] == v[i as int]);
        if nodes[i].is_list() {
            let c = nodes[i].children();
            proof {
                assert(has_list(v));
            }
            return Some(c);
        }
        i = i + 1;
    }
    assert(first_list(v.skip(i as int)) is None);
    let name = vec!['l', 'i', 's', 't'];
    let mut j: usize = 0;
    while j < nodes.len()
        invariant
            j <= nodes@.len(),
            v == expr_views(nodes@),
            first_list(v) is None,
            forall|k: int| 0 <= k < nodes@.len() ==> !(v[k].op is List),
            forall|k: int| 0 <= k < j ==> v[k].op != Op::Column(list_name()),
            name@ == list_name(),
        decreases nodes@.len() - j,
    {
        if let Expr::Column(c) = &nodes[j] {
            let cv = crate::text::chars_of(c.as_str());
            if crate::text::same_chars(&cv, &name) {
                proof {
                    assert(v[j as int].op == Op::Column(list_name()));
                    assert(has_list(v));
                }
                return Some(Vec::new());
            }
        }
        j = j + 1;
    }
    None
}

/// Whether a class with the nodes `nodes` holds a list (see [`has_list`]).
pub fn holds_list(nodes: &Vec<Expr>) -> (r: bool)
    ensures
        r == has_list(expr_views(nodes@)),
{
    find_list(nodes).is_some()
}

/// The items of the list that a class with the nodes `nodes` stands for (see
/// [`class_list`]); the class holds a list.
pub fn list_of(nodes: &Vec<Expr>) -> (r: Vec<Id>)
    requires
        has_list(expr_views(nodes@)),
    ensures
        r@ == class_list(expr_views(nodes@)),
{
    match find_list(nodes) {
        Some(l) => l,
        None => Vec::new(),
    }
}

/// Starts converting a SELECT statement into a plan tree.
///
/// The nodes of all clauses are in the e-graph; `from`, `where_`, ... are the
/// ids of their root classes. The machine returned asks the e-graph what it
/// needs through the returned step, and [`AggExtractor::step`] takes each
/// reply until the run is done with the plan's root or an [`Error`].
pub fn plan_select(
    from: Id,
    where_: Id,
    having: Id,
    groupby: Id,
    orderby: Id,
    projection: Id,
) -> (r: (AggExtractor, Step))
    ensures
        (r.0@, r.1@) == start(from, where_, having, groupby, orderby, projection),
        wf(r.0@),
{
    let mut exprs: Vec<Id> = Vec::new();
    exprs.push(projection);
    exprs.push(having);
    exprs.push(orderby);
    let m = AggExtractor {
        from,
        where_,
        groupby,
        phase: Phase::WhereAggs,
        awaiting: Awaiting::Node,
        plan: 0,
        exprs,
        aggs: Vec::new(),
        agg_at: 0,
        child_at: 0,
        agg_ids: Vec::new(),
        groupby_list: Vec::new(),
        schema: Vec::new(),
        expr_at: 0,
        frames: Vec::new(),
        visiting: 0,
    };
    assert(m@.exprs =~= seq![projection, having, orderby]);
    assert(m@.aggs =~= Seq::<ExprView>::empty());
    assert(m@.frames =~= Seq::<crate::agg_extractor::FrameView>::empty());
    (m, Step::Request(Request::Aggs(where_)))
}

} // verus!
