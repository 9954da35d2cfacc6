//! Aggregate extraction for a SELECT statement, as a state machine.
//!
//! Turning a SELECT statement into a plan reads the e-graph (the aggregates,
//! the first node and the list of an e-class) and adds nodes to it, and its
//! decisions depend on what it reads and on the ids that the additions
//! return. The machine makes every decision; its driver performs each request
//! on the e-graph and replies with the outcome. Every request is answered from
//! the e-graph as it stands, which a run only grows.
use vstd::prelude::*;

use crate::agg::{Error, ErrorView, expr_views};
use crate::language::{Expr, ExprView, Id, Op, node_text};

verus! {

/// What the machine asks of the e-graph.
pub enum Request {
    /// The aggregate analysis data of an e-class.
    Aggs(Id),
    /// The list that an e-class stands for (see [`crate::agg::list_of`]).
    List(Id),
    /// The first node of an e-class.
    Node(Id),
    /// Adding a node; the reply is the id of its e-class.
    Add(Expr),
}

/// The e-graph's answer to a [`Request`].
pub enum Reply {
    Aggs(Vec<Expr>),
    List(Vec<Id>),
    Node(Expr),
    Added(Id),
}

/// What the machine does next: ask, or finish with the plan's root or an error.
pub enum Step {
    Request(Request),
    Done(Result<Id, Error>),
}

/// The mathematical content of a [`Request`].
pub enum RequestView {
    Aggs(Id),
    List(Id),
    Node(Id),
    Add(ExprView),
}

/// The mathematical content of a [`Reply`].
pub enum ReplyView {
    Aggs(Seq<ExprView>),
    List(Seq<Id>),
    Node(ExprView),
    Added(Id),
}

/// The mathematical content of a [`Step`].
pub enum StepView {
    Request(RequestView),
    Done(Result<Id, ErrorView>),
}

impl View for Request {
    type V = RequestView;

    open spec fn view(&self) -> RequestView {
        match self {
            Request::Aggs(i) => RequestView::Aggs(*i),
            Request::List(i) => RequestView::List(*i),
            Request::Node(i) => RequestView::Node(*i),
            Request::Add(e) => RequestView::Add(e@),
        }
    }
}

impl View for Reply {
    type V = ReplyView;

    open spec fn view(&self) -> ReplyView {
        match self {
            Reply::Aggs(v) => ReplyView::Aggs(expr_views(v@)),
            Reply::List(v) => ReplyView::List(v@),
            Reply::Node(e) => ReplyView::Node(e@),
            Reply::Added(i) => ReplyView::Added(*i),
        }
    }
}

impl View for Step {
    type V = StepView;

    open spec fn view(&self) -> StepView {
        match self {
            Step::Request(r) => StepView::Request(r@),
            Step::Done(Ok(i)) => StepView::Done(Ok(*i)),
            Step::Done(Err(e)) => StepView::Done(Err(e@)),
        }
    }
}

/// Where the machine stands: which reply it waits for.
pub enum Phase {
    /// The aggregates of the WHERE clause.
    WhereAggs,
    /// The aggregates of the GROUP BY clause.
    GroupByAggs,
    /// The id of `(filter where from)`.
    FilterAdded,
    /// The id of `(list projection having orderby)`.
    ExprListAdded,
    /// The aggregates of that list.
    ExprListAggs,
    /// The list of group keys.
    GroupByList,
    /// The aggregates of the child `child_at` of aggregate `agg_at`.
    NestedCheck,
    /// The id of aggregate `agg_at`.
    AggAdded,
    /// The id of the list of aggregate ids.
    AggListAdded,
    /// The id of the `agg` plan node.
    AggPlanAdded,
    /// A reply while rewriting expression `expr_at` over the aggregate schema.
    Rewrite,
    /// The id of `(filter having plan)`.
    HavingAdded,
    /// The id of `(order orderby plan)`.
    OrderAdded,
    /// The id of `(proj projection plan)`.
    ProjAdded,
    /// The run is over.
    Finished,
}

/// What a rewrite waits for.
pub enum Awaiting {
    /// The first node of the e-class being visited.
    Node,
    /// The id of a `nested` reference to a schema entry.
    NestedAdd,
    /// The id of the rebuilt node of the top frame.
    FrameAdd,
}

/// A node being rebuilt during a rewrite, with the new ids of the children
/// rewritten so far.
pub struct Frame {
    pub node: Expr,
    pub done: Vec<Id>,
}

/// The mathematical content of a [`Frame`].
pub struct FrameView {
    pub node: ExprView,
    pub done: Seq<Id>,
}

impl View for Frame {
    type V = FrameView;

    open spec fn view(&self) -> FrameView {
        FrameView { node: self.node@, done: self.done@ }
    }
}

/// The state of aggregate extraction.
pub struct AggExtractor {
    pub from: Id,
    pub where_: Id,
    pub groupby: Id,
    pub phase: Phase,
    pub awaiting: Awaiting,
    /// The plan built so far.
    pub plan: Id,
    /// The projection, HAVING and ORDER BY expressions, rewritten in turn.
    pub exprs: Vec<Id>,
    /// The aggregates of the projection, HAVING and ORDER BY expressions.
    pub aggs: Vec<Expr>,
    pub agg_at: usize,
    pub child_at: usize,
    /// The ids of the aggregates added so far.
    pub agg_ids: Vec<Id>,
    /// The group keys.
    pub groupby_list: Vec<Id>,
    /// The output schema of the `agg` node: aggregate ids, then group keys.
    pub schema: Vec<Id>,
    pub expr_at: usize,
    pub frames: Vec<Frame>,
    /// The e-class whose first node was asked for last.
    pub visiting: Id,
}

/// The mathematical content of an [`AggExtractor`].
pub struct MachineView {
    pub from: Id,
    pub where_: Id,
    pub groupby: Id,
    pub phase: Phase,
    pub awaiting: Awaiting,
    pub plan: Id,
    pub exprs: Seq<Id>,
    pub aggs: Seq<ExprView>,
    pub agg_at: nat,
    pub child_at: nat,
    pub agg_ids: Seq<Id>,
    pub groupby_list: Seq<Id>,
    pub schema: Seq<Id>,
    pub expr_at: nat,
    pub frames: Seq<FrameView>,
    pub visiting: Id,
}

/// The views of a list of frames.
pub open spec fn frame_views(v: Seq<Frame>) -> Seq<FrameView> {
    Seq::new(v.len(), |i: int| v[i]@)
}

impl View for AggExtractor {
    type V = MachineView;

    open spec fn view(&self) -> MachineView {
        MachineView {
            from: self.from,
            where_: self.where_,
            groupby: self.groupby,
            phase: self.phase,
            awaiting: self.awaiting,
            plan: self.plan,
            exprs: self.exprs@,
            aggs: expr_views(self.aggs@),
            agg_at: self.agg_at as nat,
            child_at: self.child_at as nat,
            agg_ids: self.agg_ids@,
            groupby_list: self.groupby_list@,
            schema: self.schema@,
            expr_at: self.expr_at as nat,
            frames: frame_views(self.frames@),
            visiting: self.visiting,
        }
    }
}

// ---- the ids of the aggregate list: sorted, each once ----

/// The items of `s` below `x`, in order.
pub open spec fn ids_below(s: Seq<Id>, x: Id) -> Seq<Id>
    decreases s.len(),
{
    if s.len() == 0 {
        Seq::empty()
    } else {
        let r = ids_below(s.drop_last(), x);
        if s.last() < x { r.push(s.last()) } else { r }
    }
}

/// The items of `s` above `x`, in order.
pub open spec fn ids_above(s: Seq<Id>, x: Id) -> Seq<Id>
    decreases s.len(),
{
    if s.len() == 0 {
        Seq::empty()
    } else {
        let r = ids_above(s.drop_last(), x);
        if s.last() > x { r.push(s.last()) } else { r }
    }
}

/// `x` inserted into a sorted list of distinct ids, unless already there.
pub open spec fn insert_id(s: Seq<Id>, x: Id) -> Seq<Id> {
    ids_below(s, x).push(x) + ids_above(s, x)
}

/// The distinct ids of `s` in increasing order (`sort` then `dedup`).
pub open spec fn sort_dedup(s: Seq<Id>) -> Seq<Id>
    decreases s.len(),
{
    if s.len() == 0 {
        Seq::empty()
    } else {
        insert_id(sort_dedup(s.drop_last()), s.last())
    }
}

/// Whether a list of ids is strictly increasing.
pub open spec fn strictly_increasing(s: Seq<Id>) -> bool {
    forall|i: int, j: int| 0 <= i < j < s.len() ==> s[i] < s[j]
}

/// The items below `x` are exactly the items of `s` below `x`, and they keep
/// the order of `s`.
proof fn lemma_ids_below(s: Seq<Id>, x: Id)
    ensures
        forall|y: Id| #[trigger] ids_below(s, x).contains(y) <==> (s.contains(y) && y < x),
        strictly_increasing(s) ==> strictly_increasing(ids_below(s, x)),
    decreases s.len(),
{
    broadcast use vstd::seq_lib::group_seq_properties;

    if s.len() > 0 {
        let t = s.drop_last();
        lemma_ids_below(t, x);
        assert forall|y: Id| s.contains(y) <==> (t.contains(y) || y == s.last()) by {
            if s.contains(y) {
                let k = choose|k: int| 0 <= k < s.len() && s[k] == y;
                if k < s.len() - 1 {
                    assert(t[k] == y);
                }
            }
            if t.contains(y) {
                let k = choose|k: int| 0 <= k < t.len() && t[k] == y;
                assert(s[k] == y);
            }
        }
        if strictly_increasing(s) {
            assert(strictly_increasing(t));
            let r = ids_below(t, x);
            if s.last() < x {
                assert forall|i: int, j: int| 0 <= i < j < r.len() + 1 implies r.push(s.last())[i]
                    < r.push(s.last())[j] by {
                    if j == r.len() {
                        assert(r.contains(r[i]));
                        assert(t.contains(r[i]));
                        let k = choose|k: int| 0 <= k < t.len() && t[k] == r[i];
                        assert(s[k] == r[i]);
                    }
                }
            }
        }
    }
}

/// The items above `x` are exactly the items of `s` above `x`, and they keep
/// the order of `s`.
proof fn lemma_ids_above(s: Seq<Id>, x: Id)
    ensures
        forall|y: Id| #[trigger] ids_above(s, x).contains(y) <==> (s.contains(y) && y > x),
        strictly_increasing(s) ==> strictly_increasing(ids_above(s, x)),
    decreases s.len(),
{
    broadcast use vstd::seq_lib::group_seq_properties;

    if s.len() > 0 {
        let t = s.drop_last();
        lemma_ids_above(t, x);
        assert forall|y: Id| s.contains(y) <==> (t.contains(y) || y == s.last()) by {
            if s.contains(y) {
                let k = choose|k: int| 0 <= k < s.len() && s[k] == y;
                if k < s.len() - 1 {
                    assert(t[k] == y);
                }
            }
            if t.contains(y) {
                let k = choose|k: int| 0 <= k < t.len() && t[k] == y;
                assert(s[k] == y);
            }
        }
        if strictly_increasing(s) {
            assert(strictly_increasing(t));
            let r = ids_above(t, x);
            if s.last() > x {
                assert forall|i: int, j: int| 0 <= i < j < r.len() + 1 implies r.push(s.last())[i]
                    < r.push(s.last())[j] by {
                    if j == r.len() {
                        assert(r.contains(r[i]));
                        assert(t.contains(r[i]));
                        let k = choose|k: int| 0 <= k < t.len() && t[k] == r[i];
                        assert(s[k] == r[i]);
                    }
                }
            }
        }
    }
}

/// The aggregate list holds each added aggregate id exactly once, in
/// increasing order: `sort_dedup(s)` is strictly increasing and holds exactly
/// the ids of `s`.
pub proof fn lemma_sort_dedup(s: Seq<Id>)
    ensures
        strictly_increasing(sort_dedup(s)),
        forall|y: Id| sort_dedup(s).contains(y) <==> s.contains(y),
    decreases s.len(),
{
    broadcast use vstd::seq_lib::group_seq_properties;

    if s.len() > 0 {
        let t = s.drop_last();
        let x = s.last();
        lemma_sort_dedup(t);
        let r = sort_dedup(t);
        lemma_ids_below(r, x);
        lemma_ids_above(r, x);
        let b = ids_below(r, x);
        let a = ids_above(r, x);
        let u = b.push(x) + a;
        assert(strictly_increasing(b));
        assert(strictly_increasing(a));
        assert(sort_dedup(s) == u);
        assert forall|i: int, j: int| 0 <= i < j < u.len() implies u[i] < u[j] by {
            if j < b.len() {
                assert(u[i] == b[i] && u[j] == b[j]);
                assert(b[i] < b[j]);
            } else if j == b.len() {
                assert(u[i] == b[i] && u[j] == x);
                assert(b.contains(b[i]));
                assert(b[i] < x);
            } else {
                let jj = j - b.len() - 1;
                assert(u[j] == a[jj]);
                assert(a.contains(a[jj]));
                assert(a[jj] > x);
                if i < b.len() {
                    assert(u[i] == b[i]);
                    assert(b.contains(b[i]));
                    assert(b[i] < x);
                } else if i == b.len() {
                    assert(u[i] == x);
                } else {
                    let ii = i - b.len() - 1;
                    assert(u[i] == a[ii]);
                    assert(a[ii] < a[jj]);
                }
            }
        }
        assert forall|y: Id| u.contains(y) <==> s.contains(y) by {
            if u.contains(y) {
                let k = choose|k: int| 0 <= k < u.len() && u[k] == y;
                if k < b.len() {
                    assert(b.contains(y));
                } else if k > b.len() {
                    assert(a[k - b.len() - 1] == y);
                    assert(a.contains(y));
                }
                if y != x {
                    assert(t.contains(y));
                    let m = choose|m: int| 0 <= m < t.len() && t[m] == y;
                    assert(s[m] == y);
                } else {
                    assert(s[s.len() - 1] == y);
                }
            }
            if s.contains(y) {
                let k = choose|k: int| 0 <= k < s.len() && s[k] == y;
                if y == x {
                    assert(u[b.len() as int] == y);
                } else {
                    assert(t[k] == y);
                    assert(t.contains(y));
                    assert(r.contains(y));
                    if y < x {
                        assert(b.contains(y));
                        let m = choose|m: int| 0 <= m < b.len() && b[m] == y;
                        assert(u[m] == y);
                    } else {
                        assert(a.contains(y));
                        let m = choose|m: int| 0 <= m < a.len() && a[m] == y;
                        assert(u[b.len() + 1 + m] == y);
                    }
                }
            }
        }
    }
}

// ---- the transitions ----

/// A request as a step.
pub open spec fn ask(r: RequestView) -> StepView {
    StepView::Request(r)
}

/// The view of a node with operator `op` and children `c`.
pub open spec fn node(op: Op, c: Seq<Id>) -> ExprView {
    ExprView { op, children: c }
}

/// Starts rewriting the e-class `id`: a schema entry becomes a `nested`
/// reference to it; any other class is read to be rebuilt (or, when it is the
/// bare column `list`, the empty list, kept as it is).
pub open spec fn visit(m: MachineView, id: Id) -> (MachineView, StepView) {
    if m.schema.contains(id) {
        (MachineView { awaiting: Awaiting::NestedAdd, ..m }, ask(RequestView::Add(node(Op::Nested, seq![id]))))
    } else {
        (MachineView { awaiting: Awaiting::Node, visiting: id, ..m }, ask(RequestView::Node(id)))
    }
}

/// Continues the top frame: rewrite its next child, or add the node rebuilt
/// over its rewritten children.
pub open spec fn resume(m: MachineView) -> (MachineView, StepView) {
    let f = m.frames.last();
    if f.done.len() < f.node.children.len() {
        visit(m, f.node.children[f.done.len() as int])
    } else {
        (MachineView { awaiting: Awaiting::FrameAdd, ..m }, ask(RequestView::Add(node(f.node.op, f.done))))
    }
}

/// Hands the id `r` of a rewritten tree to its parent frame, or, at the top,
/// records it as the rewritten expression and goes on with the next one; after
/// the last, adds `(filter having plan)`.
pub open spec fn give(m: MachineView, r: Id) -> (MachineView, StepView) {
    if m.frames.len() == 0 {
        let exprs = m.exprs.update(m.expr_at as int, r);
        if m.expr_at + 1 < 3 {
            visit(MachineView { exprs, expr_at: m.expr_at + 1, ..m }, exprs[m.expr_at + 1 as int])
        } else {
            (
                MachineView { exprs, phase: Phase::HavingAdded, ..m },
                ask(RequestView::Add(node(Op::Filter, seq![exprs[1], m.plan]))),
            )
        }
    } else {
        let f = m.frames.last();
        let frames = m.frames.drop_last().push(FrameView { node: f.node, done: f.done.push(r) });
        resume(MachineView { frames, ..m })
    }
}

/// With every aggregate added: the aggregate list (distinct ids in increasing
/// order) is added, and the schema is that list followed by the group keys.
pub open spec fn finish_aggs(m: MachineView) -> (MachineView, StepView) {
    let list = sort_dedup(m.agg_ids);
    (
        MachineView { schema: list + m.groupby_list, phase: Phase::AggListAdded, ..m },
        ask(RequestView::Add(node(Op::List, list))),
    )
}

/// Asks for the list of group keys.
pub open spec fn ask_groupby(m: MachineView) -> (MachineView, StepView) {
    (MachineView { phase: Phase::GroupByList, ..m }, ask(RequestView::List(m.groupby)))
}

/// Adds the aggregates one by one, in order.
pub open spec fn start_adds(m: MachineView) -> (MachineView, StepView) {
    let m = MachineView { agg_ids: Seq::empty(), ..m };
    if m.aggs.len() > 0 {
        (MachineView { agg_at: 0, phase: Phase::AggAdded, ..m }, ask(RequestView::Add(m.aggs[0])))
    } else {
        ask_groupby(m)
    }
}

/// Checks that no aggregate has an aggregate below it, from child `j` of
/// aggregate `i` on, asking for the aggregates of each child in turn.
pub open spec fn check_from(m: MachineView, i: nat, j: nat) -> (MachineView, StepView)
    decreases m.aggs.len() - i,
{
    if i >= m.aggs.len() {
        start_adds(m)
    } else if j < m.aggs[i as int].children.len() {
        (
            MachineView { phase: Phase::NestedCheck, agg_at: i, child_at: j, ..m },
            ask(RequestView::Aggs(m.aggs[i as int].children[j as int])),
        )
    } else {
        check_from(m, i + 1, 0)
    }
}

/// A finished run with the given outcome.
pub open spec fn done(m: MachineView, r: Result<Id, ErrorView>) -> (MachineView, StepView) {
    (MachineView { phase: Phase::Finished, ..m }, StepView::Done(r))
}

/// The run's start: the machine asks for the aggregates of the WHERE clause.
pub open spec fn start(
    from: Id,
    where_: Id,
    having: Id,
    groupby: Id,
    orderby: Id,
    projection: Id,
) -> (MachineView, StepView) {
    (
        MachineView {
            from,
            where_,
            groupby,
            phase: Phase::WhereAggs,
            awaiting: Awaiting::Node,
            plan: 0,
            exprs: seq![projection, having, orderby],
            aggs: Seq::empty(),
            agg_at: 0,
            child_at: 0,
            agg_ids: Seq::empty(),
            groupby_list: Seq::empty(),
            schema: Seq::empty(),
            expr_at: 0,
            frames: Seq::empty(),
            visiting: 0,
        },
        ask(RequestView::Aggs(where_)),
    )
}

/// Whether `reply` is of the kind the machine waits for.
pub open spec fn expects(m: MachineView, reply: ReplyView) -> bool {
    match m.phase {
        Phase::WhereAggs | Phase::GroupByAggs | Phase::ExprListAggs | Phase::NestedCheck => reply is Aggs,
        Phase::GroupByList => reply is List,
        Phase::Rewrite => if m.awaiting is Node { reply is Node } else { reply is Added },
        Phase::Finished => false,
        _ => reply is Added,
    }
}

/// One transition: the next state and step after `reply`.
///
/// The run in full: a WHERE or GROUP BY clause with aggregates is an error;
/// `(filter where from)` is added; the aggregates of the projection, HAVING and
/// ORDER BY expressions are found. When there are some, every aggregate is
/// checked to have none below it and the aggregates are added; then the group
/// keys are read (with no aggregates, they are read at once, and with none of
/// them either the aggregation is skipped). The distinct aggregate ids in
/// increasing order form the aggregate list, `(agg list groupby plan)` is
/// added, and each of the three expressions is rewritten: a schema entry (an
/// aggregate id or a group key) becomes `(` id)`, the bare column `list` (the
/// empty list) stays as it is, any other column is an error, and any other
/// node is rebuilt over its rewritten children. Last,
/// `(filter having plan)`, `(order orderby plan)` and `(proj projection plan)`
/// are added, and the last is the result.
pub open spec fn next(m: MachineView, reply: ReplyView) -> (MachineView, StepView) {
    match (m.phase, reply) {
        (Phase::WhereAggs, ReplyView::Aggs(a)) => if a.len() > 0 {
            done(m, Err(ErrorView::AggInWhere))
        } else {
            (MachineView { phase: Phase::GroupByAggs, ..m }, ask(RequestView::Aggs(m.groupby)))
        },
        (Phase::GroupByAggs, ReplyView::Aggs(a)) => if a.len() > 0 {
            done(m, Err(ErrorView::AggInGroupBy))
        } else {
            (
                MachineView { phase: Phase::FilterAdded, ..m },
                ask(RequestView::Add(node(Op::Filter, seq![m.where_, m.from]))),
            )
        },
        (Phase::FilterAdded, ReplyView::Added(p)) => (
            MachineView { plan: p, phase: Phase::ExprListAdded, ..m },
            ask(RequestView::Add(node(Op::List, m.exprs))),
        ),
        (Phase::ExprListAdded, ReplyView::Added(l)) => (
            MachineView { phase: Phase::ExprListAggs, ..m },
            ask(RequestView::Aggs(l)),
        ),
        (Phase::ExprListAggs, ReplyView::Aggs(a)) => {
            let m = MachineView { aggs: a, ..m };
            if a.len() == 0 {
                ask_groupby(m)
            } else {
                check_from(m, 0, 0)
            }
        },
        (Phase::GroupByList, ReplyView::List(g)) => {
            let m = MachineView { groupby_list: g, ..m };
            if m.aggs.len() == 0 && g.len() == 0 {
                (
                    MachineView { phase: Phase::HavingAdded, ..m },
                    ask(RequestView::Add(node(Op::Filter, seq![m.exprs[1], m.plan]))),
                )
            } else {
                finish_aggs(m)
            }
        },
        (Phase::NestedCheck, ReplyView::Aggs(a)) => if a.len() > 0 {
            done(m, Err(ErrorView::NestedAgg(node_text(m.aggs[m.agg_at as int].op))))
        } else {
            check_from(m, m.agg_at, m.child_at + 1)
        },
        (Phase::AggAdded, ReplyView::Added(id)) => {
            let m = MachineView { agg_ids: m.agg_ids.push(id), ..m };
            if m.agg_at + 1 < m.aggs.len() {
                (MachineView { agg_at: m.agg_at + 1, ..m }, ask(RequestView::Add(m.aggs[m.agg_at + 1 as int])))
            } else {
                ask_groupby(m)
            }
        },
        (Phase::AggListAdded, ReplyView::Added(a)) => (
            MachineView { phase: Phase::AggPlanAdded, ..m },
            ask(RequestView::Add(node(Op::Agg, seq![a, m.groupby, m.plan]))),
        ),
        (Phase::AggPlanAdded, ReplyView::Added(p)) => visit(
            MachineView { plan: p, phase: Phase::Rewrite, expr_at: 0, frames: Seq::empty(), ..m },
            m.exprs[0],
        ),
        (Phase::Rewrite, ReplyView::Node(e)) => match e.op {
            Op::Column(c) => if c == crate::agg::list_name() {
                give(m, m.visiting)
            } else {
                done(m, Err(ErrorView::ColumnNotInAgg(c)))
            },
            _ => resume(MachineView { frames: m.frames.push(FrameView { node: e, done: Seq::empty() }), ..m }),
        },
        (Phase::Rewrite, ReplyView::Added(r)) => if m.awaiting is NestedAdd {
            give(m, r)
        } else {
            give(MachineView { frames: m.frames.drop_last(), ..m }, r)
        },
        (Phase::HavingAdded, ReplyView::Added(p)) => (
            MachineView { plan: p, phase: Phase::OrderAdded, ..m },
            ask(RequestView::Add(node(Op::Order, seq![m.exprs[2], p]))),
        ),
        (Phase::OrderAdded, ReplyView::Added(p)) => (
            MachineView { plan: p, phase: Phase::ProjAdded, ..m },
            ask(RequestView::Add(node(Op::Proj, seq![m.exprs[0], p]))),
        ),
        (Phase::ProjAdded, ReplyView::Added(p)) => done(m, Ok(p)),
        _ => (m, StepView::Done(Ok(0))),
    }
}

/// The frames of a rewrite are sound: each holds a well-formed node that is
/// not a column and is short of rewritten children, except the top one when
/// its rebuilt node is being added, which has them all.
pub open spec fn frames_ok(m: MachineView) -> bool {
    &&& m.awaiting is FrameAdd ==> m.frames.len() > 0
    &&& forall|i: int| 0 <= i < m.frames.len() ==> crate::language::well_formed(#[trigger] m.frames[i].node)
    &&& forall|i: int| 0 <= i < m.frames.len() ==> !(#[trigger] m.frames[i].node.op is Column)
    &&& forall|i: int| 0 <= i < m.frames.len() ==> if m.awaiting is FrameAdd && i == m.frames.len() - 1 {
        (#[trigger] m.frames[i]).done.len() == m.frames[i].node.children.len()
    } else {
        (#[trigger] m.frames[i]).done.len() < m.frames[i].node.children.len()
    }
}

/// The well-formedness of a machine state apart from its frames: three
/// expressions, and the indices in range for the phase.
pub open spec fn wf_base(m: MachineView) -> bool {
    &&& m.exprs.len() == 3
    &&& m.expr_at < 3
    &&& m.phase is NestedCheck ==> m.agg_at < m.aggs.len() && m.child_at < m.aggs[m.agg_at as int].children.len()
    &&& m.phase is AggAdded ==> m.agg_at < m.aggs.len() && m.agg_ids.len() == m.agg_at
    &&& forall|i: int| 0 <= i < m.aggs.len() ==> crate::language::well_formed(#[trigger] m.aggs[i])
}

/// The well-formedness of a machine state.
pub open spec fn wf(m: MachineView) -> bool {
    &&& wf_base(m)
    &&& m.phase is Rewrite ==> frames_ok(m)
}

// ---- the executable machine ----

/// Whether `x` occurs in `v`.
fn contains_id(v: &Vec<Id>, x: Id) -> (r: bool)
    ensures
        r == v@.contains(x),
{
    let mut k: usize = 0;
    while k < v.len()
        invariant
            k <= v@.len(),
            forall|j: int| 0 <= j < k ==> v@[j] != x,
        decreases v@.len() - k,
    {
        if v[k] == x {
            return true;
        }
        k += 1;
    }
    false
}

/// The concatenation of two lists of ids.
fn concat_ids(a: &Vec<Id>, b: &Vec<Id>) -> (r: Vec<Id>)
    ensures
        r@ == a@ + b@,
{
    let mut r = crate::language::copy_ids(a);
    for i in 0..b.len()
        invariant
            r@ == a@ + b@.take(i as int),
    {
        r.push(b[i]);
        assert(a@ + b@.take(i + 1) =~= (a@ + b@.take(i as int)).push(b@[i as int]));
    }
    assert(b@.take(b.len() as int) == b@);
    r
}

/// The items of `s` below `x` and those above `x`, each in order.
fn split_ids(s: &Vec<Id>, x: Id) -> (r: (Vec<Id>, Vec<Id>))
    ensures
        r.0@ == ids_below(s@, x),
        r.1@ == ids_above(s@, x),
{
    let mut below: Vec<Id> = Vec::new();
    let mut above: Vec<Id> = Vec::new();
    for i in 0..s.len()
        invariant
            below@ == ids_below(s@.take(i as int), x),
            above@ == ids_above(s@.take(i as int), x),
    {
        assert(s@.take(i + 1).drop_last() == s@.take(i as int));
        if s[i] < x {
            below.push(s[i]);
        } else if s[i] > x {
            above.push(s[i]);
        }
    }
    assert(s@.take(s.len() as int) == s@);
    (below, above)
}

/// The distinct ids of `s` in increasing order.
fn sorted_distinct(s: &Vec<Id>) -> (r: Vec<Id>)
    ensures
        r@ == sort_dedup(s@),
{
    let mut r: Vec<Id> = Vec::new();
    for i in 0..s.len()
        invariant
            r@ == sort_dedup(s@.take(i as int)),
    {
        assert(s@.take(i + 1).drop_last() == s@.take(i as int));
        let (below, above) = split_ids(&r, s[i]);
        let mut with_x = below;
        with_x.push(s[i]);
        r = concat_ids(&with_x, &above);
    }
    assert(s@.take(s.len() as int) == s@);
    r
}

impl AggExtractor {
    /// See [`visit`].
    fn visit(&mut self, id: Id) -> (s: Step)
        ensures
            (final(self)@, s@) == visit(old(self)@, id),
    {
        if contains_id(&self.schema, id) {
            self.awaiting = Awaiting::NestedAdd;
            Step::Request(Request::Add(Expr::Nested(id)))
        } else {
            self.awaiting = Awaiting::Node;
            self.visiting = id;
            Step::Request(Request::Node(id))
        }
    }

    /// See [`resume`].
    fn resume(&mut self) -> (s: Step)
        requires
            old(self)@.frames.len() > 0,
            old(self)@.frames.last().done.len() <= old(self)@.frames.last().node.children.len(),
        ensures
            (final(self)@, s@) == resume(old(self)@),
    {
        let n = self.frames.len();
        let children = self.frames[n - 1].node.children();
        let k = self.frames[n - 1].done.len();
        if k < children.len() {
            let c = children[k];
            self.visit(c)
        } else {
            let e = self.frames[n - 1].node.with_children(&self.frames[n - 1].done);
            self.awaiting = Awaiting::FrameAdd;
            Step::Request(Request::Add(e))
        }
    }

    /// See [`give`].
    fn give(&mut self, r: Id) -> (s: Step)
        requires
            old(self)@.exprs.len() == 3,
            old(self)@.expr_at < 3,
            old(self)@.frames.len() > 0 ==> old(self)@.frames.last().done.len()
                < old(self)@.frames.last().node.children.len(),
        ensures
            (final(self)@, s@) == give(old(self)@, r),
    {
        if self.frames.len() == 0 {
            let at = self.expr_at;
            self.exprs[at] = r;
            if at + 1 < 3 {
                self.expr_at = at + 1;
                let e = self.exprs[at + 1];
                self.visit(e)
            } else {
                self.phase = Phase::HavingAdded;
                Step::Request(Request::Add(Expr::Filter([self.exprs[1], self.plan])))
            }
        } else {
            let ghost before = self@.frames;
            let mut f = self.frames.pop().unwrap();
            f.done.push(r);
            self.frames.push(f);
            assert(self@.frames =~= before.drop_last().push(
                FrameView { node: before.last().node, done: before.last().done.push(r) },
            ));
            self.resume()
        }
    }

    /// See [`finish_aggs`].
    fn finish_aggs(&mut self) -> (s: Step)
        ensures
            (final(self)@, s@) == finish_aggs(old(self)@),
    {
        let list = sorted_distinct(&self.agg_ids);
        self.schema = concat_ids(&list, &self.groupby_list);
        self.phase = Phase::AggListAdded;
        Step::Request(Request::Add(Expr::List(list)))
    }

    /// See [`start_adds`].
    fn start_adds(&mut self) -> (s: Step)
        ensures
            (final(self)@, s@) == start_adds(old(self)@),
    {
        self.agg_ids = Vec::new();
        assert(self@.agg_ids =~= Seq::<Id>::empty());
        if self.aggs.len() > 0 {
            self.agg_at = 0;
            self.phase = Phase::AggAdded;
            Step::Request(Request::Add(self.aggs[0].copy()))
        } else {
            self.ask_groupby()
        }
    }

    /// See [`ask_groupby`].
    fn ask_groupby(&mut self) -> (s: Step)
        ensures
            (final(self)@, s@) == ask_groupby(old(self)@),
    {
        self.phase = Phase::GroupByList;
        Step::Request(Request::List(self.groupby))
    }

    /// See [`check_from`].
    fn check_from(&mut self, i: usize, j: usize) -> (s: Step)
        ensures
            (final(self)@, s@) == check_from(old(self)@, i as nat, j as nat),
    {
        let ghost m = self@;
        let mut a = i;
        let mut c = j;
        while a < self.aggs.len()
            invariant
                self@ == m,
                m == old(self)@,
                check_from(m, a as nat, c as nat) == check_from(m, i as nat, j as nat),
            decreases self.aggs@.len() - a,
        {
            let children = self.aggs[a].children();
            assert(m.aggs[a as int].children == children@);
            if c < children.len() {
                let ghost r = (
                    MachineView { phase: Phase::NestedCheck, agg_at: a as nat, child_at: c as nat, ..m },
                    ask(RequestView::Aggs(children@[c as int])),
                );
                assert(check_from(m, a as nat, c as nat) == r);
                self.phase = Phase::NestedCheck;
                self.agg_at = a;
                self.child_at = c;
                assert(self@ == r.0);
                return Step::Request(Request::Aggs(children[c]));
            }
            a = a + 1;
            c = 0;
        }
        self.start_adds()
    }
}
/// Whether every node a reply carries is well-formed, as every node of the
/// plan language is.
pub open spec fn reply_wf(r: ReplyView) -> bool {
    match r {
        ReplyView::Aggs(a) => forall|i: int| 0 <= i < a.len() ==> crate::language::well_formed(#[trigger] a[i]),
        ReplyView::Node(e) => crate::language::well_formed(e),
        _ => true,
    }
}

/// Frames that each hold a well-formed node that is not a column and is short
/// of rewritten children.
pub open spec fn frames_open(f: Seq<FrameView>) -> bool {
    forall|i: int| 0 <= i < f.len() ==> {
        &&& crate::language::well_formed(#[trigger] f[i].node)
        &&& !(f[i].node.op is Column)
        &&& f[i].done.len() < f[i].node.children.len()
    }
}

/// Checking aggregates for nesting leaves a well-formed state.
proof fn lemma_check_from_wf(m: MachineView, i: nat, j: nat)
    requires
        m.exprs.len() == 3,
        m.expr_at < 3,
        forall|k: int| 0 <= k < m.aggs.len() ==> crate::language::well_formed(#[trigger] m.aggs[k]),
    ensures
        wf(check_from(m, i, j).0),
    decreases m.aggs.len() - i,
{
    if i < m.aggs.len() && j >= m.aggs[i as int].children.len() {
        lemma_check_from_wf(m, i + 1, 0);
    }
}

/// Resuming a rewrite whose frames below the top are open, and whose top frame
/// is a well-formed non-column node with no more rewritten children than
/// children, leaves a well-formed state.
proof fn lemma_resume_wf(m: MachineView)
    requires
        wf_base(m),
        m.phase is Rewrite,
        m.frames.len() > 0,
        frames_open(m.frames.drop_last()),
        crate::language::well_formed(m.frames.last().node),
        !(m.frames.last().node.op is Column),
        m.frames.last().done.len() <= m.frames.last().node.children.len(),
    ensures
        wf(resume(m).0),
{
    let f = m.frames;
    assert forall|i: int| 0 <= i < f.len() - 1 implies #[trigger] f[i] == f.drop_last()[i] by {}
}

/// Handing a rewritten id to an open stack of frames leaves a well-formed state.
proof fn lemma_give_wf(m: MachineView, r: Id)
    requires
        wf_base(m),
        m.phase is Rewrite,
        frames_open(m.frames),
    ensures
        wf(give(m, r).0),
{
    if m.frames.len() > 0 {
        let f = m.frames.last();
        let frames = m.frames.drop_last().push(FrameView { node: f.node, done: f.done.push(r) });
        assert(frames.drop_last() == m.frames.drop_last());
        assert(frames_open(m.frames.drop_last())) by {
            assert forall|i: int| 0 <= i < m.frames.len() - 1 implies #[trigger] m.frames.drop_last()[i] == m.frames[i] by {}
        }
        assert(f == m.frames[m.frames.len() - 1]);
        lemma_resume_wf(MachineView { frames, ..m });
    }
}

/// Every transition keeps the machine well-formed.
pub proof fn lemma_next_wf(m: MachineView, reply: ReplyView)
    requires
        wf(m),
        expects(m, reply),
        reply_wf(reply),
    ensures
        wf(next(m, reply).0),
{
    match (m.phase, reply) {
        (Phase::ExprListAggs, ReplyView::Aggs(a)) => {
            lemma_check_from_wf(MachineView { aggs: a, ..m }, 0, 0);
        },
        (Phase::NestedCheck, ReplyView::Aggs(a)) => {
            lemma_check_from_wf(m, m.agg_at, m.child_at + 1);
        },
        (Phase::Rewrite, ReplyView::Node(e)) => {
            if e.op is Column {
                lemma_give_wf(m, m.visiting);
            } else {
                let frames = m.frames.push(FrameView { node: e, done: Seq::empty() });
                assert(frames.drop_last() == m.frames);
                lemma_resume_wf(MachineView { frames, ..m });
            }
        },
        (Phase::Rewrite, ReplyView::Added(r)) => {
            if m.awaiting is NestedAdd {
                lemma_give_wf(m, r);
            } else {
                let frames = m.frames.drop_last();
                assert forall|i: int| 0 <= i < frames.len() implies #[trigger] frames[i] == m.frames[i] by {}
                lemma_give_wf(MachineView { frames, ..m }, r);
            }
        },
        _ => {},
    }
}
impl AggExtractor {
    /// Whether `reply` is of the kind the machine waits for (see [`expects`]).
    pub fn accepts(&self, reply: &Reply) -> (r: bool)
        ensures
            r == expects(self@, reply@),
    {
        match self.phase {
            Phase::WhereAggs | Phase::GroupByAggs | Phase::ExprListAggs | Phase::NestedCheck => {
                matches!(reply, Reply::Aggs(_))
            },
            Phase::GroupByList => matches!(reply, Reply::List(_)),
            Phase::Rewrite => match self.awaiting {
                Awaiting::Node => matches!(reply, Reply::Node(_)),
                _ => matches!(reply, Reply::Added(_)),
            },
            Phase::Finished => false,
            _ => matches!(reply, Reply::Added(_)),
        }
    }

    /// Takes the e-graph's reply to the last request and returns the next step:
    /// another request, or the finished run's outcome (see [`next`]). The
    /// machine stays well-formed.
    pub fn step(&mut self, reply: Reply) -> (s: Step)
        requires
            wf(old(self)@),
            expects(old(self)@, reply@),
        ensures
            (final(self)@, s@) == next(old(self)@, reply@),
            wf(final(self)@),
    {
        let ghost m = self@;
        let ghost rv = reply@;
        proof {
            match &reply {
                Reply::Aggs(v) => {
                    assert forall|i: int| 0 <= i < rv->Aggs_0.len() implies crate::language::well_formed(
                        #[trigger] rv->Aggs_0[i],
                    ) by {
                        v@[i].lemma_well_formed();
                    }
                },
                Reply::Node(e) => {
                    e.lemma_well_formed();
                },
                _ => {},
            }
            lemma_next_wf(m, rv);
        }
        match reply {
            Reply::Aggs(a) => match self.phase {
                Phase::WhereAggs => {
                    if a.len() > 0 {
                        self.phase = Phase::Finished;
                        Step::Done(Err(Error::AggInWhere))
                    } else {
                        self.phase = Phase::GroupByAggs;
                        Step::Request(Request::Aggs(self.groupby))
                    }
                },
                Phase::GroupByAggs => {
                    if a.len() > 0 {
                        self.phase = Phase::Finished;
                        Step::Done(Err(Error::AggInGroupBy))
                    } else {
                        self.phase = Phase::FilterAdded;
                        Step::Request(Request::Add(Expr::Filter([self.where_, self.from])))
                    }
                },
                Phase::ExprListAggs => {
                    self.aggs = a;
                    if self.aggs.len() == 0 {
                        self.ask_groupby()
                    } else {
                        self.check_from(0, 0)
                    }
                },
                _ => {
                    if a.len() > 0 {
                        let name = self.aggs[self.agg_at].to_string();
                        self.phase = Phase::Finished;
                        Step::Done(Err(Error::NestedAgg(name)))
                    } else {
                        let i = self.agg_at;
                        let n = self.aggs[i].children().len();
                        assert(self.child_at < n);
                        let j = self.child_at + 1;
                        self.check_from(i, j)
                    }
                },
            },
            Reply::List(g) => {
                self.groupby_list = g;
                if self.aggs.len() == 0 && self.groupby_list.len() == 0 {
                    self.phase = Phase::HavingAdded;
                    Step::Request(Request::Add(Expr::Filter([self.exprs[1], self.plan])))
                } else {
                    self.finish_aggs()
                }
            },
            Reply::Node(e) => match e {
                Expr::Column(c) => {
                    let name = crate::text::chars_of(c.as_str());
                    let list = crate::text::chars_of("list");
                    proof {
                        reveal_strlit("list");
                        assert(list@ == crate::agg::list_name());
                    }
                    if crate::text::same_chars(&name, &list) {
                        let id = self.visiting;
                        self.give(id)
                    } else {
                        self.phase = Phase::Finished;
                        Step::Done(Err(Error::ColumnNotInAgg(c)))
                    }
                },
                _ => {
                    let ghost before = self@.frames;
                    self.frames.push(Frame { node: e, done: Vec::new() });
                    assert(self@.frames =~= before.push(FrameView { node: rv->Node_0, done: Seq::empty() }));
                    self.resume()
                },
            },
            Reply::Added(id) => match self.phase {
                Phase::FilterAdded => {
                    self.plan = id;
                    self.phase = Phase::ExprListAdded;
                    Step::Request(Request::Add(Expr::List(crate::language::copy_ids(&self.exprs))))
                },
                Phase::ExprListAdded => {
                    self.phase = Phase::ExprListAggs;
                    Step::Request(Request::Aggs(id))
                },
                Phase::AggAdded => {
                    self.agg_ids.push(id);
                    if self.agg_at < self.aggs.len() - 1 {
                        self.agg_at = self.agg_at + 1;
                        Step::Request(Request::Add(self.aggs[self.agg_at].copy()))
                    } else {
                        self.ask_groupby()
                    }
                },
                Phase::AggListAdded => {
                    self.phase = Phase::AggPlanAdded;
                    Step::Request(Request::Add(Expr::Agg([id, self.groupby, self.plan])))
                },
                Phase::AggPlanAdded => {
                    self.plan = id;
                    self.phase = Phase::Rewrite;
                    self.expr_at = 0;
                    self.frames = Vec::new();
                    assert(self@.frames =~= Seq::<FrameView>::empty());
                    let e = self.exprs[0];
                    self.visit(e)
                },
                Phase::Rewrite => {
                    match self.awaiting {
                        Awaiting::NestedAdd => {},
                        _ => {
                            let ghost before = self@.frames;
                            self.frames.pop();
                            assert(self@.frames =~= before.drop_last());
                        },
                    }
                    self.give(id)
                },
                Phase::HavingAdded => {
                    self.plan = id;
                    self.phase = Phase::OrderAdded;
                    Step::Request(Request::Add(Expr::Order([self.exprs[2], id])))
                },
                Phase::OrderAdded => {
                    self.plan = id;
                    self.phase = Phase::ProjAdded;
                    Step::Request(Request::Add(Expr::Proj([self.exprs[0], id])))
                },
                _ => {
                    self.phase = Phase::Finished;
                    Step::Done(Ok(id))
                },
            },
        }
    }
}


/// A whole run: the state and step after the replies `replies`, in order, from
/// the state `m`; a finished run stays as it is.
pub open spec fn run(m: MachineView, s: StepView, replies: Seq<ReplyView>) -> (MachineView, StepView)
    decreases replies.len(),
{
    if replies.len() == 0 || s is Done {
        (m, s)
    } else {
        let (m1, s1) = next(m, replies[0]);
        run(m1, s1, replies.drop_first())
    }
}

/// During a rewrite, a class that is the bare column `list` (the way the empty
/// list is written) is kept as it is: the rewrite goes on with that class's
/// own id instead of ending in an error.
pub proof fn lemma_bare_list_kept(m: MachineView, e: ExprView)
    requires
        m.phase is Rewrite,
        e.op == Op::Column(crate::agg::list_name()),
    ensures
        next(m, ReplyView::Node(e)) == give(m, m.visiting),
{
}

/// A run that follows a trace of transitions ends where the trace ends.
proof fn lemma_run_trace(ts: Seq<(MachineView, StepView)>, r: Seq<ReplyView>, k: int)
    requires
        0 <= k <= r.len(),
        ts.len() == r.len() + 1,
        forall|j: int| k <= j < r.len() ==> #[trigger] ts[j + 1] == next(ts[j].0, r[j]) && ts[j].1 is Request,
    ensures
        run(ts[k].0, ts[k].1, r.skip(k)) == ts[r.len() as int],
    decreases r.len() - k,
{
    if k < r.len() {
        lemma_run_trace(ts, r, k + 1);
        assert(r.skip(k).drop_first() =~= r.skip(k + 1));
        assert(r.skip(k)[0] == r[k]);
        assert(ts[k + 1] == next(ts[k].0, r[k]));
    } else {
        assert(r.skip(k).len() == 0);
    }
}

/// A SELECT with an aggregate and the default GROUP BY and ORDER BY clauses
/// (both the bare column `list`) is planned, as the e-graph answers it:
/// `(proj (list (` (sum a))) (order list (filter true (agg (list (sum a)) list
/// (filter true (scan t (list a)))))))`. The classes are `t` 0, `a` 1,
/// `(list a)` 2, the scan 3, `true` 4, `list` 5, `(sum a)` 6 and
/// `(list (sum a))` 7; each reply is the e-graph's answer to the request
/// before it, and new classes are numbered from 8 on.
pub proof fn lemma_default_clauses_planned()
    ensures
        ({
            let (m0, s0) = start(3, 4, 4, 5, 5, 7);
            let sum_a = node(Op::Sum, seq![1]);
            let replies = seq![
                ReplyView::Aggs(Seq::empty()),
                ReplyView::Aggs(Seq::empty()),
                ReplyView::Added(8),
                ReplyView::Added(9),
                ReplyView::Aggs(seq![sum_a]),
                ReplyView::Aggs(Seq::empty()),
                ReplyView::Added(6),
                ReplyView::List(Seq::empty()),
                ReplyView::Added(7),
                ReplyView::Added(10),
                ReplyView::Node(node(Op::List, seq![6])),
                ReplyView::Added(11),
                ReplyView::Added(12),
                ReplyView::Node(node(Op::Constant(crate::value::ValueView::Bool(true)), Seq::empty())),
                ReplyView::Added(4),
                ReplyView::Node(node(Op::Column(crate::agg::list_name()), Seq::empty())),
                ReplyView::Added(13),
                ReplyView::Added(14),
                ReplyView::Added(15),
            ];
            run(m0, s0, replies).1 == StepView::Done(Ok(15))
        }),
{
    let (m0, s0) = start(3, 4, 4, 5, 5, 7);
    let sum_a = node(Op::Sum, seq![1]);
    let list = crate::agg::list_name();
    let truth = node(Op::Constant(crate::value::ValueView::Bool(true)), Seq::empty());
    let r = seq![
        ReplyView::Aggs(Seq::empty()),
        ReplyView::Aggs(Seq::empty()),
        ReplyView::Added(8),
        ReplyView::Added(9),
        ReplyView::Aggs(seq![sum_a]),
        ReplyView::Aggs(Seq::empty()),
        ReplyView::Added(6),
        ReplyView::List(Seq::empty()),
        ReplyView::Added(7),
        ReplyView::Added(10),
        ReplyView::Node(node(Op::List, seq![6])),
        ReplyView::Added(11),
        ReplyView::Added(12),
        ReplyView::Node(truth),
        ReplyView::Added(4),
        ReplyView::Node(node(Op::Column(list), Seq::empty())),
        ReplyView::Added(13),
        ReplyView::Added(14),
        ReplyView::Added(15),
    ];
    let t1 = next(m0, r[0]);
    assert(t1.1 == ask(RequestView::Aggs(5)));
    let t2 = next(t1.0, r[1]);
    assert(t2.1 == ask(RequestView::Add(node(Op::Filter, seq![4, 3]))));
    let t3 = next(t2.0, r[2]);
    assert(t3.0.plan == 8);
    let t4 = next(t3.0, r[3]);
    assert(t4.0.phase == Phase::ExprListAggs);
    let t5 = next(t4.0, r[4]);
    assert(t5.0.aggs == seq![sum_a]);
    assert(t5.1 == ask(RequestView::Aggs(1)));
    let t6 = next(t5.0, r[5]);
    assert(check_from(t5.0, 1, 0) == start_adds(t5.0));
    assert(t6.1 == ask(RequestView::Add(sum_a)));
    let t7 = next(t6.0, r[6]);
    assert(t7.0.agg_ids == seq![6usize]);
    assert(t7.1 == ask(RequestView::List(5)));
    let t8 = next(t7.0, r[7]);
    assert(sort_dedup(seq![6usize]) == seq![6usize]) by {
        let e = Seq::<Id>::empty();
        assert(seq![6usize].drop_last() =~= e);
        assert(seq![6usize].last() == 6);
        assert(sort_dedup(e) == e);
        assert(ids_below(e, 6) == e && ids_above(e, 6) == e);
        assert(insert_id(e, 6) =~= seq![6usize]);
    }
    assert(t8.0.schema =~= seq![6usize]);
    assert(t8.1 == ask(RequestView::Add(node(Op::List, seq![6usize]))));
    let t9 = next(t8.0, r[8]);
    assert(t9.1 == ask(RequestView::Add(node(Op::Agg, seq![7, 5, 8]))));
    let t10 = next(t9.0, r[9]);
    assert(t10.0.exprs == seq![7usize, 4, 5]);
    assert(t10.0.plan == 10 && t10.0.phase == Phase::Rewrite && t10.0.frames.len() == 0);
    assert(!t10.0.schema.contains(7));
    assert(t10.1 == ask(RequestView::Node(7)));
    let t11 = next(t10.0, r[10]);
    assert(t11.0.schema.contains(6)) by {
        assert(t11.0.schema[0] == 6);
    }
    assert(t11.1 == ask(RequestView::Add(node(Op::Nested, seq![6usize]))));
    let t12 = next(t11.0, r[11]);
    assert(t12.1 == ask(RequestView::Add(node(Op::List, seq![11usize]))));
    assert(t12.0.frames.len() == 1);
    let t13 = next(t12.0, r[12]);
    assert(t13.0.exprs == seq![12usize, 4, 5]);
    assert(!t13.0.schema.contains(4));
    assert(t13.1 == ask(RequestView::Node(4)));
    let t14 = next(t13.0, r[13]);
    assert(t14.1 == ask(RequestView::Add(truth)));
    let t15 = next(t14.0, r[14]);
    assert(t15.0.frames.len() == 0);
    assert(!t15.0.schema.contains(5));
    assert(t15.0.visiting == 5);
    assert(t15.1 == ask(RequestView::Node(5)));
    let t16 = next(t15.0, r[15]);
    assert(t16.0.exprs == seq![12usize, 4, 5]);
    assert(t16.1 == ask(RequestView::Add(node(Op::Filter, seq![4, 10]))));
    let t17 = next(t16.0, r[16]);
    assert(t17.1 == ask(RequestView::Add(node(Op::Order, seq![5, 13]))));
    let t18 = next(t17.0, r[17]);
    assert(t18.1 == ask(RequestView::Add(node(Op::Proj, seq![12, 14]))));
    let t19 = next(t18.0, r[18]);
    assert(t19.1 == StepView::Done(Ok(15)));
    let ts = seq![(m0, s0), t1, t2, t3, t4, t5, t6, t7, t8, t9, t10, t11, t12, t13, t14, t15, t16, t17, t18, t19];
    assert forall|k: int| 0 <= k < 19 implies #[trigger] ts[k + 1] == next(ts[k].0, r[k]) && ts[k].1 is Request by {}
    lemma_run_trace(ts, r, 0);
    assert(r.skip(0) =~= r);
}


/// What a rewrite asks for is faithful to the expression being rewritten:
/// a class it visits is the next child due of the node being rebuilt (or,
/// with no node open, the expression itself); a schema entry is asked to
/// become a nested reference to it, and any other class is read; and the node
/// it adds for a rebuilt node is that node's operator over the rewritten ids
/// recorded for its children, one per child, in order.
pub open spec fn rewrite_faithful(m: MachineView, s: StepView) -> bool {
    let due = if m.frames.len() > 0 {
        m.frames.last().node.children[m.frames.last().done.len() as int]
    } else {
        m.exprs[m.expr_at as int]
    };
    m.phase is Rewrite ==> match m.awaiting {
        Awaiting::FrameAdd => {
            &&& m.frames.len() > 0
            &&& m.frames.last().done.len() == m.frames.last().node.children.len()
            &&& s == ask(RequestView::Add(node(m.frames.last().node.op, m.frames.last().done)))
        },
        Awaiting::Node => {
            &&& !m.schema.contains(due)
            &&& m.visiting == due
            &&& s == ask(RequestView::Node(due))
        },
        Awaiting::NestedAdd => {
            &&& m.schema.contains(due)
            &&& s == ask(RequestView::Add(node(Op::Nested, seq![due])))
        },
    }
}

/// Checking aggregates for nesting never starts a rewrite.
proof fn lemma_check_from_no_rewrite(m: MachineView, i: nat, j: nat)
    ensures
        !(check_from(m, i, j).0.phase is Rewrite),
    decreases m.aggs.len() - i,
{
    if i < m.aggs.len() && j >= m.aggs[i as int].children.len() {
        lemma_check_from_no_rewrite(m, i + 1, 0);
    }
}

/// Resuming a frame asks faithfully.
proof fn lemma_resume_faithful(m: MachineView)
    requires
        m.phase is Rewrite,
        m.frames.len() > 0,
        m.frames.last().done.len() <= m.frames.last().node.children.len(),
    ensures
        rewrite_faithful(resume(m).0, resume(m).1),
{
}

/// Handing on a rewritten id asks faithfully.
proof fn lemma_give_faithful(m: MachineView, r: Id)
    requires
        m.phase is Rewrite,
        m.exprs.len() == 3,
        m.expr_at < 3,
        frames_open(m.frames),
    ensures
        rewrite_faithful(give(m, r).0, give(m, r).1),
{
    if m.frames.len() > 0 {
        let f = m.frames.last();
        assert(f == m.frames[m.frames.len() - 1]);
        let frames = m.frames.drop_last().push(FrameView { node: f.node, done: f.done.push(r) });
        lemma_resume_faithful(MachineView { frames, ..m });
    }
}

/// Every transition of a rewrite asks faithfully (see [`rewrite_faithful`]):
/// each class visited is the next child due, schema entries are nested, and a
/// rebuilt node is its operator over the ids recorded for all its children.
pub proof fn lemma_next_rewrite_faithful(m: MachineView, reply: ReplyView)
    requires
        wf(m),
        expects(m, reply),
        reply_wf(reply),
    ensures
        rewrite_faithful(next(m, reply).0, next(m, reply).1),
{
    match (m.phase, reply) {
        (Phase::AggPlanAdded, ReplyView::Added(p)) => {
            let m1 = MachineView { plan: p, phase: Phase::Rewrite, expr_at: 0, frames: Seq::empty(), ..m };
            assert(rewrite_faithful(visit(m1, m.exprs[0]).0, visit(m1, m.exprs[0]).1));
        },
        (Phase::Rewrite, ReplyView::Node(e)) => {
            assert(frames_open(m.frames));
            if e.op == Op::Column(crate::agg::list_name()) {
                lemma_give_faithful(m, m.visiting);
            } else if !(e.op is Column) {
                let frames = m.frames.push(FrameView { node: e, done: Seq::empty() });
                lemma_resume_faithful(MachineView { frames, ..m });
            }
        },
        (Phase::Rewrite, ReplyView::Added(r)) => {
            if m.awaiting is NestedAdd {
                lemma_give_faithful(m, r);
            } else {
                let frames = m.frames.drop_last();
                assert forall|i: int| 0 <= i < frames.len() implies #[trigger] frames[i] == m.frames[i] by {}
                lemma_give_faithful(MachineView { frames, ..m }, r);
            }
        },
        (Phase::ExprListAggs, ReplyView::Aggs(a)) => {
            lemma_check_from_no_rewrite(MachineView { aggs: a, ..m }, 0, 0);
        },
        (Phase::NestedCheck, ReplyView::Aggs(a)) => {
            lemma_check_from_no_rewrite(m, m.agg_at, m.child_at + 1);
        },
        _ => {},
    }
}

/// Rewriting records the id of each rewritten child, and only it: when the
/// machine, rewriting, is given the id `r` of a rewritten child (a nested
/// reference it asked for, or the rebuilt node of the frame above), `r`
/// becomes the next recorded child of the node below, and no other frame
/// changes.
pub proof fn lemma_rewrite_records_child(m: MachineView, r: Id)
    requires
        wf(m),
        m.phase is Rewrite,
        !(m.awaiting is Node),
        (if m.awaiting is NestedAdd { m.frames } else { m.frames.drop_last() }).len() > 0,
    ensures
        ({
            let below = if m.awaiting is NestedAdd { m.frames } else { m.frames.drop_last() };
            let m1 = next(m, ReplyView::Added(r)).0;
            &&& m1.phase is Rewrite
            &&& m1.frames.len() == below.len()
            &&& forall|i: int| 0 <= i < below.len() - 1 ==> m1.frames[i] == below[i]
            &&& m1.frames.last().node == below.last().node
            &&& m1.frames.last().done == below.last().done.push(r)
        }),
{
}

} // verus!
