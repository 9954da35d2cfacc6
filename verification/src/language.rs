//! The plan language: expression, aggregate and plan nodes whose children are
//! e-class ids.
use vstd::prelude::*;

use crate::value::{Value, ValueView, display_value};

verus! {

/// An e-class id.
pub type Id = usize;

/// A column name.
pub type Column = String;

/// A node of the plan language. Children are e-class ids.
#[derive(Debug)]
pub enum Expr {
    /// A value: null, true, 1, 'hello'.
    Constant(Value),
    /// A column: t.a, b, c.
    Column(Column),
    /// (` expr): keeps rewrites from breaking the schema mapping of aggregates.
    Nested(Id),
    /// (list ..)
    List(Vec<Id>),
    IsNull(Id),
    Neg(Id),
    Add([Id; 2]),
    Sub([Id; 2]),
    Mul([Id; 2]),
    Div([Id; 2]),
    Eq([Id; 2]),
    Neq([Id; 2]),
    Gt([Id; 2]),
    Lt([Id; 2]),
    Gte([Id; 2]),
    Lte([Id; 2]),
    Not(Id),
    And([Id; 2]),
    Or([Id; 2]),
    Xor([Id; 2]),
    Max(Id),
    Min(Id),
    Sum(Id),
    Avg(Id),
    Count(Id),
    /// A plan producing no rows, keeping the schema of its child.
    Empty(Id),
    /// (scan table [column..])
    Scan([Id; 2]),
    /// (values [row[column..]..])
    Values(Id),
    /// (proj [column..] child)
    Proj([Id; 2]),
    /// (filter condition child)
    Filter([Id; 2]),
    /// (order [order_key..] child)
    Order([Id; 2]),
    Asc(Id),
    Desc(Id),
    /// (limit limit offset child)
    Limit([Id; 3]),
    /// (topn limit offset [order_key..] child)
    TopN([Id; 4]),
    /// (agg aggs=[expr..] group_keys=[expr..] child); output = aggs || group_keys.
    Agg([Id; 3]),
    /// (join type condition left right)
    Join([Id; 4]),
    /// (hashjoin type [left_key..] [right_key..] left right); left and right keys match.
    HashJoin([Id; 5]),
    Inner,
    LeftOuter,
    RightOuter,
    FullOuter,
    /// (column-merge list1 list2): the columns of both lists.
    ColumnMerge([Id; 2]),
    /// (column-prune filter list): the items of `list` whose columns lie within `filter`.
    ColumnPrune([Id; 2]),
}

/// The operator of a node, with the data it carries apart from its children.
pub enum Op {
    Constant(ValueView),
    Column(Seq<char>),
    Nested,
    List,
    IsNull,
    Neg,
    Add,
    Sub,
    Mul,
    Div,
    Eq,
    Neq,
    Gt,
    Lt,
    Gte,
    Lte,
    Not,
    And,
    Or,
    Xor,
    Max,
    Min,
    Sum,
    Avg,
    Count,
    Empty,
    Scan,
    Values,
    Proj,
    Filter,
    Order,
    Asc,
    Desc,
    Limit,
    TopN,
    Agg,
    Join,
    HashJoin,
    Inner,
    LeftOuter,
    RightOuter,
    FullOuter,
    ColumnMerge,
    ColumnPrune,
}

/// The mathematical content of a node: its operator and its children.
pub struct ExprView {
    pub op: Op,
    pub children: Seq<Id>,
}

impl View for Expr {
    type V = ExprView;

    open spec fn view(&self) -> ExprView {
        match self {
            Expr::Constant(v) => ExprView { op: Op::Constant(v@), children: Seq::empty() },
            Expr::Column(c) => ExprView { op: Op::Column(c@), children: Seq::empty() },
            Expr::Nested(a) => ExprView { op: Op::Nested, children: seq![*a] },
            Expr::List(v) => ExprView { op: Op::List, children: v@ },
            Expr::IsNull(a) => ExprView { op: Op::IsNull, children: seq![*a] },
            Expr::Neg(a) => ExprView { op: Op::Neg, children: seq![*a] },
            Expr::Add(a) => ExprView { op: Op::Add, children: a@ },
            Expr::Sub(a) => ExprView { op: Op::Sub, children: a@ },
            Expr::Mul(a) => ExprView { op: Op::Mul, children: a@ },
            Expr::Div(a) => ExprView { op: Op::Div, children: a@ },
            Expr::Eq(a) => ExprView { op: Op::Eq, children: a@ },
            Expr::Neq(a) => ExprView { op: Op::Neq, children: a@ },
            Expr::Gt(a) => ExprView { op: Op::Gt, children: a@ },
            Expr::Lt(a) => ExprView { op: Op::Lt, children: a@ },
            Expr::Gte(a) => ExprView { op: Op::Gte, children: a@ },
            Expr::Lte(a) => ExprView { op: Op::Lte, children: a@ },
            Expr::Not(a) => ExprView { op: Op::Not, children: seq![*a] },
            Expr::And(a) => ExprView { op: Op::And, children: a@ },
            Expr::Or(a) => ExprView { op: Op::Or, children: a@ },
            Expr::Xor(a) => ExprView { op: Op::Xor, children: a@ },
            Expr::Max(a) => ExprView { op: Op::Max, children: seq![*a] },
            Expr::Min(a) => ExprView { op: Op::Min, children: seq![*a] },
            Expr::Sum(a) => ExprView { op: Op::Sum, children: seq![*a] },
            Expr::Avg(a) => ExprView { op: Op::Avg, children: seq![*a] },
            Expr::Count(a) => ExprView { op: Op::Count, children: seq![*a] },
            Expr::Empty(a) => ExprView { op: Op::Empty, children: seq![*a] },
            Expr::Scan(a) => ExprView { op: Op::Scan, children: a@ },
            Expr::Values(a) => ExprView { op: Op::Values, children: seq![*a] },
            Expr::Proj(a) => ExprView { op: Op::Proj, children: a@ },
            Expr::Filter(a) => ExprView { op: Op::Filter, children: a@ },
            Expr::Order(a) => ExprView { op: Op::Order, children: a@ },
            Expr::Asc(a) => ExprView { op: Op::Asc, children: seq![*a] },
            Expr::Desc(a) => ExprView { op: Op::Desc, children: seq![*a] },
            Expr::Limit(a) => ExprView { op: Op::Limit, children: a@ },
            Expr::TopN(a) => ExprView { op: Op::TopN, children: a@ },
            Expr::Agg(a) => ExprView { op: Op::Agg, children: a@ },
            Expr::Join(a) => ExprView { op: Op::Join, children: a@ },
            Expr::HashJoin(a) => ExprView { op: Op::HashJoin, children: a@ },
            Expr::Inner => ExprView { op: Op::Inner, children: Seq::empty() },
            Expr::LeftOuter => ExprView { op: Op::LeftOuter, children: Seq::empty() },
            Expr::RightOuter => ExprView { op: Op::RightOuter, children: Seq::empty() },
            Expr::FullOuter => ExprView { op: Op::FullOuter, children: Seq::empty() },
            Expr::ColumnMerge(a) => ExprView { op: Op::ColumnMerge, children: a@ },
            Expr::ColumnPrune(a) => ExprView { op: Op::ColumnPrune, children: a@ },
        }
    }
}

/// The number of children a node with operator `op` has; `None` for a list,
/// which has any number.
pub open spec fn arity(op: Op) -> Option<nat> {
    match op {
        Op::Constant(_) => Some(0),
        Op::Column(_) => Some(0),
        Op::Nested => Some(1),
        Op::List => None,
        Op::IsNull => Some(1),
        Op::Neg => Some(1),
        Op::Add => Some(2),
        Op::Sub => Some(2),
        Op::Mul => Some(2),
        Op::Div => Some(2),
        Op::Eq => Some(2),
        Op::Neq => Some(2),
        Op::Gt => Some(2),
        Op::Lt => Some(2),
        Op::Gte => Some(2),
        Op::Lte => Some(2),
        Op::Not => Some(1),
        Op::And => Some(2),
        Op::Or => Some(2),
        Op::Xor => Some(2),
        Op::Max => Some(1),
        Op::Min => Some(1),
        Op::Sum => Some(1),
        Op::Avg => Some(1),
        Op::Count => Some(1),
        Op::Empty => Some(1),
        Op::Scan => Some(2),
        Op::Values => Some(1),
        Op::Proj => Some(2),
        Op::Filter => Some(2),
        Op::Order => Some(2),
        Op::Asc => Some(1),
        Op::Desc => Some(1),
        Op::Limit => Some(3),
        Op::TopN => Some(4),
        Op::Agg => Some(3),
        Op::Join => Some(4),
        Op::HashJoin => Some(5),
        Op::Inner => Some(0),
        Op::LeftOuter => Some(0),
        Op::RightOuter => Some(0),
        Op::FullOuter => Some(0),
        Op::ColumnMerge => Some(2),
        Op::ColumnPrune => Some(2),
    }
}

/// Whether a node view is well-formed: its number of children fits its operator.
pub open spec fn well_formed(e: ExprView) -> bool {
    arity(e.op) is Some ==> e.children.len() == arity(e.op)->0
}

/// Whether the operator is an aggregate function.
pub open spec fn is_agg_op(op: Op) -> bool {
    op is Max || op is Min || op is Sum || op is Avg || op is Count
}

/// The display text of a node: the value of a constant, the name of a column,
/// the operator's symbol otherwise.
pub open spec fn node_text(op: Op) -> Seq<char> {
    match op {
        Op::Constant(v) => display_value(v),
        Op::Column(c) => c,
        Op::Nested => "`"@,
        Op::List => "list"@,
        Op::IsNull => "isnull"@,
        Op::Neg => "-"@,
        Op::Add => "+"@,
        Op::Sub => "-"@,
        Op::Mul => "*"@,
        Op::Div => "/"@,
        Op::Eq => "="@,
        Op::Neq => "<>"@,
        Op::Gt => ">"@,
        Op::Lt => "<"@,
        Op::Gte => ">="@,
        Op::Lte => "<="@,
        Op::Not => "not"@,
        Op::And => "and"@,
        Op::Or => "or"@,
        Op::Xor => "xor"@,
        Op::Max => "max"@,
        Op::Min => "min"@,
        Op::Sum => "sum"@,
        Op::Avg => "avg"@,
        Op::Count => "count"@,
        Op::Empty => "empty"@,
        Op::Scan => "scan"@,
        Op::Values => "values"@,
        Op::Proj => "proj"@,
        Op::Filter => "filter"@,
        Op::Order => "order"@,
        Op::Asc => "asc"@,
        Op::Desc => "desc"@,
        Op::Limit => "limit"@,
        Op::TopN => "topn"@,
        Op::Agg => "agg"@,
        Op::Join => "join"@,
        Op::HashJoin => "hashjoin"@,
        Op::Inner => "inner"@,
        Op::LeftOuter => "left_outer"@,
        Op::RightOuter => "right_outer"@,
        Op::FullOuter => "full_outer"@,
        Op::ColumnMerge => "column-merge"@,
        Op::ColumnPrune => "column-prune"@,
    }
}

/// A copy of a list of ids.
pub fn copy_ids(v: &Vec<Id>) -> (r: Vec<Id>)
    ensures
        r@ == v@,
{
    let mut r: Vec<Id> = Vec::new();
    for i in 0..v.len()
        invariant
            r@ == v@.take(i as int),
    {
        r.push(v[i]);
        assert(v@.take(i + 1) == v@.take(i as int).push(v@[i as int]));
    }
    assert(v@.take(v.len() as int) == v@);
    r
}

impl Expr {
    /// The node's well-formedness always holds: arrays have their length.
    pub proof fn lemma_well_formed(&self)
        ensures
            well_formed(self@),
    {
    }

    /// The children of the node, in order.
    pub fn children(&self) -> (r: Vec<Id>)
        ensures
            r@ == self@.children,
    {
        match self {
            Expr::Constant(_) => Vec::new(),
            Expr::Column(_) => Vec::new(),
            Expr::Nested(a) => { let mut r = Vec::new(); r.push(*a); r },
            Expr::List(v) => copy_ids(v),
            Expr::IsNull(a) => { let mut r = Vec::new(); r.push(*a); r },
            Expr::Neg(a) => { let mut r = Vec::new(); r.push(*a); r },
            Expr::Add(a) => { let mut r = Vec::new(); r.push(a[0]); r.push(a[1]); assert(r@ =~= a@); r },
            Expr::Sub(a) => { let mut r = Vec::new(); r.push(a[0]); r.push(a[1]); assert(r@ =~= a@); r },
            Expr::Mul(a) => { let mut r = Vec::new(); r.push(a[0]); r.push(a[1]); assert(r@ =~= a@); r },
            Expr::Div(a) => { let mut r = Vec::new(); r.push(a[0]); r.push(a[1]); assert(r@ =~= a@); r },
            Expr::Eq(a) => { let mut r = Vec::new(); r.push(a[0]); r.push(a[1]); assert(r@ =~= a@); r },
            Expr::Neq(a) => { let mut r = Vec::new(); r.push(a[0]); r.push(a[1]); assert(r@ =~= a@); r },
            Expr::Gt(a) => { let mut r = Vec::new(); r.push(a[0]); r.push(a[1]); assert(r@ =~= a@); r },
            Expr::Lt(a) => { let mut r = Vec::new(); r.push(a[0]); r.push(a[1]); assert(r@ =~= a@); r },
            Expr::Gte(a) => { let mut r = Vec::new(); r.push(a[0]); r.push(a[1]); assert(r@ =~= a@); r },
            Expr::Lte(a) => { let mut r = Vec::new(); r.push(a[0]); r.push(a[1]); assert(r@ =~= a@); r },
            Expr::Not(a) => { let mut r = Vec::new(); r.push(*a); r },
            Expr::And(a) => { let mut r = Vec::new(); r.push(a[0]); r.push(a[1]); assert(r@ =~= a@); r },
            Expr::Or(a) => { let mut r = Vec::new(); r.push(a[0]); r.push(a[1]); assert(r@ =~= a@); r },
            Expr::Xor(a) => { let mut r = Vec::new(); r.push(a[0]); r.push(a[1]); assert(r@ =~= a@); r },
            Expr::Max(a) => { let mut r = Vec::new(); r.push(*a); r },
            Expr::Min(a) => { let mut r = Vec::new(); r.push(*a); r },
            Expr::Sum(a) => { let mut r = Vec::new(); r.push(*a); r },
            Expr::Avg(a) => { let mut r = Vec::new(); r.push(*a); r },
            Expr::Count(a) => { let mut r = Vec::new(); r.push(*a); r },
            Expr::Empty(a) => { let mut r = Vec::new(); r.push(*a); r },
            Expr::Scan(a) => { let mut r = Vec::new(); r.push(a[0]); r.push(a[1]); assert(r@ =~= a@); r },
            Expr::Values(a) => { let mut r = Vec::new(); r.push(*a); r },
            Expr::Proj(a) => { let mut r = Vec::new(); r.push(a[0]); r.push(a[1]); assert(r@ =~= a@); r },
            Expr::Filter(a) => { let mut r = Vec::new(); r.push(a[0]); r.push(a[1]); assert(r@ =~= a@); r },
            Expr::Order(a) => { let mut r = Vec::new(); r.push(a[0]); r.push(a[1]); assert(r@ =~= a@); r },
            Expr::Asc(a) => { let mut r = Vec::new(); r.push(*a); r },
            Expr::Desc(a) => { let mut r = Vec::new(); r.push(*a); r },
            Expr::Limit(a) => { let mut r = Vec::new(); r.push(a[0]); r.push(a[1]); r.push(a[2]); assert(r@ =~= a@); r },
            Expr::TopN(a) => { let mut r = Vec::new(); r.push(a[0]); r.push(a[1]); r.push(a[2]); r.push(a[3]); assert(r@ =~= a@); r },
            Expr::Agg(a) => { let mut r = Vec::new(); r.push(a[0]); r.push(a[1]); r.push(a[2]); assert(r@ =~= a@); r },
            Expr::Join(a) => { let mut r = Vec::new(); r.push(a[0]); r.push(a[1]); r.push(a[2]); r.push(a[3]); assert(r@ =~= a@); r },
            Expr::HashJoin(a) => { let mut r = Vec::new(); r.push(a[0]); r.push(a[1]); r.push(a[2]); r.push(a[3]); r.push(a[4]); assert(r@ =~= a@); r },
            Expr::Inner => Vec::new(),
            Expr::LeftOuter => Vec::new(),
            Expr::RightOuter => Vec::new(),
            Expr::FullOuter => Vec::new(),
            Expr::ColumnMerge(a) => { let mut r = Vec::new(); r.push(a[0]); r.push(a[1]); assert(r@ =~= a@); r },
            Expr::ColumnPrune(a) => { let mut r = Vec::new(); r.push(a[0]); r.push(a[1]); assert(r@ =~= a@); r },
        }
    }

    /// The node with its children replaced, in order, by `c`.
    pub fn with_children(&self, c: &Vec<Id>) -> (r: Expr)
        requires
            c@.len() == self@.children.len(),
        ensures
            r@ == (ExprView { op: self@.op, children: c@ }),
    {
        match self {
            Expr::Constant(v) => { assert(c@ =~= Seq::<Id>::empty()); Expr::Constant(v.copy()) },
            Expr::Column(s) => { assert(c@ =~= Seq::<Id>::empty()); Expr::Column(s.clone()) },
            Expr::Nested(_) => { assert(c@ =~= seq![c[0]]); Expr::Nested(c[0]) },
            Expr::List(_) => Expr::List(copy_ids(c)),
            Expr::IsNull(_) => { assert(c@ =~= seq![c[0]]); Expr::IsNull(c[0]) },
            Expr::Neg(_) => { assert(c@ =~= seq![c[0]]); Expr::Neg(c[0]) },
            Expr::Add(_) => { let a = [c[0], c[1]]; assert(a@ =~= c@); Expr::Add(a) },
            Expr::Sub(_) => { let a = [c[0], c[1]]; assert(a@ =~= c@); Expr::Sub(a) },
            Expr::Mul(_) => { let a = [c[0], c[1]]; assert(a@ =~= c@); Expr::Mul(a) },
            Expr::Div(_) => { let a = [c[0], c[1]]; assert(a@ =~= c@); Expr::Div(a) },
            Expr::Eq(_) => { let a = [c[0], c[1]]; assert(a@ =~= c@); Expr::Eq(a) },
            Expr::Neq(_) => { let a = [c[0], c[1]]; assert(a@ =~= c@); Expr::Neq(a) },
            Expr::Gt(_) => { let a = [c[0], c[1]]; assert(a@ =~= c@); Expr::Gt(a) },
            Expr::Lt(_) => { let a = [c[0], c[1]]; assert(a@ =~= c@); Expr::Lt(a) },
            Expr::Gte(_) => { let a = [c[0], c[1]]; assert(a@ =~= c@); Expr::Gte(a) },
            Expr::Lte(_) => { let a = [c[0], c[1]]; assert(a@ =~= c@); Expr::Lte(a) },
            Expr::Not(_) => { assert(c@ =~= seq![c[0]]); Expr::Not(c[0]) },
            Expr::And(_) => { let a = [c[0], c[1]]; assert(a@ =~= c@); Expr::And(a) },
            Expr::Or(_) => { let a = [c[0], c[1]]; assert(a@ =~= c@); Expr::Or(a) },
            Expr::Xor(_) => { let a = [c[0], c[1]]; assert(a@ =~= c@); Expr::Xor(a) },
            Expr::Max(_) => { assert(c@ =~= seq![c[0]]); Expr::Max(c[0]) },
            Expr::Min(_) => { assert(c@ =~= seq![c[0]]); Expr::Min(c[0]) },
            Expr::Sum(_) => { assert(c@ =~= seq![c[0]]); Expr::Sum(c[0]) },
            Expr::Avg(_) => { assert(c@ =~= seq![c[0]]); Expr::Avg(c[0]) },
            Expr::Count(_) => { assert(c@ =~= seq![c[0]]); Expr::Count(c[0]) },
            Expr::Empty(_) => { assert(c@ =~= seq![c[0]]); Expr::Empty(c[0]) },
            Expr::Scan(_) => { let a = [c[0], c[1]]; assert(a@ =~= c@); Expr::Scan(a) },
            Expr::Values(_) => { assert(c@ =~= seq![c[0]]); Expr::Values(c[0]) },
            Expr::Proj(_) => { let a = [c[0], c[1]]; assert(a@ =~= c@); Expr::Proj(a) },
            Expr::Filter(_) => { let a = [c[0], c[1]]; assert(a@ =~= c@); Expr::Filter(a) },
            Expr::Order(_) => { let a = [c[0], c[1]]; assert(a@ =~= c@); Expr::Order(a) },
            Expr::Asc(_) => { assert(c@ =~= seq![c[0]]); Expr::Asc(c[0]) },
            Expr::Desc(_) => { assert(c@ =~= seq![c[0]]); Expr::Desc(c[0]) },
            Expr::Limit(_) => { let a = [c[0], c[1], c[2]]; assert(a@ =~= c@); Expr::Limit(a) },
            Expr::TopN(_) => { let a = [c[0], c[1], c[2], c[3]]; assert(a@ =~= c@); Expr::TopN(a) },
            Expr::Agg(_) => { let a = [c[0], c[1], c[2]]; assert(a@ =~= c@); Expr::Agg(a) },
            Expr::Join(_) => { let a = [c[0], c[1], c[2], c[3]]; assert(a@ =~= c@); Expr::Join(a) },
            Expr::HashJoin(_) => { let a = [c[0], c[1], c[2], c[3], c[4]]; assert(a@ =~= c@); Expr::HashJoin(a) },
            Expr::Inner => { assert(c@ =~= Seq::<Id>::empty()); Expr::Inner },
            Expr::LeftOuter => { assert(c@ =~= Seq::<Id>::empty()); Expr::LeftOuter },
            Expr::RightOuter => { assert(c@ =~= Seq::<Id>::empty()); Expr::RightOuter },
            Expr::FullOuter => { assert(c@ =~= Seq::<Id>::empty()); Expr::FullOuter },
            Expr::ColumnMerge(_) => { let a = [c[0], c[1]]; assert(a@ =~= c@); Expr::ColumnMerge(a) },
            Expr::ColumnPrune(_) => { let a = [c[0], c[1]]; assert(a@ =~= c@); Expr::ColumnPrune(a) },
        }
    }

    /// A copy of the node.
    pub fn copy(&self) -> (r: Expr)
        ensures
            r@ == self@,
    {
        let c = self.children();
        self.with_children(&c)
    }

    /// Whether the node is an aggregate function.
    pub fn is_agg(&self) -> (r: bool)
        ensures
            r == is_agg_op(self@.op),
    {
        match self {
            Expr::Max(_) | Expr::Min(_) | Expr::Sum(_) | Expr::Avg(_) | Expr::Count(_) => true,
            _ => false,
        }
    }

    /// Whether the node is a list.
    pub fn is_list(&self) -> (r: bool)
        ensures
            r == (self@.op is List),
    {
        match self {
            Expr::List(_) => true,
            _ => false,
        }
    }

    /// The display text of the node (see [`node_text`]).
    pub fn to_string(&self) -> (r: String)
        ensures
            r@ == node_text(self@.op),
    {
        match self {
            Expr::Constant(v) => v.to_string(),
            Expr::Column(c) => c.clone(),
            Expr::Nested(_) => String::from_str("`"),
            Expr::List(_) => String::from_str("list"),
            Expr::IsNull(_) => String::from_str("isnull"),
            Expr::Neg(_) => String::from_str("-"),
            Expr::Add(_) => String::from_str("+"),
            Expr::Sub(_) => String::from_str("-"),
            Expr::Mul(_) => String::from_str("*"),
            Expr::Div(_) => String::from_str("/"),
            Expr::Eq(_) => String::from_str("="),
            Expr::Neq(_) => String::from_str("<>"),
            Expr::Gt(_) => String::from_str(">"),
            Expr::Lt(_) => String::from_str("<"),
            Expr::Gte(_) => String::from_str(">="),
            Expr::Lte(_) => String::from_str("<="),
            Expr::Not(_) => String::from_str("not"),
            Expr::And(_) => String::from_str("and"),
            Expr::Or(_) => String::from_str("or"),
            Expr::Xor(_) => String::from_str("xor"),
            Expr::Max(_) => String::from_str("max"),
            Expr::Min(_) => String::from_str("min"),
            Expr::Sum(_) => String::from_str("sum"),
            Expr::Avg(_) => String::from_str("avg"),
            Expr::Count(_) => String::from_str("count"),
            Expr::Empty(_) => String::from_str("empty"),
            Expr::Scan(_) => String::from_str("scan"),
            Expr::Values(_) => String::from_str("values"),
            Expr::Proj(_) => String::from_str("proj"),
            Expr::Filter(_) => String::from_str("filter"),
            Expr::Order(_) => String::from_str("order"),
            Expr::Asc(_) => String::from_str("asc"),
            Expr::Desc(_) => String::from_str("desc"),
            Expr::Limit(_) => String::from_str("limit"),
            Expr::TopN(_) => String::from_str("topn"),
            Expr::Agg(_) => String::from_str("agg"),
            Expr::Join(_) => String::from_str("join"),
            Expr::HashJoin(_) => String::from_str("hashjoin"),
            Expr::Inner => String::from_str("inner"),
            Expr::LeftOuter => String::from_str("left_outer"),
            Expr::RightOuter => String::from_str("right_outer"),
            Expr::FullOuter => String::from_str("full_outer"),
            Expr::ColumnMerge(_) => String::from_str("column-merge"),
            Expr::ColumnPrune(_) => String::from_str("column-prune"),
        }
    }
}

} // verus!
