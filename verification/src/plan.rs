//! Plan optimization: the column-set analysis, the helpers behind the
//! projection-pushdown rules, and the rule tables.
use vstd::prelude::*;

use crate::column_set::{ColumnSet, strictly_sorted};
use crate::language::{Expr, ExprView, Id, Op};
use crate::text::{lemma_text_lt_irreflexive, lemma_text_lt_total, text_lt};

verus! {

/// The union of a sequence of sets.
pub open spec fn union_all(s: Seq<Set<Seq<char>>>) -> Set<Seq<char>>
    decreases s.len(),
{
    if s.len() == 0 {
        Set::empty()
    } else {
        union_all(s.drop_last()).union(s.last())
    }
}

/// The columns a node refers to, given the column sets of its children: a
/// column refers to itself; a scan to its column list (not its table); a
/// projection to its expressions; an aggregation to its aggregates and group
/// keys; any other node to the columns of all its children.
pub open spec fn node_columns(e: ExprView, child: Seq<Set<Seq<char>>>) -> Set<Seq<char>> {
    match e.op {
        Op::Column(c) => set![c],
        Op::Scan => child[1],
        Op::Proj => child[0],
        Op::Agg => child[0].union(child[1]),
        _ => union_all(child),
    }
}

/// The views of a list of column sets.
pub open spec fn set_views(v: Seq<&ColumnSet>) -> Seq<Set<Seq<char>>> {
    Seq::new(v.len(), |i: int| v[i]@)
}

/// The column-set analysis of a node: the columns it refers to, given the
/// column sets of its children in order.
pub fn analyze_columns(enode: &Expr, children: &Vec<&ColumnSet>) -> (r: ColumnSet)
    requires
        children@.len() == enode@.children.len(),
    ensures
        r@ == node_columns(enode@, set_views(children@)),
{
    let ghost views = set_views(children@);
    match enode {
        Expr::Column(c) => {
            let mut r = ColumnSet::new();
            r.insert(c.as_str());
            assert(r@ =~= set![c@]);
            r
        },
        Expr::Scan(_) => children[1].copy(),
        Expr::Proj(_) => children[0].copy(),
        Expr::Agg(_) => children[0].union(children[1]),
        _ => {
            let mut r = ColumnSet::new();
            for i in 0..children.len()
                invariant
                    views == set_views(children@),
                    r@ == union_all(views.take(i as int)),
            {
                r.extend(children[i]);
                assert(views.take(i + 1).drop_last() == views.take(i as int));
            }
            assert(views.take(children@.len() as int) == views);
            r
        },
    }
}

/// Merges the column sets of two equivalent e-classes by keeping the smaller
/// one. Returns whether `to` changed and whether it now differs from `from`.
pub fn merge(to: &mut ColumnSet, from: ColumnSet) -> (r: (bool, bool))
    ensures
        from@.len() < old(to)@.len() ==> final(to)@ == from@ && r == (true, false),
        !(from@.len() < old(to)@.len()) ==> final(to)@ == old(to)@ && r == (false, true),
{
    if from.len() < to.len() {
        *to = from;
        (true, false)
    } else {
        (false, true)
    }
}

/// The columns of two lists merged, in increasing name order: the list the
/// `column-merge` rule builds.
pub fn column_merge(list1: &ColumnSet, list2: &ColumnSet) -> (r: Vec<String>)
    ensures
        strictly_sorted(string_views(r@)),
        string_views(r@).to_set() == list1@.union(list2@),
{
    let u = list1.union(list2);
    let r = u.names();
    assert(string_views(r@) =~= u.listing());
    r
}

/// The characters of each string of a list.
pub open spec fn string_views(v: Seq<String>) -> Seq<Seq<char>> {
    Seq::new(v.len(), |i: int| v[i]@)
}

/// The items of `items` whose columns all lie within `filter`, in order.
pub open spec fn pruned(items: Seq<Id>, cols: Seq<Set<Seq<char>>>, filter: Set<Seq<char>>) -> Seq<Id>
    decreases items.len(),
{
    if items.len() == 0 {
        Seq::empty()
    } else {
        let rest = pruned(items.drop_last(), cols.drop_last(), filter);
        if cols.last().subset_of(filter) {
            rest.push(items.last())
        } else {
            rest
        }
    }
}

/// The list the `column-prune` rule builds: the items of `items` (with the
/// column sets `item_columns`) whose columns all lie within `filter`.
pub fn column_prune(filter: &ColumnSet, items: &Vec<Id>, item_columns: &Vec<&ColumnSet>) -> (r: Vec<Id>)
    requires
        items@.len() == item_columns@.len(),
    ensures
        r@ == pruned(items@, set_views(item_columns@), filter@),
{
    let ghost cols = set_views(item_columns@);
    let mut r: Vec<Id> = Vec::new();
    for i in 0..items.len()
        invariant
            items@.len() == item_columns@.len(),
            cols == set_views(item_columns@),
            r@ == pruned(items@.take(i as int), cols.take(i as int), filter@),
    {
        assert(items@.take(i + 1).drop_last() == items@.take(i as int));
        assert(cols.take(i + 1).drop_last() == cols.take(i as int));
        if item_columns[i].is_subset(filter) {
            r.push(items[i]);
        }
    }
    assert(items@.take(items@.len() as int) == items@);
    assert(cols.take(items@.len() as int) == cols);
    r
}

/// The union of some sets holds exactly the members of each of them.
proof fn lemma_union_all(s: Seq<Set<Seq<char>>>)
    ensures
        forall|k: int| 0 <= k < s.len() ==> (#[trigger] s[k]).subset_of(union_all(s)),
        forall|c: Seq<char>| #[trigger] union_all(s).contains(c) ==> exists|k: int|
            0 <= k < s.len() && (#[trigger] s[k]).contains(c),
    decreases s.len(),
{
    if s.len() > 0 {
        let t = s.drop_last();
        lemma_union_all(t);
        assert forall|k: int| 0 <= k < s.len() implies (#[trigger] s[k]).subset_of(union_all(s)) by {
            if k < t.len() {
                assert(s[k] == t[k]);
            }
        }
        assert forall|c: Seq<char>| #[trigger] union_all(s).contains(c) implies exists|k: int|
            0 <= k < s.len() && (#[trigger] s[k]).contains(c) by {
            if union_all(t).contains(c) {
                let k = choose|k: int| 0 <= k < t.len() && (#[trigger] t[k]).contains(c);
                assert(s[k] == t[k]);
            } else {
                assert(s[s.len() - 1].contains(c));
            }
        }
    }
}

/// The columns of a node that is not a column, scan, projection or
/// aggregation are exactly those of its children: every column of every child
/// is among them, and each of them is a column of some child.
pub proof fn lemma_columns_of_children(e: ExprView, child: Seq<Set<Seq<char>>>)
    requires
        !(e.op is Column),
        !(e.op is Scan),
        !(e.op is Proj),
        !(e.op is Agg),
    ensures
        forall|k: int, c: Seq<char>| 0 <= k < child.len() && (#[trigger] child[k]).contains(c)
            ==> #[trigger] node_columns(e, child).contains(c),
        forall|c: Seq<char>| #[trigger] node_columns(e, child).contains(c) ==> exists|k: int|
            0 <= k < child.len() && (#[trigger] child[k]).contains(c),
{
    lemma_union_all(child);
    assert(node_columns(e, child) == union_all(child));
}

/// The columns of a column node are that column alone; those of a scan are
/// those of its column list (never its table's name); those of a projection
/// are those of its expressions; those of an aggregation are those of its
/// aggregates and group keys together.
pub proof fn lemma_columns_of_special_nodes(e: ExprView, child: Seq<Set<Seq<char>>>, c: Seq<char>)
    requires
        crate::language::well_formed(e),
        child.len() == e.children.len(),
    ensures
        e.op == Op::Column(c) ==> node_columns(e, child) == set![c],
        e.op is Scan ==> node_columns(e, child) == child[1],
        e.op is Proj ==> node_columns(e, child) == child[0],
        e.op is Agg ==> (node_columns(e, child).contains(c) <==> child[0].contains(c) || child[1].contains(c)),
{
}

/// Two strictly increasing lists of texts with the same texts are equal.
pub proof fn lemma_strictly_sorted_unique(x: Seq<Seq<char>>, y: Seq<Seq<char>>)
    requires
        strictly_sorted(x),
        strictly_sorted(y),
        x.to_set() == y.to_set(),
    ensures
        x == y,
    decreases x.len() + y.len(),
{
    if x.len() == 0 {
        if y.len() > 0 {
            assert(y.to_set().contains(y[0]));
        }
        assert(y =~= x);
    } else if y.len() == 0 {
        assert(x.to_set().contains(x[0]));
    } else {
        assert(x.to_set().contains(y[0]));
        assert(y.to_set().contains(x[0]));
        let i = choose|i: int| 0 <= i < x.len() && x[i] == y[0];
        let j = choose|j: int| 0 <= j < y.len() && y[j] == x[0];
        if i > 0 && j > 0 {
            assert(text_lt(x[0], x[i]));
            assert(text_lt(y[0], y[j]));
            crate::text::lemma_text_lt_asymmetric(x[0], y[0]);
        }
        assert(x[0] == y[0]) by {
            if i > 0 && j == 0 {
            } else if i == 0 {
            }
        }
        let x1 = x.drop_first();
        let y1 = y.drop_first();
        assert(x1.to_set() =~= y1.to_set()) by {
            assert forall|t: Seq<char>| x1.to_set().contains(t) implies y1.to_set().contains(t) by {
                let k = choose|k: int| 0 <= k < x1.len() && x1[k] == t;
                assert(text_lt(x[0], x[k + 1]));
                assert(y.to_set().contains(t));
                let m = choose|m: int| 0 <= m < y.len() && y[m] == t;
                if m == 0 {
                    lemma_text_lt_irreflexive(t);
                }
                assert(y1[m - 1] == t);
            }
            assert forall|t: Seq<char>| y1.to_set().contains(t) implies x1.to_set().contains(t) by {
                let k = choose|k: int| 0 <= k < y1.len() && y1[k] == t;
                assert(text_lt(y[0], y[k + 1]));
                assert(x.to_set().contains(t));
                let m = choose|m: int| 0 <= m < x.len() && x[m] == t;
                if m == 0 {
                    lemma_text_lt_irreflexive(t);
                }
                assert(x1[m - 1] == t);
            }
        }
        lemma_strictly_sorted_unique(x1, y1);
        assert(x =~= seq![x[0]] + x1);
        assert(y =~= seq![y[0]] + y1);
    }
}

/// The list that `column-merge` builds is the same whichever list comes first.
pub proof fn lemma_column_merge_symmetric(
    list1: Set<Seq<char>>,
    list2: Set<Seq<char>>,
    r12: Seq<Seq<char>>,
    r21: Seq<Seq<char>>,
)
    requires
        strictly_sorted(r12),
        r12.to_set() == list1.union(list2),
        strictly_sorted(r21),
        r21.to_set() == list2.union(list1),
    ensures
        r12 == r21,
{
    assert(list1.union(list2) =~= list2.union(list1));
    lemma_strictly_sorted_unique(r12, r21);
}


// ---- the rule tables ----

/// A condition under which a rule applies, over the pattern variables it names.
pub enum Condition {
    /// The columns of the first variable's e-class lie within those of the second's.
    ColumnsSubset(String, String),
    /// The columns of the first variable's e-class share none with those of the second's.
    ColumnsDisjoint(String, String),
    /// The variable's e-class holds a list.
    IsList(String),
}

/// What a rule builds for a match.
pub enum RuleApplier {
    /// The instance of a pattern.
    Pattern(String),
    /// The list of the columns of two lists, in name order (see [`column_merge`]).
    ColumnMerge(String, String),
    /// The items of a list whose columns lie within a filter (see [`column_prune`]).
    ColumnPrune(String, String),
}

/// A rewrite rule: its name, the pattern it searches for, what it builds,
/// and the conditions under which it applies.
pub struct Rule {
    pub name: String,
    pub searcher: String,
    pub applier: RuleApplier,
    pub conditions: Vec<Condition>,
}

/// The mathematical content of a [`Condition`].
pub enum ConditionView {
    ColumnsSubset(Seq<char>, Seq<char>),
    ColumnsDisjoint(Seq<char>, Seq<char>),
    IsList(Seq<char>),
}

/// The mathematical content of a [`RuleApplier`].
pub enum ApplierView {
    Pattern(Seq<char>),
    ColumnMerge(Seq<char>, Seq<char>),
    ColumnPrune(Seq<char>, Seq<char>),
}

/// The mathematical content of a [`Rule`].
pub struct RuleView {
    pub name: Seq<char>,
    pub searcher: Seq<char>,
    pub applier: ApplierView,
    pub conditions: Seq<ConditionView>,
}

impl View for Condition {
    type V = ConditionView;

    open spec fn view(&self) -> ConditionView {
        match self {
            Condition::ColumnsSubset(a, b) => ConditionView::ColumnsSubset(a@, b@),
            Condition::ColumnsDisjoint(a, b) => ConditionView::ColumnsDisjoint(a@, b@),
            Condition::IsList(a) => ConditionView::IsList(a@),
        }
    }
}

impl View for RuleApplier {
    type V = ApplierView;

    open spec fn view(&self) -> ApplierView {
        match self {
            RuleApplier::Pattern(p) => ApplierView::Pattern(p@),
            RuleApplier::ColumnMerge(a, b) => ApplierView::ColumnMerge(a@, b@),
            RuleApplier::ColumnPrune(a, b) => ApplierView::ColumnPrune(a@, b@),
        }
    }
}

/// The views of a list of conditions.
pub open spec fn condition_views(v: Seq<Condition>) -> Seq<ConditionView> {
    Seq::new(v.len(), |i: int| v[i]@)
}

impl View for Rule {
    type V = RuleView;

    open spec fn view(&self) -> RuleView {
        RuleView {
            name: self.name@,
            searcher: self.searcher@,
            applier: self.applier@,
            conditions: condition_views(self.conditions@),
        }
    }
}

/// The views of a list of rules.
pub open spec fn rule_views(v: Seq<Rule>) -> Seq<RuleView> {
    Seq::new(v.len(), |i: int| v[i]@)
}

/// A rule with no conditions, as a view.
pub open spec fn plain_rule(name: Seq<char>, searcher: Seq<char>, applier: Seq<char>) -> RuleView {
    RuleView { name, searcher, applier: ApplierView::Pattern(applier), conditions: Seq::empty() }
}

/// A rule whose applier is a pattern.
fn pattern_rule(name: &str, searcher: &str, applier: &str, conditions: Vec<Condition>) -> (r: Rule)
    ensures
        r@ == (RuleView {
            name: name@,
            searcher: searcher@,
            applier: ApplierView::Pattern(applier@),
            conditions: condition_views(conditions@),
        }),
{
    Rule {
        name: String::from_str(name),
        searcher: String::from_str(searcher),
        applier: RuleApplier::Pattern(String::from_str(applier)),
        conditions,
    }
}

/// The rule that pushes the plan node `a` (with arguments `a_args`) below the
/// plan node `b` (with arguments `b_args`), as a view.
pub open spec fn pushdown_view(a: Seq<char>, a_args: Seq<char>, b: Seq<char>, b_args: Seq<char>) -> RuleView {
    RuleView {
        name: "pushdown-"@ + a + "-over-"@ + b,
        searcher: "("@ + a + " "@ + a_args + " ("@ + b + " "@ + b_args + " ?child))"@,
        applier: ApplierView::Pattern("("@ + b + " "@ + b_args + " ("@ + a + " "@ + a_args + " ?child))"@),
        conditions: Seq::empty(),
    }
}

/// The rule that pushes the plan node `a` (with arguments `a_args`) below the
/// plan node `b` (with arguments `b_args`): `(a a_args (b b_args ?child))`
/// becomes `(b b_args (a a_args ?child))`.
pub fn pushdown(a: &str, a_args: &str, b: &str, b_args: &str) -> (r: Rule)
    ensures
        r@ == pushdown_view(a@, a_args@, b@, b_args@),
{
    let mut name = String::from_str("pushdown-");
    name.append(a);
    name.append("-over-");
    name.append(b);
    let mut searcher = String::from_str("(");
    searcher.append(a);
    searcher.append(" ");
    searcher.append(a_args);
    searcher.append(" (");
    searcher.append(b);
    searcher.append(" ");
    searcher.append(b_args);
    searcher.append(" ?child))");
    let mut applier = String::from_str("(");
    applier.append(b);
    applier.append(" ");
    applier.append(b_args);
    applier.append(" (");
    applier.append(a);
    applier.append(" ");
    applier.append(a_args);
    applier.append(" ?child))");
    let r = Rule { name, searcher, applier: RuleApplier::Pattern(applier), conditions: Vec::new() };
    assert(condition_views(r.conditions@) =~= Seq::<ConditionView>::empty());
    r
}

/// The table of [`cancel_rules`].
pub open spec fn cancel_table() -> Seq<RuleView> {
    seq![
        RuleView {
            name: "limit-0"@,
            searcher: "(limit 0 0 ?a)"@,
            applier: ApplierView::Pattern("(empty ?a)"@),
            conditions: Seq::empty(),
        },
        RuleView {
            name: "limit-null"@,
            searcher: "(limit null 0 ?a)"@,
            applier: ApplierView::Pattern("?a"@),
            conditions: Seq::empty(),
        },
        RuleView {
            name: "order-null"@,
            searcher: "(order (list) ?a)"@,
            applier: ApplierView::Pattern("?a"@),
            conditions: Seq::empty(),
        },
        RuleView {
            name: "filter-true"@,
            searcher: "(filter true ?a)"@,
            applier: ApplierView::Pattern("?a"@),
            conditions: Seq::empty(),
        },
        RuleView {
            name: "filter-false"@,
            searcher: "(filter false ?a)"@,
            applier: ApplierView::Pattern("(empty ?a)"@),
            conditions: Seq::empty(),
        },
        RuleView {
            name: "inner-join-false"@,
            searcher: "(join inner false ?a ?b)"@,
            applier: ApplierView::Pattern("(empty (join inner false ?a ?b))"@),
            conditions: Seq::empty(),
        },
        RuleView {
            name: "proj-on-empty"@,
            searcher: "(proj ?cols (empty ?a))"@,
            applier: ApplierView::Pattern("(empty ?cols)"@),
            conditions: Seq::empty(),
        },
        RuleView {
            name: "filter-on-empty"@,
            searcher: "(filter ?cond (empty ?a))"@,
            applier: ApplierView::Pattern("(empty ?a)"@),
            conditions: Seq::empty(),
        },
        RuleView {
            name: "order-on-empty"@,
            searcher: "(order ?ord (empty ?a))"@,
            applier: ApplierView::Pattern("(empty ?a)"@),
            conditions: Seq::empty(),
        },
        RuleView {
            name: "limit-on-empty"@,
            searcher: "(limit ?lim ?off (empty ?a))"@,
            applier: ApplierView::Pattern("(empty ?a)"@),
            conditions: Seq::empty(),
        },
    ]
}

/// Whether `t` begins with `p`.
pub open spec fn begins_with(t: Seq<char>, p: Seq<char>) -> bool {
    p.len() <= t.len() && t.subrange(0, p.len() as int) == p
}

/// Whether `t` ends with `p`.
pub open spec fn ends_with(t: Seq<char>, p: Seq<char>) -> bool {
    p.len() <= t.len() && t.subrange(t.len() - p.len(), t.len() as int) == p
}

/// Whether a plan pattern yields no rows, whatever its variables stand for: a
/// limit of 0 rows, a filter on `false`, an inner join on `false`, an empty
/// plan, or a plan over an empty plan.
pub open spec fn yields_no_rows(p: Seq<char>) -> bool {
    ||| begins_with(p, "(limit 0 "@)
    ||| begins_with(p, "(filter false "@)
    ||| begins_with(p, "(join inner false "@)
    ||| begins_with(p, "(empty "@)
    ||| ends_with(p, " (empty ?a))"@)
}

/// Whether a plan pattern returns the rows of its last argument `?a`
/// unchanged: a limit of `null` rows from offset 0, an order by no key, or a
/// filter on `true`.
pub open spec fn passes_rows_through(p: Seq<char>) -> bool {
    &&& (begins_with(p, "(limit null 0 "@) || begins_with(p, "(order (list) "@) || begins_with(p, "(filter true "@))
    &&& ends_with(p, " ?a)"@)
}

/// `t` does not begin with `p` when they differ at `k`.
proof fn lemma_not_begins(t: Seq<char>, p: Seq<char>, k: int)
    requires
        0 <= k < p.len(),
        k < t.len(),
        t[k] != p[k],
    ensures
        !begins_with(t, p),
{
    if p.len() <= t.len() {
        assert(t.subrange(0, p.len() as int)[k] == t[k]);
    }
}

/// `t` does not end with `p` when they differ at `k` of `p`.
proof fn lemma_not_ends(t: Seq<char>, p: Seq<char>, k: int)
    requires
        0 <= k < p.len(),
        p.len() <= t.len(),
        t[t.len() - p.len() + k] != p[k],
    ensures
        !ends_with(t, p),
{
    assert(t.subrange(t.len() - p.len(), t.len() as int)[k] == t[t.len() - p.len() + k]);
}

/// The cancel rules keep the rows a plan yields: a rule that matches a plan
/// yielding no rows (a zero limit, a `false` filter or inner join, a plan over
/// an empty plan) rewrites it to an empty plan; and a rule that rewrites to
/// anything but an empty plan matches only a plan that passes the rows of its
/// input `?a` through unchanged, and rewrites it to that input.
pub proof fn lemma_cancel_rules_keep_rows()
    ensures
        forall|i: int| 0 <= i < cancel_table().len() ==> ({
            let r = #[trigger] cancel_table()[i];
            &&& r.applier is Pattern
            &&& yields_no_rows(r.searcher) ==> begins_with(r.applier->Pattern_0, "(empty "@)
            &&& !begins_with(r.applier->Pattern_0, "(empty "@) ==> passes_rows_through(r.searcher)
                && r.applier->Pattern_0 == "?a"@
        }),
{
    reveal_strlit(" (empty ?a))");
    reveal_strlit(" ?a)");
    reveal_strlit("(empty ");
    reveal_strlit("(empty (join inner false ?a ?b))");
    reveal_strlit("(empty ?a)");
    reveal_strlit("(empty ?cols)");
    reveal_strlit("(filter ?cond (empty ?a))");
    reveal_strlit("(filter false ");
    reveal_strlit("(filter false ?a)");
    reveal_strlit("(filter true ");
    reveal_strlit("(filter true ?a)");
    reveal_strlit("(join inner false ");
    reveal_strlit("(join inner false ?a ?b)");
    reveal_strlit("(limit 0 ");
    reveal_strlit("(limit 0 0 ?a)");
    reveal_strlit("(limit ?lim ?off (empty ?a))");
    reveal_strlit("(limit null 0 ");
    reveal_strlit("(limit null 0 ?a)");
    reveal_strlit("(order (list) ");
    reveal_strlit("(order (list) ?a)");
    reveal_strlit("(order ?ord (empty ?a))");
    reveal_strlit("(proj ?cols (empty ?a))");
    reveal_strlit("?a");
    let c = cancel_table();
    assert forall|i: int| 0 <= i < c.len() implies ({
        let r = #[trigger] c[i];
        &&& r.applier is Pattern
        &&& yields_no_rows(r.searcher) ==> begins_with(r.applier->Pattern_0, "(empty "@)
        &&& !begins_with(r.applier->Pattern_0, "(empty "@) ==> passes_rows_through(r.searcher)
            && r.applier->Pattern_0 == "?a"@
    }) by {
        if i == 0 {
            assert(c[0].searcher == "(limit 0 0 ?a)"@ && c[0].applier == ApplierView::Pattern("(empty ?a)"@));
            let t = c[0].searcher;
            let q = "(empty ?a)"@;
            assert(t.subrange(0, 9) =~= "(limit 0 "@);
            lemma_not_begins(t, "(filter false "@, 1);
            lemma_not_begins(t, "(empty "@, 1);
            lemma_not_ends(t, " (empty ?a))"@, 0);
            lemma_not_begins(t, "(limit null 0 "@, 7);
            lemma_not_begins(t, "(order (list) "@, 1);
            lemma_not_begins(t, "(filter true "@, 1);
            assert(t.subrange(10, 14) =~= " ?a)"@);
            assert(q.subrange(0, 7) =~= "(empty "@);
        } else if i == 1 {
            assert(c[1].searcher == "(limit null 0 ?a)"@ && c[1].applier == ApplierView::Pattern("?a"@));
            let t = c[1].searcher;
            let q = "?a"@;
            lemma_not_begins(t, "(limit 0 "@, 7);
            lemma_not_begins(t, "(filter false "@, 1);
            lemma_not_begins(t, "(empty "@, 1);
            lemma_not_ends(t, " (empty ?a))"@, 0);
            assert(t.subrange(0, 14) =~= "(limit null 0 "@);
            lemma_not_begins(t, "(order (list) "@, 1);
            lemma_not_begins(t, "(filter true "@, 1);
            assert(t.subrange(13, 17) =~= " ?a)"@);
        } else if i == 2 {
            assert(c[2].searcher == "(order (list) ?a)"@ && c[2].applier == ApplierView::Pattern("?a"@));
            let t = c[2].searcher;
            let q = "?a"@;
            lemma_not_begins(t, "(limit 0 "@, 1);
            lemma_not_begins(t, "(filter false "@, 1);
            lemma_not_begins(t, "(empty "@, 1);
            lemma_not_ends(t, " (empty ?a))"@, 0);
            lemma_not_begins(t, "(limit null 0 "@, 1);
            assert(t.subrange(0, 14) =~= "(order (list) "@);
            lemma_not_begins(t, "(filter true "@, 1);
            assert(t.subrange(13, 17) =~= " ?a)"@);
        } else if i == 3 {
            assert(c[3].searcher == "(filter true ?a)"@ && c[3].applier == ApplierView::Pattern("?a"@));
            let t = c[3].searcher;
            let q = "?a"@;
            lemma_not_begins(t, "(limit 0 "@, 1);
            lemma_not_begins(t, "(filter false "@, 8);
            lemma_not_begins(t, "(empty "@, 1);
            lemma_not_ends(t, " (empty ?a))"@, 0);
            lemma_not_begins(t, "(limit null 0 "@, 1);
            lemma_not_begins(t, "(order (list) "@, 1);
            assert(t.subrange(0, 13) =~= "(filter true "@);
            assert(t.subrange(12, 16) =~= " ?a)"@);
        } else if i == 4 {
            assert(c[4].searcher == "(filter false ?a)"@ && c[4].applier == ApplierView::Pattern("(empty ?a)"@));
            let t = c[4].searcher;
            let q = "(empty ?a)"@;
            lemma_not_begins(t, "(limit 0 "@, 1);
            assert(t.subrange(0, 14) =~= "(filter false "@);
            lemma_not_begins(t, "(empty "@, 1);
            lemma_not_ends(t, " (empty ?a))"@, 0);
            lemma_not_begins(t, "(limit null 0 "@, 1);
            lemma_not_begins(t, "(order (list) "@, 1);
            lemma_not_begins(t, "(filter true "@, 8);
            assert(t.subrange(13, 17) =~= " ?a)"@);
            assert(q.subrange(0, 7) =~= "(empty "@);
        } else if i == 5 {
            assert(c[5].searcher == "(join inner false ?a ?b)"@ && c[5].applier == ApplierView::Pattern("(empty (join inner false ?a ?b))"@));
            let t = c[5].searcher;
            let q = "(empty (join inner false ?a ?b))"@;
            lemma_not_begins(t, "(limit 0 "@, 1);
            lemma_not_begins(t, "(filter false "@, 1);
            assert(t.subrange(0, 18) =~= "(join inner false "@);
            lemma_not_begins(t, "(empty "@, 1);
            lemma_not_ends(t, " (empty ?a))"@, 0);
            lemma_not_begins(t, "(limit null 0 "@, 1);
            lemma_not_begins(t, "(order (list) "@, 1);
            lemma_not_begins(t, "(filter true "@, 1);
            lemma_not_ends(t, " ?a)"@, 2);
            assert(q.subrange(0, 7) =~= "(empty "@);
        } else if i == 6 {
            assert(c[6].searcher == "(proj ?cols (empty ?a))"@ && c[6].applier == ApplierView::Pattern("(empty ?cols)"@));
            let t = c[6].searcher;
            let q = "(empty ?cols)"@;
            lemma_not_begins(t, "(limit 0 "@, 1);
            lemma_not_begins(t, "(filter false "@, 1);
            lemma_not_begins(t, "(join inner false "@, 1);
            lemma_not_begins(t, "(empty "@, 1);
            assert(t.subrange(11, 23) =~= " (empty ?a))"@);
            lemma_not_begins(t, "(limit null 0 "@, 1);
            lemma_not_begins(t, "(order (list) "@, 1);
            lemma_not_begins(t, "(filter true "@, 1);
            lemma_not_ends(t, " ?a)"@, 0);
            assert(q.subrange(0, 7) =~= "(empty "@);
        } else if i == 7 {
            assert(c[7].searcher == "(filter ?cond (empty ?a))"@ && c[7].applier == ApplierView::Pattern("(empty ?a)"@));
            let t = c[7].searcher;
            let q = "(empty ?a)"@;
            lemma_not_begins(t, "(limit 0 "@, 1);
            lemma_not_begins(t, "(filter false "@, 8);
            lemma_not_begins(t, "(join inner false "@, 1);
            lemma_not_begins(t, "(empty "@, 1);
            assert(t.subrange(13, 25) =~= " (empty ?a))"@);
            lemma_not_begins(t, "(limit null 0 "@, 1);
            lemma_not_begins(t, "(order (list) "@, 1);
            lemma_not_begins(t, "(filter true "@, 8);
            lemma_not_ends(t, " ?a)"@, 0);
            assert(q.subrange(0, 7) =~= "(empty "@);
        } else if i == 8 {
            assert(c[8].searcher == "(order ?ord (empty ?a))"@ && c[8].applier == ApplierView::Pattern("(empty ?a)"@));
            let t = c[8].searcher;
            let q = "(empty ?a)"@;
            lemma_not_begins(t, "(limit 0 "@, 1);
            lemma_not_begins(t, "(filter false "@, 1);
            lemma_not_begins(t, "(join inner false "@, 1);
            lemma_not_begins(t, "(empty "@, 1);
            assert(t.subrange(11, 23) =~= " (empty ?a))"@);
            lemma_not_begins(t, "(limit null 0 "@, 1);
            lemma_not_begins(t, "(order (list) "@, 7);
            lemma_not_begins(t, "(filter true "@, 1);
            lemma_not_ends(t, " ?a)"@, 0);
            assert(q.subrange(0, 7) =~= "(empty "@);
        } else if i == 9 {
            assert(c[9].searcher == "(limit ?lim ?off (empty ?a))"@ && c[9].applier == ApplierView::Pattern("(empty ?a)"@));
            let t = c[9].searcher;
            let q = "(empty ?a)"@;
            lemma_not_begins(t, "(limit 0 "@, 7);
            lemma_not_begins(t, "(filter false "@, 1);
            lemma_not_begins(t, "(join inner false "@, 1);
            lemma_not_begins(t, "(empty "@, 1);
            assert(t.subrange(16, 28) =~= " (empty ?a))"@);
            lemma_not_begins(t, "(limit null 0 "@, 7);
            lemma_not_begins(t, "(order (list) "@, 1);
            lemma_not_begins(t, "(filter true "@, 1);
            lemma_not_ends(t, " ?a)"@, 0);
            assert(q.subrange(0, 7) =~= "(empty "@);
        }
    }
}

/// The rules that cancel plan nodes that do nothing: a zero or unlimited limit, an empty order, a constant filter, an inner join on `false`, and any plan over an empty one.
pub fn cancel_rules() -> (r: Vec<Rule>)
    ensures
        rule_views(r@) == cancel_table(),
{
    let mut r: Vec<Rule> = Vec::new();
    let conditions: Vec<Condition> = Vec::new();
    proof {
        assert(condition_views(conditions@) =~= Seq::<ConditionView>::empty());
    }
    r.push(pattern_rule("limit-0", "(limit 0 0 ?a)", "(empty ?a)", conditions));
    let conditions: Vec<Condition> = Vec::new();
    proof {
        assert(condition_views(conditions@) =~= Seq::<ConditionView>::empty());
    }
    r.push(pattern_rule("limit-null", "(limit null 0 ?a)", "?a", conditions));
    let conditions: Vec<Condition> = Vec::new();
    proof {
        assert(condition_views(conditions@) =~= Seq::<ConditionView>::empty());
    }
    r.push(pattern_rule("order-null", "(order (list) ?a)", "?a", conditions));
    let conditions: Vec<Condition> = Vec::new();
    proof {
        assert(condition_views(conditions@) =~= Seq::<ConditionView>::empty());
    }
    r.push(pattern_rule("filter-true", "(filter true ?a)", "?a", conditions));
    let conditions: Vec<Condition> = Vec::new();
    proof {
        assert(condition_views(conditions@) =~= Seq::<ConditionView>::empty());
    }
    r.push(pattern_rule("filter-false", "(filter false ?a)", "(empty ?a)", conditions));
    let conditions: Vec<Condition> = Vec::new();
    proof {
        assert(condition_views(conditions@) =~= Seq::<ConditionView>::empty());
    }
    r.push(pattern_rule("inner-join-false", "(join inner false ?a ?b)", "(empty (join inner false ?a ?b))", conditions));
    let conditions: Vec<Condition> = Vec::new();
    proof {
        assert(condition_views(conditions@) =~= Seq::<ConditionView>::empty());
    }
    r.push(pattern_rule("proj-on-empty", "(proj ?cols (empty ?a))", "(empty ?cols)", conditions));
    let conditions: Vec<Condition> = Vec::new();
    proof {
        assert(condition_views(conditions@) =~= Seq::<ConditionView>::empty());
    }
    r.push(pattern_rule("filter-on-empty", "(filter ?cond (empty ?a))", "(empty ?a)", conditions));
    let conditions: Vec<Condition> = Vec::new();
    proof {
        assert(condition_views(conditions@) =~= Seq::<ConditionView>::empty());
    }
    r.push(pattern_rule("order-on-empty", "(order ?ord (empty ?a))", "(empty ?a)", conditions));
    let conditions: Vec<Condition> = Vec::new();
    proof {
        assert(condition_views(conditions@) =~= Seq::<ConditionView>::empty());
    }
    r.push(pattern_rule("limit-on-empty", "(limit ?lim ?off (empty ?a))", "(empty ?a)", conditions));
    assert(rule_views(r@) =~= cancel_table());
    r
}

/// The table of [`merge_rules`].
pub open spec fn merge_table() -> Seq<RuleView> {
    seq![
        RuleView {
            name: "limit-order-topn"@,
            searcher: "(limit ?lim ?off (order ?ord ?a))"@,
            applier: ApplierView::Pattern("(topn ?lim ?off ?ord ?a)"@),
            conditions: Seq::empty(),
        },
        RuleView {
            name: "filter-merge"@,
            searcher: "(filter ?cond1 (filter ?cond2 ?a))"@,
            applier: ApplierView::Pattern("(filter (and ?cond1 ?cond2) ?a)"@),
            conditions: Seq::empty(),
        },
        RuleView {
            name: "proj-merge"@,
            searcher: "(proj ?cols1 (proj ?cols2 ?a))"@,
            applier: ApplierView::Pattern("(proj ?cols1 ?a)"@),
            conditions: Seq::empty(),
        },
    ]
}

/// The rules that merge adjacent plan nodes: a limit over an order into a top-n, two filters into one, two projections into the outer one.
pub fn merge_rules() -> (r: Vec<Rule>)
    ensures
        rule_views(r@) == merge_table(),
{
    let mut r: Vec<Rule> = Vec::new();
    let conditions: Vec<Condition> = Vec::new();
    proof {
        assert(condition_views(conditions@) =~= Seq::<ConditionView>::empty());
    }
    r.push(pattern_rule("limit-order-topn", "(limit ?lim ?off (order ?ord ?a))", "(topn ?lim ?off ?ord ?a)", conditions));
    let conditions: Vec<Condition> = Vec::new();
    proof {
        assert(condition_views(conditions@) =~= Seq::<ConditionView>::empty());
    }
    r.push(pattern_rule("filter-merge", "(filter ?cond1 (filter ?cond2 ?a))", "(filter (and ?cond1 ?cond2) ?a)", conditions));
    let conditions: Vec<Condition> = Vec::new();
    proof {
        assert(condition_views(conditions@) =~= Seq::<ConditionView>::empty());
    }
    r.push(pattern_rule("proj-merge", "(proj ?cols1 (proj ?cols2 ?a))", "(proj ?cols1 ?a)", conditions));
    assert(rule_views(r@) =~= merge_table());
    r
}

/// The table of [`join_rules`].
pub open spec fn join_table() -> Seq<RuleView> {
    seq![
        RuleView {
            name: "inner-join-assoc"@,
            searcher: "(join inner ?cond2 (join inner ?cond1 ?left ?mid) ?right)"@,
            applier: ApplierView::Pattern("(join inner ?cond1 ?left (join inner ?cond2 ?mid ?right))"@),
            conditions: seq![ConditionView::ColumnsDisjoint("?cond2"@, "?left"@)],
        },
        RuleView {
            name: "hash-join-on-one-eq"@,
            searcher: "(join ?type (= ?el ?er) ?left ?right)"@,
            applier: ApplierView::Pattern("(hashjoin ?type (list ?el) (list ?er) ?left ?right)"@),
            conditions: seq![ConditionView::ColumnsSubset("?el"@, "?left"@), ConditionView::ColumnsSubset("?er"@, "?right"@)],
        },
        RuleView {
            name: "hash-join-on-two-eq"@,
            searcher: "(join ?type (and (= ?l1 ?r1) (= ?l2 ?r2)) ?left ?right)"@,
            applier: ApplierView::Pattern("(hashjoin ?type (list ?l1 ?l2) (list ?r1 ?r2) ?left ?right)"@),
            conditions: seq![ConditionView::ColumnsSubset("?l1"@, "?left"@), ConditionView::ColumnsSubset("?l2"@, "?left"@), ConditionView::ColumnsSubset("?r1"@, "?right"@), ConditionView::ColumnsSubset("?r2"@, "?right"@)],
        },
    ]
}

/// The join rules: inner-join associativity when the outer condition refers to no column of the left input, and hash joins on one or two equalities whose sides fall within the two inputs.
pub fn join_rules() -> (r: Vec<Rule>)
    ensures
        rule_views(r@) == join_table(),
{
    let mut r: Vec<Rule> = Vec::new();
    let mut conditions: Vec<Condition> = Vec::new();
    conditions.push(Condition::ColumnsDisjoint(String::from_str("?cond2"), String::from_str("?left")));
    proof {
        assert(condition_views(conditions@) =~= seq![ConditionView::ColumnsDisjoint("?cond2"@, "?left"@)]);
    }
    r.push(pattern_rule("inner-join-assoc", "(join inner ?cond2 (join inner ?cond1 ?left ?mid) ?right)", "(join inner ?cond1 ?left (join inner ?cond2 ?mid ?right))", conditions));
    let mut conditions: Vec<Condition> = Vec::new();
    conditions.push(Condition::ColumnsSubset(String::from_str("?el"), String::from_str("?left")));
    conditions.push(Condition::ColumnsSubset(String::from_str("?er"), String::from_str("?right")));
    proof {
        assert(condition_views(conditions@) =~= seq![ConditionView::ColumnsSubset("?el"@, "?left"@), ConditionView::ColumnsSubset("?er"@, "?right"@)]);
    }
    r.push(pattern_rule("hash-join-on-one-eq", "(join ?type (= ?el ?er) ?left ?right)", "(hashjoin ?type (list ?el) (list ?er) ?left ?right)", conditions));
    let mut conditions: Vec<Condition> = Vec::new();
    conditions.push(Condition::ColumnsSubset(String::from_str("?l1"), String::from_str("?left")));
    conditions.push(Condition::ColumnsSubset(String::from_str("?l2"), String::from_str("?left")));
    conditions.push(Condition::ColumnsSubset(String::from_str("?r1"), String::from_str("?right")));
    conditions.push(Condition::ColumnsSubset(String::from_str("?r2"), String::from_str("?right")));
    proof {
        assert(condition_views(conditions@) =~= seq![ConditionView::ColumnsSubset("?l1"@, "?left"@), ConditionView::ColumnsSubset("?l2"@, "?left"@), ConditionView::ColumnsSubset("?r1"@, "?right"@), ConditionView::ColumnsSubset("?r2"@, "?right"@)]);
    }
    r.push(pattern_rule("hash-join-on-two-eq", "(join ?type (and (= ?l1 ?r1) (= ?l2 ?r2)) ?left ?right)", "(hashjoin ?type (list ?l1 ?l2) (list ?r1 ?r2) ?left ?right)", conditions));
    assert(rule_views(r@) =~= join_table());
    r
}

/// The table of [`projection_pushdown_rules`].
pub open spec fn projection_pushdown_table() -> Seq<RuleView> {
    seq![
        RuleView {
            name: "pushdown-proj-order"@,
            searcher: "(proj ?exprs (order ?keys ?child))"@,
            applier: ApplierView::Pattern("(proj ?exprs (order ?keys (proj (column-merge ?exprs ?keys) ?child)))"@),
            conditions: Seq::empty(),
        },
        RuleView {
            name: "pushdown-proj-topn"@,
            searcher: "(proj ?exprs (topn ?limit ?offset ?keys ?child))"@,
            applier: ApplierView::Pattern("(proj ?exprs (topn ?limit ?offset ?keys (proj (column-merge ?exprs ?keys) ?child)))"@),
            conditions: Seq::empty(),
        },
        RuleView {
            name: "pushdown-proj-filter"@,
            searcher: "(proj ?exprs (filter ?cond ?child))"@,
            applier: ApplierView::Pattern("(proj ?exprs (filter ?cond (proj (column-merge ?exprs ?cond) ?child)))"@),
            conditions: Seq::empty(),
        },
        RuleView {
            name: "pushdown-proj-agg"@,
            searcher: "(proj ?exprs (agg ?aggs ?group_keys ?child))"@,
            applier: ApplierView::Pattern("(proj ?exprs (agg ?aggs ?group_keys (proj (column-merge ?aggs ?group_keys) ?child)))"@),
            conditions: Seq::empty(),
        },
        RuleView {
            name: "pushdown-proj-join"@,
            searcher: "(proj ?exprs (join ?type ?on ?left ?right))"@,
            applier: ApplierView::Pattern("(proj ?exprs (join ?type ?on\n            (proj (column-prune ?left (column-merge ?exprs ?on)) ?left)\n            (proj (column-prune ?right (column-merge ?exprs ?on)) ?right)\n        ))"@),
            conditions: Seq::empty(),
        },
        RuleView {
            name: "pushdown-proj-scan"@,
            searcher: "(proj ?exprs (scan ?table ?columns))"@,
            applier: ApplierView::Pattern("(scan ?table (column-prune ?exprs ?columns))"@),
            conditions: Seq::empty(),
        },
        RuleView {
            name: "column-merge"@,
            searcher: "(column-merge ?list1 ?list2)"@,
            applier: ApplierView::ColumnMerge("?list1"@, "?list2"@),
            conditions: Seq::empty(),
        },
        RuleView {
            name: "column-prune"@,
            searcher: "(column-prune ?filter ?list)"@,
            applier: ApplierView::ColumnPrune("?filter"@, "?list"@),
            conditions: seq![ConditionView::IsList("?list"@)],
        },
    ]
}

/// Pushes projections down and prunes unused columns.
pub fn projection_pushdown_rules() -> (r: Vec<Rule>)
    ensures
        rule_views(r@) == projection_pushdown_table(),
{
    let mut r: Vec<Rule> = Vec::new();
    let conditions: Vec<Condition> = Vec::new();
    proof {
        assert(condition_views(conditions@) =~= Seq::<ConditionView>::empty());
    }
    r.push(pattern_rule("pushdown-proj-order", "(proj ?exprs (order ?keys ?child))", "(proj ?exprs (order ?keys (proj (column-merge ?exprs ?keys) ?child)))", conditions));
    let conditions: Vec<Condition> = Vec::new();
    proof {
        assert(condition_views(conditions@) =~= Seq::<ConditionView>::empty());
    }
    r.push(pattern_rule("pushdown-proj-topn", "(proj ?exprs (topn ?limit ?offset ?keys ?child))", "(proj ?exprs (topn ?limit ?offset ?keys (proj (column-merge ?exprs ?keys) ?child)))", conditions));
    let conditions: Vec<Condition> = Vec::new();
    proof {
        assert(condition_views(conditions@) =~= Seq::<ConditionView>::empty());
    }
    r.push(pattern_rule("pushdown-proj-filter", "(proj ?exprs (filter ?cond ?child))", "(proj ?exprs (filter ?cond (proj (column-merge ?exprs ?cond) ?child)))", conditions));
    let conditions: Vec<Condition> = Vec::new();
    proof {
        assert(condition_views(conditions@) =~= Seq::<ConditionView>::empty());
    }
    r.push(pattern_rule("pushdown-proj-agg", "(proj ?exprs (agg ?aggs ?group_keys ?child))", "(proj ?exprs (agg ?aggs ?group_keys (proj (column-merge ?aggs ?group_keys) ?child)))", conditions));
    let conditions: Vec<Condition> = Vec::new();
    proof {
        assert(condition_views(conditions@) =~= Seq::<ConditionView>::empty());
    }
    r.push(pattern_rule("pushdown-proj-join", "(proj ?exprs (join ?type ?on ?left ?right))", "(proj ?exprs (join ?type ?on\n            (proj (column-prune ?left (column-merge ?exprs ?on)) ?left)\n            (proj (column-prune ?right (column-merge ?exprs ?on)) ?right)\n        ))", conditions));
    let conditions: Vec<Condition> = Vec::new();
    proof {
        assert(condition_views(conditions@) =~= Seq::<ConditionView>::empty());
    }
    r.push(pattern_rule("pushdown-proj-scan", "(proj ?exprs (scan ?table ?columns))", "(scan ?table (column-prune ?exprs ?columns))", conditions));
    let conditions: Vec<Condition> = Vec::new();
    proof {
        assert(condition_views(conditions@) =~= Seq::<ConditionView>::empty());
    }
    r.push(Rule {
        name: String::from_str("column-merge"),
        searcher: String::from_str("(column-merge ?list1 ?list2)"),
        applier: RuleApplier::ColumnMerge(String::from_str("?list1"), String::from_str("?list2")),
        conditions,
    });
    let mut conditions: Vec<Condition> = Vec::new();
    conditions.push(Condition::IsList(String::from_str("?list")));
    proof {
        assert(condition_views(conditions@) =~= seq![ConditionView::IsList("?list"@)]);
    }
    r.push(Rule {
        name: String::from_str("column-prune"),
        searcher: String::from_str("(column-prune ?filter ?list)"),
        applier: RuleApplier::ColumnPrune(String::from_str("?filter"), String::from_str("?list")),
        conditions,
    });
    assert(rule_views(r@) =~= projection_pushdown_table());
    r
}

/// The table of [`predicate_pushdown_rules`].
pub open spec fn predicate_pushdown_table() -> Seq<RuleView> {
    seq![
        pushdown_view("filter"@, "?cond"@, "order"@, "?keys"@),
        pushdown_view("filter"@, "?cond"@, "limit"@, "?limit ?offset"@),
        pushdown_view("filter"@, "?cond"@, "topn"@, "?limit ?offset ?keys"@),
        RuleView {
            name: "pushdown-filter-over-inner-join"@,
            searcher: "(filter ?cond (join inner ?on ?left ?right))"@,
            applier: ApplierView::Pattern("(join inner (and ?on ?cond) ?left ?right)"@),
            conditions: Seq::empty(),
        },
        RuleView {
            name: "pushdown-filter-over-inner-join-left"@,
            searcher: "(join inner ?cond ?left ?right)"@,
            applier: ApplierView::Pattern("(join inner true (filter ?cond ?left) ?right)"@),
            conditions: seq![ConditionView::ColumnsSubset("?cond"@, "?left"@)],
        },
        RuleView {
            name: "pushdown-filter-over-inner-join-left-1"@,
            searcher: "(join inner (and ?cond1 ?cond2) ?left ?right)"@,
            applier: ApplierView::Pattern("(join inner ?cond2 (filter ?cond1 ?left) ?right)"@),
            conditions: seq![ConditionView::ColumnsSubset("?cond1"@, "?left"@)],
        },
        RuleView {
            name: "pushdown-filter-over-inner-join-right"@,
            searcher: "(join inner ?cond ?left ?right)"@,
            applier: ApplierView::Pattern("(join inner true ?left (filter ?cond ?right))"@),
            conditions: seq![ConditionView::ColumnsSubset("?cond"@, "?right"@)],
        },
        RuleView {
            name: "pushdown-filter-over-inner-join-right-2"@,
            searcher: "(join inner (and ?cond1 ?cond2) ?left ?right)"@,
            applier: ApplierView::Pattern("(join inner ?cond1 ?left (filter ?cond2 ?right))"@),
            conditions: seq![ConditionView::ColumnsSubset("?cond2"@, "?right"@)],
        },
    ]
}

/// Pushes filters down: below orders, limits and top-n nodes, into inner joins, and into the input of an inner join whose columns hold the condition's.
pub fn predicate_pushdown_rules() -> (r: Vec<Rule>)
    ensures
        rule_views(r@) == predicate_pushdown_table(),
{
    let mut r: Vec<Rule> = Vec::new();
    r.push(pushdown("filter", "?cond", "order", "?keys"));
    r.push(pushdown("filter", "?cond", "limit", "?limit ?offset"));
    r.push(pushdown("filter", "?cond", "topn", "?limit ?offset ?keys"));
    let conditions: Vec<Condition> = Vec::new();
    proof {
        assert(condition_views(conditions@) =~= Seq::<ConditionView>::empty());
    }
    r.push(pattern_rule("pushdown-filter-over-inner-join", "(filter ?cond (join inner ?on ?left ?right))", "(join inner (and ?on ?cond) ?left ?right)", conditions));
    let mut conditions: Vec<Condition> = Vec::new();
    conditions.push(Condition::ColumnsSubset(String::from_str("?cond"), String::from_str("?left")));
    proof {
        assert(condition_views(conditions@) =~= seq![ConditionView::ColumnsSubset("?cond"@, "?left"@)]);
    }
    r.push(pattern_rule("pushdown-filter-over-inner-join-left", "(join inner ?cond ?left ?right)", "(join inner true (filter ?cond ?left) ?right)", conditions));
    let mut conditions: Vec<Condition> = Vec::new();
    conditions.push(Condition::ColumnsSubset(String::from_str("?cond1"), String::from_str("?left")));
    proof {
        assert(condition_views(conditions@) =~= seq![ConditionView::ColumnsSubset("?cond1"@, "?left"@)]);
    }
    r.push(pattern_rule("pushdown-filter-over-inner-join-left-1", "(join inner (and ?cond1 ?cond2) ?left ?right)", "(join inner ?cond2 (filter ?cond1 ?left) ?right)", conditions));
    let mut conditions: Vec<Condition> = Vec::new();
    conditions.push(Condition::ColumnsSubset(String::from_str("?cond"), String::from_str("?right")));
    proof {
        assert(condition_views(conditions@) =~= seq![ConditionView::ColumnsSubset("?cond"@, "?right"@)]);
    }
    r.push(pattern_rule("pushdown-filter-over-inner-join-right", "(join inner ?cond ?left ?right)", "(join inner true ?left (filter ?cond ?right))", conditions));
    let mut conditions: Vec<Condition> = Vec::new();
    conditions.push(Condition::ColumnsSubset(String::from_str("?cond2"), String::from_str("?right")));
    proof {
        assert(condition_views(conditions@) =~= seq![ConditionView::ColumnsSubset("?cond2"@, "?right"@)]);
    }
    r.push(pattern_rule("pushdown-filter-over-inner-join-right-2", "(join inner (and ?cond1 ?cond2) ?left ?right)", "(join inner ?cond1 ?left (filter ?cond2 ?right))", conditions));
    assert(rule_views(r@) =~= predicate_pushdown_table());
    r
}

/// Appends the rules of `src` to `dst`.
fn append_rules(dst: &mut Vec<Rule>, src: Vec<Rule>)
    ensures
        rule_views(final(dst)@) == rule_views(old(dst)@) + rule_views(src@),
{
    let mut src = src;
    let ghost a = rule_views(dst@);
    let ghost b = rule_views(src@);
    dst.append(&mut src);
    assert(rule_views(dst@) =~= a + b);
}

/// The names of a list of rules.
pub open spec fn rule_names(v: Seq<RuleView>) -> Seq<Seq<char>> {
    Seq::new(v.len(), |i: int| v[i].name)
}

/// Whether no two names are the same.
pub open spec fn names_distinct(n: Seq<Seq<char>>) -> bool {
    forall|i: int, j: int| 0 <= i < j < n.len() ==> n[i] != n[j]
}

/// A name's length, first character and fourth character from the end.
spec fn name_key(n: Seq<char>) -> (nat, char, char) {
    (n.len(), n[0], n[n.len() - 4])
}

/// The position in [`rules`] of the rule whose name has the key `k`.
spec fn rule_position(k: (nat, char, char)) -> int {
    if k == (19nat, 'p', 'r') {
        0
    } else if k == (18nat, 'p', 't') {
        1
    } else if k == (20nat, 'p', 'l') {
        2
    } else if k == (17nat, 'p', '-') {
        3
    } else if k == (18nat, 'p', 'j') {
        4
    } else if k == (18nat, 'p', 's') {
        5
    } else if k == (12nat, 'c', 'e') {
        6
    } else if k == (12nat, 'c', 'r') {
        7
    } else if k == (16nat, 'i', 's') {
        8
    } else if k == (19nat, 'h', 'e') {
        9
    } else if k == (19nat, 'h', 'o') {
        10
    } else if k == (7nat, 'l', 'i') {
        11
    } else if k == (10nat, 'l', 'n') {
        12
    } else if k == (10nat, 'o', 'n') {
        13
    } else if k == (11nat, 'f', 't') {
        14
    } else if k == (12nat, 'f', 'a') {
        15
    } else if k == (16nat, 'i', 'a') {
        16
    } else if k == (13nat, 'p', 'm') {
        17
    } else if k == (15nat, 'f', 'm') {
        18
    } else if k == (14nat, 'o', 'm') {
        19
    } else if k == (14nat, 'l', 'm') {
        20
    } else if k == (26nat, 'p', 'r') {
        21
    } else if k == (26nat, 'p', 'i') {
        22
    } else if k == (25nat, 'p', 't') {
        23
    } else if k == (31nat, 'p', 'j') {
        24
    } else if k == (36nat, 'p', 'l') {
        25
    } else if k == (38nat, 'p', 'f') {
        26
    } else if k == (37nat, 'p', 'i') {
        27
    } else if k == (39nat, 'p', 'h') {
        28
    } else if k == (16nat, 'l', 't') {
        29
    } else if k == (12nat, 'f', 'e') {
        30
    } else if k == (10nat, 'p', 'e') {
        31
    } else {
        -1
    }
}

/// The rules of [`rules`] all have different names.
pub proof fn lemma_rule_names_distinct()
    ensures
        names_distinct(rule_names(projection_pushdown_table() + join_table() + cancel_table()
            + predicate_pushdown_table() + merge_table())),
{
    reveal_strlit("-over-");
    reveal_strlit("column-merge");
    reveal_strlit("column-prune");
    reveal_strlit("filter");
    reveal_strlit("filter-false");
    reveal_strlit("filter-merge");
    reveal_strlit("filter-on-empty");
    reveal_strlit("filter-true");
    reveal_strlit("hash-join-on-one-eq");
    reveal_strlit("hash-join-on-two-eq");
    reveal_strlit("inner-join-assoc");
    reveal_strlit("inner-join-false");
    reveal_strlit("limit");
    reveal_strlit("limit-0");
    reveal_strlit("limit-null");
    reveal_strlit("limit-on-empty");
    reveal_strlit("limit-order-topn");
    reveal_strlit("order");
    reveal_strlit("order-null");
    reveal_strlit("order-on-empty");
    reveal_strlit("proj-merge");
    reveal_strlit("proj-on-empty");
    reveal_strlit("pushdown-");
    reveal_strlit("pushdown-filter-over-inner-join");
    reveal_strlit("pushdown-filter-over-inner-join-left");
    reveal_strlit("pushdown-filter-over-inner-join-left-1");
    reveal_strlit("pushdown-filter-over-inner-join-right");
    reveal_strlit("pushdown-filter-over-inner-join-right-2");
    reveal_strlit("pushdown-filter-over-limit");
    reveal_strlit("pushdown-filter-over-order");
    reveal_strlit("pushdown-filter-over-topn");
    reveal_strlit("pushdown-proj-agg");
    reveal_strlit("pushdown-proj-filter");
    reveal_strlit("pushdown-proj-join");
    reveal_strlit("pushdown-proj-order");
    reveal_strlit("pushdown-proj-scan");
    reveal_strlit("pushdown-proj-topn");
    reveal_strlit("topn");
    let t = projection_pushdown_table() + join_table() + cancel_table() + predicate_pushdown_table()
        + merge_table();
    let n = rule_names(t);
    assert(t.len() == 32);
    assert forall|k: int| 0 <= k < 32 implies #[trigger] rule_position(name_key(n[k])) == k by {
        if k == 0 {
            assert(t[0].name == n[0]);
        } else if k == 1 {
            assert(t[1].name == n[1]);
        } else if k == 2 {
            assert(t[2].name == n[2]);
        } else if k == 3 {
            assert(t[3].name == n[3]);
        } else if k == 4 {
            assert(t[4].name == n[4]);
        } else if k == 5 {
            assert(t[5].name == n[5]);
        } else if k == 6 {
            assert(t[6].name == n[6]);
        } else if k == 7 {
            assert(t[7].name == n[7]);
        } else if k == 8 {
            assert(t[8].name == n[8]);
        } else if k == 9 {
            assert(t[9].name == n[9]);
        } else if k == 10 {
            assert(t[10].name == n[10]);
        } else if k == 11 {
            assert(t[11].name == n[11]);
        } else if k == 12 {
            assert(t[12].name == n[12]);
        } else if k == 13 {
            assert(t[13].name == n[13]);
        } else if k == 14 {
            assert(t[14].name == n[14]);
        } else if k == 15 {
            assert(t[15].name == n[15]);
        } else if k == 16 {
            assert(t[16].name == n[16]);
        } else if k == 17 {
            assert(t[17].name == n[17]);
        } else if k == 18 {
            assert(t[18].name == n[18]);
        } else if k == 19 {
            assert(t[19].name == n[19]);
        } else if k == 20 {
            assert(t[20].name == n[20]);
        } else if k == 21 {
            assert(t[21].name == n[21]);
        } else if k == 22 {
            assert(t[22].name == n[22]);
        } else if k == 23 {
            assert(t[23].name == n[23]);
        } else if k == 24 {
            assert(t[24].name == n[24]);
        } else if k == 25 {
            assert(t[25].name == n[25]);
        } else if k == 26 {
            assert(t[26].name == n[26]);
        } else if k == 27 {
            assert(t[27].name == n[27]);
        } else if k == 28 {
            assert(t[28].name == n[28]);
        } else if k == 29 {
            assert(t[29].name == n[29]);
        } else if k == 30 {
            assert(t[30].name == n[30]);
        } else if k == 31 {
            assert(t[31].name == n[31]);
        }
    }
    assert forall|i: int, j: int| 0 <= i < j < n.len() implies n[i] != n[j] by {
        if n[i] == n[j] {
            assert(rule_position(name_key(n[i])) == i);
            assert(rule_position(name_key(n[j])) == j);
        }
    }
}

/// The rules that always improve the plan: projection pushdown, join, cancel,
/// predicate pushdown and merge rules, in that order, each under its own name.
pub fn rules() -> (r: Vec<Rule>)
    ensures
        rule_views(r@) == projection_pushdown_table() + join_table() + cancel_table()
            + predicate_pushdown_table() + merge_table(),
        names_distinct(rule_names(rule_views(r@))),
{
    proof {
        lemma_rule_names_distinct();
    }
    let mut r: Vec<Rule> = Vec::new();
    append_rules(&mut r, projection_pushdown_rules());
    append_rules(&mut r, join_rules());
    append_rules(&mut r, cancel_rules());
    append_rules(&mut r, predicate_pushdown_rules());
    append_rules(&mut r, merge_rules());
    assert(rule_views(r@) =~= projection_pushdown_table() + join_table() + cancel_table()
        + predicate_pushdown_table() + merge_table());
    r
}

} // verus!
