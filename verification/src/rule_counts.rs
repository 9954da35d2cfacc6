//! Aggregating the number of applications of each rewrite rule and ranking
//! the rules by it.
use vstd::prelude::*;

use crate::text::{
    chars_of, lemma_text_lt_asymmetric, lemma_text_lt_irreflexive, lemma_text_lt_total,
    lemma_text_lt_transitive, same_chars, string_of, text_less, text_lt,
};

verus! {

/// A rule's name and a number of applications, as characters and a number.
pub type CountView = (Seq<char>, nat);

/// The views of a list of counts.
pub open spec fn count_views(v: Seq<(String, usize)>) -> Seq<CountView> {
    Seq::new(v.len(), |i: int| (v[i].0@, v[i].1 as nat))
}

/// The total number of applications of rule `name` in `pairs`.
pub open spec fn total_for(pairs: Seq<CountView>, name: Seq<char>) -> nat
    decreases pairs.len(),
{
    if pairs.len() == 0 {
        0
    } else {
        total_for(pairs.drop_last(), name) + if pairs.last().0 == name { pairs.last().1 } else { 0 }
    }
}

/// Whether `name` occurs in `pairs`.
pub open spec fn has_name(pairs: Seq<CountView>, name: Seq<char>) -> bool {
    exists|i: int| 0 <= i < pairs.len() && (#[trigger] pairs[i]).0 == name
}

/// The ranking order: more applications first, then the name.
pub open spec fn ranks_before(a: CountView, b: CountView) -> bool {
    a.1 > b.1 || (a.1 == b.1 && text_lt(a.0, b.0))
}

/// Whether `r` ranks the rules of `pairs`: one entry per rule name that occurs
/// in `pairs`, with its total, in ranking order.
pub open spec fn is_ranking(r: Seq<CountView>, pairs: Seq<CountView>) -> bool {
    &&& forall|i: int, j: int| 0 <= i < j < r.len() ==> ranks_before(#[trigger] r[i], #[trigger] r[j])
    &&& forall|i: int| 0 <= i < r.len() ==> has_name(pairs, (#[trigger] r[i]).0)
    &&& forall|i: int| 0 <= i < r.len() ==> (#[trigger] r[i]).1 == total_for(pairs, r[i].0)
    &&& forall|name: Seq<char>| has_name(pairs, name) ==> exists|i: int|
        0 <= i < r.len() && (#[trigger] r[i]).0 == name
}

/// Whether `s` is strictly in ranking order.
pub open spec fn ranked(s: Seq<CountView>) -> bool {
    forall|i: int, j: int| 0 <= i < j < s.len() ==> ranks_before(#[trigger] s[i], #[trigger] s[j])
}

/// Two lists strictly in ranking order with the same entries are equal.
proof fn lemma_ranked_unique(x: Seq<CountView>, y: Seq<CountView>)
    requires
        ranked(x),
        ranked(y),
        x.to_set() == y.to_set(),
    ensures
        x == y,
    decreases x.len() + y.len(),
{
    if x.len() == 0 {
        if y.len() > 0 {
            assert(y.to_set().contains(y[0]));
        }
        assert(y =~= x);
    } else if y.len() == 0 {
        assert(x.to_set().contains(x[0]));
    } else {
        assert(x.to_set().contains(y[0]));
        assert(y.to_set().contains(x[0]));
        let i = choose|i: int| 0 <= i < x.len() && x[i] == y[0];
        let j = choose|j: int| 0 <= j < y.len() && y[j] == x[0];
        if i > 0 && j > 0 {
            assert(ranks_before(x[0], x[i]));
            assert(ranks_before(y[0], y[j]));
            lemma_ranks_before_order(x[0], y[0], x[0]);
        }
        let x1 = x.drop_first();
        let y1 = y.drop_first();
        assert(x1.to_set() =~= y1.to_set()) by {
            assert forall|t: CountView| x1.to_set().contains(t) implies y1.to_set().contains(t) by {
                let k = choose|k: int| 0 <= k < x1.len() && x1[k] == t;
                assert(ranks_before(x[0], x[k + 1]));
                assert(y.to_set().contains(t));
                let m = choose|m: int| 0 <= m < y.len() && y[m] == t;
                if m == 0 {
                    lemma_ranks_before_order(t, t, t);
                }
                assert(y1[m - 1] == t);
            }
            assert forall|t: CountView| y1.to_set().contains(t) implies x1.to_set().contains(t) by {
                let k = choose|k: int| 0 <= k < y1.len() && y1[k] == t;
                assert(ranks_before(y[0], y[k + 1]));
                assert(x.to_set().contains(t));
                let m = choose|m: int| 0 <= m < x.len() && x[m] == t;
                if m == 0 {
                    lemma_ranks_before_order(t, t, t);
                }
                assert(x1[m - 1] == t);
            }
        }
        lemma_ranked_unique(x1, y1);
        assert(x =~= seq![x[0]] + x1);
        assert(y =~= seq![y[0]] + y1);
    }
}

/// The ranking of the rule counts is unique: any two rankings of the same
/// counts are equal, so the ranking is a function of the counts.
pub proof fn lemma_ranking_unique(a: Seq<CountView>, b: Seq<CountView>, pairs: Seq<CountView>)
    requires
        is_ranking(a, pairs),
        is_ranking(b, pairs),
    ensures
        a == b,
{
    assert forall|t: CountView| a.to_set().contains(t) implies b.to_set().contains(t) by {
        let i = choose|i: int| 0 <= i < a.len() && a[i] == t;
        assert(has_name(pairs, a[i].0));
        let j = choose|j: int| 0 <= j < b.len() && (#[trigger] b[j]).0 == a[i].0;
        assert(b[j] == t);
    }
    assert forall|t: CountView| b.to_set().contains(t) implies a.to_set().contains(t) by {
        let i = choose|i: int| 0 <= i < b.len() && b[i] == t;
        assert(has_name(pairs, b[i].0));
        let j = choose|j: int| 0 <= j < a.len() && (#[trigger] a[j]).0 == b[i].0;
        assert(a[j] == t);
    }
    assert(a.to_set() =~= b.to_set());
    lemma_ranked_unique(a, b);
}

/// Whether every rule's total fits in a `usize`.
pub open spec fn totals_fit(pairs: Seq<CountView>) -> bool {
    forall|name: Seq<char>| #[trigger] total_for(pairs, name) <= usize::MAX
}

/// A prefix of the pairs never has a larger total.
proof fn lemma_total_prefix(pairs: Seq<CountView>, k: int, name: Seq<char>)
    requires
        0 <= k <= pairs.len(),
    ensures
        total_for(pairs.take(k), name) <= total_for(pairs, name),
    decreases pairs.len() - k,
{
    if k < pairs.len() {
        lemma_total_prefix(pairs, k + 1, name);
        assert(pairs.take(k + 1).drop_last() == pairs.take(k));
    } else {
        assert(pairs.take(k) == pairs);
    }
}

/// The ranking order is a strict total order on entries with distinct names.
proof fn lemma_ranks_before_order(a: CountView, b: CountView, c: CountView)
    ensures
        !ranks_before(a, a),
        ranks_before(a, b) ==> !ranks_before(b, a),
        ranks_before(a, b) && ranks_before(b, c) ==> ranks_before(a, c),
        a.0 != b.0 ==> ranks_before(a, b) || ranks_before(b, a),
{
    lemma_text_lt_irreflexive(a.0);
    if ranks_before(a, b) && a.1 == b.1 {
        lemma_text_lt_asymmetric(a.0, b.0);
    }
    if ranks_before(a, b) && ranks_before(b, c) && a.1 == b.1 && b.1 == c.1 {
        lemma_text_lt_transitive(a.0, b.0, c.0);
    }
    lemma_text_lt_total(a.0, b.0);
}

/// Whether `a` ranks before `b`.
fn ranks_before_exec(a: &(Vec<char>, usize), b: &(Vec<char>, usize)) -> (r: bool)
    ensures
        r == ranks_before((a.0@, a.1 as nat), (b.0@, b.1 as nat)),
{
    a.1 > b.1 || (a.1 == b.1 && text_less(&a.0, &b.0))
}

/// The views of a list of entries held as characters.
pub open spec fn entry_views(v: Seq<(Vec<char>, usize)>) -> Seq<CountView> {
    Seq::new(v.len(), |i: int| (v[i].0@, v[i].1 as nat))
}

/// Whether `acc` holds, once each, the rules of `p` with their totals.
pub open spec fn totals_inv(acc: Seq<CountView>, p: Seq<CountView>) -> bool {
    &&& forall|a: int, b: int| 0 <= a < b < acc.len() ==> (#[trigger] acc[a]).0 != (#[trigger] acc[b]).0
    &&& forall|a: int| 0 <= a < acc.len() ==> has_name(p, (#[trigger] acc[a]).0)
    &&& forall|a: int| 0 <= a < acc.len() ==> (#[trigger] acc[a]).1 == total_for(p, acc[a].0)
    &&& forall|name: Seq<char>| #[trigger] has_name(p, name) ==> has_name(acc, name)
}

/// The rules of `p.push(e)` are those of `p` and `e`'s.
proof fn lemma_has_name_push(p: Seq<CountView>, e: CountView, t: Seq<char>)
    ensures
        has_name(p.push(e), t) <==> (has_name(p, t) || t == e.0),
{
    let q = p.push(e);
    if has_name(q, t) {
        let k = choose|k: int| 0 <= k < q.len() && (#[trigger] q[k]).0 == t;
        if k < p.len() {
            assert(p[k] == q[k]);
        }
    }
    if has_name(p, t) {
        let k = choose|k: int| 0 <= k < p.len() && (#[trigger] p[k]).0 == t;
        assert(q[k] == p[k]);
    }
    if t == e.0 {
        assert(q[p.len() as int].0 == t);
    }
}

/// Counting a rule already present adds to its total.
proof fn lemma_totals_found(acc: Seq<CountView>, p: Seq<CountView>, e: CountView, k: int)
    requires
        totals_inv(acc, p),
        0 <= k < acc.len(),
        acc[k].0 == e.0,
    ensures
        totals_inv(acc.update(k, (e.0, acc[k].1 + e.1)), p.push(e)),
{
    let n = acc.update(k, (e.0, acc[k].1 + e.1));
    let q = p.push(e);
    assert(q.drop_last() == p);
    assert forall|a: int| 0 <= a < n.len() implies has_name(q, (#[trigger] n[a]).0) by {
        lemma_has_name_push(p, e, n[a].0);
    }
    assert forall|name: Seq<char>| #[trigger] has_name(q, name) implies has_name(n, name) by {
        lemma_has_name_push(p, e, name);
        if name == e.0 {
            assert(n[k].0 == name);
        } else {
            let a = choose|a: int| 0 <= a < acc.len() && (#[trigger] acc[a]).0 == name;
            assert(n[a].0 == name);
        }
    }
}

/// Counting a new rule adds an entry for it.
proof fn lemma_totals_new(acc: Seq<CountView>, p: Seq<CountView>, e: CountView)
    requires
        totals_inv(acc, p),
        forall|a: int| 0 <= a < acc.len() ==> (#[trigger] acc[a]).0 != e.0,
    ensures
        totals_inv(acc.push(e), p.push(e)),
{
    let n = acc.push(e);
    let q = p.push(e);
    assert(q.drop_last() == p);
    assert(!has_name(p, e.0)) by {
        if has_name(p, e.0) {
            assert(has_name(acc, e.0));
            let a = choose|a: int| 0 <= a < acc.len() && (#[trigger] acc[a]).0 == e.0;
        }
    }
    lemma_total_absent(p, e.0);
    assert forall|a: int| 0 <= a < n.len() implies has_name(q, (#[trigger] n[a]).0) by {
        lemma_has_name_push(p, e, n[a].0);
        if a < acc.len() {
            assert(n[a] == acc[a]);
        }
    }
    assert forall|a: int| 0 <= a < n.len() implies (#[trigger] n[a]).1 == total_for(q, n[a].0) by {
        if a < acc.len() {
            assert(n[a] == acc[a]);
        }
    }
    assert forall|name: Seq<char>| #[trigger] has_name(q, name) implies has_name(n, name) by {
        lemma_has_name_push(p, e, name);
        if name == e.0 {
            assert(n[acc.len() as int].0 == name);
        } else {
            let a = choose|a: int| 0 <= a < acc.len() && (#[trigger] acc[a]).0 == name;
            assert(n[a].0 == name);
        }
    }
}

/// A rule that does not occur has no applications.
proof fn lemma_total_absent(pairs: Seq<CountView>, name: Seq<char>)
    requires
        !has_name(pairs, name),
    ensures
        total_for(pairs, name) == 0,
    decreases pairs.len(),
{
    if pairs.len() > 0 {
        assert(!has_name(pairs.drop_last(), name)) by {
            if has_name(pairs.drop_last(), name) {
                let k = choose|k: int| 0 <= k < pairs.len() - 1 && (#[trigger] pairs.drop_last()[k]).0 == name;
                assert(pairs[k].0 == name);
            }
        }
        lemma_total_absent(pairs.drop_last(), name);
        assert(pairs[pairs.len() - 1].0 != name);
    }
}

/// The position of the entry named `name`, if any.
fn position_of(acc: &Vec<(Vec<char>, usize)>, name: &Vec<char>) -> (r: Option<usize>)
    ensures
        r is Some ==> r->0 < acc@.len() && entry_views(acc@)[r->0 as int].0 == name@,
        r is None ==> forall|a: int| 0 <= a < acc@.len() ==> (#[trigger] entry_views(acc@)[a]).0 != name@,
{
    for k in 0..acc.len()
        invariant
            forall|a: int| 0 <= a < k ==> (#[trigger] entry_views(acc@)[a]).0 != name@,
    {
        if same_chars(&acc[k].0, name) {
            return Some(k);
        }
    }
    None
}

/// Totals per rule name of `pairs`, in order of first occurrence.
fn totals(pairs: &Vec<(String, usize)>) -> (r: Vec<(Vec<char>, usize)>)
    requires
        totals_fit(count_views(pairs@)),
    ensures
        totals_inv(entry_views(r@), count_views(pairs@)),
{
    let ghost p = count_views(pairs@);
    let mut acc: Vec<(Vec<char>, usize)> = Vec::new();
    assert(totals_inv(entry_views(acc@), p.take(0))) by {
        assert forall|name: Seq<char>| #[trigger] has_name(p.take(0), name) implies has_name(
            entry_views(acc@),
            name,
        ) by {
            let k = choose|k: int| 0 <= k < p.take(0).len() && (#[trigger] p.take(0)[k]).0 == name;
        }
    }
    let mut i: usize = 0;
    while i < pairs.len()
        invariant
            i <= pairs@.len(),
            p == count_views(pairs@),
            totals_fit(p),
            totals_inv(entry_views(acc@), p.take(i as int)),
        decreases pairs@.len() - i,
    {
        let name = chars_of(pairs[i].0.as_str());
        let count = pairs[i].1;
        let ghost e = (name@, count as nat);
        assert(e == p[i as int]);
        assert(p.take(i + 1) == p.take(i as int).push(e));
        let ghost old_acc = entry_views(acc@);
        match position_of(&acc, &name) {
            Some(k) => {
                proof {
                    lemma_totals_found(old_acc, p.take(i as int), e, k as int);
                    lemma_total_prefix(p, i + 1, name@);
                    assert(total_for(p, name@) <= usize::MAX);
                    assert(old_acc[k as int].1 == total_for(p.take(i as int), name@));
                    assert(p.take(i + 1).drop_last() == p.take(i as int));
                }
                let c = acc[k].1;
                let n = crate::text::copy_chars(&acc[k].0);
                acc.set(k, (n, c + count));
                assert(entry_views(acc@) =~= old_acc.update(k as int, (e.0, old_acc[k as int].1 + e.1)));
            },
            None => {
                proof {
                    lemma_totals_new(old_acc, p.take(i as int), e);
                }
                acc.push((name, count));
                assert(entry_views(acc@) =~= old_acc.push(e));
            },
        }
        i = i + 1;
    }
    assert(p.take(pairs@.len() as int) == p);
    acc
}

/// Whether `s` is in ranking order and holds exactly the entries `tv[..i]`.
pub open spec fn sorted_inv(s: Seq<CountView>, tv: Seq<CountView>, i: int) -> bool {
    &&& forall|a: int, b: int| 0 <= a < b < s.len() ==> ranks_before(#[trigger] s[a], #[trigger] s[b])
    &&& forall|a: int| 0 <= a < s.len() ==> #[trigger] tv.take(i).contains(s[a])
    &&& forall|b: int| 0 <= b < i ==> #[trigger] s.contains(tv[b])
}

/// Inserting the next entry at the first place it ranks before keeps the
/// order and adds the entry.
proof fn lemma_sorted_insert(s: Seq<CountView>, tv: Seq<CountView>, i: int, k: int)
    requires
        0 <= i < tv.len(),
        forall|a: int, b: int| 0 <= a < b < tv.len() ==> tv[a].0 != tv[b].0,
        sorted_inv(s, tv, i),
        0 <= k <= s.len(),
        forall|a: int| 0 <= a < k ==> ranks_before(#[trigger] s[a], tv[i]),
        k < s.len() ==> !ranks_before(s[k], tv[i]),
    ensures
        sorted_inv(s.insert(k, tv[i]), tv, i + 1),
{
    let ev = tv[i];
    let ns = s.insert(k, ev);
    assert forall|a: int| 0 <= a < s.len() implies s[a].0 != ev.0 by {
        assert(tv.take(i).contains(s[a]));
        let b = choose|b: int| 0 <= b < i && tv.take(i)[b] == s[a];
        assert(tv[b] == s[a]);
    }
    assert forall|a: int, b: int| 0 <= a < b < ns.len() implies ranks_before(
        #[trigger] ns[a],
        #[trigger] ns[b],
    ) by {
        if k < s.len() {
            lemma_ranks_before_order(s[k], ev, ev);
        }
        if b < k {
            assert(ns[a] == s[a] && ns[b] == s[b]);
        } else if b == k {
            assert(ns[a] == s[a]);
        } else if a == k {
            assert(ns[b] == s[b - 1]);
            if b - 1 > k {
                lemma_ranks_before_order(ev, s[k], s[b - 1]);
            }
        } else if a < k {
            assert(ns[a] == s[a]);
            assert(ns[b] == s[b - 1]);
            lemma_ranks_before_order(s[a], ev, s[k]);
            if b - 1 > k {
                lemma_ranks_before_order(s[a], s[k], s[b - 1]);
            }
        } else {
            assert(ns[a] == s[a - 1]);
            assert(ns[b] == s[b - 1]);
        }
    }
    assert(tv.take(i + 1) == tv.take(i).push(ev));
    assert forall|a: int| 0 <= a < ns.len() implies #[trigger] tv.take(i + 1).contains(ns[a]) by {
        if a < k {
            assert(ns[a] == s[a]);
            assert(tv.take(i).contains(s[a]));
            let b = choose|b: int| 0 <= b < i && tv.take(i)[b] == s[a];
            assert(tv.take(i + 1)[b] == s[a]);
        } else if a == k {
            assert(tv.take(i + 1)[i] == ev);
        } else {
            assert(ns[a] == s[a - 1]);
            assert(tv.take(i).contains(s[a - 1]));
            let b = choose|b: int| 0 <= b < i && tv.take(i)[b] == s[a - 1];
            assert(tv.take(i + 1)[b] == s[a - 1]);
        }
    }
    assert forall|b: int| 0 <= b < i + 1 implies #[trigger] ns.contains(tv[b]) by {
        if b == i {
            assert(ns[k] == ev);
        } else {
            assert(s.contains(tv[b]));
            let a = choose|a: int| 0 <= a < s.len() && s[a] == tv[b];
            if a < k {
                assert(ns[a] == s[a]);
            } else {
                assert(ns[a + 1] == s[a]);
            }
        }
    }
}

/// The rules of `pairs` with their total applications, most applied first,
/// then by name (see [`is_ranking`]).
pub fn rank_rule_counts(pairs: &Vec<(String, usize)>) -> (r: Vec<(String, usize)>)
    requires
        totals_fit(count_views(pairs@)),
    ensures
        is_ranking(count_views(r@), count_views(pairs@)),
{
    let t = totals(pairs);
    let ghost tv = entry_views(t@);
    let ghost p = count_views(pairs@);
    let mut sorted: Vec<(Vec<char>, usize)> = Vec::new();
    let mut i: usize = 0;
    while i < t.len()
        invariant
            i <= t@.len(),
            tv == entry_views(t@),
            totals_inv(tv, p),
            sorted_inv(entry_views(sorted@), tv, i as int),
        decreases t@.len() - i,
    {
        let e = (crate::text::copy_chars(&t[i].0), t[i].1);
        let mut k: usize = 0;
        while k < sorted.len() && ranks_before_exec(&sorted[k], &e)
            invariant
                k <= sorted@.len(),
                forall|a: int| 0 <= a < k ==> ranks_before(#[trigger] entry_views(sorted@)[a], (e.0@, e.1 as nat)),
            decreases sorted@.len() - k,
        {
            k = k + 1;
        }
        let ghost old_s = entry_views(sorted@);
        assert((e.0@, e.1 as nat) == tv[i as int]);
        proof {
            lemma_sorted_insert(old_s, tv, i as int, k as int);
        }
        sorted.insert(k, e);
        assert(entry_views(sorted@) =~= old_s.insert(k as int, tv[i as int]));
        i = i + 1;
    }
    assert(tv.take(t@.len() as int) == tv);
    let mut r: Vec<(String, usize)> = Vec::new();
    let mut j: usize = 0;
    while j < sorted.len()
        invariant
            j <= sorted@.len(),
            count_views(r@) == entry_views(sorted@).take(j as int),
        decreases sorted@.len() - j,
    {
        let name = string_of(&sorted[j].0);
        let ghost prev = count_views(r@);
        r.push((name, sorted[j].1));
        assert(count_views(r@) =~= prev.push(entry_views(sorted@)[j as int]));
        assert(entry_views(sorted@).take(j + 1) =~= entry_views(sorted@).take(j as int).push(entry_views(sorted@)[j as int]));
        j = j + 1;
    }
    assert(entry_views(sorted@).take(sorted@.len() as int) == entry_views(sorted@));
    let ghost rv = count_views(r@);
    proof {
        assert(rv == entry_views(sorted@));
        assert forall|a: int| 0 <= a < rv.len() implies has_name(p, (#[trigger] rv[a]).0) && rv[a].1
            == total_for(p, rv[a].0) by {
            assert(tv.contains(rv[a]));
            let b = choose|b: int| 0 <= b < tv.len() && tv[b] == rv[a];
        }
        assert forall|name: Seq<char>| has_name(p, name) implies exists|a: int|
            0 <= a < rv.len() && (#[trigger] rv[a]).0 == name by {
            assert(has_name(tv, name));
            let b = choose|b: int| 0 <= b < tv.len() && (#[trigger] tv[b]).0 == name;
            assert(rv.contains(tv[b]));
            let a = choose|a: int| 0 <= a < rv.len() && rv[a] == tv[b];
            assert(rv[a].0 == name);
        }
    }
    r
}


/// Whether every rule's total fits in a `usize` (see [`totals_fit`]).
pub fn rule_counts_fit(pairs: &Vec<(String, usize)>) -> (r: bool)
    ensures
        r == totals_fit(count_views(pairs@)),
{
    let ghost p = count_views(pairs@);
    for i in 0..pairs.len()
        invariant
            p == count_views(pairs@),
            forall|k: int| 0 <= k < i ==> total_for(p, #[trigger] p[k].0) <= usize::MAX,
    {
        let name = chars_of(pairs[i].0.as_str());
        let mut sum: usize = 0;
        for j in 0..pairs.len()
            invariant
                p == count_views(pairs@),
                name@ == p[i as int].0,
                i < p.len(),
                sum == total_for(p.take(j as int), name@),
        {
            assert(p.take(j + 1).drop_last() == p.take(j as int));
            assert(p.take(j + 1).last() == p[j as int]);
            let other = chars_of(pairs[j].0.as_str());
            if same_chars(&other, &name) {
                if pairs[j].1 > usize::MAX - sum {
                    proof {
                        lemma_total_prefix(p, j + 1, name@);
                        assert(!totals_fit(p) ) by {
                            assert(total_for(p, name@) > usize::MAX);
                        }
                    }
                    return false;
                }
                sum = sum + pairs[j].1;
            }
        }
        assert(p.take(pairs@.len() as int) == p);
        assert(total_for(p, p[i as int].0) <= usize::MAX);
    }
    proof {
        assert forall|name: Seq<char>| #[trigger] total_for(p, name) <= usize::MAX by {
            if has_name(p, name) {
                let k = choose|k: int| 0 <= k < p.len() && (#[trigger] p[k]).0 == name;
            } else {
                lemma_total_absent(p, name);
            }
        }
    }
    true
}
} // verus!
