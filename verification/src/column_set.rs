//! Sets of column names, kept as a strictly increasing list in the text order
//! (the order of Rust's `str`).
use vstd::prelude::*;

use crate::text::{
    chars_of, copy_chars, lemma_text_lt_asymmetric, lemma_text_lt_irreflexive,
    lemma_text_lt_total, lemma_text_lt_transitive, same_chars, string_of, text_less, text_lt,
};

verus! {

/// Whether a list of texts is strictly increasing in the text order.
pub open spec fn strictly_sorted(s: Seq<Seq<char>>) -> bool {
    forall|i: int, j: int| 0 <= i < j < s.len() ==> text_lt(#[trigger] s[i], #[trigger] s[j])
}

/// A set of column names.
#[derive(Debug)]
pub struct ColumnSet {
    names: Vec<Vec<char>>,
}

impl ColumnSet {
    /// The names of the set in increasing text order.
    pub closed spec fn listing(&self) -> Seq<Seq<char>> {
        Seq::new(self.names@.len(), |i: int| self.names@[i]@)
    }

    #[verifier::type_invariant]
    closed spec fn sorted(&self) -> bool {
        strictly_sorted(self.listing())
    }

}

/// A strictly increasing list holds each text once, and as many texts as its
/// set of texts.
proof fn lemma_sorted_listing(l: Seq<Seq<char>>)
    requires
        strictly_sorted(l),
    ensures
        l.no_duplicates(),
        l.to_set().finite(),
        l.to_set().len() == l.len(),
{
    assert forall|i: int, j: int| 0 <= i < l.len() && 0 <= j < l.len() && i != j implies l[i]
        != l[j] by {
        if i < j {
            assert(text_lt(l[i], l[j]));
        } else {
            assert(text_lt(l[j], l[i]));
        }
        lemma_text_lt_irreflexive(l[i]);
    }
    l.unique_seq_to_set();
}

impl View for ColumnSet {
    type V = Set<Seq<char>>;

    closed spec fn view(&self) -> Set<Seq<char>> {
        self.listing().to_set()
    }
}

impl ColumnSet {
    /// The empty set.
    pub fn new() -> (r: ColumnSet)
        ensures
            r@ == Set::<Seq<char>>::empty(),
            r.listing() == Seq::<Seq<char>>::empty(),
    {
        let r = ColumnSet { names: Vec::new() };
        assert(r.listing() =~= Seq::<Seq<char>>::empty());
        assert(r@ =~= Set::<Seq<char>>::empty());
        r
    }

    /// The number of names.
    pub fn len(&self) -> (r: usize)
        ensures
            r == self@.len(),
            r == self.listing().len(),
    {
        proof {
            use_type_invariant(self);
            lemma_sorted_listing(self.listing());
        }
        self.names.len()
    }

    /// The position of the first listed name that is not before `name`, and
    /// whether it is `name` itself.
    fn position(&self, name: &Vec<char>) -> (r: (usize, bool))
        ensures
            r.0 <= self.listing().len(),
            forall|k: int| 0 <= k < r.0 ==> text_lt(#[trigger] self.listing()[k], name@),
            r.1 <==> (r.0 < self.listing().len() && self.listing()[r.0 as int] == name@),
            !r.1 && r.0 < self.listing().len() ==> text_lt(name@, self.listing()[r.0 as int]),
    {
        let mut i: usize = 0;
        while i < self.names.len()
            invariant
                i <= self.names@.len(),
                forall|k: int| 0 <= k < i ==> text_lt(#[trigger] self.listing()[k], name@),
            decreases self.names@.len() - i,
        {
            if !text_less(&self.names[i], name) {
                let eq = same_chars(&self.names[i], name);
                proof {
                    if !eq {
                        lemma_text_lt_total(self.names@[i as int]@, name@);
                    }
                }
                return (i, eq);
            }
            i = i + 1;
        }
        (i, false)
    }

    /// Whether `name` is in the set.
    pub fn contains_chars(&self, name: &Vec<char>) -> (r: bool)
        ensures
            r == self@.contains(name@),
    {
        let (i, found) = self.position(name);
        proof {
            use_type_invariant(self);
        }
        proof {
            if !found {
                assert forall|k: int| 0 <= k < self.listing().len() implies self.listing()[k]
                    != name@ by {
                    if k < i {
                        lemma_text_lt_irreflexive(name@);
                    } else {
                        if k > i {
                            lemma_text_lt_transitive(name@, self.listing()[i as int], self.listing()[k]);
                        }
                        lemma_text_lt_irreflexive(name@);
                    }
                }
            } else {
                assert(self.listing().contains(name@));
            }
        }
        found
    }

    /// Whether the column `name` is in the set.
    pub fn contains(&self, name: &str) -> (r: bool)
        ensures
            r == self@.contains(name@),
    {
        let v = chars_of(name);
        self.contains_chars(&v)
    }

    /// Adds a name to the set.
    pub fn insert_chars(&mut self, name: &Vec<char>)
        ensures
            final(self)@ == old(self)@.insert(name@),
    {
        let (i, found) = self.position(name);
        if found {
            proof {
                assert(self.listing().contains(name@));
                assert(self@.insert(name@) =~= self@);
            }
            return;
        }
        proof {
            use_type_invariant(&*self);
        }
        let ghost old_list = self.listing();
        let c = copy_chars(name);
        let mut names = Vec::new();
        std::mem::swap(&mut names, &mut self.names);
        names.insert(i, c);
        let ghost new_list = Seq::new(names@.len(), |k: int| names@[k]@);
        assert(new_list =~= old_list.insert(i as int, name@));
        assert forall|a: int, b: int| 0 <= a < b < new_list.len() implies text_lt(
            #[trigger] new_list[a],
            #[trigger] new_list[b],
        ) by {
            if a < i && b < i {
            } else if a < i && b == i {
            } else if a < i && b > i {
                assert(new_list[b] == old_list[b - 1]);
                if i < old_list.len() {
                    lemma_text_lt_transitive(old_list[a], name@, old_list[i as int]);
                    if b - 1 > i {
                        lemma_text_lt_transitive(old_list[a], old_list[i as int], old_list[b - 1]);
                    }
                }
            } else if a == i {
                assert(new_list[b] == old_list[b - 1]);
                if b - 1 > i {
                    lemma_text_lt_transitive(name@, old_list[i as int], old_list[b - 1]);
                }
            } else {
                assert(new_list[a] == old_list[a - 1]);
                assert(new_list[b] == old_list[b - 1]);
            }
        }
        self.names = names;
        assert(self.listing() == new_list);
        assert(self@ =~= old(self)@.insert(name@)) by {
            assert forall|x: Seq<char>| self@.contains(x) <==> old(self)@.insert(name@).contains(x) by {
                if x == name@ {
                    assert(new_list[i as int] == name@);
                }
                if old_list.contains(x) {
                    let k = choose|k: int| 0 <= k < old_list.len() && old_list[k] == x;
                    if k < i {
                        assert(new_list[k] == x);
                    } else {
                        assert(new_list[k + 1] == x);
                    }
                }
                if new_list.contains(x) {
                    let k = choose|k: int| 0 <= k < new_list.len() && new_list[k] == x;
                    if k < i {
                        assert(old_list[k] == x);
                    } else if k > i {
                        assert(old_list[k - 1] == x);
                    }
                }
            }
        }
    }

    /// Adds the column `name` to the set.
    pub fn insert(&mut self, name: &str)
        ensures
            final(self)@ == old(self)@.insert(name@),
    {
        let v = chars_of(name);
        self.insert_chars(&v);
    }

    /// A copy of the set.
    pub fn copy(&self) -> (r: ColumnSet)
        ensures
            r@ == self@,
            r.listing() == self.listing(),
    {
        proof {
            use_type_invariant(self);
        }
        let mut names: Vec<Vec<char>> = Vec::new();
        for i in 0..self.names.len()
            invariant
                names@.len() == i,
                forall|k: int| 0 <= k < i ==> (#[trigger] names@[k])@ == self.names@[k]@,
        {
            names.push(copy_chars(&self.names[i]));
        }
        assert(Seq::new(names@.len(), |k: int| names@[k]@) =~= self.listing());
        let r = ColumnSet { names };
        r
    }

    /// The union of two sets.
    pub fn union(&self, other: &ColumnSet) -> (r: ColumnSet)
        ensures
            r@ == self@.union(other@),
    {
        let mut r = self.copy();
        for i in 0..other.names.len()
            invariant
                r@ == self@.union(other.listing().take(i as int).to_set()),
        {
            r.insert_chars(&other.names[i]);
            proof {
                let t = other.listing().take(i + 1);
                assert(t == other.listing().take(i as int).push(other.listing()[i as int]));
                other.listing().take(i as int).lemma_push_to_set_commute(other.listing()[i as int]);
                assert(r@ =~= self@.union(t.to_set()));
            }
        }
        proof {
            assert(other.listing().take(other.names@.len() as int) == other.listing());
        }
        r
    }

    /// Adds every name of `other` to the set.
    pub fn extend(&mut self, other: &ColumnSet)
        ensures
            final(self)@ == old(self)@.union(other@),
    {
        let r = self.union(other);
        *self = r;
    }

    /// Whether every name of the set is in `other`.
    pub fn is_subset(&self, other: &ColumnSet) -> (r: bool)
        ensures
            r == self@.subset_of(other@),
    {
        for i in 0..self.names.len()
            invariant
                forall|k: int| 0 <= k < i ==> other@.contains(#[trigger] self.listing()[k]),
        {
            if !other.contains_chars(&self.names[i]) {
                proof {
                    assert(self@.contains(self.listing()[i as int]));
                }
                return false;
            }
        }
        proof {
            assert forall|x: Seq<char>| self@.contains(x) implies other@.contains(x) by {
                let k = choose|k: int| 0 <= k < self.listing().len() && self.listing()[k] == x;
            }
        }
        true
    }

    /// Whether the set shares no name with `other`.
    pub fn is_disjoint(&self, other: &ColumnSet) -> (r: bool)
        ensures
            r == self@.disjoint(other@),
    {
        for i in 0..self.names.len()
            invariant
                forall|k: int| 0 <= k < i ==> !other@.contains(#[trigger] self.listing()[k]),
        {
            if other.contains_chars(&self.names[i]) {
                proof {
                    assert(self@.contains(self.listing()[i as int]));
                }
                return false;
            }
        }
        proof {
            assert forall|x: Seq<char>| self@.contains(x) implies !other@.contains(x) by {
                let k = choose|k: int| 0 <= k < self.listing().len() && self.listing()[k] == x;
            }
        }
        true
    }

    /// The names of the set in increasing text order.
    pub fn names(&self) -> (r: Vec<String>)
        ensures
            strictly_sorted(self.listing()),
            self.listing().no_duplicates(),
            self.listing().to_set() == self@,
            r@.len() == self.listing().len(),
            forall|k: int| 0 <= k < r@.len() ==> (#[trigger] r@[k])@ == self.listing()[k],
    {
        proof {
            use_type_invariant(self);
            lemma_sorted_listing(self.listing());
        }
        let mut r: Vec<String> = Vec::new();
        for i in 0..self.names.len()
            invariant
                r@.len() == i,
                forall|k: int| 0 <= k < i ==> (#[trigger] r@[k])@ == self.listing()[k],
        {
            r.push(string_of(&self.names[i]));
        }
        r
    }
}

} // verus!
