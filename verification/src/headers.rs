//! A map from header names to header values that keeps the order in which
//! names first came in.

use crate::meta::copy_text;
use crate::text::same_text;
use vstd::prelude::*;

verus! {

/// The texts of a sequence of pairs of strings.
pub open spec fn pair_models(e: Seq<(String, String)>) -> Seq<(Seq<char>, Seq<char>)> {
    Seq::new(e.len(), |i: int| (e[i].0@, e[i].1@))
}

/// The map that a list of entries stands for: each entry, from the left, sets
/// the value of its name.
pub open spec fn map_of(e: Seq<(Seq<char>, Seq<char>)>) -> Map<Seq<char>, Seq<char>>
    decreases e.len(),
{
    if e.len() == 0 {
        Map::empty()
    } else {
        map_of(e.drop_last()).insert(e.last().0, e.last().1)
    }
}

/// No name occurs twice.
pub open spec fn keys_distinct(e: Seq<(Seq<char>, Seq<char>)>) -> bool {
    forall|i: int, j: int| 0 <= i < j < e.len() ==> (#[trigger] e[i]).0 != (#[trigger] e[j]).0
}

/// Some entry carries the name `k`.
pub open spec fn has_key(e: Seq<(Seq<char>, Seq<char>)>, k: Seq<char>) -> bool {
    exists|i: int| 0 <= i < e.len() && (#[trigger] e[i]).0 == k
}

/// The map holds exactly the names of the entries.
pub proof fn lemma_map_of_dom(e: Seq<(Seq<char>, Seq<char>)>, k: Seq<char>)
    ensures
        map_of(e).contains_key(k) <==> has_key(e, k),
    decreases e.len(),
{
    if e.len() > 0 {
        let front = e.drop_last();
        lemma_map_of_dom(front, k);
        if has_key(front, k) {
            let i = choose|i: int| 0 <= i < front.len() && (#[trigger] front[i]).0 == k;
            assert(e[i].0 == k);
        }
        if has_key(e, k) {
            let i = choose|i: int| 0 <= i < e.len() && (#[trigger] e[i]).0 == k;
            if i < e.len() - 1 {
                assert(front[i].0 == k);
            }
        }
    }
}

/// Where no name occurs twice, the map gives each name the value of its
/// entry.
pub proof fn lemma_map_of_value(e: Seq<(Seq<char>, Seq<char>)>, i: int)
    requires
        keys_distinct(e),
        0 <= i < e.len(),
    ensures
        map_of(e).contains_key(e[i].0),
        map_of(e)[e[i].0] == e[i].1,
    decreases e.len(),
{
    let front = e.drop_last();
    if i < e.len() - 1 {
        assert forall|a: int, b: int| 0 <= a < b < front.len() implies (#[trigger] front[a]).0 != (
        #[trigger] front[b]).0 by {
            assert(front[a] == e[a] && front[b] == e[b]);
        }
        lemma_map_of_value(front, i);
        assert(front[i] == e[i]);
        assert(e[i].0 != e[e.len() - 1].0);
    }
}

/// Where no name occurs twice, the map is finite and has as many names as
/// there are entries.
pub proof fn lemma_map_of_len(e: Seq<(Seq<char>, Seq<char>)>)
    requires
        keys_distinct(e),
    ensures
        map_of(e).dom().finite(),
        map_of(e).len() == e.len(),
    decreases e.len(),
{
    if e.len() > 0 {
        let front = e.drop_last();
        assert forall|a: int, b: int| 0 <= a < b < front.len() implies (#[trigger] front[a]).0 != (
        #[trigger] front[b]).0 by {
            assert(front[a] == e[a] && front[b] == e[b]);
        }
        lemma_map_of_len(front);
        lemma_map_of_dom(front, e.last().0);
        if has_key(front, e.last().0) {
            let i = choose|i: int| 0 <= i < front.len() && (#[trigger] front[i]).0 == e.last().0;
            assert(e[i].0 == e[e.len() - 1].0);
        }
        assert(map_of(e).dom() == map_of(front).dom().insert(e.last().0));
    }
}

/// Where no name occurs twice, giving an entry a new value sets the value of
/// its name in the map, and still no name occurs twice.
pub proof fn lemma_map_of_update(e: Seq<(Seq<char>, Seq<char>)>, i: int, v: Seq<char>)
    requires
        keys_distinct(e),
        0 <= i < e.len(),
    ensures
        keys_distinct(e.update(i, (e[i].0, v))),
        map_of(e.update(i, (e[i].0, v))) == map_of(e).insert(e[i].0, v),
    decreases e.len(),
{
    let changed = e.update(i, (e[i].0, v));
    assert forall|a: int, b: int| 0 <= a < b < changed.len() implies (#[trigger] changed[a]).0 != (
    #[trigger] changed[b]).0 by {
        assert(changed[a].0 == e[a].0 && changed[b].0 == e[b].0);
    }
    let front = e.drop_last();
    if i == e.len() - 1 {
        assert(changed.drop_last() == front);
        assert(map_of(changed) =~= map_of(e).insert(e[i].0, v));
    } else {
        assert forall|a: int, b: int| 0 <= a < b < front.len() implies (#[trigger] front[a]).0 != (
        #[trigger] front[b]).0 by {
            assert(front[a] == e[a] && front[b] == e[b]);
        }
        lemma_map_of_update(front, i, v);
        assert(front[i] == e[i]);
        assert(changed.drop_last() == front.update(i, (e[i].0, v)));
        assert(changed.last() == e.last());
        assert(e[i].0 != e[e.len() - 1].0);
        assert(map_of(changed) =~= map_of(e).insert(e[i].0, v));
    }
}

/// HTTP headers: a finite map from names to values.
#[derive(Debug, PartialEq, Eq)]
pub struct HeaderMap {
    entries: Vec<(String, String)>,
}

impl View for HeaderMap {
    type V = Map<Seq<char>, Seq<char>>;

    open spec fn view(&self) -> Map<Seq<char>, Seq<char>> {
        map_of(self.entries())
    }
}

impl HeaderMap {
    /// The names and values, in the order in which the names first came in.
    pub closed spec fn entries(&self) -> Seq<(Seq<char>, Seq<char>)> {
        pair_models(self.entries@)
    }

    #[verifier::type_invariant]
    spec fn distinct(self) -> bool {
        keys_distinct(pair_models(self.entries@))
    }

    /// The empty map.
    pub fn new() -> (r: HeaderMap)
        ensures
            r.entries() == Seq::<(Seq<char>, Seq<char>)>::empty(),
            r@ == Map::<Seq<char>, Seq<char>>::empty(),
    {
        let r = HeaderMap { entries: Vec::new() };
        assert(r.entries() =~= Seq::<(Seq<char>, Seq<char>)>::empty());
        r
    }

    /// The number of names.
    pub fn len(&self) -> (r: usize)
        ensures
            r == self@.len(),
            r == self.entries().len(),
    {
        proof {
            use_type_invariant(self);
            lemma_map_of_len(self.entries());
        }
        self.entries.len()
    }

    /// Whether the map holds no name.
    pub fn is_empty(&self) -> (r: bool)
        ensures
            r == (self@.len() == 0),
    {
        proof {
            use_type_invariant(self);
            lemma_map_of_len(self.entries());
        }
        self.entries.len() == 0
    }

    fn position(&self, name: &str) -> (r: Option<usize>)
        ensures
            match r {
                Some(i) => i < self.entries().len() && self.entries()[i as int].0 == name@,
                None => !has_key(self.entries(), name@),
            },
    {
        let mut i: usize = 0;
        while i < self.entries.len()
            invariant
                i <= self.entries.len(),
                forall|k: int| 0 <= k < i ==> (#[trigger] self.entries()[k]).0 != name@,
            decreases self.entries.len() - i,
        {
            if same_text(self.entries[i].0.as_str(), name) {
                return Some(i);
            }
            i += 1;
        }
        None
    }

    /// Whether the map holds `name`.
    pub fn contains_key(&self, name: &str) -> (r: bool)
        ensures
            r == self@.contains_key(name@),
    {
        proof {
            lemma_map_of_dom(self.entries(), name@);
        }
        self.position(name).is_some()
    }

    /// The value of `name`, where the map holds it.
    pub fn get(&self, name: &str) -> (r: Option<&String>)
        ensures
            match r {
                Some(v) => self@.contains_key(name@) && v@ == self@[name@],
                None => !self@.contains_key(name@),
            },
    {
        proof {
            use_type_invariant(self);
            lemma_map_of_dom(self.entries(), name@);
        }
        match self.position(name) {
            Some(i) => {
                proof {
                    lemma_map_of_value(self.entries(), i as int);
                }
                Some(&self.entries[i].1)
            },
            None => None,
        }
    }

    /// Sets the value of `name`, whether or not the map held it before.
    pub fn insert(&mut self, name: String, value: String)
        ensures
            final(self)@ == old(self)@.insert(name@, value@),
    {
        proof {
            use_type_invariant(&*self);
        }
        let ghost before = self.entries();
        let found = self.position(name.as_str());
        let mut taken = HeaderMap { entries: Vec::new() };
        proof {
            assert(pair_models(taken.entries@) =~= Seq::<(Seq<char>, Seq<char>)>::empty());
        }
        std::mem::swap(self, &mut taken);
        let mut entries = taken.entries;
        match found {
            Some(i) => {
                proof {
                    lemma_map_of_update(before, i as int, value@);
                }
                entries.set(i, (name, value));
                assert(pair_models(entries@) =~= before.update(
                    i as int,
                    (before[i as int].0, value@),
                ));
            },
            None => {
                entries.push((name, value));
                let ghost after = pair_models(entries@);
                assert(after =~= before.push((name@, value@)));
                assert(after.drop_last() == before);
                assert forall|a: int, b: int| 0 <= a < b < after.len() implies (#[trigger] after[a]).0
                    != (#[trigger] after[b]).0 by {
                    assert(after[a] == before[a]);
                    if b < before.len() {
                        assert(after[b] == before[b]);
                    }
                }
            },
        }
        *self = HeaderMap { entries };
    }

    /// Sets every name of `other` to the value it has there; the names that
    /// `other` does not hold keep their values.
    pub fn extend_from(&mut self, other: &HeaderMap)
        ensures
            final(self)@ == old(self)@.union_prefer_right(other@),
    {
        let mut j: usize = 0;
        proof {
            assert(other.entries().take(0) =~= Seq::<(Seq<char>, Seq<char>)>::empty());
            assert(self@ =~= old(self)@.union_prefer_right(
                Map::<Seq<char>, Seq<char>>::empty(),
            ));
        }
        while j < other.entries.len()
            invariant
                j <= other.entries.len(),
                self@ == old(self)@.union_prefer_right(map_of(other.entries().take(j as int))),
            decreases other.entries.len() - j,
        {
            let name = copy_text(other.entries[j].0.as_str());
            let value = copy_text(other.entries[j].1.as_str());
            proof {
                let next = other.entries().take(j + 1);
                assert(next.drop_last() == other.entries().take(j as int));
                assert(next.last() == (name@, value@));
                assert(old(self)@.union_prefer_right(map_of(next)) =~= old(
                    self,
                )@.union_prefer_right(map_of(other.entries().take(j as int))).insert(
                    name@,
                    value@,
                ));
            }
            self.insert(name, value);
            j += 1;
        }
        proof {
            assert(other.entries().take(other.entries.len() as int) == other.entries());
        }
    }

    /// The names and values as pairs, in the order in which the names first
    /// came in.
    pub fn to_pairs(&self) -> (r: Vec<(String, String)>)
        ensures
            pair_models(r@) == self.entries(),
    {
        let mut out: Vec<(String, String)> = Vec::new();
        let mut i: usize = 0;
        while i < self.entries.len()
            invariant
                i <= self.entries.len(),
                pair_models(out@) == self.entries().take(i as int),
            decreases self.entries.len() - i,
        {
            let name = copy_text(self.entries[i].0.as_str());
            let value = copy_text(self.entries[i].1.as_str());
            let ghost before = out@;
            out.push((name, value));
            i += 1;
            proof {
                assert(pair_models(out@) =~= pair_models(before).push((name@, value@)));
                assert(self.entries().take(i as int) =~= self.entries().take(i - 1).push(
                    self.entries()[i - 1],
                ));
            }
        }
        assert(self.entries().take(self.entries.len() as int) == self.entries());
        out
    }

    /// A copy of this map.
    pub fn duplicate(&self) -> (r: HeaderMap)
        ensures
            r.entries() == self.entries(),
            r@ == self@,
    {
        proof {
            use_type_invariant(self);
        }
        HeaderMap { entries: self.to_pairs() }
    }
}

} // verus!
