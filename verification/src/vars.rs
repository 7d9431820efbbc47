//! The table of `set $name value` definitions.
use vstd::prelude::*;

use crate::text::str_eq;

verus! {

/// The map that a list of (name, value) pairs describes; a later pair for a
/// name replaces an earlier one.
pub open spec fn map_of(es: Seq<(Seq<char>, Seq<char>)>) -> Map<Seq<char>, Seq<char>>
    decreases es.len(),
{
    if es.len() == 0 {
        Map::empty()
    } else {
        map_of(es.drop_last()).insert(es.last().0, es.last().1)
    }
}

/// No name occurs twice.
pub open spec fn distinct_names(es: Seq<(Seq<char>, Seq<char>)>) -> bool {
    forall|i: int, j: int| 0 <= i < j < es.len() ==> #[trigger] es[i].0 != #[trigger] es[j].0
}

pub proof fn lemma_map_of_lookup(es: Seq<(Seq<char>, Seq<char>)>, k: Seq<char>)
    requires
        distinct_names(es),
    ensures
        forall|i: int|
            0 <= i < es.len() && #[trigger] es[i].0 == k ==> map_of(es).contains_key(k)
                && map_of(es)[k] == es[i].1,
        (forall|i: int| 0 <= i < es.len() ==> #[trigger] es[i].0 != k) ==> !map_of(
            es,
        ).contains_key(k),
    decreases es.len(),
{
    if es.len() > 0 {
        let p = es.drop_last();
        assert(distinct_names(p));
        lemma_map_of_lookup(p, k);
        assert forall|i: int| 0 <= i < es.len() && #[trigger] es[i].0 == k implies map_of(
            es,
        ).contains_key(k) && map_of(es)[k] == es[i].1 by {
            if i < es.len() - 1 {
                assert(p[i] == es[i]);
            }
        }
        if forall|i: int| 0 <= i < es.len() ==> #[trigger] es[i].0 != k {
            assert forall|i: int| 0 <= i < p.len() implies #[trigger] p[i].0 != k by {
                assert(p[i] == es[i]);
            }
        }
    }
}

pub proof fn lemma_map_of_update(es: Seq<(Seq<char>, Seq<char>)>, i: int, v: Seq<char>)
    requires
        distinct_names(es),
        0 <= i < es.len(),
    ensures
        map_of(es.update(i, (es[i].0, v))) == map_of(es).insert(es[i].0, v),
    decreases es.len(),
{
    let k = es[i].0;
    let u = es.update(i, (k, v));
    if i == es.len() - 1 {
        assert(u.drop_last() =~= es.drop_last());
        assert(map_of(u) =~= map_of(es).insert(k, v));
    } else {
        let p = es.drop_last();
        assert(distinct_names(p));
        assert(u.drop_last() =~= p.update(i, (k, v)));
        lemma_map_of_update(p, i, v);
        assert(es.last().0 != k);
        assert(map_of(u) =~= map_of(es).insert(k, v));
    }
}

/// Variable definitions by name; a later definition of a name replaces an
/// earlier one, and each name is held once.
pub struct Vars {
    entries: Vec<(String, String)>,
}

impl Vars {
    /// The (name, value) pairs as they are held.
    pub closed spec fn pairs(&self) -> Seq<(Seq<char>, Seq<char>)> {
        self.entries@.map_values(|e: (String, String)| (e.0@, e.1@))
    }

    #[verifier::type_invariant]
    closed spec fn names_distinct(&self) -> bool {
        distinct_names(self.pairs())
    }

    /// An empty table.
    pub fn new() -> (r: Vars)
        ensures
            r@ == Map::<Seq<char>, Seq<char>>::empty(),
    {
        let r = Vars { entries: Vec::new() };
        assert(r.pairs() =~= Seq::<(Seq<char>, Seq<char>)>::empty());
        r
    }

    /// The position of `name` among the held pairs.
    fn position(&self, name: &str) -> (r: Option<usize>)
        ensures
            match r {
                Some(i) => i < self.pairs().len() && self.pairs()[i as int].0 == name@,
                None => forall|i: int|
                    0 <= i < self.pairs().len() ==> #[trigger] self.pairs()[i].0 != name@,
            },
    {
        let mut i: usize = 0;
        while i < self.entries.len()
            invariant
                i <= self.entries.len(),
                self.pairs().len() == self.entries.len(),
                forall|k: int| 0 <= k < i ==> #[trigger] self.pairs()[k].0 != name@,
            decreases self.entries.len() - i,
        {
            if str_eq(self.entries[i].0.as_str(), name) {
                return Some(i);
            }
            i += 1;
        }
        None
    }

    /// The value defined for `name`, if any.
    pub fn get(&self, name: &str) -> (r: Option<&String>)
        ensures
            match r {
                Some(v) => self@.contains_key(name@) && v@ == self@[name@],
                None => !self@.contains_key(name@),
            },
    {
        proof {
            use_type_invariant(self);
            lemma_map_of_lookup(self.pairs(), name@);
        }
        match self.position(name) {
            Some(i) => Some(&self.entries[i].1),
            None => None,
        }
    }

    /// Whether `name` is defined.
    pub fn contains_key(&self, name: &str) -> (r: bool)
        ensures
            r == self@.contains_key(name@),
    {
        self.get(name).is_some()
    }

    /// Defines `name` as `value`, replacing any earlier definition.
    pub fn insert(&mut self, name: String, value: String)
        ensures
            final(self)@ == old(self)@.insert(name@, value@),
    {
        proof {
            use_type_invariant(&*self);
        }
        let ghost old_pairs = self.pairs();
        let pos = self.position(name.as_str());
        let mut entries: Vec<(String, String)> = Vec::new();
        std::mem::swap(&mut entries, &mut self.entries);
        assert(entries@.map_values(|e: (String, String)| (e.0@, e.1@)) == old_pairs);
        match pos {
            Some(i) => {
                proof {
                    lemma_map_of_update(old_pairs, i as int, value@);
                }
                entries.set(i, (name, value));
                let ghost new_pairs = entries@.map_values(|e: (String, String)| (e.0@, e.1@));
                assert(new_pairs =~= old_pairs.update(i as int, (old_pairs[i as int].0, value@)));
                assert(distinct_names(new_pairs)) by {
                    assert forall|a: int, b: int| 0 <= a < b < new_pairs.len() implies
                        #[trigger] new_pairs[a].0 != #[trigger] new_pairs[b].0 by {
                        assert(new_pairs[a].0 == old_pairs[a].0);
                        assert(new_pairs[b].0 == old_pairs[b].0);
                    }
                }
            },
            None => {
                entries.push((name, value));
                let ghost new_pairs = entries@.map_values(|e: (String, String)| (e.0@, e.1@));
                assert(new_pairs.drop_last() =~= old_pairs);
                assert(distinct_names(new_pairs)) by {
                    assert forall|a: int, b: int| 0 <= a < b < new_pairs.len() implies
                        #[trigger] new_pairs[a].0 != #[trigger] new_pairs[b].0 by {
                        assert(new_pairs[a] == old_pairs[a]);
                        if b < old_pairs.len() {
                            assert(new_pairs[b] == old_pairs[b]);
                        }
                    }
                }
            },
        }
        self.entries = entries;
    }
}

impl View for Vars {
    type V = Map<Seq<char>, Seq<char>>;

    closed spec fn view(&self) -> Map<Seq<char>, Seq<char>> {
        map_of(self.pairs())
    }
}

} // verus!
