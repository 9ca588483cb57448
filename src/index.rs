//! The in-memory mapping from catalog identifiers to directory paths.
use vstd::prelude::*;

verus! {

/// The map that a sequence of (key, value) writes leaves, later writes winning.
pub open spec fn map_of(s: Seq<(Seq<char>, Seq<char>)>) -> Map<Seq<char>, Seq<char>>
    decreases s.len(),
{
    if s.len() == 0 {
        Map::empty()
    } else {
        map_of(s.drop_last()).insert(s.last().0, s.last().1)
    }
}

pub open spec fn keys_unique(s: Seq<(Seq<char>, Seq<char>)>) -> bool {
    forall|i: int, j: int| 0 <= i < j < s.len() ==> #[trigger] s[i].0 != #[trigger] s[j].0
}

proof fn lemma_map_of_lookup(s: Seq<(Seq<char>, Seq<char>)>, k: Seq<char>)
    requires
        keys_unique(s),
    ensures
        map_of(s).contains_key(k) <==> exists|i: int| 0 <= i < s.len() && #[trigger] s[i].0 == k,
        forall|i: int| 0 <= i < s.len() && #[trigger] s[i].0 == k ==> map_of(s)[k] == s[i].1,
    decreases s.len(),
{
    if s.len() > 0 {
        let d = s.drop_last();
        assert(keys_unique(d));
        lemma_map_of_lookup(d, k);
        if exists|i: int| 0 <= i < s.len() && #[trigger] s[i].0 == k {
            let i = choose|i: int| 0 <= i < s.len() && #[trigger] s[i].0 == k;
            if i < s.len() - 1 {
                assert(d[i].0 == k);
            }
        }
        if exists|i: int| 0 <= i < d.len() && #[trigger] d[i].0 == k {
            let i = choose|i: int| 0 <= i < d.len() && #[trigger] d[i].0 == k;
            assert(s[i].0 == k);
        }
        assert forall|i: int| 0 <= i < s.len() && #[trigger] s[i].0 == k implies map_of(s)[k]
            == s[i].1 by {
            if i < s.len() - 1 {
                assert(d[i].0 == k);
            }
        }
    }
}

proof fn lemma_map_of_update(s: Seq<(Seq<char>, Seq<char>)>, i: int, v: Seq<char>)
    requires
        keys_unique(s),
        0 <= i < s.len(),
    ensures
        map_of(s.update(i, (s[i].0, v))) == map_of(s).insert(s[i].0, v),
    decreases s.len(),
{
    let k = s[i].0;
    let u = s.update(i, (k, v));
    assert(u.drop_last() =~= if i == s.len() - 1 {
        s.drop_last()
    } else {
        s.drop_last().update(i, (k, v))
    });
    if i == s.len() - 1 {
        assert(map_of(u) =~= map_of(s).insert(k, v));
    } else {
        assert(keys_unique(s.drop_last()));
        lemma_map_of_update(s.drop_last(), i, v);
        assert(s.last().0 != k);
        assert(map_of(u) =~= map_of(s).insert(k, v));
    }
}

/// Catalog identifier to directory path, one path for each identifier.
pub struct CatalogIndex {
    entries: Vec<(String, String)>,
}

impl CatalogIndex {
    pub closed spec fn pairs(&self) -> Seq<(Seq<char>, Seq<char>)> {
        self.entries@.map_values(|e: (String, String)| (e.0@, e.1@))
    }

    pub closed spec fn view(&self) -> Map<Seq<char>, Seq<char>> {
        map_of(self.pairs())
    }

    /// Each key stands in one entry.
    pub closed spec fn wf(&self) -> bool {
        keys_unique(self.pairs())
    }

    pub fn new() -> (r: CatalogIndex)
        ensures
            r.wf(),
            r@ == Map::<Seq<char>, Seq<char>>::empty(),
    {
        let r = CatalogIndex { entries: Vec::new() };
        assert(r.pairs() =~= Seq::<(Seq<char>, Seq<char>)>::empty());
        r
    }

    fn position(&self, key: &str) -> (r: Option<usize>)
        ensures
            match r {
                Some(i) => i < self.pairs().len() && self.pairs()[i as int].0 == key@,
                None => forall|i: int| 0 <= i < self.pairs().len() ==> #[trigger] self.pairs()[i].0 != key@,
            },
    {
        let wanted = key.to_owned();
        let mut i: usize = 0;
        while i < self.entries.len()
            invariant
                i <= self.entries@.len(),
                wanted@ == key@,
                forall|j: int| 0 <= j < i ==> #[trigger] self.pairs()[j].0 != key@,
            decreases self.entries@.len() - i,
        {
            if self.entries[i].0 == wanted {
                assert(self.pairs()[i as int].0 == self.entries@[i as int].0@);
                return Some(i);
            }
            i = i + 1;
        }
        None
    }

    /// Maps `key` to `value`, replacing what `key` mapped to before.
    pub fn insert(&mut self, key: String, value: String)
        requires
            old(self).wf(),
        ensures
            final(self).wf(),
            final(self)@ == old(self)@.insert(key@, value@),
    {
        match self.position(key.as_str()) {
            Some(i) => {
                let ghost old_pairs = self.pairs();
                self.entries.set(i, (key, value));
                proof {
                    assert(self.pairs() =~= old_pairs.update(i as int, (old_pairs[i as int].0, value@)));
                    lemma_map_of_update(old_pairs, i as int, value@);
                }
            },
            None => {
                let ghost old_pairs = self.pairs();
                self.entries.push((key, value));
                proof {
                    assert(self.pairs() =~= old_pairs.push((key@, value@)));
                    assert(self.pairs().drop_last() =~= old_pairs);
                }
            },
        }
    }

    /// The path that `key` maps to, if any.
    pub fn get(&self, key: &str) -> (r: Option<String>)
        requires
            self.wf(),
        ensures
            r is Some <==> self@.contains_key(key@),
            r is Some ==> r->0@ == self@[key@],
    {
        proof {
            lemma_map_of_lookup(self.pairs(), key@);
        }
        match self.position(key) {
            Some(i) => Some(self.entries[i].1.clone()),
            None => None,
        }
    }

    /// Every key, each once.
    pub fn keys(&self) -> (r: Vec<String>)
        requires
            self.wf(),
        ensures
            forall|i: int, j: int| 0 <= i < j < r@.len() ==> r@[i]@ != r@[j]@,
            forall|i: int| 0 <= i < r@.len() ==> self@.contains_key(#[trigger] r@[i]@),
            forall|k: Seq<char>| #[trigger] self@.contains_key(k) ==> exists|i: int|
                0 <= i < r@.len() && r@[i]@ == k,
    {
        let mut r: Vec<String> = Vec::new();
        let mut i: usize = 0;
        while i < self.entries.len()
            invariant
                i <= self.entries@.len(),
                r@.len() == i,
                keys_unique(self.pairs()),
                forall|j: int| 0 <= j < i ==> #[trigger] r@[j]@ == self.pairs()[j].0,
            decreases self.entries@.len() - i,
        {
            r.push(self.entries[i].0.clone());
            i = i + 1;
        }
        proof {
            assert forall|k: Seq<char>| #[trigger] self@.contains_key(k) implies exists|i: int|
                0 <= i < r@.len() && r@[i]@ == k by {
                lemma_map_of_lookup(self.pairs(), k);
                let j = choose|j: int| 0 <= j < self.pairs().len() && #[trigger] self.pairs()[j].0 == k;
                assert(r@[j]@ == k);
            }
            assert forall|j: int| 0 <= j < r@.len() implies self@.contains_key(#[trigger] r@[j]@) by {
                lemma_map_of_lookup(self.pairs(), r@[j]@);
                assert(self.pairs()[j].0 == r@[j]@);
            }
        }
        r
    }
}

} // verus!
