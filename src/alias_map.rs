use vstd::prelude::*;

verus! {

/// The map that a sequence of (name, path) pairs stands for; a later pair
/// overrides an earlier one with the same name.
pub open spec fn pairs_map(s: Seq<(String, String)>) -> Map<Seq<char>, Seq<char>>
    decreases s.len(),
{
    if s.len() == 0 {
        Map::empty()
    } else {
        pairs_map(s.drop_last()).insert(s.last().0@, s.last().1@)
    }
}

/// No two pairs share a name.
pub open spec fn names_distinct(s: Seq<(String, String)>) -> bool {
    forall|i: int, j: int| 0 <= i < j < s.len() ==> s[i].0@ != s[j].0@
}

/// A name is in the map exactly when some pair carries it.
proof fn lemma_pairs_map_domain(s: Seq<(String, String)>, k: Seq<char>)
    ensures
        pairs_map(s).contains_key(k) <==> exists|i: int| 0 <= i < s.len() && s[i].0@ == k,
    decreases s.len(),
{
    if s.len() > 0 {
        lemma_pairs_map_domain(s.drop_last(), k);
        if pairs_map(s.drop_last()).contains_key(k) {
            let i = choose|i: int| 0 <= i < s.drop_last().len() && s.drop_last()[i].0@ == k;
            assert(s[i].0@ == k);
        }
        if exists|i: int| 0 <= i < s.len() && s[i].0@ == k {
            let i = choose|i: int| 0 <= i < s.len() && s[i].0@ == k;
            if i < s.len() - 1 {
                assert(s.drop_last()[i].0@ == k);
            }
        }
    }
}

/// With distinct names, each pair is what the map holds for its name.
proof fn lemma_pairs_map_value(s: Seq<(String, String)>, i: int)
    requires
        names_distinct(s),
        0 <= i < s.len(),
    ensures
        pairs_map(s).contains_key(s[i].0@),
        pairs_map(s)[s[i].0@] == s[i].1@,
    decreases s.len(),
{
    if i < s.len() - 1 {
        assert(names_distinct(s.drop_last()));
        lemma_pairs_map_value(s.drop_last(), i);
        assert(s.drop_last()[i] == s[i]);
    }
}

/// Replacing the value of the pair that carries a name replaces it in the map.
proof fn lemma_pairs_map_update(s: Seq<(String, String)>, i: int, p: (String, String))
    requires
        names_distinct(s),
        0 <= i < s.len(),
        s[i].0@ == p.0@,
    ensures
        pairs_map(s.update(i, p)) == pairs_map(s).insert(p.0@, p.1@),
    decreases s.len(),
{
    let t = s.update(i, p);
    if i == s.len() - 1 {
        assert(t.drop_last() =~= s.drop_last());
        assert(pairs_map(s).insert(p.0@, p.1@) =~= pairs_map(s.drop_last()).insert(p.0@, p.1@));
    } else {
        assert(names_distinct(s.drop_last()));
        assert(t.drop_last() =~= s.drop_last().update(i, p));
        lemma_pairs_map_update(s.drop_last(), i, p);
        assert(s.last().0@ != p.0@);
        assert(pairs_map(t) =~= pairs_map(s).insert(p.0@, p.1@));
    }
}

/// With distinct names the map has one key per pair.
proof fn lemma_pairs_map_len(s: Seq<(String, String)>)
    requires
        names_distinct(s),
    ensures
        pairs_map(s).dom().finite(),
        pairs_map(s).dom().len() == s.len(),
    decreases s.len(),
{
    if s.len() > 0 {
        assert(names_distinct(s.drop_last()));
        lemma_pairs_map_len(s.drop_last());
        lemma_pairs_map_domain(s.drop_last(), s.last().0@);
        if pairs_map(s.drop_last()).contains_key(s.last().0@) {
            let j = choose|j: int|
                0 <= j < s.drop_last().len() && s.drop_last()[j].0@ == s.last().0@;
            assert(s[j].0@ == s[s.len() - 1].0@);
        }
    }
}

/// A mapping from alias names to filesystem paths; each name appears once.
pub struct AliasMap {
    pairs: Vec<(String, String)>,
}

impl View for AliasMap {
    type V = Map<Seq<char>, Seq<char>>;

    closed spec fn view(&self) -> Map<Seq<char>, Seq<char>> {
        pairs_map(self.pairs@)
    }
}

impl AliasMap {
    /// The names of the map, in the order that `entry` hands them out.
    pub closed spec fn names(&self) -> Seq<Seq<char>> {
        self.pairs@.map_values(|p: (String, String)| p.0@)
    }

    /// The map keeps one pair per name.
    pub closed spec fn wf(&self) -> bool {
        names_distinct(self.pairs@)
    }

    /// An empty map.
    pub fn new() -> (r: AliasMap)
        ensures
            r.wf(),
            r@ == Map::<Seq<char>, Seq<char>>::empty(),
    {
        AliasMap { pairs: Vec::new() }
    }

    fn position(&self, name: &String) -> (r: Option<usize>)
        ensures
            match r {
                Some(i) => i < self.pairs@.len() && self.pairs@[i as int].0@ == name@,
                None => forall|i: int| 0 <= i < self.pairs@.len() ==> self.pairs@[i].0@ != name@,
            },
    {
        let mut i: usize = 0;
        while i < self.pairs.len()
            invariant
                i <= self.pairs@.len(),
                forall|j: int| 0 <= j < i ==> self.pairs@[j].0@ != name@,
            decreases self.pairs@.len() - i,
        {
            if self.pairs[i].0 == *name {
                return Some(i);
            }
            i += 1;
        }
        None
    }

    /// Maps `name` to `path`, replacing any path it had.
    pub fn insert(&mut self, name: String, path: String)
        requires
            old(self).wf(),
        ensures
            final(self).wf(),
            final(self)@ == old(self)@.insert(name@, path@),
    {
        match self.position(&name) {
            Some(i) => {
                proof {
                    lemma_pairs_map_update(self.pairs@, i as int, (name, path));
                }
                self.pairs.set(i, (name, path));
            },
            None => {
                self.pairs.push((name, path));
                proof {
                    assert(self.pairs@.drop_last() =~= old(self).pairs@);
                }
            },
        }
    }

    /// The path that `name` maps to, if any.
    pub fn get(&self, name: &str) -> (r: Option<&String>)
        requires
            self.wf(),
        ensures
            r is Some <==> self@.contains_key(name@),
            r is Some ==> r->0@ == self@[name@],
    {
        let key = String::from_str(name);
        let found = self.position(&key);
        proof {
            lemma_pairs_map_domain(self.pairs@, name@);
        }
        match found {
            Some(i) => {
                proof {
                    lemma_pairs_map_value(self.pairs@, i as int);
                }
                Some(&self.pairs[i].1)
            },
            None => None,
        }
    }

    /// The number of names in the map.
    pub fn len(&self) -> (r: usize)
        requires
            self.wf(),
        ensures
            r == self@.dom().len(),
            self@.dom().finite(),
            self.names().len() == r,
            self.names().no_duplicates(),
            forall|k: Seq<char>| #[trigger] self@.contains_key(k) <==> self.names().contains(k),
    {
        proof {
            lemma_pairs_map_len(self.pairs@);
            assert forall|k: Seq<char>| #[trigger] self@.contains_key(k) <==> self.names().contains(k) by {
                lemma_pairs_map_domain(self.pairs@, k);
                if self@.contains_key(k) {
                    let i = choose|i: int| 0 <= i < self.pairs@.len() && self.pairs@[i].0@ == k;
                    assert(self.names()[i] == k);
                }
                if self.names().contains(k) {
                    let i = choose|i: int| 0 <= i < self.names().len() && self.names()[i] == k;
                    assert(self.pairs@[i].0@ == k);
                }
            }
        }
        self.pairs.len()
    }

    /// The `i`-th (name, path) pair: the name is `names()[i]`, so every name of
    /// the map is reached by exactly one `i` below `len()`.
    pub fn entry(&self, i: usize) -> (r: (&String, &String))
        requires
            self.wf(),
            i < self@.dom().len(),
        ensures
            r.0@ == self.names()[i as int],
            self@.contains_key(r.0@),
            self@[r.0@] == r.1@,
    {
        proof {
            lemma_pairs_map_len(self.pairs@);
            lemma_pairs_map_value(self.pairs@, i as int);
        }
        (&self.pairs[i].0, &self.pairs[i].1)
    }
}

} // verus!
