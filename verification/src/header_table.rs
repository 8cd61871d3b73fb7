//! A table of header names and values in which no name occurs twice.

use vstd::prelude::*;

verus! {

/// A header name with its value, both as character sequences.
pub type HeaderPair = (Seq<char>, Seq<char>);

/// The map that a run of insertions builds: a later pair replaces an
/// earlier one of the same name.
pub open spec fn pairs_to_map(pairs: Seq<HeaderPair>) -> Map<Seq<char>, Seq<char>>
    decreases pairs.len(),
{
    if pairs.len() == 0 {
        Map::empty()
    } else {
        pairs_to_map(pairs.drop_last()).insert(pairs.last().0, pairs.last().1)
    }
}

/// Whether no name occurs twice in `pairs`.
pub open spec fn distinct_names(pairs: Seq<HeaderPair>) -> bool {
    forall|i: int, j: int| 0 <= i < j < pairs.len() ==> (#[trigger] pairs[i]).0 != (#[trigger] pairs[j]).0
}

/// Whether `name` occurs in `pairs`.
pub open spec fn has_name(pairs: Seq<HeaderPair>, name: Seq<char>) -> bool {
    exists|i: int| 0 <= i < pairs.len() && (#[trigger] pairs[i]).0 == name
}

/// Whether `name` is a pseudo-header name: one that begins with a colon.
pub open spec fn is_pseudo(name: Seq<char>) -> bool {
    name.len() > 0 && name[0] == ':'
}

/// The names that are not pseudo-header names.
pub open spec fn ordinary_names() -> Set<Seq<char>> {
    Set::new(|name: Seq<char>| !is_pseudo(name))
}

/// The map's domain is the set of names that occur, and with distinct names
/// each pair is an entry of the map.
pub proof fn lemma_pairs_to_map(pairs: Seq<HeaderPair>)
    ensures
        forall|name: Seq<char>| #[trigger] pairs_to_map(pairs).contains_key(name) <==> has_name(pairs, name),
        distinct_names(pairs) ==> forall|i: int| 0 <= i < pairs.len() ==> pairs_to_map(pairs)[(#[trigger] pairs[i]).0] == pairs[i].1,
    decreases pairs.len(),
{
    if pairs.len() > 0 {
        let init = pairs.drop_last();
        lemma_pairs_to_map(init);
        assert forall|name: Seq<char>| #[trigger] pairs_to_map(pairs).contains_key(name) <==> has_name(pairs, name) by {
            let last = pairs.len() - 1;
            assert(pairs_to_map(pairs).contains_key(name) <==> (name == pairs[last].0
                || pairs_to_map(init).contains_key(name)));
            if name == pairs[last].0 {
                assert(pairs[last].0 == name);
            }
            if has_name(init, name) {
                let i = choose|i: int| 0 <= i < init.len() && (#[trigger] init[i]).0 == name;
                assert(pairs[i].0 == name);
            }
            if has_name(pairs, name) {
                let i = choose|i: int| 0 <= i < pairs.len() && (#[trigger] pairs[i]).0 == name;
                if i < init.len() {
                    assert(init[i].0 == name);
                }
            }
        }
        if distinct_names(pairs) {
            assert(distinct_names(init)) by {
                assert forall|i: int, j: int| 0 <= i < j < init.len() implies (#[trigger] init[i]).0 != (#[trigger] init[j]).0 by {
                    assert(pairs[i].0 != pairs[j].0);
                }
            }
            assert forall|i: int| 0 <= i < pairs.len() implies pairs_to_map(pairs)[(#[trigger] pairs[i]).0] == pairs[i].1 by {
                if i < init.len() {
                    assert(init[i] == pairs[i]);
                    assert(pairs[i].0 != pairs[pairs.len() - 1].0);
                }
            }
        }
    }
}

/// The pairs of strings in `v`, as character sequences.
pub open spec fn pair_views(v: Seq<(String, String)>) -> Seq<HeaderPair> {
    Seq::new(v.len(), |i: int| (v[i].0@, v[i].1@))
}

/// Copies a list of pairs.
fn clone_pairs(src: &Vec<(String, String)>) -> (out: Vec<(String, String)>)
    ensures
        pair_views(out@) == pair_views(src@),
{
    let mut out: Vec<(String, String)> = Vec::new();
    let mut i: usize = 0;
    while i < src.len()
        invariant
            i <= src.len(),
            pair_views(out@) == pair_views(src@).take(i as int),
        decreases src.len() - i,
    {
        let ghost so_far = pair_views(out@);
        let name = src[i].0.clone();
        let value = src[i].1.clone();
        out.push((name, value));
        proof {
            assert(pair_views(out@) =~= so_far.push((name@, value@)));
            assert(pair_views(src@).take(i + 1) =~= pair_views(src@).take(i as int).push(
                pair_views(src@)[i as int],
            ));
        }
        i = i + 1;
    }
    assert(pair_views(src@).take(src.len() as int) =~= pair_views(src@));
    out
}

/// Header names with their values. No name occurs twice; the entries keep
/// the order in which their names first came in.
#[derive(Debug)]
pub struct HeaderTable {
    entries: Vec<(String, String)>,
}

impl HeaderTable {
    /// The entries in order, as character sequences.
    pub closed spec fn pairs(&self) -> Seq<HeaderPair> {
        pair_views(self.entries@)
    }

    /// No name occurs twice.
    #[verifier::type_invariant]
    spec fn names_are_distinct(&self) -> bool {
        distinct_names(self.pairs())
    }

    /// A table without entries.
    pub fn new() -> (t: Self)
        ensures
            t.pairs() == Seq::<HeaderPair>::empty(),
            t@ == Map::<Seq<char>, Seq<char>>::empty(),
    {
        let t = HeaderTable { entries: Vec::new() };
        assert(t.pairs() =~= Seq::<HeaderPair>::empty());
        t
    }

    /// The number of entries.
    pub fn len(&self) -> (n: usize)
        ensures
            n == self.pairs().len(),
    {
        self.entries.len()
    }

    /// The place of `name` among the entries.
    fn position(&self, name: &String) -> (r: Option<usize>)
        ensures
            match r {
                Some(i) => i < self.pairs().len() && self.pairs()[i as int].0 == name@,
                None => !has_name(self.pairs(), name@),
            },
    {
        let mut i: usize = 0;
        while i < self.entries.len()
            invariant
                i <= self.entries.len(),
                forall|j: int| 0 <= j < i ==> (#[trigger] self.pairs()[j]).0 != name@,
            decreases self.entries.len() - i,
        {
            if self.entries[i].0 == *name {
                return Some(i);
            }
            i = i + 1;
        }
        None
    }

    /// The value under `name`, if the table has one.
    pub fn get(&self, name: &str) -> (r: Option<String>)
        ensures
            r is Some <==> self@.contains_key(name@),
            r is Some ==> r->0@ == self@[name@],
    {
        let key = name.to_owned();
        proof {
            use_type_invariant(self);
            lemma_pairs_to_map(self.pairs());
        }
        match self.position(&key) {
            Some(i) => Some(self.entries[i].1.clone()),
            None => None,
        }
    }

    /// Puts `value` under `name`, in place of an earlier value if there is one.
    pub fn insert(&mut self, name: String, value: String)
        ensures
            final(self)@ == old(self)@.insert(name@, value@),
            has_name(old(self).pairs(), name@) ==> final(self).pairs().len() == old(self).pairs().len(),
            !has_name(old(self).pairs(), name@) ==> final(self).pairs() == old(self).pairs().push(
                (name@, value@),
            ),
    {
        proof {
            use_type_invariant(&*self);
            lemma_pairs_to_map(self.pairs());
        }
        let ghost before = self.pairs();
        match self.position(&name) {
            Some(i) => {
                let ghost k = name@;
                let ghost v = value@;
                let mut entries: Vec<(String, String)> = Vec::new();
                std::mem::swap(&mut self.entries, &mut entries);
                entries.set(i, (name, value));
                proof {
                    let after = pair_views(entries@);
                    assert(after =~= before.update(i as int, (k, v)));
                    assert(distinct_names(after)) by {
                        assert forall|a: int, b: int| 0 <= a < b < after.len() implies (#[trigger] after[a]).0 != (#[trigger] after[b]).0 by {
                            assert(after[a].0 == before[a].0);
                            assert(after[b].0 == before[b].0);
                        }
                    }
                }
                std::mem::swap(&mut self.entries, &mut entries);
                proof {
                    let after = self.pairs();
                    assert(after =~= before.update(i as int, (k, v)));
                    assert(distinct_names(after)) by {
                        assert forall|a: int, b: int| 0 <= a < b < after.len() implies (#[trigger] after[a]).0 != (#[trigger] after[b]).0 by {
                            assert(after[a].0 == before[a].0);
                            assert(after[b].0 == before[b].0);
                        }
                    }
                    lemma_pairs_to_map(after);
                    assert(pairs_to_map(after) =~= pairs_to_map(before).insert(k, v)) by {
                        assert forall|n: Seq<char>| pairs_to_map(after).contains_key(n) <==> pairs_to_map(before).insert(k, v).contains_key(n) by {
                            if has_name(after, n) {
                                let j = choose|j: int| 0 <= j < after.len() && (#[trigger] after[j]).0 == n;
                                assert(before[j].0 == n);
                            }
                            if has_name(before, n) {
                                let j = choose|j: int| 0 <= j < before.len() && (#[trigger] before[j]).0 == n;
                                assert(after[j].0 == n);
                            }
                        }
                        assert forall|n: Seq<char>| pairs_to_map(after).contains_key(n) implies pairs_to_map(after)[n] == pairs_to_map(before).insert(k, v)[n] by {
                            let j = choose|j: int| 0 <= j < after.len() && (#[trigger] after[j]).0 == n;
                            assert(pairs_to_map(after)[after[j].0] == after[j].1);
                            if j != i {
                                assert(before[j].0 == n);
                                assert(pairs_to_map(before)[before[j].0] == before[j].1);
                                assert(before[j].0 != before[i as int].0);
                            }
                        }
                    }
                    assert(has_name(before, k));
                }
            },
            None => {
                let ghost k = name@;
                let ghost v = value@;
                let mut entries: Vec<(String, String)> = Vec::new();
                std::mem::swap(&mut self.entries, &mut entries);
                entries.push((name, value));
                proof {
                    let after = pair_views(entries@);
                    assert(after =~= before.push((k, v)));
                    assert(distinct_names(after)) by {
                        assert forall|a: int, b: int| 0 <= a < b < after.len() implies (#[trigger] after[a]).0 != (#[trigger] after[b]).0 by {
                            if b < before.len() {
                                assert(after[a] == before[a]);
                                assert(after[b] == before[b]);
                            } else {
                                assert(after[a] == before[a]);
                            }
                        }
                    }
                }
                std::mem::swap(&mut self.entries, &mut entries);
                proof {
                    let after = self.pairs();
                    assert(after =~= before.push((k, v)));
                    assert(after.drop_last() =~= before);
                    assert(distinct_names(after)) by {
                        assert forall|a: int, b: int| 0 <= a < b < after.len() implies (#[trigger] after[a]).0 != (#[trigger] after[b]).0 by {
                            if b < before.len() {
                                assert(after[a] == before[a]);
                                assert(after[b] == before[b]);
                            } else {
                                assert(after[a] == before[a]);
                            }
                        }
                    }
                }
            },
        }
    }
}

impl HeaderTable {
    /// The entries in order, each name once.
    pub fn to_pairs(&self) -> (out: Vec<(String, String)>)
        ensures
            pair_views(out@) == self.pairs(),
            distinct_names(self.pairs()),
    {
        proof {
            use_type_invariant(self);
        }
        clone_pairs(&self.entries)
    }

    /// Drops the entries whose name begins with a colon.
    pub fn remove_pseudo_headers(&mut self)
        ensures
            final(self)@ == old(self)@.restrict(ordinary_names()),
    {
        proof {
            use_type_invariant(&*self);
        }
        let ghost before = self.pairs();
        let mut entries: Vec<(String, String)> = Vec::new();
        std::mem::swap(&mut self.entries, &mut entries);
        let mut kept: Vec<(String, String)> = Vec::new();
        let mut i: usize = 0;
        proof {
            assert(before.take(0) =~= Seq::<HeaderPair>::empty());
            assert(pairs_to_map(pair_views(kept@)) =~= pairs_to_map(before.take(0)).restrict(
                ordinary_names(),
            ));
        }
        while i < entries.len()
            invariant
                i <= entries.len(),
                pair_views(entries@) == before,
                distinct_names(before),
                distinct_names(pair_views(kept@)),
                forall|j: int| 0 <= j < kept@.len() ==> has_name(before.take(i as int), (#[trigger] pair_views(kept@)[j]).0),
                pairs_to_map(pair_views(kept@)) == pairs_to_map(before.take(i as int)).restrict(
                    ordinary_names(),
                ),
            decreases entries.len() - i,
        {
            let ghost prefix = before.take(i as int);
            let ghost next = before.take(i + 1);
            let ghost old_kept = pair_views(kept@);
            proof {
                assert(next.drop_last() =~= prefix);
                assert(next.last() == before[i as int]);
            }
            if !crate::text::starts_with_char(entries[i].0.as_str(), ':') {
                kept.push((entries[i].0.clone(), entries[i].1.clone()));
                proof {
                    let new_kept = pair_views(kept@);
                    assert(new_kept =~= old_kept.push(before[i as int]));
                    assert(new_kept.drop_last() =~= old_kept);
                    assert(ordinary_names().contains(before[i as int].0));
                    assert(pairs_to_map(new_kept) =~= pairs_to_map(next).restrict(ordinary_names()));
                    assert forall|a: int, b: int| 0 <= a < b < new_kept.len() implies (#[trigger] new_kept[a]).0 != (#[trigger] new_kept[b]).0 by {
                        if b < old_kept.len() {
                            assert(old_kept[a] == new_kept[a]);
                            assert(old_kept[b] == new_kept[b]);
                        } else {
                            assert(old_kept[a] == new_kept[a]);
                            let p = choose|p: int| 0 <= p < prefix.len() && (#[trigger] prefix[p]).0 == old_kept[a].0;
                            assert(before[p].0 != before[i as int].0);
                        }
                    }
                }
            } else {
                proof {
                    assert(!ordinary_names().contains(before[i as int].0));
                    assert(pairs_to_map(old_kept) =~= pairs_to_map(next).restrict(ordinary_names()));
                }
            }
            proof {
                let new_kept = pair_views(kept@);
                assert forall|j: int| 0 <= j < new_kept.len() implies has_name(next, (#[trigger] new_kept[j]).0) by {
                    if j < old_kept.len() {
                        assert(new_kept[j] == old_kept[j]);
                        let p = choose|p: int| 0 <= p < prefix.len() && (#[trigger] prefix[p]).0 == old_kept[j].0;
                        assert(next[p].0 == new_kept[j].0);
                    } else {
                        assert(next[i as int].0 == new_kept[j].0);
                    }
                }
            }
            i = i + 1;
        }
        proof {
            assert(before.take(entries.len() as int) =~= before);
        }
        std::mem::swap(&mut self.entries, &mut kept);
    }
}

impl Clone for HeaderTable {
    fn clone(&self) -> (out: Self)
        ensures
            out.pairs() == self.pairs(),
            out@ == self@,
    {
        proof {
            use_type_invariant(self);
        }
        HeaderTable { entries: clone_pairs(&self.entries) }
    }
}

impl Default for HeaderTable {
    fn default() -> (t: Self)
        ensures
            t@ == Map::<Seq<char>, Seq<char>>::empty(),
    {
        HeaderTable::new()
    }
}

impl View for HeaderTable {
    type V = Map<Seq<char>, Seq<char>>;

    open spec fn view(&self) -> Map<Seq<char>, Seq<char>> {
        pairs_to_map(self.pairs())
    }
}

} // verus!
