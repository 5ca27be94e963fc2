//! The table of links that have already been converted: for each outbound
//! URL, the local URL its content was saved under.
use vstd::prelude::*;

verus! {

/// The map that a list of distinct-keyed entries stands for.
pub open spec fn entries_map(entries: Seq<(String, String)>) -> Map<Seq<char>, Seq<char>>
    decreases entries.len(),
{
    if entries.len() == 0 {
        Map::empty()
    } else {
        entries_map(entries.drop_last()).insert(entries.last().0@, entries.last().1@)
    }
}

/// No key occurs twice among the entries.
pub open spec fn distinct_keys(entries: Seq<(String, String)>) -> bool {
    forall|i: int, j: int|
        0 <= i < entries.len() && 0 <= j < entries.len() && i != j ==> #[trigger] entries[i].0@
            != #[trigger] entries[j].0@
}

proof fn lemma_entries_map_at(entries: Seq<(String, String)>, i: int)
    requires
        distinct_keys(entries),
        0 <= i < entries.len(),
    ensures
        entries_map(entries).contains_key(entries[i].0@),
        entries_map(entries)[entries[i].0@] == entries[i].1@,
    decreases entries.len(),
{
    let init = entries.drop_last();
    if i < entries.len() - 1 {
        assert(distinct_keys(init)) by {
            assert forall|a: int, b: int|
                0 <= a < init.len() && 0 <= b < init.len() && a != b implies #[trigger] init[a].0@
                != #[trigger] init[b].0@ by {
                assert(init[a] == entries[a]);
                assert(init[b] == entries[b]);
            }
        }
        lemma_entries_map_at(init, i);
        assert(init[i] == entries[i]);
        assert(entries[i].0@ != entries.last().0@);
    }
}

proof fn lemma_entries_map_absent(entries: Seq<(String, String)>, k: Seq<char>)
    requires
        forall|i: int| 0 <= i < entries.len() ==> #[trigger] entries[i].0@ != k,
    ensures
        !entries_map(entries).contains_key(k),
    decreases entries.len(),
{
    if entries.len() > 0 {
        let init = entries.drop_last();
        assert forall|i: int| 0 <= i < init.len() implies #[trigger] init[i].0@ != k by {
            assert(init[i] == entries[i]);
        }
        lemma_entries_map_absent(init, k);
        assert(entries.last() == entries[entries.len() - 1]);
    }
}

proof fn lemma_entries_map_update(entries: Seq<(String, String)>, i: int, v: String)
    requires
        distinct_keys(entries),
        0 <= i < entries.len(),
    ensures
        distinct_keys(entries.update(i, (entries[i].0, v))),
        entries_map(entries.update(i, (entries[i].0, v))) == entries_map(entries).insert(
            entries[i].0@,
            v@,
        ),
    decreases entries.len(),
{
    let upd = entries.update(i, (entries[i].0, v));
    assert forall|a: int, b: int|
        0 <= a < upd.len() && 0 <= b < upd.len() && a != b implies #[trigger] upd[a].0@
        != #[trigger] upd[b].0@ by {
        assert(upd[a].0 == entries[a].0);
        assert(upd[b].0 == entries[b].0);
    }
    let init = entries.drop_last();
    assert(distinct_keys(init)) by {
        assert forall|a: int, b: int|
            0 <= a < init.len() && 0 <= b < init.len() && a != b implies #[trigger] init[a].0@
            != #[trigger] init[b].0@ by {
            assert(init[a] == entries[a]);
            assert(init[b] == entries[b]);
        }
    }
    if i == entries.len() - 1 {
        assert(upd.drop_last() =~= init);
        assert(entries_map(upd) =~= entries_map(entries).insert(entries[i].0@, v@));
    } else {
        lemma_entries_map_update(init, i, v);
        assert(upd.drop_last() =~= init.update(i, (init[i].0, v)));
        assert(entries[i].0@ != entries.last().0@);
        assert(upd.last() == entries.last());
        assert(entries_map(upd) =~= entries_map(entries).insert(entries[i].0@, v@));
    }
}

/// The converted links: a map from outbound URLs to the local URLs that
/// stand for them. A key occurs at most once.
pub struct LinkCache {
    entries: Vec<(String, String)>,
}

impl View for LinkCache {
    type V = Map<Seq<char>, Seq<char>>;

    closed spec fn view(&self) -> Map<Seq<char>, Seq<char>> {
        entries_map(self.entries@)
    }
}

impl LinkCache {
    #[verifier::type_invariant]
    closed spec fn keys_distinct(self) -> bool {
        distinct_keys(self.entries@)
    }

    /// An empty table.
    pub fn new() -> (c: Self)
        ensures
            c@ == Map::<Seq<char>, Seq<char>>::empty(),
    {
        LinkCache { entries: Vec::new() }
    }

    fn position(&self, url: &String) -> (r: Option<usize>)
        ensures
            match r {
                Some(i) => i < self.entries@.len() && self.entries@[i as int].0@ == url@,
                None => forall|i: int|
                    0 <= i < self.entries@.len() ==> #[trigger] self.entries@[i].0@ != url@,
            },
    {
        let mut i: usize = 0;
        while i < self.entries.len()
            invariant
                i <= self.entries@.len(),
                forall|k: int| 0 <= k < i ==> #[trigger] self.entries@[k].0@ != url@,
            decreases self.entries@.len() - i,
        {
            if self.entries[i].0 == *url {
                return Some(i);
            }
            i += 1;
        }
        None
    }

    /// The local URL recorded for `url`, if there is one.
    pub fn get(&self, url: &String) -> (r: Option<String>)
        ensures
            match r {
                Some(t) => self@.contains_key(url@) && self@[url@] == t@,
                None => !self@.contains_key(url@),
            },
    {
        proof {
            use_type_invariant(self);
        }
        match self.position(url) {
            Some(i) => {
                proof {
                    lemma_entries_map_at(self.entries@, i as int);
                }
                Some(self.entries[i].1.clone())
            },
            None => {
                proof {
                    lemma_entries_map_absent(self.entries@, url@);
                }
                None
            },
        }
    }

    /// Whether a local URL is recorded for `url`.
    pub fn contains(&self, url: &String) -> (b: bool)
        ensures
            b == self@.contains_key(url@),
    {
        proof {
            use_type_invariant(self);
        }
        match self.position(url) {
            Some(i) => {
                proof {
                    lemma_entries_map_at(self.entries@, i as int);
                }
                true
            },
            None => {
                proof {
                    lemma_entries_map_absent(self.entries@, url@);
                }
                false
            },
        }
    }

    /// Records `target` for `url`, replacing what was recorded for it before.
    pub fn insert(&mut self, url: String, target: String)
        ensures
            final(self)@ == old(self)@.insert(url@, target@),
    {
        proof {
            use_type_invariant(&*self);
        }
        match self.position(&url) {
            Some(i) => {
                let ghost before = self.entries@;
                let key = self.entries[i].0.clone();
                let mut entries: Vec<(String, String)> = Vec::new();
                std::mem::swap(&mut entries, &mut self.entries);
                entries.set(i, (key, target));
                proof {
                    lemma_entries_map_update(before, i as int, target);
                    assert(entries@ =~= before.update(i as int, (before[i as int].0, target)));
                }
                self.entries = entries;
            },
            None => {
                let ghost before = self.entries@;
                let mut entries: Vec<(String, String)> = Vec::new();
                std::mem::swap(&mut entries, &mut self.entries);
                entries.push((url, target));
                proof {
                    assert(entries@.drop_last() =~= before);
                    assert forall|a: int, b: int|
                        0 <= a < entries@.len() && 0 <= b < entries@.len() && a
                            != b implies #[trigger] entries@[a].0@ != #[trigger] entries@[b].0@ by {
                        if a < before.len() {
                            assert(entries@[a] == before[a]);
                        }
                        if b < before.len() {
                            assert(entries@[b] == before[b]);
                        }
                    }
                }
                self.entries = entries;
            },
        }
    }

}

} // verus!
