//! The record store: an in-memory mapping from identifier to record,
//! owner of all create/show/update/delete state. Its mathematical value
//! is a `Map` from identifier characters to record contents.

use vstd::prelude::*;

verus! {

/// The mathematical value of one record.
pub ghost struct BugV {
    pub species: Seq<char>,
    pub description: Seq<char>,
}

/// One record of the catalog: a species name and a free-text description.
/// The identifier is not stored inside the record; identity is the store's
/// key alone.
#[derive(Hash, Eq, PartialEq, Debug)]
pub struct Bug {
    pub species: String,
    pub description: String,
}

impl View for Bug {
    type V = BugV;

    open spec fn view(&self) -> BugV {
        BugV { species: self.species@, description: self.description@ }
    }
}

impl Bug {
    /// A record built from borrowed text.
    pub fn new(species: &str, description: &str) -> (b: Bug)
        ensures
            b@ == (BugV { species: species@, description: description@ }),
    {
        Bug { species: species.to_owned(), description: description.to_owned() }
    }

    /// A record built from owned text.
    pub fn new2(species: String, description: String) -> (b: Bug)
        ensures
            b@ == (BugV { species: species@, description: description@ }),
    {
        Bug { species, description }
    }
}

/// One row of the persisted table: an identifier with the record it keys.
#[derive(Eq, PartialEq, Debug)]
pub struct Record {
    pub id: String,
    pub species: String,
    pub description: String,
}

/// The map denoted by a sequence of keyed entries: the entries inserted
/// in order, a later entry winning over an earlier one with the same key.
pub open spec fn map_of(s: Seq<(String, Bug)>) -> Map<Seq<char>, BugV>
    decreases s.len(),
{
    if s.len() == 0 {
        Map::empty()
    } else {
        map_of(s.drop_last()).insert(s.last().0@, s.last().1@)
    }
}

/// No two entries share an identifier.
pub open spec fn unique_ids(s: Seq<(String, Bug)>) -> bool {
    forall|i: int, j: int| 0 <= i < j < s.len() ==> s[i].0@ != s[j].0@
}

/// The map obtained by inserting every row of `rows` into `m`, in order.
pub open spec fn loaded(m: Map<Seq<char>, BugV>, rows: Seq<Record>) -> Map<Seq<char>, BugV>
    decreases rows.len(),
{
    if rows.len() == 0 {
        m
    } else {
        loaded(m, rows.drop_last()).insert(
            rows.last().id@,
            BugV { species: rows.last().species@, description: rows.last().description@ },
        )
    }
}

proof fn lemma_map_of_contains(s: Seq<(String, Bug)>, k: Seq<char>)
    ensures
        map_of(s).dom().contains(k) <==> (exists|i: int| 0 <= i < s.len() && s[i].0@ == k),
    decreases s.len(),
{
    if s.len() > 0 {
        let t = s.drop_last();
        lemma_map_of_contains(t, k);
        if k == s.last().0@ {
            assert(s[s.len() - 1].0@ == k);
        } else {
            if exists|i: int| 0 <= i < s.len() && s[i].0@ == k {
                let i = choose|i: int| 0 <= i < s.len() && s[i].0@ == k;
                assert(t[i].0@ == k);
            }
            if exists|i: int| 0 <= i < t.len() && t[i].0@ == k {
                let i = choose|i: int| 0 <= i < t.len() && t[i].0@ == k;
                assert(s[i].0@ == k);
            }
        }
    }
}

proof fn lemma_map_of_get(s: Seq<(String, Bug)>, i: int)
    requires
        unique_ids(s),
        0 <= i < s.len(),
    ensures
        map_of(s).dom().contains(s[i].0@),
        map_of(s)[s[i].0@] == s[i].1@,
    decreases s.len(),
{
    if i < s.len() - 1 {
        let t = s.drop_last();
        assert(forall|a: int, b: int| 0 <= a < b < t.len() ==> t[a].0@ != t[b].0@);
        lemma_map_of_get(t, i);
        assert(s.last().0@ != s[i].0@);
    }
}

proof fn lemma_map_of_remove(s: Seq<(String, Bug)>, i: int)
    requires
        unique_ids(s),
        0 <= i < s.len(),
    ensures
        map_of(s.remove(i)) == map_of(s).remove(s[i].0@),
        unique_ids(s.remove(i)),
    decreases s.len(),
{
    let k = s[i].0@;
    assert(forall|a: int| 0 <= a < s.len() && a != i ==> s[a].0@ != k);
    assert(forall|a: int, b: int| 0 <= a < b < s.remove(i).len() ==> s.remove(i)[a].0@ != s.remove(
        i,
    )[b].0@);
    if i == s.len() - 1 {
        assert(s.remove(i) =~= s.drop_last());
        lemma_map_of_contains(s.drop_last(), k);
        assert(map_of(s.drop_last()).insert(k, s.last().1@).remove(k) =~= map_of(s.drop_last()));
    } else {
        let t = s.drop_last();
        assert(forall|a: int, b: int| 0 <= a < b < t.len() ==> t[a].0@ != t[b].0@);
        lemma_map_of_remove(t, i);
        assert(s.remove(i).drop_last() =~= t.remove(i));
        assert(s.remove(i).last() == s.last());
        assert(s.last().0@ != k);
        assert(map_of(t).remove(k).insert(s.last().0@, s.last().1@) =~= map_of(t).insert(
            s.last().0@,
            s.last().1@,
        ).remove(k));
    }
}

/// The store: the identifier-to-record mapping owned by one session.
pub struct Store {
    entries: Vec<(String, Bug)>,
}

impl View for Store {
    type V = Map<Seq<char>, BugV>;

    closed spec fn view(&self) -> Map<Seq<char>, BugV> {
        map_of(self.entries@)
    }
}

impl Store {
    #[verifier::type_invariant]
    spec fn wf(self) -> bool {
        unique_ids(self.entries@)
    }

    /// An empty store, as at process start.
    pub fn new() -> (s: Store)
        ensures
            s@ == Map::<Seq<char>, BugV>::empty(),
    {
        Store { entries: Vec::new() }
    }

    fn index_of(&self, id: &String) -> (r: Option<usize>)
        ensures
            match r {
                Some(i) => i < self.entries@.len() && self.entries@[i as int].0@ == id@,
                None => forall|i: int| 0 <= i < self.entries@.len() ==> self.entries@[i].0@ != id@,
            },
    {
        let mut k: usize = 0;
        while k < self.entries.len()
            invariant
                k <= self.entries@.len(),
                forall|i: int| 0 <= i < k ==> self.entries@[i].0@ != id@,
            decreases self.entries@.len() - k,
        {
            let e = &self.entries[k];
            if e.0 == *id {
                return Some(k);
            }
            k += 1;
        }
        None
    }

    /// Whether `id` keys a record in the store.
    pub fn contains_id(&self, id: &String) -> (b: bool)
        ensures
            b == self@.dom().contains(id@),
    {
        proof {
            use_type_invariant(&*self);
            lemma_map_of_contains(self.entries@, id@);
        }
        match self.index_of(id) {
            Some(i) => {
                proof {
                    assert(self.entries@[i as int].0@ == id@);
                }
                true
            },
            None => false,
        }
    }

    /// The record under `id`, if any.
    pub fn get(&self, id: &String) -> (r: Option<&Bug>)
        ensures
            match r {
                Some(b) => self@.dom().contains(id@) && b@ == self@[id@],
                None => !self@.dom().contains(id@),
            },
    {
        proof {
            use_type_invariant(&*self);
            lemma_map_of_contains(self.entries@, id@);
        }
        match self.index_of(id) {
            Some(i) => {
                proof {
                    lemma_map_of_get(self.entries@, i as int);
                }
                Some(&self.entries[i].1)
            },
            None => None,
        }
    }

    /// Put `bug` under `id`, replacing whatever record was there.
    pub fn insert(&mut self, id: String, bug: Bug)
        ensures
            final(self)@ == old(self)@.insert(id@, bug@),
    {
        proof {
            use_type_invariant(&*self);
        }
        let ghost s0 = self.entries@;
        let idx = self.index_of(&id);
        let mut entries: Vec<(String, Bug)> = Vec::new();
        std::mem::swap(&mut entries, &mut self.entries);
        match idx {
            Some(i) => {
                proof {
                    lemma_map_of_remove(s0, i as int);
                }
                entries.remove(i);
                entries.push((id, bug));
                proof {
                    let s1 = s0.remove(i as int);
                    assert(forall|j: int| 0 <= j < s1.len() ==> s1[j].0@ != s0[i as int].0@);
                    assert(entries@.drop_last() =~= s1);
                    assert(map_of(s0).remove(s0[i as int].0@).insert(entries@.last().0@,
                        entries@.last().1@) =~= map_of(s0).insert(entries@.last().0@,
                        entries@.last().1@));
                }
            },
            None => {
                entries.push((id, bug));
                proof {
                    assert(entries@.drop_last() =~= s0);
                }
            },
        }
        self.entries = entries;
    }

    /// Remove the record under `id`, if any; no trace of it remains.
    pub fn remove(&mut self, id: &String)
        ensures
            final(self)@ == old(self)@.remove(id@),
    {
        proof {
            use_type_invariant(&*self);
            lemma_map_of_contains(self.entries@, id@);
        }
        let ghost s0 = self.entries@;
        let idx = self.index_of(id);
        match idx {
            Some(i) => {
                let mut entries: Vec<(String, Bug)> = Vec::new();
                std::mem::swap(&mut entries, &mut self.entries);
                proof {
                    lemma_map_of_remove(s0, i as int);
                }
                entries.remove(i);
                self.entries = entries;
            },
            None => {
                proof {
                    assert(map_of(s0).remove(id@) =~= map_of(s0));
                }
            },
        }
    }

    /// The store's rows for the persisted table: one row per record, each
    /// identifier exactly once, in some order of the store's choosing.
    pub fn records(&self) -> (r: Vec<Record>)
        ensures
            forall|i: int|
                0 <= i < r@.len() ==> self@.dom().contains(#[trigger] r@[i].id@) && self@[r@[i].id@]
                    == (BugV { species: r@[i].species@, description: r@[i].description@ }),
            forall|i: int, j: int| 0 <= i < j < r@.len() ==> r@[i].id@ != r@[j].id@,
            forall|k: Seq<char>|
                #[trigger] self@.dom().contains(k) ==> exists|i: int|
                    0 <= i < r@.len() && #[trigger] r@[i].id@ == k,
    {
        proof {
            use_type_invariant(&*self);
        }
        let mut r: Vec<Record> = Vec::new();
        let mut k: usize = 0;
        while k < self.entries.len()
            invariant
                k <= self.entries@.len(),
                r@.len() == k,
                forall|i: int|
                    0 <= i < k ==> #[trigger] r@[i].id@ == self.entries@[i].0@ && r@[i].species@
                        == self.entries@[i].1.species@ && r@[i].description@
                        == self.entries@[i].1.description@,
            decreases self.entries@.len() - k,
        {
            let e = &self.entries[k];
            r.push(Record {
                id: e.0.clone(),
                species: e.1.species.clone(),
                description: e.1.description.clone(),
            });
            k += 1;
        }
        proof {
            assert forall|i: int|
                0 <= i < r@.len() implies self@.dom().contains(#[trigger] r@[i].id@)
                && self@[r@[i].id@] == (BugV {
                species: r@[i].species@,
                description: r@[i].description@,
            }) by {
                lemma_map_of_get(self.entries@, i);
            }
            assert forall|kk: Seq<char>| #[trigger] self@.dom().contains(kk) implies exists|i: int|
                0 <= i < r@.len() && #[trigger] r@[i].id@ == kk by {
                lemma_map_of_contains(self.entries@, kk);
                let i = choose|i: int| 0 <= i < self.entries@.len() && self.entries@[i].0@ == kk;
                assert(r@[i].id@ == kk);
            }
        }
        r
    }

    /// Bulk-load `rows` into the store, in order, a later row winning over
    /// an earlier one with the same identifier.
    pub fn load_records(&mut self, rows: &Vec<Record>)
        ensures
            final(self)@ == loaded(old(self)@, rows@),
    {
        let mut k: usize = 0;
        proof {
            assert(rows@.subrange(0, 0) =~= Seq::<Record>::empty());
        }
        while k < rows.len()
            invariant
                k <= rows@.len(),
                self@ == loaded(old(self)@, rows@.subrange(0, k as int)),
            decreases rows@.len() - k,
        {
            let row = &rows[k];
            self.insert(row.id.clone(), Bug::new2(row.species.clone(), row.description.clone()));
            proof {
                assert(rows@.subrange(0, k + 1).drop_last() =~= rows@.subrange(0, k as int));
                assert(rows@.subrange(0, k + 1).last() == rows@[k as int]);
            }
            k += 1;
        }
        proof {
            assert(rows@.subrange(0, rows@.len() as int) =~= rows@);
        }
    }
}

/// Law: persisting a store as rows and loading those rows back into an
/// empty store yields the same identifier-to-record mapping. The
/// hypotheses are exactly what `Store::records` ensures of its result.
pub proof fn lemma_round_trip(m: Map<Seq<char>, BugV>, rows: Seq<Record>)
    requires
        forall|i: int|
            0 <= i < rows.len() ==> m.dom().contains(#[trigger] rows[i].id@) && m[rows[i].id@]
                == (BugV { species: rows[i].species@, description: rows[i].description@ }),
        forall|i: int, j: int| 0 <= i < j < rows.len() ==> rows[i].id@ != rows[j].id@,
        forall|k: Seq<char>|
            #[trigger] m.dom().contains(k) ==> exists|i: int|
                0 <= i < rows.len() && #[trigger] rows[i].id@ == k,
    ensures
        loaded(Map::empty(), rows) == m,
    decreases rows.len(),
{
    if rows.len() == 0 {
        assert(m =~= Map::<Seq<char>, BugV>::empty());
    } else {
        let t = rows.drop_last();
        let lid = rows.last().id@;
        let m2 = m.remove(lid);
        assert(rows[rows.len() - 1].id@ == lid);
        assert forall|i: int|
            0 <= i < t.len() implies m2.dom().contains(#[trigger] t[i].id@) && m2[t[i].id@]
            == (BugV { species: t[i].species@, description: t[i].description@ }) by {
            assert(t[i] == rows[i]);
            assert(rows[i].id@ != lid);
        }
        assert forall|k: Seq<char>| #[trigger] m2.dom().contains(k) implies exists|i: int|
            0 <= i < t.len() && #[trigger] t[i].id@ == k by {
            let i = choose|i: int| 0 <= i < rows.len() && #[trigger] rows[i].id@ == k;
            assert(i < rows.len() - 1);
            assert(t[i].id@ == k);
        }
        lemma_round_trip(m2, t);
        assert(m2.insert(lid, m[lid]) =~= m);
    }
}

} // verus!
