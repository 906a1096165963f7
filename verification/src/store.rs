//! An in-memory store of serialized documents, keyed by document id text.
use vstd::prelude::*;

verus! {

/// Why a store operation failed. `Serialization` and `Backend` carry the text
/// of the error that the serializer or the storage backend reported.
#[derive(Debug, Clone)]
pub enum StorageError {
    NotFound(String),
    Serialization(String),
    Backend(String),
}

/// Serialized documents in memory: each id at most once, in the order first
/// saved.
#[derive(Debug)]
pub struct MemoryStore {
    docs: Vec<(String, String)>,
}

/// The map from id to text held by a list of entries with distinct ids.
pub open spec fn entries_map(s: Seq<(String, String)>) -> Map<Seq<char>, Seq<char>>
    decreases s.len(),
{
    if s.len() == 0 {
        Map::empty()
    } else {
        entries_map(s.drop_last()).insert(s.last().0@, s.last().1@)
    }
}

/// No two entries share an id.
pub open spec fn distinct_ids(s: Seq<(String, String)>) -> bool {
    forall|i: int, j: int| 0 <= i < s.len() && 0 <= j < s.len() && i != j ==> s[i].0@ != s[j].0@
}

proof fn lemma_entries_map(s: Seq<(String, String)>)
    requires
        distinct_ids(s),
    ensures
        forall|k: Seq<char>| #[trigger] entries_map(s).contains_key(k) <==> exists|i: int| 0 <= i < s.len() && s[i].0@ == k,
        forall|i: int| 0 <= i < s.len() ==> #[trigger] entries_map(s)[s[i].0@] == s[i].1@,
    decreases s.len(),
{
    if s.len() > 0 {
        let t = s.drop_last();
        assert(distinct_ids(t));
        lemma_entries_map(t);
        assert(entries_map(s) == entries_map(t).insert(s.last().0@, s.last().1@));
        assert forall|k: Seq<char>| #[trigger] entries_map(s).contains_key(k) <==> exists|i: int| 0 <= i < s.len() && s[i].0@ == k by {
            if entries_map(s).contains_key(k) && k != s.last().0@ {
                assert(entries_map(t).contains_key(k));
                let i = choose|i: int| 0 <= i < t.len() && t[i].0@ == k;
                assert(s[i].0@ == k);
            }
            if exists|i: int| 0 <= i < s.len() && s[i].0@ == k {
                let i = choose|i: int| 0 <= i < s.len() && s[i].0@ == k;
                if i < s.len() - 1 {
                    assert(t[i].0@ == k);
                    assert(entries_map(t).contains_key(k));
                }
            }
            if k == s.last().0@ {
                assert(s[s.len() - 1].0@ == k);
            }
        }
        assert forall|i: int| 0 <= i < s.len() implies #[trigger] entries_map(s)[s[i].0@] == s[i].1@ by {
            if i < s.len() - 1 {
                assert(t[i] == s[i]);
                assert(s[i].0@ != s.last().0@);
                assert(entries_map(t)[t[i].0@] == t[i].1@);
            }
        }
    }
}

/// `ids` names every key of `m` exactly once, and nothing else.
pub open spec fn lists_keys(m: Map<Seq<char>, Seq<char>>, ids: Seq<String>) -> bool {
    &&& forall|k: Seq<char>| m.contains_key(k) <==> exists|i: int| 0 <= i < ids.len() && #[trigger] ids[i]@ == k
    &&& forall|i: int, j: int| 0 <= i < ids.len() && 0 <= j < ids.len() && i != j ==> ids[i]@ != ids[j]@
}

/// The index of the entry for `id`, if any.
fn find_entry(docs: &Vec<(String, String)>, id: &String) -> (r: Option<usize>)
    ensures
        match r {
            Some(i) => i < docs@.len() && docs@[i as int].0@ == id@,
            None => forall|i: int| 0 <= i < docs@.len() ==> docs@[i].0@ != id@,
        },
{
    let mut i: usize = 0;
    while i < docs.len()
        invariant
            i <= docs@.len(),
            forall|j: int| 0 <= j < i ==> docs@[j].0@ != id@,
        decreases docs@.len() - i,
    {
        if docs[i].0 == *id {
            return Some(i);
        }
        i = i + 1;
    }
    None
}

impl MemoryStore {
    /// The ids and texts held.
    pub closed spec fn view(&self) -> Map<Seq<char>, Seq<char>> {
        entries_map(self.docs@)
    }

    /// The store's own invariant: no id is held twice.
    #[verifier::type_invariant]
    closed spec fn wf(&self) -> bool {
        distinct_ids(self.docs@)
    }

    /// An empty store.
    pub fn new() -> (s: Self)
        ensures
            s.view() == Map::<Seq<char>, Seq<char>>::empty(),
    {
        MemoryStore { docs: Vec::new() }
    }

    /// Stores `json` under `id`, replacing what was stored there.
    pub fn save(&mut self, id: String, json: String) -> (r: Result<(), StorageError>)
        ensures
            r is Ok,
            final(self).view() == old(self).view().insert(id@, json@),
    {
        proof { use_type_invariant(&*self); }
        let mut docs: Vec<(String, String)> = Vec::new();
        std::mem::swap(&mut docs, &mut self.docs);
        proof { lemma_entries_map(docs@); }
        match find_entry(&docs, &id) {
            Some(i) => {
                let ghost before = docs@;
                docs.set(i, (id, json));
                proof {
                    lemma_entries_map(docs@);
                    assert(entries_map(docs@) =~= entries_map(before).insert(id@, json@)) by {
                        assert forall|k: Seq<char>| entries_map(docs@).contains_key(k) <==> entries_map(before).insert(id@, json@).contains_key(k) by {
                            if entries_map(docs@).contains_key(k) {
                                let j = choose|j: int| 0 <= j < docs@.len() && docs@[j].0@ == k;
                                if j != i {
                                    assert(before[j].0@ == k);
                                }
                            }
                            if entries_map(before).contains_key(k) && k != id@ {
                                let j = choose|j: int| 0 <= j < before.len() && before[j].0@ == k;
                                assert(docs@[j].0@ == k);
                            }
                            if k == id@ {
                                assert(docs@[i as int].0@ == k);
                            }
                        }
                        assert forall|k: Seq<char>| #[trigger] entries_map(docs@).contains_key(k) implies entries_map(docs@)[k] == entries_map(before).insert(id@, json@)[k] by {
                            let j = choose|j: int| 0 <= j < docs@.len() && docs@[j].0@ == k;
                            assert(entries_map(docs@)[docs@[j].0@] == docs@[j].1@);
                            if j != i {
                                assert(entries_map(before)[before[j].0@] == before[j].1@);
                            }
                        }
                    }
                }
            },
            None => {
                let ghost before = docs@;
                docs.push((id, json));
                proof {
                    assert(docs@.drop_last() =~= before);
                }
            },
        }
        proof { lemma_entries_map(docs@); }
        self.docs = docs;
        Ok(())
    }

    /// The text stored under `id`, or `NotFound(id)`.
    pub fn load(&self, id: &str) -> (r: Result<String, StorageError>)
        ensures
            self.view().contains_key(id@) ==> (r matches Ok(s) && s@ == self.view()[id@]),
            !self.view().contains_key(id@) ==> (r matches Err(StorageError::NotFound(m)) && m@ == id@),
    {
        proof {
            use_type_invariant(self);
            lemma_entries_map(self.docs@);
        }
        let key = String::from_str(id);
        match find_entry(&self.docs, &key) {
            Some(i) => Ok(self.docs[i].1.clone()),
            None => Err(StorageError::NotFound(key)),
        }
    }

    /// Every id held, each once.
    pub fn list(&self) -> (r: Result<Vec<String>, StorageError>)
        ensures
            r matches Ok(ids) && lists_keys(self.view(), ids@),
    {
        proof {
            use_type_invariant(self);
            lemma_entries_map(self.docs@);
        }
        let mut ids: Vec<String> = Vec::new();
        let mut i: usize = 0;
        while i < self.docs.len()
            invariant
                i <= self.docs@.len(),
                ids@.len() == i,
                forall|j: int| 0 <= j < i ==> #[trigger] ids@[j]@ == self.docs@[j].0@,
            decreases self.docs@.len() - i,
        {
            ids.push(self.docs[i].0.clone());
            i = i + 1;
        }
        assert forall|k: Seq<char>| self.view().contains_key(k) <==> exists|i: int| 0 <= i < ids@.len() && #[trigger] ids@[i]@ == k by {
            if self.view().contains_key(k) {
                let j = choose|j: int| 0 <= j < self.docs@.len() && self.docs@[j].0@ == k;
                assert(ids@[j]@ == k);
            }
            if exists|i: int| 0 <= i < ids@.len() && #[trigger] ids@[i]@ == k {
                let j = choose|j: int| 0 <= j < ids@.len() && #[trigger] ids@[j]@ == k;
                assert(self.docs@[j].0@ == k);
            }
        }
        assert forall|a: int, b: int| 0 <= a < ids@.len() && 0 <= b < ids@.len() && a != b implies ids@[a]@ != ids@[b]@ by {
            assert(ids@[a]@ == self.docs@[a].0@);
            assert(ids@[b]@ == self.docs@[b].0@);
        }
        assert(lists_keys(self.view(), ids@));
        Ok(ids)
    }

    /// Drops what is stored under `id`, if anything.
    pub fn delete(&mut self, id: &str) -> (r: Result<(), StorageError>)
        ensures
            r is Ok,
            final(self).view() == old(self).view().remove(id@),
    {
        proof { use_type_invariant(&*self); }
        let mut docs: Vec<(String, String)> = Vec::new();
        std::mem::swap(&mut docs, &mut self.docs);
        proof { lemma_entries_map(docs@); }
        let key = String::from_str(id);
        match find_entry(&docs, &key) {
            Some(i) => {
                let ghost before = docs@;
                docs.remove(i);
                proof {
                    lemma_entries_map(docs@);
                    assert forall|a: int, b: int| 0 <= a < docs@.len() && 0 <= b < docs@.len() && a != b implies docs@[a].0@ != docs@[b].0@ by {
                        let a2 = if a < i { a } else { a + 1 };
                        let b2 = if b < i { b } else { b + 1 };
                        assert(docs@[a] == before[a2]);
                        assert(docs@[b] == before[b2]);
                    }
                    assert(entries_map(docs@) =~= entries_map(before).remove(id@)) by {
                        assert forall|k: Seq<char>| entries_map(docs@).contains_key(k) <==> entries_map(before).remove(id@).contains_key(k) by {
                            if entries_map(docs@).contains_key(k) {
                                let j = choose|j: int| 0 <= j < docs@.len() && docs@[j].0@ == k;
                                let j2 = if j < i { j } else { j + 1 };
                                assert(before[j2].0@ == k);
                            }
                            if entries_map(before).contains_key(k) && k != id@ {
                                let j = choose|j: int| 0 <= j < before.len() && before[j].0@ == k;
                                assert(j != i);
                                let j2 = if j < i { j } else { j - 1 };
                                assert(docs@[j2].0@ == k);
                            }
                        }
                        assert forall|k: Seq<char>| #[trigger] entries_map(docs@).contains_key(k) implies entries_map(docs@)[k] == entries_map(before).remove(id@)[k] by {
                            let j = choose|j: int| 0 <= j < docs@.len() && docs@[j].0@ == k;
                            let j2 = if j < i { j } else { j + 1 };
                            assert(entries_map(docs@)[docs@[j].0@] == docs@[j].1@);
                            assert(entries_map(before)[before[j2].0@] == before[j2].1@);
                        }
                    }
                }
            },
            None => {
                proof {
                    assert(entries_map(docs@) =~= entries_map(docs@).remove(id@));
                }
            },
        }
        self.docs = docs;
        Ok(())
    }
}

impl Default for MemoryStore {
    /// An empty store.
    fn default() -> (s: Self)
        ensures
            s.view() == Map::<Seq<char>, Seq<char>>::empty(),
    {
        MemoryStore::new()
    }
}

/// A load after a save of `json` under `id` gives back `json`, and what other
/// ids hold is as before the save.
pub proof fn law_load_after_save(m: Map<Seq<char>, Seq<char>>, id: Seq<char>, json: Seq<char>, other: Seq<char>)
    ensures
        m.insert(id, json).contains_key(id),
        m.insert(id, json)[id] == json,
        other != id ==> (m.insert(id, json).contains_key(other) <==> m.contains_key(other)),
        other != id && m.contains_key(other) ==> m.insert(id, json)[other] == m[other],
{
}

/// A load after a delete of `id` finds nothing there, and what other ids hold
/// is as before the delete.
pub proof fn law_load_after_delete(m: Map<Seq<char>, Seq<char>>, id: Seq<char>, other: Seq<char>)
    ensures
        !m.remove(id).contains_key(id),
        other != id ==> (m.remove(id).contains_key(other) <==> m.contains_key(other)),
        other != id && m.contains_key(other) ==> m.remove(id)[other] == m[other],
{
}

/// Saving the same text twice under an id leaves the store as one save does.
pub proof fn law_save_idempotent(m: Map<Seq<char>, Seq<char>>, id: Seq<char>, json: Seq<char>)
    ensures
        m.insert(id, json).insert(id, json) == m.insert(id, json),
{
    assert(m.insert(id, json).insert(id, json) =~= m.insert(id, json));
}

} // verus!
