use vstd::prelude::*;
use vstd::hash_map::StringHashMap;
use crate::state::{Namespace, NamespaceV, StoredTriple, TripleKey, TripleKeyV, TripleV};

verus! {

/// Byte-for-byte equality of two byte vectors.
pub fn bytes_eq(a: &Vec<u8>, b: &Vec<u8>) -> (r: bool)
    ensures
        r == (a@ == b@),
{
    if a.len() != b.len() {
        return false;
    }
    let n = a.len();
    let mut i: usize = 0;
    while i < n
        invariant
            i <= n,
            n == a@.len(),
            n == b@.len(),
            forall|j: int| 0 <= j < i ==> a@[j] == b@[j],
        decreases n - i,
    {
        if a[i] != b[i] {
            return false;
        }
        i = i + 1;
    }
    proof {
        assert(a@ =~= b@);
    }
    true
}

/// Equality of two interned named terms, decided by their values.
pub fn node_eq(a: &crate::state::Node, b: &crate::state::Node) -> (r: bool)
    ensures
        r == (a@ == b@),
{
    let r = a.namespace == b.namespace && a.value == b.value;
    proof {
        if a.namespace == b.namespace && a.value@ == b.value@ {
            assert(a@ =~= b@);
        }
    }
    r
}

/// Equality of two interned subjects, decided by their values.
pub fn subject_eq(a: &crate::state::StoredSubject, b: &crate::state::StoredSubject) -> (r: bool)
    ensures
        r == (a@ == b@),
{
    match (a, b) {
        (crate::state::StoredSubject::Named(x), crate::state::StoredSubject::Named(y)) => node_eq(x, y),
        (crate::state::StoredSubject::Blank(x), crate::state::StoredSubject::Blank(y)) => {
            let r = *x == *y;
            proof {
                if x@ == y@ {
                    assert(a@ =~= b@);
                }
            }
            r
        },
        _ => false,
    }
}

/// Equality of two composite triple keys, decided by their values.
pub fn triple_key_eq(a: &TripleKey, b: &TripleKey) -> (r: bool)
    ensures
        r == (a@ == b@),
{
    let r = bytes_eq(&a.object_hash, &b.object_hash) && node_eq(&a.predicate, &b.predicate)
        && subject_eq(&a.subject, &b.subject);
    proof {
        if a.object_hash@ == b.object_hash@ && a.predicate@ == b.predicate@ && a.subject@
            == b.subject@ {
            assert(a@ =~= b@);
        }
    }
    r
}

/// The map an association list of keyed triples denotes, later entries
/// shadowing earlier ones.
pub open spec fn table_map(entries: Seq<(TripleKey, StoredTriple)>) -> Map<TripleKeyV, TripleV>
    decreases entries.len(),
{
    if entries.len() == 0 {
        Map::empty()
    } else {
        table_map(entries.drop_last()).insert(entries.last().0@, entries.last().1@)
    }
}

/// No two entries are keyed alike.
pub open spec fn unique_keys(entries: Seq<(TripleKey, StoredTriple)>) -> bool {
    forall|i: int, j: int|
        0 <= i < j < entries.len() ==> entries[i].0@ != entries[j].0@
}

/// A key is in the denoted map exactly when some entry holds it.
proof fn lemma_table_dom(entries: Seq<(TripleKey, StoredTriple)>, k: TripleKeyV)
    ensures
        table_map(entries).contains_key(k) <==> exists|i: int|
            0 <= i < entries.len() && entries[i].0@ == k,
    decreases entries.len(),
{
    if entries.len() > 0 {
        lemma_table_dom(entries.drop_last(), k);
        if entries.last().0@ == k {
            assert(entries[entries.len() - 1].0@ == k);
        } else if table_map(entries).contains_key(k) {
            let i = choose|i: int|
                0 <= i < entries.drop_last().len() && entries.drop_last()[i].0@ == k;
            assert(entries[i].0@ == k);
        } else {
            if exists|i: int| 0 <= i < entries.len() && entries[i].0@ == k {
                let i = choose|i: int| 0 <= i < entries.len() && entries[i].0@ == k;
                assert(i < entries.len() - 1);
                assert(entries.drop_last()[i].0@ == k);
            }
        }
    }
}

/// Each entry of a uniquely-keyed list is in the denoted map.
proof fn lemma_table_at(entries: Seq<(TripleKey, StoredTriple)>, i: int)
    requires
        unique_keys(entries),
        0 <= i < entries.len(),
    ensures
        table_map(entries).contains_key(entries[i].0@),
        table_map(entries)[entries[i].0@] == entries[i].1@,
    decreases entries.len(),
{
    if i == entries.len() - 1 {
    } else {
        assert(unique_keys(entries.drop_last())) by {
            assert(forall|x: int, y: int|
                0 <= x < y < entries.drop_last().len() ==> entries.drop_last()[x].0@
                    == entries[x].0@ && entries.drop_last()[y].0@ == entries[y].0@);
        }
        lemma_table_at(entries.drop_last(), i);
        assert(entries.drop_last()[i].0@ == entries[i].0@);
        assert(entries[i].0@ != entries.last().0@);
    }
}

/// Removing the entry at `i` removes exactly its key from the denoted map.
proof fn lemma_table_remove_at(entries: Seq<(TripleKey, StoredTriple)>, i: int)
    requires
        unique_keys(entries),
        0 <= i < entries.len(),
    ensures
        table_map(entries.remove(i)) =~= table_map(entries).remove(entries[i].0@),
    decreases entries.len(),
{
    let k = entries[i].0@;
    if i == entries.len() - 1 {
        assert(entries.remove(i) =~= entries.drop_last());
        lemma_table_dom(entries.drop_last(), k);
        assert(forall|j: int|
            0 <= j < entries.drop_last().len() ==> entries.drop_last()[j].0@ == entries[j].0@);
        assert(!table_map(entries.drop_last()).contains_key(k));
        assert(table_map(entries.drop_last()) =~= table_map(entries).remove(k));
    } else {
        assert(unique_keys(entries.drop_last())) by {
            assert(forall|x: int, y: int|
                0 <= x < y < entries.drop_last().len() ==> entries.drop_last()[x].0@
                    == entries[x].0@ && entries.drop_last()[y].0@ == entries[y].0@);
        }
        lemma_table_remove_at(entries.drop_last(), i);
        assert(entries.remove(i).drop_last() =~= entries.drop_last().remove(i));
        assert(entries.remove(i).last() == entries.last());
        assert(k != entries.last().0@);
        assert(table_map(entries.remove(i)) =~= table_map(entries).remove(k));
    }
}

/// Dropping an entry keeps the remaining keys pairwise distinct.
proof fn lemma_unique_remove(entries: Seq<(TripleKey, StoredTriple)>, i: int)
    requires
        unique_keys(entries),
        0 <= i < entries.len(),
    ensures
        unique_keys(entries.remove(i)),
{
    entries.remove_ensures(i);
    assert forall|x: int, y: int|
        0 <= x < y < entries.remove(i).len() implies entries.remove(i)[x].0@ != entries.remove(
        i,
    )[y].0@ by {
        let xx = if x < i {
            x
        } else {
            x + 1
        };
        let yy = if y < i {
            y
        } else {
            y + 1
        };
        assert(entries.remove(i)[x] == entries[xx]);
        assert(entries.remove(i)[y] == entries[yy]);
    }
}

/// The triple table: the content-addressed map persisted triples live in,
/// keyed by the composite key of digest, predicate and subject.
pub struct TripleTable {
    entries: Vec<(TripleKey, StoredTriple)>,
}

impl View for TripleTable {
    type V = Map<TripleKeyV, TripleV>;

    closed spec fn view(&self) -> Map<TripleKeyV, TripleV> {
        table_map(self.entries@)
    }
}

impl TripleTable {
    /// The table never keys two entries alike.
    pub closed spec fn wf(self) -> bool {
        unique_keys(self.entries@)
    }

    /// An empty table.
    pub fn new() -> (r: Self)
        ensures
            r.wf(),
            r@ =~= Map::<TripleKeyV, TripleV>::empty(),
    {
        TripleTable { entries: Vec::new() }
    }

    /// The index of the entry keyed `k`, when there is one.
    fn find(&self, key: &TripleKey) -> (r: Option<usize>)
        ensures
            match r {
                Some(i) => i < self.entries@.len() && self.entries@[i as int].0@ == key@,
                None => forall|j: int|
                    0 <= j < self.entries@.len() ==> self.entries@[j].0@ != key@,
            },
    {
        let n = self.entries.len();
        let mut i: usize = 0;
        while i < n
            invariant
                i <= n,
                n == self.entries@.len(),
                forall|j: int| 0 <= j < i ==> self.entries@[j].0@ != key@,
            decreases n - i,
        {
            if triple_key_eq(&self.entries[i].0, key) {
                return Some(i);
            }
            i = i + 1;
        }
        None
    }

    /// Stores `value` under `key`, replacing what was there.
    pub fn save(&mut self, key: TripleKey, value: StoredTriple)
        requires
            old(self).wf(),
        ensures
            final(self).wf(),
            final(self)@ =~= old(self)@.insert(key@, value@),
    {
        let ghost k = key@;
        match self.find(&key) {
            Some(i) => {
                proof {
                    lemma_table_remove_at(self.entries@, i as int);
                }
                proof {
                    lemma_unique_remove(self.entries@, i as int);
                }
                self.entries.remove(i);
                proof {
                    lemma_table_dom(self.entries@, k);
                }
                let ghost mid = self.entries@;
                self.entries.push((key, value));
                proof {
                    assert(self.entries@.drop_last() =~= mid);
                    assert(forall|j: int| 0 <= j < mid.len() ==> mid[j].0@ != k);
                    assert(final(self)@ =~= old(self)@.insert(k, value@));
                }
            },
            None => {
                proof {
                    lemma_table_dom(self.entries@, k);
                }
                let ghost mid = self.entries@;
                self.entries.push((key, value));
                proof {
                    assert(self.entries@.drop_last() =~= mid);
                }
            },
        }
    }

    /// Removes what is stored under `key`; removing an absent key changes
    /// nothing.
    pub fn remove(&mut self, key: &TripleKey)
        requires
            old(self).wf(),
        ensures
            final(self).wf(),
            final(self)@ =~= old(self)@.remove(key@),
    {
        match self.find(key) {
            Some(i) => {
                proof {
                    lemma_table_remove_at(self.entries@, i as int);
                }
                proof {
                    lemma_unique_remove(self.entries@, i as int);
                }
                self.entries.remove(i);
            },
            None => {
                proof {
                    lemma_table_dom(self.entries@, key@);
                    assert(final(self)@ =~= old(self)@.remove(key@));
                }
            },
        }
    }

    /// What is stored under `key`.
    pub fn get(&self, key: &TripleKey) -> (r: Option<&StoredTriple>)
        requires
            self.wf(),
        ensures
            match r {
                Some(t) => self@.contains_key(key@) && t@ == self@[key@],
                None => !self@.contains_key(key@),
            },
    {
        match self.find(key) {
            Some(i) => {
                proof {
                    lemma_table_at(self.entries@, i as int);
                }
                Some(&self.entries[i].1)
            },
            None => {
                proof {
                    lemma_table_dom(self.entries@, key@);
                }
                None
            },
        }
    }
}

/// The per-batch namespace cache: a map from namespace text to its record,
/// overlaying the persistent namespace table, with its keys enumerable for
/// the commit pass.
pub struct NsCache {
    map: StringHashMap<Namespace>,
    keys: Vec<String>,
}

impl View for NsCache {
    type V = Map<Seq<char>, NamespaceV>;

    closed spec fn view(&self) -> Map<Seq<char>, NamespaceV> {
        self.map@.map_values(|n: Namespace| n@)
    }
}

impl NsCache {
    /// The cached keys, in insertion order.
    pub closed spec fn key_seq(self) -> Seq<Seq<char>> {
        Seq::new(self.keys@.len(), |i: int| self.keys@[i]@)
    }

    /// The enumerable keys are exactly the map's domain, each once, and
    /// every cached record carries its own key as its text.
    pub open spec fn wf(self) -> bool {
        &&& forall|i: int|
            0 <= i < self.key_seq().len() ==> self@.contains_key(#[trigger] self.key_seq()[i])
        &&& forall|i: int, j: int|
            0 <= i < j < self.key_seq().len() ==> self.key_seq()[i] != self.key_seq()[j]
        &&& forall|k: Seq<char>| #[trigger]
            self@.contains_key(k) ==> exists|i: int|
                0 <= i < self.key_seq().len() && self.key_seq()[i] == k
        &&& forall|k: Seq<char>| #[trigger] self@.contains_key(k) ==> self@[k].value == k
    }

    /// An empty cache.
    pub fn new() -> (r: Self)
        ensures
            r.wf(),
            r@ =~= Map::<Seq<char>, NamespaceV>::empty(),
            r.key_seq().len() == 0,
    {
        let r = NsCache { map: StringHashMap::new(), keys: Vec::new() };
        proof {
            assert(r@ =~= Map::<Seq<char>, NamespaceV>::empty());
        }
        r
    }

    /// The cached record for a namespace text.
    pub fn get(&self, k: &String) -> (r: Option<&Namespace>)
        ensures
            match r {
                Some(ns) => self@.contains_key(k@) && ns@ == self@[k@],
                None => !self@.contains_key(k@),
            },
    {
        let r = self.map.get(k.as_str());
        proof {
            match r {
                Some(ns) => {
                    assert(self@[k@] == ns@);
                },
                None => {},
            }
        }
        r
    }

    /// Caches `ns` under its own text, replacing what was there.
    pub fn insert(&mut self, ns: Namespace)
        requires
            old(self).wf(),
        ensures
            final(self).wf(),
            final(self)@ =~= old(self)@.insert(ns.value@, ns@),
            final(self).key_seq() == if old(self)@.contains_key(ns.value@) {
                old(self).key_seq()
            } else {
                old(self).key_seq().push(ns.value@)
            },
    {
        let k = ns.value.clone();
        let had = self.map.contains_key(k.as_str());
        if !had {
            self.keys.push(ns.value.clone());
        }
        self.map.insert(k, ns);
        proof {
            let kk = ns.value@;
            let olds = *old(self);
            let news = *final(self);
            assert(news@ =~= olds@.insert(kk, ns@));
            assert(had == olds@.contains_key(kk));
            if !had {
                assert(news.key_seq() =~= olds.key_seq().push(kk));
            } else {
                assert(news.key_seq() =~= olds.key_seq());
            }
            assert forall|i: int|
                0 <= i < news.key_seq().len() implies news@.contains_key(
                #[trigger] news.key_seq()[i],
            ) by {
                if i < olds.key_seq().len() {
                    assert(olds@.contains_key(olds.key_seq()[i]));
                } else {
                    assert(news.key_seq()[i] == kk);
                }
            }
            assert forall|i: int, j: int|
                0 <= i < j < news.key_seq().len() implies news.key_seq()[i]
                != news.key_seq()[j] by {
                if j < olds.key_seq().len() {
                } else {
                    assert(news.key_seq()[j] == kk);
                    assert(olds@.contains_key(olds.key_seq()[i]));
                }
            }
            assert forall|k2: Seq<char>| #[trigger]
                news@.contains_key(k2) implies exists|i: int|
                0 <= i < news.key_seq().len() && news.key_seq()[i] == k2 by {
                if k2 == kk {
                    if had {
                        let i = choose|i: int|
                            0 <= i < olds.key_seq().len() && olds.key_seq()[i] == k2;
                        assert(news.key_seq()[i] == k2);
                    } else {
                        assert(news.key_seq()[olds.key_seq().len() as int] == kk);
                    }
                } else {
                    assert(olds@.contains_key(k2));
                    let i = choose|i: int|
                        0 <= i < olds.key_seq().len() && olds.key_seq()[i] == k2;
                    assert(news.key_seq()[i] == k2);
                }
            }
            assert forall|k2: Seq<char>| #[trigger]
                news@.contains_key(k2) implies news@[k2].value == k2 by {
                if k2 != kk {
                    assert(olds@.contains_key(k2));
                    assert(news@[k2] == olds@[k2]);
                }
            }
        }
    }

    /// How many namespaces are cached.
    pub fn n_keys(&self) -> (r: usize)
        ensures
            r == self.key_seq().len(),
    {
        self.keys.len()
    }

    /// The `i`-th cached key, in insertion order.
    pub fn key_at(&self, i: usize) -> (r: &String)
        requires
            i < self.key_seq().len(),
        ensures
            r@ == self.key_seq()[i as int],
    {
        &self.keys[i]
    }

    /// Empties the cache.
    pub fn clear(&mut self)
        ensures
            final(self).wf(),
            final(self)@ =~= Map::<Seq<char>, NamespaceV>::empty(),
            final(self).key_seq().len() == 0,
    {
        self.map.clear();
        self.keys = Vec::new();
        proof {
            assert(final(self)@ =~= Map::<Seq<char>, NamespaceV>::empty());
        }
    }
}

} // verus!
