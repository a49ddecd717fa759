use vstd::prelude::*;
use vstd::hash_map::StringHashMap;
use crate::errors::StoreError;
use crate::rdf::{
    explode_iri, has_ns_delim, raw_triple_size, rightmost_ns_delim, RawObject, RawObjectV,
    RawSubjectV, RawTriple, RawTripleV,
};
use crate::state::{
    sat_dec, sat_inc, Namespace, NamespaceV, Node, NodeV, ObjectV, Store, StoreLimits,
    StoreStat, SubjectV, TripleKeyV, TripleV,
};
use crate::tables::{NsCache, TripleTable};

verus! {

/// Subtracts, staying put at zero instead of wrapping.
pub open spec fn sat_sub(x: u128, d: nat) -> u128 {
    if x >= d {
        (x - d) as u128
    } else {
        0
    }
}

/// The map of interned namespace records a table of them denotes.
pub open spec fn ns_v(m: Map<Seq<char>, Namespace>) -> Map<Seq<char>, NamespaceV> {
    m.map_values(|n: Namespace| n@)
}

/// The namespace part of an IRI: everything up to and including the
/// rightmost delimiter.
pub open spec fn ns_of(s: Seq<char>) -> Seq<char> {
    s.subrange(0, rightmost_ns_delim(s) + 1)
}

/// The local part of an IRI: everything after the rightmost delimiter.
pub open spec fn local_of(s: Seq<char>) -> Seq<char> {
    s.subrange(rightmost_ns_delim(s) + 1, s.len() as int)
}

/// The whole persistent side the engine works against: the store record,
/// the namespace-key allocator offset, the namespace table, and the
/// content-addressed triple table.
pub struct Backend {
    pub store: Store,
    pub ns_key_inc: u128,
    pub namespaces: StringHashMap<Namespace>,
    pub triples: TripleTable,
}

impl Backend {
    /// The triple table is uniquely keyed and every stored namespace
    /// record carries its own key as its text.
    pub open spec fn wf(self) -> bool {
        &&& self.triples.wf()
        &&& forall|k: Seq<char>| #[trigger]
            ns_v(self.namespaces@).contains_key(k) ==> ns_v(self.namespaces@)[k].value == k
    }

    /// A fresh, empty backend configured with the given limits.
    pub fn new(limits: StoreLimits) -> (r: Self)
        ensures
            r.wf(),
            r.store == (Store {
                limits,
                stat: StoreStat { triple_count: 0, namespace_count: 0, byte_size: 0 },
            }),
            r.ns_key_inc == 0,
            ns_v(r.namespaces@) =~= Map::<Seq<char>, NamespaceV>::empty(),
            r.triples@ =~= Map::<TripleKeyV, TripleV>::empty(),
    {
        let r = Backend {
            store: Store {
                limits,
                stat: StoreStat { triple_count: 0, namespace_count: 0, byte_size: 0 },
            },
            ns_key_inc: 0,
            namespaces: StringHashMap::new(),
            triples: TripleTable::new(),
        };
        proof {
            assert(ns_v(r.namespaces@) =~= Map::<Seq<char>, NamespaceV>::empty());
        }
        r
    }
}

/// The mathematical value of a `StoreEngine`: its working copy of the
/// store record, the allocator offset, the per-batch cache, the batch-start
/// counters, and the backend's four parts.
#[verifier::ext_equal]
pub ghost struct EngineV {
    pub store: Store,
    pub offset: u128,
    pub cache: Map<Seq<char>, NamespaceV>,
    pub initial_triple_count: u128,
    pub initial_byte_size: u128,
    pub b_store: Store,
    pub b_offset: u128,
    pub b_ns: Map<Seq<char>, NamespaceV>,
    pub b_triples: Map<TripleKeyV, TripleV>,
}

/// The part of the engine's state a namespace reference reads and writes.
#[verifier::ext_equal]
pub ghost struct NsState {
    pub cache: Map<Seq<char>, NamespaceV>,
    pub stored: Map<Seq<char>, NamespaceV>,
    pub offset: u128,
    pub ns_count: u128,
}

/// The namespace-referencing part of an engine value.
pub open spec fn ns_state(e: EngineV) -> NsState {
    NsState {
        cache: e.cache,
        stored: e.b_ns,
        offset: e.offset,
        ns_count: e.store.stat.namespace_count,
    }
}

/// Referencing namespace `k` during insertion: a cached record's counter
/// rises in place; a stored one is cached with its counter raised; an
/// unknown one is allocated a fresh key, counted, and cached with one
/// reference.
pub open spec fn ref_step(st: NsState, k: Seq<char>) -> NsState {
    if st.cache.contains_key(k) {
        let n = st.cache[k];
        NsState {
            cache: st.cache.insert(
                k,
                NamespaceV { value: n.value, key: n.key, counter: sat_inc(n.counter) },
            ),
            ..st
        }
    } else if st.stored.contains_key(k) {
        let n = st.stored[k];
        NsState {
            cache: st.cache.insert(
                k,
                NamespaceV { value: n.value, key: n.key, counter: sat_inc(n.counter) },
            ),
            ..st
        }
    } else {
        NsState {
            cache: st.cache.insert(k, NamespaceV { value: k, key: st.offset, counter: 1 }),
            offset: sat_inc(st.offset),
            ns_count: sat_inc(st.ns_count),
            ..st
        }
    }
}

/// The key referencing namespace `k` yields.
pub open spec fn ref_key(st: NsState, k: Seq<char>) -> u128 {
    if st.cache.contains_key(k) {
        st.cache[k].key
    } else if st.stored.contains_key(k) {
        st.stored[k].key
    } else {
        st.offset
    }
}

/// A namespace can be released only when it is cached or stored.
pub open spec fn free_ok(st: NsState, k: Seq<char>) -> bool {
    st.cache.contains_key(k) || st.stored.contains_key(k)
}

/// Releasing namespace `k` during deletion: the record's counter drops,
/// and the record is cached.
pub open spec fn free_step(st: NsState, k: Seq<char>) -> NsState {
    let n = if st.cache.contains_key(k) {
        st.cache[k]
    } else {
        st.stored[k]
    };
    NsState {
        cache: st.cache.insert(
            k,
            NamespaceV { value: n.value, key: n.key, counter: sat_dec(n.counter) },
        ),
        ..st
    }
}

/// The key releasing namespace `k` yields.
pub open spec fn free_key(st: NsState, k: Seq<char>) -> u128 {
    if st.cache.contains_key(k) {
        st.cache[k].key
    } else {
        st.stored[k].key
    }
}

/// The namespace a subject references, if any.
pub open spec fn subject_ns(s: RawSubjectV) -> Option<Seq<char>> {
    match s {
        RawSubjectV::Named(iri) => Some(ns_of(iri)),
        _ => None,
    }
}

/// The namespace an object references, if any.
pub open spec fn object_ns(o: RawObjectV) -> Option<Seq<char>> {
    match o {
        RawObjectV::Named(iri) => Some(ns_of(iri)),
        RawObjectV::LiteralTyped(_, d) => Some(ns_of(d)),
        _ => None,
    }
}

/// The error interning a parsed statement raises, if any: a quoted triple
/// is unsupported, and every named term's IRI must split; the subject is
/// examined first, then the predicate, then the object.
pub open spec fn convert_err(t: RawTripleV) -> Option<StoreError> {
    match t.subject {
        RawSubjectV::Nested => Some(StoreError::NestedTriple),
        RawSubjectV::Named(iri) => if !has_ns_delim(iri) {
            Some(StoreError::IriNamespace)
        } else {
            convert_err_from_predicate(t)
        },
        RawSubjectV::Blank(_) => convert_err_from_predicate(t),
    }
}

/// The interning error of a statement whose subject was accepted.
pub open spec fn convert_err_from_predicate(t: RawTripleV) -> Option<StoreError> {
    if !has_ns_delim(t.predicate) {
        Some(StoreError::IriNamespace)
    } else {
        match t.object {
            RawObjectV::Nested => Some(StoreError::NestedTriple),
            RawObjectV::Named(iri) => if !has_ns_delim(iri) {
                Some(StoreError::IriNamespace)
            } else {
                None
            },
            RawObjectV::LiteralTyped(_, d) => if !has_ns_delim(d) {
                Some(StoreError::IriNamespace)
            } else {
                None
            },
            _ => None,
        }
    }
}

/// References a namespace when a term names one.
pub open spec fn ref_maybe(st: NsState, ko: Option<Seq<char>>) -> NsState {
    match ko {
        Some(k) => ref_step(st, k),
        None => st,
    }
}

/// The namespace state after interning a whole statement: its subject's
/// namespace is referenced first, then its predicate's, then its object's.
pub open spec fn triple_ref_state(st: NsState, t: RawTripleV) -> NsState {
    ref_maybe(ref_step(ref_maybe(st, subject_ns(t.subject)), ns_of(t.predicate)), object_ns(
        t.object,
    ))
}

/// The interned form of a named term, read off the cache that interning
/// the statement produced.
pub open spec fn interned_node(c: Map<Seq<char>, NamespaceV>, iri: Seq<char>) -> NodeV {
    NodeV { namespace: c[ns_of(iri)].key, value: local_of(iri) }
}

/// The interned form of a subject.
pub open spec fn interned_subject(c: Map<Seq<char>, NamespaceV>, s: RawSubjectV) -> SubjectV {
    match s {
        RawSubjectV::Named(iri) => SubjectV::Named(interned_node(c, iri)),
        RawSubjectV::Blank(id) => SubjectV::Blank(id),
        RawSubjectV::Nested => SubjectV::Blank(Seq::empty()),
    }
}

/// The interned form of an object.
pub open spec fn interned_object(c: Map<Seq<char>, NamespaceV>, o: RawObjectV) -> ObjectV {
    match o {
        RawObjectV::Named(iri) => ObjectV::Named(interned_node(c, iri)),
        RawObjectV::Blank(id) => ObjectV::Blank(id),
        RawObjectV::LiteralSimple(v) => ObjectV::Literal(
            crate::state::LiteralV::Simple { value: v },
        ),
        RawObjectV::LiteralLang(v, l) => ObjectV::Literal(
            crate::state::LiteralV::I18NString { value: v, language: l },
        ),
        RawObjectV::LiteralTyped(v, d) => ObjectV::Literal(
            crate::state::LiteralV::Typed { value: v, datatype: interned_node(c, d) },
        ),
        RawObjectV::Nested => ObjectV::Blank(Seq::empty()),
    }
}

/// The interned form of a whole statement.
pub open spec fn interned_triple(c: Map<Seq<char>, NamespaceV>, t: RawTripleV) -> TripleV {
    TripleV {
        subject: interned_subject(c, t.subject),
        predicate: interned_node(c, t.predicate),
        object: interned_object(c, t.object),
    }
}

/// The composite key an interned statement is persisted under: the digest
/// of its object's canonical encoding, then its predicate, then its
/// subject.
pub open spec fn key_of(c: Map<Seq<char>, NamespaceV>, t: RawTripleV) -> TripleKeyV {
    TripleKeyV {
        object_hash: crate::hashing::blake3_of(
            crate::hashing::canon_object(interned_object(c, t.object)),
        ),
        predicate: interned_node(c, t.predicate),
        subject: interned_subject(c, t.subject),
    }
}

/// The quota violation inserting one statement of size `tsize` raises, if
/// any, checked in order: total triple count, this batch's triple count,
/// the statement's own size, total byte size, this batch's byte size.
pub open spec fn quota_outcome(
    stat: StoreStat,
    limits: StoreLimits,
    init_count: u128,
    init_size: u128,
    tsize: nat,
) -> Option<StoreError> {
    if stat.triple_count + 1 > limits.max_triple_count {
        Some(StoreError::TripleCount(limits.max_triple_count))
    } else if stat.triple_count + 1 - init_count > limits.max_insert_data_triple_count {
        Some(StoreError::InsertDataTripleCount(limits.max_insert_data_triple_count))
    } else if tsize > limits.max_triple_byte_size {
        Some(StoreError::TripleByteSize(tsize as u128, limits.max_triple_byte_size))
    } else if stat.byte_size + tsize > limits.max_byte_size {
        Some(StoreError::ByteSize(limits.max_byte_size))
    } else if stat.byte_size + tsize - init_size > limits.max_insert_data_byte_size {
        Some(StoreError::InsertDataByteSize(limits.max_insert_data_byte_size))
    } else {
        None
    }
}

/// What inserting one statement does to an engine: a quota violation or an
/// interning failure rejects it; otherwise its namespaces are referenced,
/// the statement is persisted under its content-addressed key, and the
/// statistics grow by one triple and its byte size.
pub open spec fn store_step_v(e: EngineV, t: RawTripleV) -> Result<EngineV, StoreError> {
    let tsize = raw_triple_size(t);
    match quota_outcome(
        e.store.stat,
        e.store.limits,
        e.initial_triple_count,
        e.initial_byte_size,
        tsize,
    ) {
        Some(err) => Err(err),
        None => match convert_err(t) {
            Some(err) => Err(err),
            None => {
                let st1 = triple_ref_state(ns_state(e), t);
                let c1 = st1.cache;
                Ok(
                    EngineV {
                        store: Store {
                            limits: e.store.limits,
                            stat: StoreStat {
                                triple_count: (e.store.stat.triple_count + 1) as u128,
                                namespace_count: st1.ns_count,
                                byte_size: (e.store.stat.byte_size + tsize) as u128,
                            },
                        },
                        offset: st1.offset,
                        cache: c1,
                        b_triples: e.b_triples.insert(key_of(c1, t), interned_triple(c1, t)),
                        ..e
                    },
                )
            },
        },
    }
}

/// Why deleting a statement was rejected: its form could not be interned,
/// or it released a namespace that is neither cached nor stored.
#[verifier::ext_equal]
pub ghost enum DeleteErr {
    Convert(StoreError),
    Missing(Seq<char>),
}

/// The exec error a deletion outcome corresponds to.
pub open spec fn err_matches(e: StoreError, de: DeleteErr) -> bool {
    match de {
        DeleteErr::Convert(x) => e == x,
        DeleteErr::Missing(k) => e matches StoreError::NamespaceNotFound(s) && s@ == k,
    }
}

/// Releasing one named term's namespace: its IRI must split, and the
/// namespace must be cached or stored.
pub open spec fn free_node_outcome(st: NsState, iri: Seq<char>) -> Result<
    (NsState, u128),
    DeleteErr,
> {
    if !has_ns_delim(iri) {
        Err(DeleteErr::Convert(StoreError::IriNamespace))
    } else if !free_ok(st, ns_of(iri)) {
        Err(DeleteErr::Missing(ns_of(iri)))
    } else {
        Ok((free_step(st, ns_of(iri)), free_key(st, ns_of(iri))))
    }
}

/// Releasing a whole statement's namespaces, subject first, then
/// predicate, then object, stopping at the first failure.
pub open spec fn delete_convert_outcome(st: NsState, t: RawTripleV) -> Result<
    NsState,
    DeleteErr,
> {
    let after_subject = match t.subject {
        RawSubjectV::Nested => Err(DeleteErr::Convert(StoreError::NestedTriple)),
        RawSubjectV::Named(iri) => match free_node_outcome(st, iri) {
            Ok((st1, _)) => Ok(st1),
            Err(e) => Err(e),
        },
        RawSubjectV::Blank(_) => Ok(st),
    };
    match after_subject {
        Err(e) => Err(e),
        Ok(st1) => match free_node_outcome(st1, t.predicate) {
            Err(e) => Err(e),
            Ok((st2, _)) => match t.object {
                RawObjectV::Nested => Err(DeleteErr::Convert(StoreError::NestedTriple)),
                RawObjectV::Named(iri) => match free_node_outcome(st2, iri) {
                    Ok((st3, _)) => Ok(st3),
                    Err(e) => Err(e),
                },
                RawObjectV::LiteralTyped(_, d) => match free_node_outcome(st2, d) {
                    Ok((st3, _)) => Ok(st3),
                    Err(e) => Err(e),
                },
                _ => Ok(st2),
            },
        },
    }
}

/// What deleting one statement does to an engine: its namespaces are
/// released, the statement's key is removed from the table, and the
/// statistics drop by one triple and its byte size, stopping at zero.
pub open spec fn delete_step_v(e: EngineV, t: RawTripleV) -> Result<EngineV, DeleteErr> {
    match delete_convert_outcome(ns_state(e), t) {
        Err(de) => Err(de),
        Ok(st1) => {
            let c1 = st1.cache;
            Ok(
                EngineV {
                    store: Store {
                        limits: e.store.limits,
                        stat: StoreStat {
                            triple_count: sat_dec(e.store.stat.triple_count),
                            namespace_count: e.store.stat.namespace_count,
                            byte_size: sat_sub(e.store.stat.byte_size, raw_triple_size(t)),
                        },
                    },
                    cache: c1,
                    b_triples: e.b_triples.remove(key_of(c1, t)),
                    ..e
                },
            )
        },
    }
}

/// What inserting a sequence of statements does to an engine, stopping at
/// the first rejection.
pub open spec fn store_run(e: EngineV, ts: Seq<RawTripleV>) -> Result<EngineV, StoreError>
    decreases ts.len(),
{
    if ts.len() == 0 {
        Ok(e)
    } else {
        match store_step_v(e, ts[0]) {
            Err(err) => Err(err),
            Ok(e1) => store_run(e1, ts.drop_first()),
        }
    }
}

/// What deleting a sequence of statements does to an engine, stopping at
/// the first rejection.
pub open spec fn delete_run(e: EngineV, ts: Seq<RawTripleV>) -> Result<EngineV, DeleteErr>
    decreases ts.len(),
{
    if ts.len() == 0 {
        Ok(e)
    } else {
        match delete_step_v(e, ts[0]) {
            Err(err) => Err(err),
            Ok(e1) => delete_run(e1, ts.drop_first()),
        }
    }
}

/// The parsed forms of a sequence of already-resolved statements.
pub open spec fn atoms_raw(atoms: Seq<crate::rdf::Atom>) -> Seq<RawTripleV> {
    Seq::new(atoms.len(), |i: int| crate::rdf::atom_raw(atoms[i]))
}

/// The total byte size of a sequence of statements.
pub open spec fn total_size(ts: Seq<RawTripleV>) -> nat
    decreases ts.len(),
{
    if ts.len() == 0 {
        0
    } else {
        raw_triple_size(ts[0]) + total_size(ts.drop_first())
    }
}

/// Accepted insertions grow the statistics by exactly one triple and one
/// statement size each, and never move the batch baseline or the limits.
pub proof fn lemma_store_run_stats(e: EngineV, ts: Seq<RawTripleV>)
    requires
        store_run(e, ts) is Ok,
    ensures
        ({
            let e1 = store_run(e, ts)->Ok_0;
            &&& e1.store.stat.triple_count == e.store.stat.triple_count + ts.len()
            &&& e1.store.stat.byte_size == e.store.stat.byte_size + total_size(ts)
            &&& e1.initial_triple_count == e.initial_triple_count
            &&& e1.initial_byte_size == e.initial_byte_size
            &&& e1.store.limits == e.store.limits
        }),
    decreases ts.len(),
{
    if ts.len() > 0 {
        let e1 = store_step_v(e, ts[0])->Ok_0;
        lemma_store_run_stats(e1, ts.drop_first());
    }
}

/// Accepted deletions shrink the statistics by exactly one triple and one
/// statement size each, when the statistics cover the whole batch, and
/// never move the batch baseline or the limits.
pub proof fn lemma_delete_run_stats(e: EngineV, ts: Seq<RawTripleV>)
    requires
        delete_run(e, ts) is Ok,
        e.store.stat.triple_count >= ts.len(),
        e.store.stat.byte_size >= total_size(ts),
    ensures
        ({
            let e1 = delete_run(e, ts)->Ok_0;
            &&& e1.store.stat.triple_count == e.store.stat.triple_count - ts.len()
            &&& e1.store.stat.byte_size == e.store.stat.byte_size - total_size(ts)
            &&& e1.initial_triple_count == e.initial_triple_count
            &&& e1.initial_byte_size == e.initial_byte_size
            &&& e1.store.limits == e.store.limits
        }),
    decreases ts.len(),
{
    if ts.len() > 0 {
        let e1 = delete_step_v(e, ts[0])->Ok_0;
        assert(e1.store.stat.byte_size == e.store.stat.byte_size - raw_triple_size(ts[0]));
        lemma_delete_run_stats(e1, ts.drop_first());
    }
}

/// Dropping the statement at `j` drops exactly its size from the total.
proof fn lemma_total_size_remove(ts: Seq<RawTripleV>, j: int)
    requires
        0 <= j < ts.len(),
    ensures
        total_size(ts) == raw_triple_size(ts[j]) + total_size(ts.remove(j)),
    decreases j,
{
    if j == 0 {
        assert(ts.remove(0) =~= ts.drop_first());
    } else {
        assert(ts.remove(j).drop_first() =~= ts.drop_first().remove(j - 1));
        lemma_total_size_remove(ts.drop_first(), j - 1);
    }
}

/// Two batches holding the same statements, in whatever order, have the
/// same length and the same total byte size.
pub proof fn lemma_total_size_permutation(ts: Seq<RawTripleV>, ts2: Seq<RawTripleV>)
    requires
        ts.to_multiset() == ts2.to_multiset(),
    ensures
        ts.len() == ts2.len(),
        total_size(ts) == total_size(ts2),
    decreases ts.len(),
{
    ts.to_multiset_ensures();
    ts2.to_multiset_ensures();
    if ts.len() == 0 {
        assert(ts2.len() == 0);
    } else {
        assert(ts.to_multiset().count(ts[0]) > 0);
        assert(ts2.contains(ts[0]));
        let j = choose|j: int| 0 <= j < ts2.len() && ts2[j] == ts[0];
        assert(ts.drop_first() =~= ts.remove(0));
        assert(ts.remove(0).to_multiset() =~= ts.to_multiset().remove(ts[0]));
        assert(ts2.remove(j).to_multiset() =~= ts2.to_multiset().remove(ts2[j]));
        lemma_total_size_permutation(ts.drop_first(), ts2.remove(j));
        lemma_total_size_remove(ts2, j);
    }
}

/// Storing a batch and then deleting the same statements, in whatever
/// order, returns the statistics to their pre-insertion values: the
/// deletion starts from the statistics the insertion produced (`finish`
/// persists and rebases them without changing the counts) and ends where
/// the insertion began.
pub proof fn lemma_store_then_delete_restores_stats(
    e0: EngineV,
    ts: Seq<RawTripleV>,
    eb: EngineV,
    ts2: Seq<RawTripleV>,
)
    requires
        store_run(e0, ts) is Ok,
        eb.store.stat == store_run(e0, ts)->Ok_0.store.stat,
        ts2.to_multiset() == ts.to_multiset(),
        delete_run(eb, ts2) is Ok,
    ensures
        delete_run(eb, ts2)->Ok_0.store.stat.triple_count == e0.store.stat.triple_count,
        delete_run(eb, ts2)->Ok_0.store.stat.byte_size == e0.store.stat.byte_size,
{
    lemma_total_size_permutation(ts2, ts);
    lemma_store_run_stats(e0, ts);
    lemma_delete_run_stats(eb, ts2);
}

/// Filling the store to its triple quota: an insertion is rejected with
/// the triple-count error exactly when the count already stands at the
/// bound or beyond, and is accepted while the count is below the bound
/// and no other bound objects.
pub proof fn lemma_quota_triple_count(
    stat: StoreStat,
    limits: StoreLimits,
    init_count: u128,
    init_size: u128,
    tsize: nat,
)
    ensures
        stat.triple_count >= limits.max_triple_count ==> quota_outcome(
            stat,
            limits,
            init_count,
            init_size,
            tsize,
        ) == Some(StoreError::TripleCount(limits.max_triple_count)),
        (stat.triple_count < limits.max_triple_count && stat.triple_count + 1 - init_count
            <= limits.max_insert_data_triple_count && tsize <= limits.max_triple_byte_size
            && stat.byte_size + tsize <= limits.max_byte_size && stat.byte_size + tsize
            - init_size <= limits.max_insert_data_byte_size) ==> quota_outcome(
            stat,
            limits,
            init_count,
            init_size,
            tsize,
        ) is None,
{
}

/// The cached namespaces whose reference counters reached zero, which the
/// commit pass drops.
pub open spec fn zero_counter_keys(cache: Map<Seq<char>, NamespaceV>) -> Set<Seq<char>> {
    cache.dom().filter(|k: Seq<char>| cache[k].counter == 0)
}

/// The set of the first `i` enumerated keys.
spec fn prefix_set(ks: Seq<Seq<char>>, i: int) -> Set<Seq<char>>
    decreases i,
{
    if i <= 0 {
        Set::empty()
    } else {
        prefix_set(ks, i - 1).insert(ks[i - 1])
    }
}

/// Membership in the prefix set is occurrence among the first `i` keys.
proof fn lemma_prefix_set_contains(ks: Seq<Seq<char>>, i: int, x: Seq<char>)
    requires
        0 <= i <= ks.len(),
    ensures
        prefix_set(ks, i).contains(x) <==> exists|j: int| 0 <= j < i && ks[j] == x,
    decreases i,
{
    if i > 0 {
        lemma_prefix_set_contains(ks, i - 1, x);
        if ks[i - 1] == x {
            assert(0 <= i - 1 < i && ks[i - 1] == x);
        }
    }
}

/// How many of the first `i` enumerated keys hold a zero counter.
spec fn zeros_prefix(cache: Map<Seq<char>, NamespaceV>, ks: Seq<Seq<char>>, i: int) -> nat
    decreases i,
{
    if i <= 0 {
        0
    } else {
        zeros_prefix(cache, ks, i - 1) + (if cache[ks[i - 1]].counter == 0 {
            1nat
        } else {
            0nat
        })
    }
}

/// Counting zero counters along distinct keys counts the zero-counter set
/// restricted to those keys.
proof fn lemma_zeros_prefix_card(cache: Map<Seq<char>, NamespaceV>, ks: Seq<Seq<char>>, i: int)
    requires
        0 <= i <= ks.len(),
        forall|x: int, y: int| 0 <= x < y < ks.len() ==> ks[x] != ks[y],
        forall|j: int| 0 <= j < ks.len() ==> cache.contains_key(#[trigger] ks[j]),
    ensures
        zero_counter_keys(cache).intersect(prefix_set(ks, i)).finite(),
        zeros_prefix(cache, ks, i) == zero_counter_keys(cache).intersect(
            prefix_set(ks, i),
        ).len(),
    decreases i,
{
    broadcast use vstd::set::axiom_set_insert_len;

    if i == 0 {
        assert(zero_counter_keys(cache).intersect(prefix_set(ks, 0)) =~= Set::empty());
    } else {
        lemma_zeros_prefix_card(cache, ks, i - 1);
        let k = ks[i - 1];
        let s1 = zero_counter_keys(cache).intersect(prefix_set(ks, i - 1));
        let s2 = zero_counter_keys(cache).intersect(prefix_set(ks, i));
        lemma_prefix_set_contains(ks, i - 1, k);
        assert(!s1.contains(k));
        if cache[k].counter == 0 {
            assert(s2 =~= s1.insert(k));
        } else {
            assert(s2 =~= s1);
        }
    }
}

/// Along keys that enumerate the whole cache, the zero count is the
/// zero-counter set's size.
proof fn lemma_zeros_total(cache: Map<Seq<char>, NamespaceV>, ks: Seq<Seq<char>>)
    requires
        forall|x: int, y: int| 0 <= x < y < ks.len() ==> ks[x] != ks[y],
        forall|j: int| 0 <= j < ks.len() ==> cache.contains_key(#[trigger] ks[j]),
        forall|k: Seq<char>| #[trigger]
            cache.contains_key(k) ==> exists|j: int| 0 <= j < ks.len() && ks[j] == k,
    ensures
        zero_counter_keys(cache).finite(),
        zeros_prefix(cache, ks, ks.len() as int) == zero_counter_keys(cache).len(),
{
    lemma_zeros_prefix_card(cache, ks, ks.len() as int);
    assert(zero_counter_keys(cache).intersect(prefix_set(ks, ks.len() as int))
        =~= zero_counter_keys(cache)) by {
        assert forall|x: Seq<char>| #[trigger]
            zero_counter_keys(cache).contains(x) implies prefix_set(
            ks,
            ks.len() as int,
        ).contains(x) by {
            lemma_prefix_set_contains(ks, ks.len() as int, x);
        }
    }
}

/// One namespace operation of a batch: a reference made by an insertion
/// or a release made by a deletion.
pub ghost enum NsOp {
    Ref(Seq<char>),
    Free(Seq<char>),
}

/// One namespace operation applied to the namespace state.
pub open spec fn ns_apply(st: NsState, op: NsOp) -> NsState {
    match op {
        NsOp::Ref(k) => ref_step(st, k),
        NsOp::Free(k) => free_step(st, k),
    }
}

/// A whole batch of namespace operations applied in order.
pub open spec fn ns_run(st: NsState, ops: Seq<NsOp>) -> NsState
    decreases ops.len(),
{
    if ops.len() == 0 {
        st
    } else {
        ns_run(ns_apply(st, ops[0]), ops.drop_first())
    }
}

/// The reference counter a namespace currently shows: its cached record's
/// counter, else its stored record's, else zero.
pub open spec fn counter_of(st: NsState, k: Seq<char>) -> u128 {
    if st.cache.contains_key(k) {
        st.cache[k].counter
    } else if st.stored.contains_key(k) {
        st.stored[k].counter
    } else {
        0
    }
}

/// The net number of references a batch makes to namespace `k`.
pub open spec fn net_refs(ops: Seq<NsOp>, k: Seq<char>) -> int
    decreases ops.len(),
{
    if ops.len() == 0 {
        0
    } else {
        (match ops[0] {
            NsOp::Ref(k0) => if k0 == k {
                1int
            } else {
                0int
            },
            NsOp::Free(k0) => if k0 == k {
                -1int
            } else {
                0int
            },
        }) + net_refs(ops.drop_first(), k)
    }
}

/// No counter overflows, no release misses its namespace, and no counter
/// drops below zero along the batch.
pub open spec fn run_in_range(st: NsState, ops: Seq<NsOp>) -> bool
    decreases ops.len(),
{
    if ops.len() == 0 {
        true
    } else {
        match ops[0] {
            NsOp::Ref(k) => counter_of(st, k) < u128::MAX && run_in_range(
                ref_step(st, k),
                ops.drop_first(),
            ),
            NsOp::Free(k) => free_ok(st, k) && counter_of(st, k) > 0 && run_in_range(
                free_step(st, k),
                ops.drop_first(),
            ),
        }
    }
}

/// Whether some operation of the batch names namespace `k`.
pub open spec fn touches(ops: Seq<NsOp>, k: Seq<char>) -> bool {
    exists|i: int|
        0 <= i < ops.len() && (match #[trigger] ops[i] {
            NsOp::Ref(k0) => k0 == k,
            NsOp::Free(k0) => k0 == k,
        })
}

/// Namespace reference counting is conserved: along a batch whose
/// counters stay in range, a namespace's counter moves by exactly the net
/// number of references to it, a namespace once cached stays cached, and
/// a namespace some operation names ends the batch cached.  With
/// `finish`, which drops every cached namespace whose counter is zero, a
/// namespace whose references net to zero against a zero starting counter
/// is absent from the persisted table after the commit.
pub proof fn lemma_counter_tracks_net(st: NsState, ops: Seq<NsOp>, k: Seq<char>)
    requires
        run_in_range(st, ops),
    ensures
        counter_of(ns_run(st, ops), k) == counter_of(st, k) + net_refs(ops, k),
        st.cache.contains_key(k) ==> ns_run(st, ops).cache.contains_key(k),
        touches(ops, k) ==> ns_run(st, ops).cache.contains_key(k),
    decreases ops.len(),
{
    if ops.len() > 0 {
        let st1 = ns_apply(st, ops[0]);
        assert(counter_of(st1, k) == counter_of(st, k) + (match ops[0] {
            NsOp::Ref(k0) => if k0 == k {
                1int
            } else {
                0int
            },
            NsOp::Free(k0) => if k0 == k {
                -1int
            } else {
                0int
            },
        }));
        lemma_counter_tracks_net(st1, ops.drop_first(), k);
        if touches(ops, k) && !touches(ops.drop_first(), k) {
            let i = choose|i: int|
                0 <= i < ops.len() && (match #[trigger] ops[i] {
                    NsOp::Ref(k0) => k0 == k,
                    NsOp::Free(k0) => k0 == k,
                });
            if i > 0 {
                assert(ops.drop_first()[i - 1] == ops[i]);
            }
        }
    }
}

/// A namespace unknown at the start of a batch whose references within it
/// net to zero ends the batch cached with a zero counter, which `finish`
/// then drops from the persisted table.
pub proof fn lemma_net_zero_counter(st: NsState, ops: Seq<NsOp>, k: Seq<char>)
    requires
        run_in_range(st, ops),
        !st.cache.contains_key(k),
        !st.stored.contains_key(k),
        touches(ops, k),
        net_refs(ops, k) == 0,
    ensures
        ns_run(st, ops).cache.contains_key(k),
        ns_run(st, ops).cache[k].counter == 0,
{
    lemma_counter_tracks_net(st, ops, k);
}

/// A namespace release leaves every already-cached record's text and key
/// as they were.
proof fn lemma_free_step_preserves(st: NsState, k: Seq<char>, k0: Seq<char>)
    requires
        st.cache.contains_key(k0),
    ensures
        free_step(st, k).cache.contains_key(k0),
        free_step(st, k).cache[k0].key == st.cache[k0].key,
        free_step(st, k).cache[k0].value == st.cache[k0].value,
{
}

/// After releasing `k`, the cache holds it under the key the release
/// yielded.
proof fn lemma_free_step_self(st: NsState, k: Seq<char>)
    requires
        free_ok(st, k),
    ensures
        free_step(st, k).cache.contains_key(k),
        free_step(st, k).cache[k].key == free_key(st, k),
{
}

/// A namespace reference leaves every already-cached record's text and key
/// as they were.
proof fn lemma_ref_step_preserves(st: NsState, k: Seq<char>, k0: Seq<char>)
    requires
        st.cache.contains_key(k0),
    ensures
        ref_step(st, k).cache.contains_key(k0),
        ref_step(st, k).cache[k0].key == st.cache[k0].key,
        ref_step(st, k).cache[k0].value == st.cache[k0].value,
{
}

/// After referencing `k`, the cache holds it under the key the reference
/// yielded.
proof fn lemma_ref_step_self(st: NsState, k: Seq<char>)
    ensures
        ref_step(st, k).cache.contains_key(k),
        ref_step(st, k).cache[k].key == ref_key(st, k),
{
}

/// The storage engine: owns the backend for the whole batch, buffers
/// namespace-usage deltas in its cache, and enforces the quotas.
pub struct StoreEngine {
    storage: Backend,
    store: Store,
    ns_key_inc_offset: u128,
    ns_cache: NsCache,
    initial_triple_count: u128,
    initial_byte_size: u128,
}

impl View for StoreEngine {
    type V = EngineV;

    closed spec fn view(&self) -> EngineV {
        EngineV {
            store: self.store,
            offset: self.ns_key_inc_offset,
            cache: self.ns_cache@,
            initial_triple_count: self.initial_triple_count,
            initial_byte_size: self.initial_byte_size,
            b_store: self.storage.store,
            b_offset: self.storage.ns_key_inc,
            b_ns: ns_v(self.storage.namespaces@),
            b_triples: self.storage.triples@,
        }
    }
}

impl StoreEngine {
    /// The engine's tables are well-formed and every cached record carries
    /// its own key as its text.
    pub closed spec fn wf(self) -> bool {
        &&& self.ns_cache.wf()
        &&& self.storage.wf()
    }

    /// Opens a batch over the given backend: loads the store record and
    /// the allocator offset, and starts with an empty cache and the
    /// current statistics as the batch's baseline.
    pub fn new(storage: Backend) -> (r: Self)
        requires
            storage.wf(),
        ensures
            r.wf(),
            r@.store == storage.store,
            r@.offset == storage.ns_key_inc,
            r@.cache =~= Map::<Seq<char>, NamespaceV>::empty(),
            r@.initial_triple_count == storage.store.stat.triple_count,
            r@.initial_byte_size == storage.store.stat.byte_size,
            r@.b_store == storage.store,
            r@.b_offset == storage.ns_key_inc,
            r@.b_ns == ns_v(storage.namespaces@),
            r@.b_triples == storage.triples@,
    {
        let store = storage.store;
        let ns_key_inc_offset = storage.ns_key_inc;
        StoreEngine {
            storage,
            store,
            ns_key_inc_offset,
            ns_cache: NsCache::new(),
            initial_triple_count: store.stat.triple_count,
            initial_byte_size: store.stat.byte_size,
        }
    }

    /// A borrow of the backend, for reading what a batch has persisted.
    pub fn storage(&self) -> (r: &Backend)
        ensures
            r.store == self@.b_store,
            r.ns_key_inc == self@.b_offset,
            ns_v(r.namespaces@) == self@.b_ns,
            r.triples@ == self@.b_triples,
    {
        &self.storage
    }

    /// Allocates a record for a namespace never seen before: it gets the
    /// next key, no references yet, and is counted in the statistics.
    fn allocate_namespace(&mut self, value: String) -> (ns: Namespace)
        requires
            old(self).wf(),
        ensures
            final(self).wf(),
            ns@ == (NamespaceV { value: value@, key: old(self)@.offset, counter: 0 }),
            final(self)@ == (EngineV {
                store: Store {
                    limits: old(self)@.store.limits,
                    stat: StoreStat {
                        namespace_count: sat_inc(old(self)@.store.stat.namespace_count),
                        ..old(self)@.store.stat
                    },
                },
                offset: sat_inc(old(self)@.offset),
                ..old(self)@
            }),
    {
        let count = self.store.stat.namespace_count;
        self.store.stat.namespace_count = if count < u128::MAX {
            count + 1
        } else {
            count
        };
        let key = self.ns_key_inc_offset;
        let ns = Namespace { value, key, counter: 0 };
        self.ns_key_inc_offset = if key < u128::MAX {
            key + 1
        } else {
            key
        };
        proof {
            assert(final(self)@ =~= (EngineV {
                store: Store {
                    limits: old(self)@.store.limits,
                    stat: StoreStat {
                        namespace_count: sat_inc(old(self)@.store.stat.namespace_count),
                        ..old(self)@.store.stat
                    },
                },
                offset: sat_inc(old(self)@.offset),
                ..old(self)@
            }));
        }
        ns
    }

    /// Looks a namespace up in the cache, then in the backend, allocating
    /// it if absent everywhere, and raises its reference counter in the
    /// cache.
    fn resolve_and_reference_ns(&mut self, ns_str: String) -> (r: u128)
        requires
            old(self).wf(),
        ensures
            final(self).wf(),
            r == ref_key(ns_state(old(self)@), ns_str@),
            ns_state(final(self)@) == ref_step(ns_state(old(self)@), ns_str@),
            final(self)@.store.limits == old(self)@.store.limits,
            final(self)@.store.stat.triple_count == old(self)@.store.stat.triple_count,
            final(self)@.store.stat.byte_size == old(self)@.store.stat.byte_size,
            final(self)@.initial_triple_count == old(self)@.initial_triple_count,
            final(self)@.initial_byte_size == old(self)@.initial_byte_size,
            final(self)@.b_store == old(self)@.b_store,
            final(self)@.b_offset == old(self)@.b_offset,
            final(self)@.b_ns == old(self)@.b_ns,
            final(self)@.b_triples == old(self)@.b_triples,
    {
        let cached = match self.ns_cache.get(&ns_str) {
            Some(n) => Some(n.duplicate()),
            None => None,
        };
        match cached {
            Some(ns0) => {
                let key = ns0.key;
                let counter = ns0.counter;
                let ns2 = Namespace {
                    value: ns0.value,
                    key,
                    counter: if counter < u128::MAX {
                        counter + 1
                    } else {
                        counter
                    },
                };
                proof {
                    assert(ns0@.value == ns_str@);
                }
                self.ns_cache.insert(ns2);
                proof {
                    assert(ns_state(final(self)@) =~= ref_step(
                        ns_state(old(self)@),
                        ns_str@,
                    ));
                }
                key
            },
            None => {
                let loaded = match self.storage.namespaces.get(ns_str.as_str()) {
                    Some(n) => Some(n.duplicate()),
                    None => None,
                };
                let ns0 = match loaded {
                    Some(n) => {
                        proof {
                            assert(ns_v(self.storage.namespaces@).contains_key(ns_str@));
                            assert(n@ == ns_v(self.storage.namespaces@)[ns_str@]);
                        }
                        n
                    },
                    None => {
                        proof {
                            assert(!ns_v(self.storage.namespaces@).contains_key(ns_str@));
                        }
                        self.allocate_namespace(ns_str.clone())
                    },
                };
                let key = ns0.key;
                let counter = ns0.counter;
                let ns2 = Namespace {
                    value: ns0.value,
                    key,
                    counter: if counter < u128::MAX {
                        counter + 1
                    } else {
                        counter
                    },
                };
                self.ns_cache.insert(ns2);
                proof {
                    assert(ns_state(final(self)@) =~= ref_step(
                        ns_state(old(self)@),
                        ns_str@,
                    ));
                }
                key
            },
        }
    }

    /// Splits a named term's IRI and references its namespace.
    fn intern_node(&mut self, iri: &String) -> (r: Result<Node, StoreError>)
        requires
            old(self).wf(),
        ensures
            final(self).wf(),
            final(self)@.store.limits == old(self)@.store.limits,
            final(self)@.store.stat.triple_count == old(self)@.store.stat.triple_count,
            final(self)@.store.stat.byte_size == old(self)@.store.stat.byte_size,
            final(self)@.initial_triple_count == old(self)@.initial_triple_count,
            final(self)@.initial_byte_size == old(self)@.initial_byte_size,
            final(self)@.b_store == old(self)@.b_store,
            final(self)@.b_offset == old(self)@.b_offset,
            final(self)@.b_ns == old(self)@.b_ns,
            final(self)@.b_triples == old(self)@.b_triples,
            match r {
                Ok(node) => {
                    &&& has_ns_delim(iri@)
                    &&& ns_state(final(self)@) == ref_step(ns_state(old(self)@), ns_of(iri@))
                    &&& node@ == (NodeV {
                        namespace: ref_key(ns_state(old(self)@), ns_of(iri@)),
                        value: local_of(iri@),
                    })
                },
                Err(e) => {
                    &&& !has_ns_delim(iri@)
                    &&& e == StoreError::IriNamespace
                    &&& *final(self) == *old(self)
                },
            },
    {
        match explode_iri(iri.as_str()) {
            Ok((ns, local)) => {
                let key = self.resolve_and_reference_ns(ns);
                Ok(Node { namespace: key, value: local })
            },
            Err(e) => Err(e),
        }
    }

    /// The byte size of a parsed statement, per `raw_triple_size`.
    fn triple_size(t: &RawTriple) -> (r: u128)
        ensures
            r == raw_triple_size(t@),
    {
        let s: u128 = match &t.subject {
            crate::rdf::RawSubject::Named(iri) => iri.as_str().len() as u128,
            crate::rdf::RawSubject::Blank(id) => id.as_str().len() as u128,
            crate::rdf::RawSubject::Nested => 0,
        };
        let p: u128 = t.predicate.as_str().len() as u128;
        let o: u128 = match &t.object {
            RawObject::Named(iri) => iri.as_str().len() as u128,
            RawObject::Blank(id) => id.as_str().len() as u128,
            RawObject::LiteralSimple(v) => v.as_str().len() as u128,
            RawObject::LiteralLang(v, l) => v.as_str().len() as u128 + l.as_str().len()
                as u128,
            RawObject::LiteralTyped(v, d) => v.as_str().len() as u128 + d.as_str().len()
                as u128,
            RawObject::Nested => 0,
        };
        s + p + o
    }

    /// Interns a parsed statement: rejects quoted triples, splits every
    /// named term's IRI, and references each namespace in subject,
    /// predicate, object order.
    fn raw_to_triple(&mut self, t: &RawTriple) -> (r: Result<crate::state::StoredTriple, StoreError>)
        requires
            old(self).wf(),
        ensures
            final(self).wf(),
            final(self)@.store.limits == old(self)@.store.limits,
            final(self)@.store.stat.triple_count == old(self)@.store.stat.triple_count,
            final(self)@.store.stat.byte_size == old(self)@.store.stat.byte_size,
            final(self)@.initial_triple_count == old(self)@.initial_triple_count,
            final(self)@.initial_byte_size == old(self)@.initial_byte_size,
            final(self)@.b_store == old(self)@.b_store,
            final(self)@.b_offset == old(self)@.b_offset,
            final(self)@.b_ns == old(self)@.b_ns,
            final(self)@.b_triples == old(self)@.b_triples,
            match r {
                Ok(tr) => {
                    &&& convert_err(t@) is None
                    &&& ns_state(final(self)@) == triple_ref_state(ns_state(old(self)@), t@)
                    &&& tr@ == interned_triple(ns_state(final(self)@).cache, t@)
                },
                Err(e) => convert_err(t@) == Some(e),
            },
    {
        let ghost st0 = ns_state(old(self)@);
        let subject: crate::state::StoredSubject = match &t.subject {
            crate::rdf::RawSubject::Named(iri) => match self.intern_node(iri) {
                Ok(n) => crate::state::StoredSubject::Named(n),
                Err(e) => {
                    return Err(e);
                },
            },
            crate::rdf::RawSubject::Blank(id) => crate::state::StoredSubject::Blank(id.clone()),
            crate::rdf::RawSubject::Nested => {
                return Err(StoreError::NestedTriple);
            },
        };
        let ghost st1 = ns_state(self@);
        proof {
            assert(st1 == ref_maybe(st0, subject_ns(t@.subject)));
        }
        let predicate: Node = match self.intern_node(&t.predicate) {
            Ok(n) => n,
            Err(e) => {
                return Err(e);
            },
        };
        let ghost st2 = ns_state(self@);
        proof {
            assert(st2 == ref_step(st1, ns_of(t@.predicate)));
        }
        let object: crate::state::Object = match &t.object {
            RawObject::Named(iri) => match self.intern_node(iri) {
                Ok(n) => crate::state::Object::Named(n),
                Err(e) => {
                    return Err(e);
                },
            },
            RawObject::Blank(id) => crate::state::Object::Blank(id.clone()),
            RawObject::LiteralSimple(v) => crate::state::Object::Literal(
                crate::state::StoredLiteral::Simple { value: v.clone() },
            ),
            RawObject::LiteralLang(v, l) => crate::state::Object::Literal(
                crate::state::StoredLiteral::I18NString { value: v.clone(), language: l.clone() },
            ),
            RawObject::LiteralTyped(v, d) => match self.intern_node(d) {
                Ok(n) => crate::state::Object::Literal(
                    crate::state::StoredLiteral::Typed { value: v.clone(), datatype: n },
                ),
                Err(e) => {
                    return Err(e);
                },
            },
            RawObject::Nested => {
                return Err(StoreError::NestedTriple);
            },
        };
        let ghost st3 = ns_state(self@);
        proof {
            assert(st3 == ref_maybe(st2, object_ns(t@.object)));
            assert(st3 == triple_ref_state(st0, t@));
            // the subject's and predicate's cached keys survive the later
            // references
            match subject_ns(t@.subject) {
                Some(ks) => {
                    lemma_ref_step_self(st0, ks);
                    lemma_ref_step_preserves(st1, ns_of(t@.predicate), ks);
                    match object_ns(t@.object) {
                        Some(ko) => {
                            lemma_ref_step_preserves(st2, ko, ks);
                        },
                        None => {},
                    }
                },
                None => {},
            }
            lemma_ref_step_self(st1, ns_of(t@.predicate));
            match object_ns(t@.object) {
                Some(ko) => {
                    lemma_ref_step_preserves(st2, ko, ns_of(t@.predicate));
                    lemma_ref_step_self(st2, ko);
                },
                None => {},
            }
        }
        let tr = crate::state::StoredTriple { subject, predicate, object };
        proof {
            assert(tr@ =~= interned_triple(st3.cache, t@));
        }
        Ok(tr)
    }

    /// Validates one parsed statement against the quotas, interns its
    /// namespaces, and persists it under its content-addressed key.
    ///
    /// A quota violation rejects the statement with the bound-specific
    /// error and leaves the engine untouched; an interning failure leaves
    /// the statistics and the backend untouched.
    pub fn store_triple(&mut self, t: &RawTriple) -> (r: Result<(), StoreError>)
        requires
            old(self).wf(),
        ensures
            final(self).wf(),
            match store_step_v(old(self)@, t@) {
                Ok(ev) => r is Ok && final(self)@ == ev,
                Err(e) => {
                    &&& r == Err::<(), StoreError>(e)
                    &&& final(self)@.store.stat.triple_count
                        == old(self)@.store.stat.triple_count
                    &&& final(self)@.store.stat.byte_size == old(self)@.store.stat.byte_size
                    &&& final(self)@.store.limits == old(self)@.store.limits
                    &&& final(self)@.initial_triple_count == old(self)@.initial_triple_count
                    &&& final(self)@.initial_byte_size == old(self)@.initial_byte_size
                    &&& final(self)@.b_store == old(self)@.b_store
                    &&& final(self)@.b_offset == old(self)@.b_offset
                    &&& final(self)@.b_ns == old(self)@.b_ns
                    &&& final(self)@.b_triples == old(self)@.b_triples
                    &&& (quota_outcome(
                        old(self)@.store.stat,
                        old(self)@.store.limits,
                        old(self)@.initial_triple_count,
                        old(self)@.initial_byte_size,
                        raw_triple_size(t@),
                    ) is Some ==> *final(self) == *old(self))
                },
            },
    {
        let count = self.store.stat.triple_count;
        let max_count = self.store.limits.max_triple_count;
        if count >= max_count {
            return Err(StoreError::TripleCount(max_count));
        }
        let new_count = count + 1;
        let delta_count: u128 = if new_count > self.initial_triple_count {
            new_count - self.initial_triple_count
        } else {
            0
        };
        if delta_count > self.store.limits.max_insert_data_triple_count {
            return Err(
                StoreError::InsertDataTripleCount(
                    self.store.limits.max_insert_data_triple_count,
                ),
            );
        }
        let tsize = Self::triple_size(t);
        if tsize > self.store.limits.max_triple_byte_size {
            return Err(
                StoreError::TripleByteSize(tsize, self.store.limits.max_triple_byte_size),
            );
        }
        let size = self.store.stat.byte_size;
        let max_size = self.store.limits.max_byte_size;
        if size > max_size || tsize > max_size - size {
            return Err(StoreError::ByteSize(max_size));
        }
        let new_size = size + tsize;
        let delta_size: u128 = if new_size > self.initial_byte_size {
            new_size - self.initial_byte_size
        } else {
            0
        };
        if delta_size > self.store.limits.max_insert_data_byte_size {
            return Err(
                StoreError::InsertDataByteSize(self.store.limits.max_insert_data_byte_size),
            );
        }
        proof {
            assert(quota_outcome(
                old(self)@.store.stat,
                old(self)@.store.limits,
                old(self)@.initial_triple_count,
                old(self)@.initial_byte_size,
                raw_triple_size(t@),
            ) is None);
        }
        let triple = match self.raw_to_triple(t) {
            Ok(tr) => tr,
            Err(e) => {
                return Err(e);
            },
        };
        let hash = crate::hashing::object_hash(&triple.object);
        let key = crate::state::TripleKey {
            object_hash: hash,
            predicate: triple.predicate.duplicate(),
            subject: triple.subject.duplicate(),
        };
        proof {
            let st1 = triple_ref_state(ns_state(old(self)@), t@);
            assert(key@ =~= key_of(st1.cache, t@));
        }
        self.storage.triples.save(key, triple);
        self.store.stat.triple_count = new_count;
        self.store.stat.byte_size = new_size;
        proof {
            let ev = store_step_v(old(self)@, t@)->Ok_0;
            assert(final(self)@ =~= ev);
        }
        Ok(())
    }

    /// Looks a namespace up in the cache, then in the backend, and lowers
    /// its reference counter in the cache; an unknown namespace is an
    /// error.
    fn resolve_and_free_ns(&mut self, ns_str: String) -> (r: Result<u128, StoreError>)
        requires
            old(self).wf(),
        ensures
            final(self).wf(),
            final(self)@.store == old(self)@.store,
            final(self)@.offset == old(self)@.offset,
            final(self)@.initial_triple_count == old(self)@.initial_triple_count,
            final(self)@.initial_byte_size == old(self)@.initial_byte_size,
            final(self)@.b_store == old(self)@.b_store,
            final(self)@.b_offset == old(self)@.b_offset,
            final(self)@.b_ns == old(self)@.b_ns,
            final(self)@.b_triples == old(self)@.b_triples,
            match r {
                Ok(key) => {
                    &&& free_ok(ns_state(old(self)@), ns_str@)
                    &&& key == free_key(ns_state(old(self)@), ns_str@)
                    &&& ns_state(final(self)@) == free_step(ns_state(old(self)@), ns_str@)
                },
                Err(e) => {
                    &&& !free_ok(ns_state(old(self)@), ns_str@)
                    &&& e matches StoreError::NamespaceNotFound(s) && s@ == ns_str@
                    &&& *final(self) == *old(self)
                },
            },
    {
        let cached = match self.ns_cache.get(&ns_str) {
            Some(n) => Some(n.duplicate()),
            None => None,
        };
        match cached {
            Some(ns0) => {
                let key = ns0.key;
                let counter = ns0.counter;
                let ns2 = Namespace {
                    value: ns0.value,
                    key,
                    counter: if counter > 0 {
                        counter - 1
                    } else {
                        0
                    },
                };
                self.ns_cache.insert(ns2);
                proof {
                    assert(ns_state(final(self)@) =~= free_step(
                        ns_state(old(self)@),
                        ns_str@,
                    ));
                }
                Ok(key)
            },
            None => {
                let loaded = match self.storage.namespaces.get(ns_str.as_str()) {
                    Some(n) => Some(n.duplicate()),
                    None => None,
                };
                match loaded {
                    Some(ns0) => {
                        proof {
                            assert(ns_v(self.storage.namespaces@).contains_key(ns_str@));
                            assert(ns0@ == ns_v(self.storage.namespaces@)[ns_str@]);
                        }
                        let key = ns0.key;
                        let counter = ns0.counter;
                        let ns2 = Namespace {
                            value: ns0.value,
                            key,
                            counter: if counter > 0 {
                                counter - 1
                            } else {
                                0
                            },
                        };
                        self.ns_cache.insert(ns2);
                        proof {
                            assert(ns_state(final(self)@) =~= free_step(
                                ns_state(old(self)@),
                                ns_str@,
                            ));
                        }
                        Ok(key)
                    },
                    None => {
                        proof {
                            assert(!ns_v(self.storage.namespaces@).contains_key(ns_str@));
                        }
                        Err(StoreError::NamespaceNotFound(ns_str))
                    },
                }
            },
        }
    }

    /// Splits a named term's IRI and releases its namespace.
    fn free_node(&mut self, iri: &String) -> (r: Result<Node, StoreError>)
        requires
            old(self).wf(),
        ensures
            final(self).wf(),
            final(self)@.store == old(self)@.store,
            final(self)@.offset == old(self)@.offset,
            final(self)@.initial_triple_count == old(self)@.initial_triple_count,
            final(self)@.initial_byte_size == old(self)@.initial_byte_size,
            final(self)@.b_store == old(self)@.b_store,
            final(self)@.b_offset == old(self)@.b_offset,
            final(self)@.b_ns == old(self)@.b_ns,
            final(self)@.b_triples == old(self)@.b_triples,
            match r {
                Ok(node) => free_node_outcome(ns_state(old(self)@), iri@) matches Ok(p)
                    && ns_state(final(self)@) == p.0 && node@ == (NodeV {
                    namespace: p.1,
                    value: local_of(iri@),
                }),
                Err(e) => free_node_outcome(ns_state(old(self)@), iri@) matches Err(de)
                    && err_matches(e, de) && *final(self) == *old(self),
            },
    {
        match explode_iri(iri.as_str()) {
            Ok((ns, local)) => match self.resolve_and_free_ns(ns) {
                Ok(key) => Ok(Node { namespace: key, value: local }),
                Err(e) => Err(e),
            },
            Err(e) => Err(e),
        }
    }

    /// Interns a statement for deletion: rejects quoted triples, splits
    /// every named term's IRI, and releases each namespace in subject,
    /// predicate, object order.
    fn raw_to_triple_free(&mut self, t: &RawTriple) -> (r: Result<
        crate::state::StoredTriple,
        StoreError,
    >)
        requires
            old(self).wf(),
        ensures
            final(self).wf(),
            final(self)@.store == old(self)@.store,
            final(self)@.offset == old(self)@.offset,
            final(self)@.initial_triple_count == old(self)@.initial_triple_count,
            final(self)@.initial_byte_size == old(self)@.initial_byte_size,
            final(self)@.b_store == old(self)@.b_store,
            final(self)@.b_offset == old(self)@.b_offset,
            final(self)@.b_ns == old(self)@.b_ns,
            final(self)@.b_triples == old(self)@.b_triples,
            match r {
                Ok(tr) => {
                    &&& delete_convert_outcome(ns_state(old(self)@), t@) matches Ok(st)
                        && ns_state(final(self)@) == st
                    &&& tr@ == interned_triple(ns_state(final(self)@).cache, t@)
                },
                Err(e) => delete_convert_outcome(ns_state(old(self)@), t@) matches Err(de)
                    && err_matches(e, de),
            },
    {
        let ghost st0 = ns_state(old(self)@);
        let subject: crate::state::StoredSubject = match &t.subject {
            crate::rdf::RawSubject::Named(iri) => match self.free_node(iri) {
                Ok(n) => crate::state::StoredSubject::Named(n),
                Err(e) => {
                    return Err(e);
                },
            },
            crate::rdf::RawSubject::Blank(id) => crate::state::StoredSubject::Blank(id.clone()),
            crate::rdf::RawSubject::Nested => {
                return Err(StoreError::NestedTriple);
            },
        };
        let ghost st1 = ns_state(self@);
        let predicate: Node = match self.free_node(&t.predicate) {
            Ok(n) => n,
            Err(e) => {
                return Err(e);
            },
        };
        let ghost st2 = ns_state(self@);
        let object: crate::state::Object = match &t.object {
            RawObject::Named(iri) => match self.free_node(iri) {
                Ok(n) => crate::state::Object::Named(n),
                Err(e) => {
                    return Err(e);
                },
            },
            RawObject::Blank(id) => crate::state::Object::Blank(id.clone()),
            RawObject::LiteralSimple(v) => crate::state::Object::Literal(
                crate::state::StoredLiteral::Simple { value: v.clone() },
            ),
            RawObject::LiteralLang(v, l) => crate::state::Object::Literal(
                crate::state::StoredLiteral::I18NString { value: v.clone(), language: l.clone() },
            ),
            RawObject::LiteralTyped(v, d) => match self.free_node(d) {
                Ok(n) => crate::state::Object::Literal(
                    crate::state::StoredLiteral::Typed { value: v.clone(), datatype: n },
                ),
                Err(e) => {
                    return Err(e);
                },
            },
            RawObject::Nested => {
                return Err(StoreError::NestedTriple);
            },
        };
        let ghost st3 = ns_state(self@);
        proof {
            match subject_ns(t@.subject) {
                Some(ks) => {
                    lemma_free_step_self(st0, ks);
                    lemma_free_step_preserves(st1, ns_of(t@.predicate), ks);
                    match object_ns(t@.object) {
                        Some(ko) => {
                            lemma_free_step_preserves(st2, ko, ks);
                        },
                        None => {},
                    }
                },
                None => {},
            }
            lemma_free_step_self(st1, ns_of(t@.predicate));
            match object_ns(t@.object) {
                Some(ko) => {
                    lemma_free_step_preserves(st2, ko, ns_of(t@.predicate));
                    lemma_free_step_self(st2, ko);
                },
                None => {},
            }
        }
        let tr = crate::state::StoredTriple { subject, predicate, object };
        proof {
            assert(tr@ =~= interned_triple(st3.cache, t@));
        }
        Ok(tr)
    }

    /// Deletes one already-resolved statement: releases its namespaces,
    /// lowers the statistics, and removes its content-addressed record;
    /// removing an absent record changes nothing there.
    pub fn delete_triple(&mut self, atom: &crate::rdf::Atom) -> (r: Result<(), StoreError>)
        requires
            old(self).wf(),
        ensures
            final(self).wf(),
            match delete_step_v(old(self)@, crate::rdf::atom_raw(*atom)) {
                Ok(ev) => r is Ok && final(self)@ == ev,
                Err(de) => {
                    &&& r matches Err(e) && err_matches(e, de)
                    &&& final(self)@.store == old(self)@.store
                    &&& final(self)@.offset == old(self)@.offset
                    &&& final(self)@.initial_triple_count == old(self)@.initial_triple_count
                    &&& final(self)@.initial_byte_size == old(self)@.initial_byte_size
                    &&& final(self)@.b_store == old(self)@.b_store
                    &&& final(self)@.b_offset == old(self)@.b_offset
                    &&& final(self)@.b_ns == old(self)@.b_ns
                    &&& final(self)@.b_triples == old(self)@.b_triples
                },
            },
    {
        let raw = atom.to_raw();
        let triple = match self.raw_to_triple_free(&raw) {
            Ok(tr) => tr,
            Err(e) => {
                return Err(e);
            },
        };
        let tsize = Self::triple_size(&raw);
        let count = self.store.stat.triple_count;
        self.store.stat.triple_count = if count > 0 {
            count - 1
        } else {
            0
        };
        let size = self.store.stat.byte_size;
        self.store.stat.byte_size = if size >= tsize {
            size - tsize
        } else {
            0
        };
        let hash = crate::hashing::object_hash(&triple.object);
        let key = crate::state::TripleKey {
            object_hash: hash,
            predicate: triple.predicate.duplicate(),
            subject: triple.subject.duplicate(),
        };
        proof {
            let st1 = delete_convert_outcome(ns_state(old(self)@), raw@)->Ok_0;
            assert(key@ =~= key_of(st1.cache, raw@));
        }
        self.storage.triples.remove(&key);
        proof {
            let ev = delete_step_v(old(self)@, crate::rdf::atom_raw(*atom))->Ok_0;
            assert(raw@ == crate::rdf::atom_raw(*atom));
            assert(final(self)@ =~= ev);
        }
        Ok(())
    }

    /// Flushes the batch: persists the allocator offset, then every cached
    /// namespace — kept when its counter is positive, removed and
    /// un-counted when it reached zero — then the statistics record;
    /// returns how many triples the batch added or removed (absolute
    /// value), rebases the batch baseline, and empties the cache.
    pub fn finish(&mut self) -> (r: Result<u128, StoreError>)
        requires
            old(self).wf(),
        ensures
            final(self).wf(),
            r matches Ok(d) && d == (if old(self)@.store.stat.triple_count
                >= old(self)@.initial_triple_count {
                old(self)@.store.stat.triple_count - old(self)@.initial_triple_count
            } else {
                old(self)@.initial_triple_count - old(self)@.store.stat.triple_count
            }),
            final(self)@.offset == old(self)@.offset,
            final(self)@.b_offset == old(self)@.offset,
            final(self)@.b_triples == old(self)@.b_triples,
            final(self)@.store.limits == old(self)@.store.limits,
            final(self)@.store.stat.triple_count == old(self)@.store.stat.triple_count,
            final(self)@.store.stat.byte_size == old(self)@.store.stat.byte_size,
            final(self)@.b_store == final(self)@.store,
            final(self)@.initial_triple_count == old(self)@.store.stat.triple_count,
            final(self)@.initial_byte_size == old(self)@.store.stat.byte_size,
            final(self)@.cache =~= Map::<Seq<char>, NamespaceV>::empty(),
            forall|k: Seq<char>|
                !old(self)@.cache.contains_key(k) ==> (final(self)@.b_ns.contains_key(k)
                    == old(self)@.b_ns.contains_key(k) && (old(self)@.b_ns.contains_key(k)
                    ==> final(self)@.b_ns[k] == old(self)@.b_ns[k])),
            forall|k: Seq<char>| #[trigger]
                old(self)@.cache.contains_key(k) ==> if old(self)@.cache[k].counter > 0 {
                    final(self)@.b_ns.contains_key(k) && final(self)@.b_ns[k]
                        == old(self)@.cache[k]
                } else {
                    !final(self)@.b_ns.contains_key(k)
                },
            final(self)@.store.stat.namespace_count == (if zero_counter_keys(
                old(self)@.cache,
            ).len() <= old(self)@.store.stat.namespace_count {
                (old(self)@.store.stat.namespace_count - zero_counter_keys(
                    old(self)@.cache,
                ).len()) as u128
            } else {
                0u128
            }),
    {
        self.storage.ns_key_inc = self.ns_key_inc_offset;
        let n = self.ns_cache.n_keys();
        let mut i: usize = 0;
        while i < n
            invariant
                old(self).wf(),
                self.wf(),
                i <= n,
                n == self.ns_cache.key_seq().len(),
                self.ns_cache == old(self).ns_cache,
                self.store.limits == old(self)@.store.limits,
                self.store.stat.triple_count == old(self)@.store.stat.triple_count,
                self.store.stat.byte_size == old(self)@.store.stat.byte_size,
                self.initial_triple_count == old(self)@.initial_triple_count,
                self.initial_byte_size == old(self)@.initial_byte_size,
                self.ns_key_inc_offset == old(self)@.offset,
                self.storage.ns_key_inc == old(self)@.offset,
                self.storage.triples@ == old(self)@.b_triples,
                self.storage.store == old(self)@.b_store,
                forall|j: int|
                    0 <= j < i ==> {
                        let k = #[trigger] self.ns_cache.key_seq()[j];
                        if old(self)@.cache[k].counter > 0 {
                            ns_v(self.storage.namespaces@).contains_key(k) && ns_v(
                                self.storage.namespaces@,
                            )[k] == old(self)@.cache[k]
                        } else {
                            !ns_v(self.storage.namespaces@).contains_key(k)
                        }
                    },
                forall|k: Seq<char>|
                    !old(self)@.cache.contains_key(k) ==> (#[trigger] ns_v(
                        self.storage.namespaces@,
                    ).contains_key(k) == old(self)@.b_ns.contains_key(k) && (old(
                        self,
                    )@.b_ns.contains_key(k) ==> ns_v(self.storage.namespaces@)[k] == old(
                        self,
                    )@.b_ns[k])),
                forall|j: int|
                    i <= j < n ==> {
                        let k = #[trigger] self.ns_cache.key_seq()[j];
                        ns_v(self.storage.namespaces@).contains_key(k) == old(
                            self,
                        )@.b_ns.contains_key(k) && (old(self)@.b_ns.contains_key(k) ==> ns_v(
                            self.storage.namespaces@,
                        )[k] == old(self)@.b_ns[k])
                    },
                self.store.stat.namespace_count == (if zeros_prefix(
                    old(self)@.cache,
                    self.ns_cache.key_seq(),
                    i as int,
                ) <= old(self)@.store.stat.namespace_count {
                    (old(self)@.store.stat.namespace_count - zeros_prefix(
                        old(self)@.cache,
                        self.ns_cache.key_seq(),
                        i as int,
                    )) as u128
                } else {
                    0u128
                }),
            decreases n - i,
        {
            let k = self.ns_cache.key_at(i).clone();
            let ns = match self.ns_cache.get(&k) {
                Some(found) => found.duplicate(),
                // the cache enumerates only keys it holds
                None => {
                    proof {
                        assert(false);
                    }
                    Namespace { value: String::new(), key: 0, counter: 0 }
                },
            };
            let ghost pre_ns = ns_v(self.storage.namespaces@);
            if ns.counter > 0 {
                let ghost nsv = ns@;
                self.storage.namespaces.insert(k, ns);
                proof {
                    assert(ns_v(self.storage.namespaces@) =~= pre_ns.insert(
                        self.ns_cache.key_seq()[i as int],
                        nsv,
                    ));
                }
            } else {
                let c = self.store.stat.namespace_count;
                self.store.stat.namespace_count = if c > 0 {
                    c - 1
                } else {
                    0
                };
                self.storage.namespaces.remove(k.as_str());
                proof {
                    assert(ns_v(self.storage.namespaces@) =~= pre_ns.remove(
                        self.ns_cache.key_seq()[i as int],
                    ));
                }
            }
            proof {
                assert(old(self)@.cache.contains_key(self.ns_cache.key_seq()[i as int]));
            }
            i = i + 1;
        }
        self.storage.store = self.store;
        let count = self.store.stat.triple_count;
        let diff = if count >= self.initial_triple_count {
            count - self.initial_triple_count
        } else {
            self.initial_triple_count - count
        };
        self.initial_triple_count = count;
        self.initial_byte_size = self.store.stat.byte_size;
        self.ns_cache.clear();
        proof {
            lemma_zeros_total(old(self)@.cache, old(self).ns_cache.key_seq());
            assert forall|k: Seq<char>| #[trigger]
                old(self)@.cache.contains_key(k) implies if old(self)@.cache[k].counter > 0 {
                final(self)@.b_ns.contains_key(k) && final(self)@.b_ns[k]
                    == old(self)@.cache[k]
            } else {
                !final(self)@.b_ns.contains_key(k)
            } by {
                let j = choose|j: int|
                    0 <= j < old(self).ns_cache.key_seq().len() && old(
                        self,
                    ).ns_cache.key_seq()[j] == k;
                assert(old(self)@.cache[old(self).ns_cache.key_seq()[j]].counter == old(
                    self,
                )@.cache[k].counter);
            }
        }
        Ok(diff)
    }

    /// Reads the whole document and stores every statement, then commits
    /// the batch; a parse failure leaves the engine untouched, and any
    /// single rejection aborts the call before the commit, leaving the
    /// backend's store record, allocator offset and namespace table
    /// untouched.
    pub fn store_all(&mut self, reader: &crate::codec::TripleReader) -> (r: Result<
        u128,
        StoreError,
    >)
        requires
            old(self).wf(),
        ensures
            final(self).wf(),
            match crate::codec::parse_of(reader.format, reader.src@) {
                None => {
                    &&& r matches Err(e) && (e matches StoreError::Parse(_))
                    &&& *final(self) == *old(self)
                },
                Some(ts) => match store_run(old(self)@, ts) {
                    Err(e) => {
                        &&& r == Err::<u128, StoreError>(e)
                        &&& final(self)@.b_store == old(self)@.b_store
                        &&& final(self)@.b_offset == old(self)@.b_offset
                        &&& final(self)@.b_ns == old(self)@.b_ns
                        &&& final(self)@.store.limits == old(self)@.store.limits
                        &&& final(self)@.initial_triple_count == old(self)@.initial_triple_count
                        &&& final(self)@.initial_byte_size == old(self)@.initial_byte_size
                    },
                    Ok(e1) => {
                        &&& r matches Ok(d) && d == (if e1.store.stat.triple_count
                            >= e1.initial_triple_count {
                            e1.store.stat.triple_count - e1.initial_triple_count
                        } else {
                            e1.initial_triple_count - e1.store.stat.triple_count
                        })
                        &&& final(self)@.offset == e1.offset
                        &&& final(self)@.b_offset == e1.offset
                        &&& final(self)@.b_triples == e1.b_triples
                        &&& final(self)@.store.limits == e1.store.limits
                        &&& final(self)@.store.stat.triple_count == e1.store.stat.triple_count
                        &&& final(self)@.store.stat.byte_size == e1.store.stat.byte_size
                        &&& final(self)@.b_store == final(self)@.store
                        &&& final(self)@.initial_triple_count == e1.store.stat.triple_count
                        &&& final(self)@.initial_byte_size == e1.store.stat.byte_size
                        &&& final(self)@.cache =~= Map::<Seq<char>, NamespaceV>::empty()
                        &&& forall|k: Seq<char>|
                            !e1.cache.contains_key(k) ==> (final(self)@.b_ns.contains_key(k)
                                == e1.b_ns.contains_key(k) && (e1.b_ns.contains_key(k)
                                ==> final(self)@.b_ns[k] == e1.b_ns[k]))
                        &&& forall|k: Seq<char>| #[trigger]
                            e1.cache.contains_key(k) ==> if e1.cache[k].counter > 0 {
                                final(self)@.b_ns.contains_key(k) && final(self)@.b_ns[k]
                                    == e1.cache[k]
                            } else {
                                !final(self)@.b_ns.contains_key(k)
                            }
                        &&& final(self)@.store.stat.namespace_count == (if zero_counter_keys(
                            e1.cache,
                        ).len() <= e1.store.stat.namespace_count {
                            (e1.store.stat.namespace_count - zero_counter_keys(
                                e1.cache,
                            ).len()) as u128
                        } else {
                            0u128
                        })
                    },
                },
            },
    {
        let ts = match reader.read_all() {
            Ok(v) => v,
            Err(e) => {
                return Err(e);
            },
        };
        let ghost tsv = crate::codec::raw_seq_v(ts@);
        let n = ts.len();
        let mut i: usize = 0;
        proof {
            assert(tsv.skip(0) =~= tsv);
        }
        while i < n
            invariant
                self.wf(),
                i <= n,
                n == ts@.len(),
                tsv == crate::codec::raw_seq_v(ts@),
                tsv.len() == n,
                crate::codec::parse_of(reader.format, reader.src@) == Some(tsv),
                store_run(old(self)@, tsv) == store_run(self@, tsv.skip(i as int)),
                self@.b_store == old(self)@.b_store,
                self@.b_offset == old(self)@.b_offset,
                self@.b_ns == old(self)@.b_ns,
                self@.store.limits == old(self)@.store.limits,
                self@.initial_triple_count == old(self)@.initial_triple_count,
                self@.initial_byte_size == old(self)@.initial_byte_size,
            decreases n - i,
        {
            let ghost pre = self@;
            let res = self.store_triple(&ts[i]);
            match res {
                Ok(()) => {
                    proof {
                        assert(tsv.skip(i as int)[0] == ts@[i as int]@);
                        assert(tsv.skip(i as int).drop_first() =~= tsv.skip(i + 1));
                    }
                    i = i + 1;
                },
                Err(e) => {
                    proof {
                        assert(tsv.skip(i as int)[0] == ts@[i as int]@);
                        assert(store_run(pre, tsv.skip(i as int)) == Err::<
                            EngineV,
                            StoreError,
                        >(e));
                    }
                    return Err(e);
                },
            }
        }
        proof {
            assert(tsv.skip(n as int) =~= Seq::<RawTripleV>::empty());
            assert(store_run(old(self)@, tsv) == Ok::<EngineV, StoreError>(self@));
        }
        self.finish()
    }

    /// Deletes every given statement, then commits the batch; any single
    /// rejection aborts the call before the commit, leaving the backend's
    /// store record, allocator offset, namespace table and triple table
    /// untouched.
    pub fn delete_all(&mut self, atoms: &Vec<crate::rdf::Atom>) -> (r: Result<
        u128,
        StoreError,
    >)
        requires
            old(self).wf(),
        ensures
            final(self).wf(),
            match delete_run(old(self)@, atoms_raw(atoms@)) {
                Err(de) => {
                    &&& r matches Err(e) && err_matches(e, de)
                    &&& final(self)@.b_store == old(self)@.b_store
                    &&& final(self)@.b_offset == old(self)@.b_offset
                    &&& final(self)@.b_ns == old(self)@.b_ns
                    &&& final(self)@.store.limits == old(self)@.store.limits
                    &&& final(self)@.initial_triple_count == old(self)@.initial_triple_count
                    &&& final(self)@.initial_byte_size == old(self)@.initial_byte_size
                },
                Ok(e1) => {
                    &&& r matches Ok(d) && d == (if e1.store.stat.triple_count
                        >= e1.initial_triple_count {
                        e1.store.stat.triple_count - e1.initial_triple_count
                    } else {
                        e1.initial_triple_count - e1.store.stat.triple_count
                    })
                    &&& final(self)@.offset == e1.offset
                    &&& final(self)@.b_offset == e1.offset
                    &&& final(self)@.b_triples == e1.b_triples
                    &&& final(self)@.store.limits == e1.store.limits
                    &&& final(self)@.store.stat.triple_count == e1.store.stat.triple_count
                    &&& final(self)@.store.stat.byte_size == e1.store.stat.byte_size
                    &&& final(self)@.b_store == final(self)@.store
                    &&& final(self)@.initial_triple_count == e1.store.stat.triple_count
                    &&& final(self)@.initial_byte_size == e1.store.stat.byte_size
                    &&& final(self)@.cache =~= Map::<Seq<char>, NamespaceV>::empty()
                    &&& forall|k: Seq<char>|
                        !e1.cache.contains_key(k) ==> (final(self)@.b_ns.contains_key(k)
                            == e1.b_ns.contains_key(k) && (e1.b_ns.contains_key(k) ==> final(self)@.b_ns[k] == e1.b_ns[k]))
                    &&& forall|k: Seq<char>| #[trigger]
                        e1.cache.contains_key(k) ==> if e1.cache[k].counter > 0 {
                            final(self)@.b_ns.contains_key(k) && final(self)@.b_ns[k]
                                == e1.cache[k]
                        } else {
                            !final(self)@.b_ns.contains_key(k)
                        }
                    &&& final(self)@.store.stat.namespace_count == (if zero_counter_keys(
                        e1.cache,
                    ).len() <= e1.store.stat.namespace_count {
                        (e1.store.stat.namespace_count - zero_counter_keys(e1.cache).len())
                            as u128
                    } else {
                        0u128
                    })
                },
            },
    {
        let ghost tsv = atoms_raw(atoms@);
        let n = atoms.len();
        let mut i: usize = 0;
        proof {
            assert(tsv.skip(0) =~= tsv);
        }
        while i < n
            invariant
                self.wf(),
                i <= n,
                n == atoms@.len(),
                tsv == atoms_raw(atoms@),
                tsv.len() == n,
                delete_run(old(self)@, tsv) == delete_run(self@, tsv.skip(i as int)),
                self@.b_store == old(self)@.b_store,
                self@.b_offset == old(self)@.b_offset,
                self@.b_ns == old(self)@.b_ns,
                self@.store.limits == old(self)@.store.limits,
                self@.initial_triple_count == old(self)@.initial_triple_count,
                self@.initial_byte_size == old(self)@.initial_byte_size,
            decreases n - i,
        {
            let ghost pre = self@;
            let res = self.delete_triple(&atoms[i]);
            match res {
                Ok(()) => {
                    proof {
                        assert(tsv.skip(i as int)[0] == crate::rdf::atom_raw(
                            atoms@[i as int],
                        ));
                        assert(tsv.skip(i as int).drop_first() =~= tsv.skip(i + 1));
                    }
                    i = i + 1;
                },
                Err(e) => {
                    proof {
                        assert(tsv.skip(i as int)[0] == crate::rdf::atom_raw(
                            atoms@[i as int],
                        ));
                        let de = delete_step_v(pre, tsv.skip(i as int)[0])->Err_0;
                        assert(delete_run(pre, tsv.skip(i as int)) == Err::<
                            EngineV,
                            DeleteErr,
                        >(de));
                    }
                    return Err(e);
                },
            }
        }
        proof {
            assert(tsv.skip(n as int) =~= Seq::<RawTripleV>::empty());
            assert(delete_run(old(self)@, tsv) == Ok::<EngineV, DeleteErr>(self@));
        }
        self.finish()
    }
}

} // verus!
