use vstd::prelude::*;

use crate::errors::Error;
use crate::index::Vector;

verus! {

/// A tenant's store: an append-only log of embedding vectors paired with
/// payload handles, a payload table, and a marker for how much of the log the
/// currently built similarity index covers.
///
/// The nearest-neighbour structure itself lives outside this crate; what it
/// was built from is exactly the log prefix `[0, indexed)`, because the log
/// is append-only and a rebuild always consumes the whole log.  A query hands
/// in the ranked `(score, handle)` pairs that the external search produced
/// over that snapshot, and this store resolves the handles back to payloads.
pub struct Database {
    /// Log of embedding vectors, in ingestion order.
    pub keys: Vec<Vector>,
    /// Log of payload handles, parallel to `keys`.
    pub values: Vec<u64>,
    /// Payload text by handle.
    pub storage: Vec<String>,
    /// Number of log entries covered by the currently built index.
    pub indexed: usize,
}

/// The component sequences of a sequence of vectors.
pub open spec fn key_views(ks: Seq<Vector>) -> Seq<Seq<u64>> {
    ks.map_values(|k: Vector| k@)
}

/// The logical content of a store's log: for each entry, in ingestion
/// order, the vector's components paired with the payload its handle points
/// at.
pub open spec fn spec_log(db: Database) -> Seq<(Seq<u64>, String)> {
    Seq::new(db.keys@.len(), |i: int| (db.keys@[i]@, db.storage@[db.values@[i] as int]))
}

/// Resolves ranked `(score, handle)` pairs against a payload table, in order,
/// keeping the pairs whose handle is present and replacing the handle by its
/// payload.
pub open spec fn spec_resolve(storage: Seq<String>, ranked: Seq<(u64, u64)>) -> Seq<(u64, String)>
    decreases ranked.len(),
{
    if ranked.len() == 0 {
        Seq::empty()
    } else {
        let rest = spec_resolve(storage, ranked.drop_last());
        let last = ranked.last();
        if (last.1 as int) < storage.len() {
            rest.push((last.0, storage[last.1 as int]))
        } else {
            rest
        }
    }
}

/// How many of the ranked pairs a query with the given limit examines: the
/// first `limit` of them, all of them if there are fewer, none if the limit
/// is negative.
pub open spec fn spec_examined(ranked_len: int, limit: int) -> int {
    if limit < 0 {
        0
    } else if limit < ranked_len {
        limit
    } else {
        ranked_len
    }
}

/// Resolution reads only the payload entries the handles point at: extending
/// the payload table does not change how an old list of handles resolves.
pub proof fn lemma_resolve_stable(
    storage1: Seq<String>,
    storage2: Seq<String>,
    ranked: Seq<(u64, u64)>,
)
    requires
        storage1.len() <= storage2.len(),
        forall|i: int| 0 <= i < storage1.len() ==> storage1[i] == storage2[i],
        forall|k: int| 0 <= k < ranked.len() ==> (#[trigger] ranked[k].1 as int) < storage1.len(),
    ensures
        spec_resolve(storage2, ranked) == spec_resolve(storage1, ranked),
    decreases ranked.len(),
{
    if ranked.len() > 0 {
        lemma_resolve_stable(storage1, storage2, ranked.drop_last());
        assert(ranked[ranked.len() - 1] == ranked.last());
    }
}

/// Every payload a resolution returns comes out of the payload table it was
/// resolved against.
pub proof fn lemma_resolve_membership(storage: Seq<String>, ranked: Seq<(u64, u64)>, j: int)
    requires
        0 <= j < spec_resolve(storage, ranked).len(),
    ensures
        storage.contains(spec_resolve(storage, ranked)[j].1),
    decreases ranked.len(),
{
    if ranked.len() > 0 {
        let rest = spec_resolve(storage, ranked.drop_last());
        if j < rest.len() {
            lemma_resolve_membership(storage, ranked.drop_last(), j);
        } else {
            assert((ranked.last().1 as int) < storage.len());
            assert(storage[ranked.last().1 as int] == spec_resolve(storage, ranked)[j].1);
        }
    }
}

impl Database {
    /// Well-formedness: the vector and handle logs run in parallel, every
    /// vector has the fixed dimension, every handle points into the payload
    /// table, and the index snapshot is a prefix of the log.
    pub open spec fn wf(&self) -> bool {
        &&& self.keys@.len() == self.values@.len()
        &&& self.indexed <= self.keys@.len()
        &&& forall|i: int| 0 <= i < self.keys@.len() ==> (#[trigger] self.keys@[i]).wf()
        &&& forall|i: int|
            0 <= i < self.values@.len() ==> (#[trigger] self.values@[i] as int) < self.storage@.len()
    }

    /// What a query with the given ranked search results returns.
    pub open spec fn spec_query(&self, ranked: Seq<(u64, u64)>, limit: int) -> Seq<(u64, String)> {
        spec_resolve(self.storage@, ranked.take(spec_examined(ranked.len() as int, limit)))
    }

    /// Creates a store over the given vectors and payloads and treats the
    /// index as built over all of them: entry `i` gets handle `i`.
    pub fn new(keys: Vec<Vector>, values: Vec<String>) -> (r: Database)
        requires
            keys@.len() == values@.len(),
            forall|i: int| 0 <= i < keys@.len() ==> (#[trigger] keys@[i]).wf(),
        ensures
            r.wf(),
            r.keys@ == keys@,
            r.storage@ == values@,
            r.values@.len() == keys@.len(),
            forall|i: int| 0 <= i < r.values@.len() ==> (#[trigger] r.values@[i]) == i as u64,
            r.indexed == keys@.len(),
    {
        let n = values.len();
        let mut handles: Vec<u64> = Vec::new();
        let mut i: usize = 0;
        while i < n
            invariant
                i <= n,
                handles@.len() == i,
                forall|j: int| 0 <= j < i ==> (#[trigger] handles@[j]) == j as u64,
            decreases n - i,
        {
            handles.push(i as u64);
            i = i + 1;
        }
        let indexed = keys.len();
        Database { keys, values: handles, storage: values, indexed }
    }

    /// Appends vectors and payloads to the log, atomically: with arrays of
    /// unequal length nothing at all is written; with equal lengths each pair
    /// is concatenated to the end of the log in input order, and both input
    /// arrays are drained.  The index snapshot is untouched, so the new
    /// entries stay invisible to queries until the next rebuild.
    pub fn append(&mut self, keys: &mut Vec<Vector>, values: &mut Vec<String>) -> (r: Result<
        (),
        Error,
    >)
        requires
            old(self).wf(),
            forall|i: int| 0 <= i < old(keys)@.len() ==> (#[trigger] old(keys)@[i]).wf(),
        ensures
            final(self).wf(),
            r is Ok <==> old(keys)@.len() == old(values)@.len(),
            r matches Err(e) ==> e == Error::LengthMismatch && *final(self) == *old(self)
                && *final(keys) == *old(keys) && *final(values) == *old(values),
            r is Ok ==> {
                &&& final(self).keys@ == old(self).keys@ + old(keys)@
                &&& final(self).storage@ == old(self).storage@ + old(values)@
                &&& final(self).values@.len() == old(self).values@.len() + old(keys)@.len()
                &&& forall|i: int|
                    0 <= i < old(self).values@.len() ==> final(self).values@[i] == old(
                        self,
                    ).values@[i]
                &&& forall|i: int|
                    old(self).values@.len() <= i < final(self).values@.len()
                        ==> (#[trigger] final(self).values@[i]) as int == old(
                        self,
                    ).storage@.len() + i - old(self).values@.len()
                &&& final(self).indexed == old(self).indexed
                &&& final(keys)@.len() == 0
                &&& final(values)@.len() == 0
            },
    {
        if keys.len() != values.len() {
            return Err(Error::LengthMismatch);
        }
        let n = keys.len();
        let ghost old_self = *self;
        let ghost in_values = values@;
        let mut i: usize = 0;
        while i < n
            invariant
                i <= n,
                n == in_values.len(),
                values@ == in_values,
                self.keys@ == old_self.keys@,
                self.storage@ == old_self.storage@ + in_values.take(i as int),
                self.values@.len() == old_self.values@.len() + i,
                forall|j: int|
                    0 <= j < old_self.values@.len() ==> self.values@[j] == old_self.values@[j],
                forall|j: int|
                    old_self.values@.len() <= j < self.values@.len()
                        ==> (#[trigger] self.values@[j]) as int == old_self.storage@.len() + j
                        - old_self.values@.len(),
                self.indexed == old_self.indexed,
            decreases n - i,
        {
            let handle = self.storage.len() as u64;
            let value_i = (&values[i]).clone();
            self.storage.push(value_i);
            self.values.push(handle);
            i = i + 1;
            proof {
                assert(in_values.take(i as int) =~= in_values.take(i - 1).push(in_values[i - 1]));
            }
        }
        self.keys.append(keys);
        values.clear();
        proof {
            assert(in_values.take(n as int) =~= in_values);
            assert forall|j: int| 0 <= j < self.keys@.len() implies (
            #[trigger] self.keys@[j]).wf() by {
                if j < old_self.keys@.len() {
                    assert(self.keys@[j] == old_self.keys@[j]);
                } else {
                    assert(self.keys@[j] == old(keys)@[j - old_self.keys@.len()]);
                }
            }
            assert forall|j: int| 0 <= j < self.values@.len() implies (
            #[trigger] self.values@[j] as int) < self.storage@.len() by {
                assert(self.storage@.len() == old_self.storage@.len() + n);
                if j < old_self.values@.len() {
                    assert(self.values@[j] == old_self.values@[j]);
                    assert((old_self.values@[j] as int) < old_self.storage@.len());
                } else {
                    assert(self.values@[j] as int == old_self.storage@.len() + j
                        - old_self.values@.len());
                    assert(j - old_self.values@.len() < n);
                }
            }
        }
        Ok(())
    }

    /// Stores a payload on its own, without a log entry, and returns the
    /// handle it was filed under.
    pub fn store_one_document(&mut self, doc: String) -> (r: Result<u64, Error>)
        requires
            old(self).wf(),
        ensures
            final(self).wf(),
            r == Ok::<u64, Error>(old(self).storage@.len() as u64),
            final(self).storage@ == old(self).storage@.push(doc),
            final(self).keys@ == old(self).keys@,
            final(self).values@ == old(self).values@,
            final(self).indexed == old(self).indexed,
    {
        let handle = self.storage.len() as u64;
        self.storage.push(doc);
        Ok(handle)
    }

    /// Rebuilds the index over the entire current log: afterwards the
    /// snapshot covers every entry.  The log itself is untouched.
    pub fn build_index(&mut self)
        requires
            old(self).wf(),
        ensures
            final(self).wf(),
            final(self).keys@ == old(self).keys@,
            final(self).values@ == old(self).values@,
            final(self).storage@ == old(self).storage@,
            final(self).indexed == old(self).keys@.len(),
    {
        self.indexed = self.keys.len();
    }

    /// Resolves ranked `(score, handle)` search results to `(score, payload)`
    /// pairs: the first `limit` ranked pairs are examined in order and each
    /// one whose handle is present in the payload table contributes its
    /// payload.  With a negative limit, or an empty ranked list (as an empty
    /// or never-built index produces), the result is empty.
    pub fn query(&self, ranked: &Vec<(u64, u64)>, limit: i32) -> (r: Vec<(u64, String)>)
        requires
            self.wf(),
        ensures
            r@ == self.spec_query(ranked@, limit as int),
            r@.len() <= spec_examined(ranked@.len() as int, limit as int),
    {
        let mut res: Vec<(u64, String)> = Vec::new();
        if limit < 0 {
            proof {
                assert(ranked@.take(0) =~= Seq::<(u64, u64)>::empty());
            }
            return res;
        }
        let n = if (limit as usize) < ranked.len() {
            limit as usize
        } else {
            ranked.len()
        };
        let mut i: usize = 0;
        while i < n
            invariant
                i <= n,
                n <= ranked@.len(),
                res@ == spec_resolve(self.storage@, ranked@.take(i as int)),
                res@.len() <= i,
            decreases n - i,
        {
            let (score, handle) = ranked[i];
            if handle < self.storage.len() as u64 {
                let payload = (&self.storage[handle as usize]).clone();
                res.push((score, payload));
            }
            i = i + 1;
            proof {
                let t = ranked@.take(i as int);
                assert(t.drop_last() =~= ranked@.take(i - 1));
                assert(t.last() == ranked@[i - 1]);
            }
        }
        proof {
            assert(n as int == spec_examined(ranked@.len() as int, limit as int));
        }
        res
    }
}

/// Stale-index law: an append that is not followed by a rebuild leaves every
/// query unchanged.  `after` is a store as `append` leaves it: same index
/// snapshot, payload table only extended.  For any ranked search results
/// whose handles come from the (unchanged) snapshot — the only handles the
/// stale index can hand out — the query resolves to exactly what it resolved
/// to before the append.
pub proof fn lemma_stale_index_query(
    before: Database,
    after: Database,
    ranked: Seq<(u64, u64)>,
    limit: int,
)
    requires
        before.wf(),
        after.wf(),
        after.indexed == before.indexed,
        before.storage@.len() <= after.storage@.len(),
        forall|i: int| 0 <= i < before.storage@.len() ==> before.storage@[i] == after.storage@[i],
        forall|k: int|
            0 <= k < ranked.len() ==> exists|i: int|
                0 <= i < before.indexed && (#[trigger] ranked[k]).1 == before.values@[i],
    ensures
        after.spec_query(ranked, limit) == before.spec_query(ranked, limit),
{
    let t = ranked.take(spec_examined(ranked.len() as int, limit));
    assert forall|k: int| 0 <= k < t.len() implies (#[trigger] t[k].1 as int)
        < before.storage@.len() by {
        assert(t[k] == ranked[k]);
        let i = choose|i: int| 0 <= i < before.indexed && ranked[k].1 == before.values@[i];
        assert((before.values@[i] as int) < before.storage@.len());
    }
    lemma_resolve_stable(before.storage@, after.storage@, t);
}

/// Tenant isolation: a query against one tenant's store only ever returns
/// that tenant's own payloads, so two tenants whose payload tables are
/// disjoint can never see each other's payloads in a query result, whatever
/// ranked search results and limit are used.
pub proof fn lemma_tenant_isolation(
    mine: Database,
    other: Database,
    ranked: Seq<(u64, u64)>,
    limit: int,
    j: int,
)
    requires
        forall|p: String| #[trigger]
            mine.storage@.contains(p) ==> !other.storage@.contains(p),
        0 <= j < mine.spec_query(ranked, limit).len(),
    ensures
        mine.storage@.contains(mine.spec_query(ranked, limit)[j].1),
        !other.storage@.contains(mine.spec_query(ranked, limit)[j].1),
{
    let t = ranked.take(spec_examined(ranked.len() as int, limit));
    lemma_resolve_membership(mine.storage@, t, j);
}

} // verus!
