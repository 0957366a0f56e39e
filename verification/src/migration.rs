use vstd::prelude::*;

use crate::comp::{Company, CompanyCollection};
use crate::config::EMBEDDING_LENGTH;
use crate::db::{spec_log, Database};
use crate::ident::Principal;
use crate::index::Vector;

verus! {

/// The persisted form of a tenant's store: the full vector/payload log,
/// flattened to plain component arrays and payload strings.  The similarity
/// index is never persisted; a restored store starts with no index and must
/// be rebuilt explicitly.
pub struct DatabaseMigration {
    pub keys: Vec<Vec<u64>>,
    pub values: Vec<String>,
}

/// The log pairs a persisted store holds.
pub open spec fn pairs_of(m: DatabaseMigration) -> Seq<(Seq<u64>, String)> {
    Seq::new(m.keys@.len(), |i: int| (m.keys@[i]@, m.values@[i]))
}

impl DatabaseMigration {
    /// Well-formedness: one payload per vector, and every persisted vector
    /// has the fixed embedding dimension.
    pub open spec fn wf(&self) -> bool {
        &&& self.keys@.len() == self.values@.len()
        &&& forall|i: int|
            0 <= i < self.keys@.len() ==> (#[trigger] self.keys@[i]@).len() == EMBEDDING_LENGTH
    }

    /// Flattens a store into its persisted form, resolving each log entry's
    /// handle to its payload.
    pub fn from_database(db: &Database) -> (r: DatabaseMigration)
        requires
            db.wf(),
        ensures
            r.wf(),
            pairs_of(r) == spec_log(*db),
    {
        let mut keys: Vec<Vec<u64>> = Vec::new();
        let mut values: Vec<String> = Vec::new();
        let n = db.keys.len();
        let slen = db.storage.len();
        let mut i: usize = 0;
        while i < n
            invariant
                db.wf(),
                i <= n,
                n == db.keys@.len(),
                slen == db.storage@.len(),
                keys@.len() == i,
                values@.len() == i,
                forall|j: int| 0 <= j < i ==> (#[trigger] keys@[j]@) == db.keys@[j]@,
                forall|j: int|
                    0 <= j < i ==> (#[trigger] values@[j]) == db.storage@[db.values@[j] as int],
            decreases n - i,
        {
            let key_arr = db.keys[i].components().clone();
            proof {
                assert(key_arr@ =~= db.keys@[i as int]@);
            }
            keys.push(key_arr);
            let handle = db.values[i];
            proof {
                assert((db.values@[i as int] as int) < db.storage@.len());
                assert(db.storage@.len() <= usize::MAX);
            }
            let payload = (&db.storage[handle as usize]).clone();
            values.push(payload);
            i = i + 1;
        }
        let r = DatabaseMigration { keys, values };
        proof {
            assert(pairs_of(r) =~= spec_log(*db));
        }
        r
    }

    /// Rebuilds a store from its persisted form.  The log comes back exactly
    /// as persisted, with dense handles; the index snapshot is empty, so the
    /// index must be rebuilt before queries see anything.
    pub fn into_database(self) -> (r: Database)
        requires
            self.wf(),
        ensures
            r.wf(),
            spec_log(r) == pairs_of(self),
            r.keys@.len() == self.keys@.len(),
            r.storage@ == self.values@,
            forall|i: int| 0 <= i < r.values@.len() ==> (#[trigger] r.values@[i]) as int == i,
            r.indexed == 0,
    {
        let ghost m = self;
        let DatabaseMigration { keys: raw_keys, values } = self;
        let mut keys: Vec<Vector> = Vec::new();
        let mut handles: Vec<u64> = Vec::new();
        let n = raw_keys.len();
        let mut i: usize = 0;
        while i < n
            invariant
                i <= n,
                n == raw_keys@.len(),
                raw_keys@ == m.keys@,
                m.wf(),
                keys@.len() == i,
                handles@.len() == i,
                forall|j: int| 0 <= j < i ==> (#[trigger] keys@[j]@) == raw_keys@[j]@,
                forall|j: int| 0 <= j < i ==> (#[trigger] keys@[j]).wf(),
                forall|j: int| 0 <= j < i ==> (#[trigger] handles@[j]) as int == j,
            decreases n - i,
        {
            let key_arr = (&raw_keys[i]).clone();
            proof {
                assert(key_arr@ =~= raw_keys@[i as int]@);
            }
            match Vector::from_raw(key_arr) {
                Ok(p) => {
                    keys.push(p);
                },
                Err(_) => {
                    proof {
                        assert(false);
                    }
                },
            }
            handles.push(i as u64);
            i = i + 1;
        }
        let r = Database { keys, values: handles, storage: values, indexed: 0 };
        proof {
            assert(spec_log(r) =~= pairs_of(m));
        }
        r
    }
}

/// The persisted form of a tenant: owner, description and the flattened
/// store.
pub struct CompanyMigration {
    pub owner: Principal,
    pub description: String,
    pub db: DatabaseMigration,
}

impl CompanyMigration {
    pub open spec fn wf(&self) -> bool {
        self.db.wf()
    }

    /// Flattens a tenant into its persisted form.
    pub fn from_company(c: &Company) -> (r: CompanyMigration)
        requires
            c.wf(),
        ensures
            r.wf(),
            r.owner@ == c.owner@,
            r.description == c.description,
            pairs_of(r.db) == spec_log(c.db),
    {
        CompanyMigration {
            owner: c.owner.clone(),
            description: c.description.clone(),
            db: DatabaseMigration::from_database(&c.db),
        }
    }

    /// Rebuilds a tenant from its persisted form, with an unbuilt index.
    pub fn into_company(self) -> (r: Company)
        requires
            self.wf(),
        ensures
            r.wf(),
            r.owner@ == self.owner@,
            r.description == self.description,
            spec_log(r.db) == pairs_of(self.db),
            r.db.indexed == 0,
    {
        let CompanyMigration { owner, description, db } = self;
        Company { owner, description, db: db.into_database() }
    }
}

/// The persisted form of the whole tenant registry.
pub struct CompanyCollectionMigration {
    pub owner_mapping: Vec<(Principal, u32)>,
    pub companies: Vec<CompanyMigration>,
    pub counter: u32,
}

impl CompanyCollectionMigration {
    /// Well-formedness: what the registry invariant needs to come back after
    /// a restore — a dense tenant list, owner-map entries that name the
    /// tenant they own, and no owner listed twice.
    pub open spec fn wf(&self) -> bool {
        &&& self.counter as int == self.companies@.len()
        &&& forall|i: int| 0 <= i < self.companies@.len() ==> (#[trigger] self.companies@[i]).wf()
        &&& forall|i: int|
            0 <= i < self.owner_mapping@.len() ==> (#[trigger] self.owner_mapping@[i].1 as int)
                < self.companies@.len()
        &&& forall|i: int|
            0 <= i < self.owner_mapping@.len()
                ==> self.companies@[#[trigger] self.owner_mapping@[i].1 as int].owner@
                == self.owner_mapping@[i].0@
        &&& forall|i: int, j: int|
            0 <= i < j < self.owner_mapping@.len() ==> (#[trigger] self.owner_mapping@[i].0@) != (
            #[trigger] self.owner_mapping@[j].0@)
    }

    /// Flattens the registry into its persisted form: the owner map, and
    /// each tenant's owner, description and full log.  Indexes are left
    /// behind.
    pub fn from_collection(c: &CompanyCollection) -> (r: CompanyCollectionMigration)
        requires
            c.wf(),
        ensures
            r.wf(),
            r.counter == c.counter,
            r.companies@.len() == c.companies@.len(),
            forall|i: int|
                0 <= i < c.companies@.len() ==> {
                    &&& (#[trigger] r.companies@[i]).owner@ == c.companies@[i].owner@
                    &&& r.companies@[i].description == c.companies@[i].description
                    &&& pairs_of(r.companies@[i].db) == spec_log(c.companies@[i].db)
                },
            r.owner_mapping@.len() == c.owner_mapping@.len(),
            forall|i: int|
                0 <= i < c.owner_mapping@.len() ==> (#[trigger] r.owner_mapping@[i].0@)
                    == c.owner_mapping@[i].0@ && r.owner_mapping@[i].1 == c.owner_mapping@[i].1,
    {
        let mut owner_mapping: Vec<(Principal, u32)> = Vec::new();
        let nm = c.owner_mapping.len();
        let mut i: usize = 0;
        while i < nm
            invariant
                i <= nm,
                nm == c.owner_mapping@.len(),
                owner_mapping@.len() == i,
                forall|j: int|
                    0 <= j < i ==> (#[trigger] owner_mapping@[j].0@) == c.owner_mapping@[j].0@
                        && owner_mapping@[j].1 == c.owner_mapping@[j].1,
            decreases nm - i,
        {
            let entry = (c.owner_mapping[i].0.clone(), c.owner_mapping[i].1);
            owner_mapping.push(entry);
            i = i + 1;
        }
        let mut companies: Vec<CompanyMigration> = Vec::new();
        let nc = c.companies.len();
        let mut k: usize = 0;
        while k < nc
            invariant
                c.wf(),
                k <= nc,
                nc == c.companies@.len(),
                companies@.len() == k,
                forall|j: int|
                    0 <= j < k ==> {
                        &&& (#[trigger] companies@[j]).wf()
                        &&& companies@[j].owner@ == c.companies@[j].owner@
                        &&& companies@[j].description == c.companies@[j].description
                        &&& pairs_of(companies@[j].db) == spec_log(c.companies@[j].db)
                    },
            decreases nc - k,
        {
            let cm = CompanyMigration::from_company(&c.companies[k]);
            companies.push(cm);
            k = k + 1;
        }
        let r = CompanyCollectionMigration { owner_mapping, companies, counter: c.counter };
        proof {
            assert forall|i: int| 0 <= i < r.owner_mapping@.len() implies (
            #[trigger] r.owner_mapping@[i].1 as int) < r.companies@.len() by {
                assert(r.owner_mapping@[i].0@ == c.owner_mapping@[i].0@);
                assert(r.owner_mapping@[i].1 == c.owner_mapping@[i].1);
                assert((c.owner_mapping@[i].1 as int) < c.companies@.len());
            }
            assert forall|i: int| 0 <= i < r.owner_mapping@.len() implies r.companies@[
            #[trigger] r.owner_mapping@[i].1 as int].owner@ == r.owner_mapping@[i].0@ by {
                assert(r.owner_mapping@[i].0@ == c.owner_mapping@[i].0@);
                assert(r.owner_mapping@[i].1 == c.owner_mapping@[i].1);
                assert(c.companies@[c.owner_mapping@[i].1 as int].owner@
                    == c.owner_mapping@[i].0@);
                assert(r.companies@[c.owner_mapping@[i].1 as int].owner@
                    == c.companies@[c.owner_mapping@[i].1 as int].owner@);
            }
            assert forall|i: int, j: int| 0 <= i < j < r.owner_mapping@.len() implies (
            #[trigger] r.owner_mapping@[i].0@) != (#[trigger] r.owner_mapping@[j].0@) by {
                assert(r.owner_mapping@[i].0@ == c.owner_mapping@[i].0@);
                assert(r.owner_mapping@[j].0@ == c.owner_mapping@[j].0@);
                assert(c.owner_mapping@[i].0@ != c.owner_mapping@[j].0@);
            }
        }
        r
    }

    /// Rebuilds the registry from its persisted form.  Every tenant comes
    /// back with its owner, description and full log, and with an unbuilt
    /// index: a query sees nothing until that tenant's index is rebuilt.
    pub fn into_collection(self) -> (r: CompanyCollection)
        requires
            self.wf(),
        ensures
            r.wf(),
            r.counter == self.counter,
            r.companies@.len() == self.companies@.len(),
            forall|i: int|
                0 <= i < self.companies@.len() ==> {
                    &&& (#[trigger] r.companies@[i]).owner@ == self.companies@[i].owner@
                    &&& r.companies@[i].description == self.companies@[i].description
                    &&& spec_log(r.companies@[i].db) == pairs_of(self.companies@[i].db)
                    &&& r.companies@[i].db.indexed == 0
                },
            r.owner_mapping@.len() == self.owner_mapping@.len(),
            forall|i: int|
                0 <= i < self.owner_mapping@.len() ==> (#[trigger] r.owner_mapping@[i].0@)
                    == self.owner_mapping@[i].0@ && r.owner_mapping@[i].1
                    == self.owner_mapping@[i].1,
    {
        let ghost m = self;
        let CompanyCollectionMigration { owner_mapping, companies: migrated, counter } = self;
        let mut companies: Vec<Company> = Vec::new();
        let mut rest = migrated;
        let n = rest.len();
        let mut i: usize = 0;
        while i < n
            invariant
                i <= n,
                n == m.companies@.len(),
                rest@.len() + i == n,
                forall|j: int| 0 <= j < rest@.len() ==> rest@[j] == m.companies@[i + j],
                m.wf(),
                companies@.len() == i,
                forall|j: int|
                    0 <= j < i ==> {
                        &&& (#[trigger] companies@[j]).wf()
                        &&& companies@[j].owner@ == m.companies@[j].owner@
                        &&& companies@[j].description == m.companies@[j].description
                        &&& spec_log(companies@[j].db) == pairs_of(m.companies@[j].db)
                        &&& companies@[j].db.indexed == 0
                    },
            decreases n - i,
        {
            let cm = rest.remove(0);
            let c = cm.into_company();
            companies.push(c);
            i = i + 1;
        }
        let r = CompanyCollection { owner_mapping, companies, counter };
        r
    }
}

/// Round trip: flattening the registry at a checkpoint and restoring it
/// brings back, for every tenant, the owner, the description and the full
/// vector/payload log, and brings back the owner map entry for entry; only
/// the rebuildable index is left behind.  `saved` is any snapshot as
/// `from_collection` describes it, `restored` any registry as
/// `into_collection` rebuilds it from that snapshot.
pub proof fn lemma_registry_roundtrip(
    before: CompanyCollection,
    saved: CompanyCollectionMigration,
    restored: CompanyCollection,
)
    requires
        before.wf(),
        saved.counter == before.counter,
        saved.companies@.len() == before.companies@.len(),
        forall|i: int|
            0 <= i < before.companies@.len() ==> {
                &&& (#[trigger] saved.companies@[i]).owner@ == before.companies@[i].owner@
                &&& saved.companies@[i].description == before.companies@[i].description
                &&& pairs_of(saved.companies@[i].db) == spec_log(before.companies@[i].db)
            },
        saved.owner_mapping@.len() == before.owner_mapping@.len(),
        forall|i: int|
            0 <= i < before.owner_mapping@.len() ==> (#[trigger] saved.owner_mapping@[i].0@)
                == before.owner_mapping@[i].0@ && saved.owner_mapping@[i].1
                == before.owner_mapping@[i].1,
        restored.counter == saved.counter,
        restored.companies@.len() == saved.companies@.len(),
        forall|i: int|
            0 <= i < saved.companies@.len() ==> {
                &&& (#[trigger] restored.companies@[i]).owner@ == saved.companies@[i].owner@
                &&& restored.companies@[i].description == saved.companies@[i].description
                &&& spec_log(restored.companies@[i].db) == pairs_of(saved.companies@[i].db)
            },
        restored.owner_mapping@.len() == saved.owner_mapping@.len(),
        forall|i: int|
            0 <= i < saved.owner_mapping@.len() ==> (#[trigger] restored.owner_mapping@[i].0@)
                == saved.owner_mapping@[i].0@ && restored.owner_mapping@[i].1
                == saved.owner_mapping@[i].1,
    ensures
        restored.counter == before.counter,
        restored.companies@.len() == before.companies@.len(),
        forall|i: int|
            0 <= i < before.companies@.len() ==> {
                &&& (#[trigger] restored.companies@[i]).owner@ == before.companies@[i].owner@
                &&& restored.companies@[i].description == before.companies@[i].description
                &&& spec_log(restored.companies@[i].db) == spec_log(before.companies@[i].db)
            },
        restored.owner_mapping@.len() == before.owner_mapping@.len(),
        forall|i: int|
            0 <= i < before.owner_mapping@.len() ==> (#[trigger] restored.owner_mapping@[i].0@)
                == before.owner_mapping@[i].0@ && restored.owner_mapping@[i].1
                == before.owner_mapping@[i].1,
{
    assert forall|i: int| 0 <= i < before.owner_mapping@.len() implies (
    #[trigger] restored.owner_mapping@[i].0@) == before.owner_mapping@[i].0@
        && restored.owner_mapping@[i].1 == before.owner_mapping@[i].1 by {
        assert(saved.owner_mapping@[i].0@ == before.owner_mapping@[i].0@);
        assert(restored.owner_mapping@[i].0@ == saved.owner_mapping@[i].0@);
    }
    assert forall|i: int| 0 <= i < before.companies@.len() implies {
        &&& (#[trigger] restored.companies@[i]).owner@ == before.companies@[i].owner@
        &&& restored.companies@[i].description == before.companies@[i].description
        &&& spec_log(restored.companies@[i].db) == spec_log(before.companies@[i].db)
    } by {
        assert(saved.companies@[i].owner@ == before.companies@[i].owner@);
        assert(restored.companies@[i].owner@ == saved.companies@[i].owner@);
    }
}

/// The second half of the round trip: a store whose log came back intact
/// answers every query exactly as before, once its handles line up the way
/// freshly built stores lay them out (entry `i` filed under handle `i`).
/// Query resolution reads only the payload table, and equal logs with dense
/// handles mean equal payload tables.
pub proof fn lemma_restored_query(
    before: Database,
    restored: Database,
    ranked: Seq<(u64, u64)>,
    limit: int,
)
    requires
        before.wf(),
        restored.wf(),
        spec_log(restored) == spec_log(before),
        before.storage@.len() == before.keys@.len(),
        restored.storage@.len() == restored.keys@.len(),
        forall|i: int| 0 <= i < before.values@.len() ==> (#[trigger] before.values@[i]) as int == i,
        forall|i: int|
            0 <= i < restored.values@.len() ==> (#[trigger] restored.values@[i]) as int == i,
    ensures
        restored.spec_query(ranked, limit) == before.spec_query(ranked, limit),
{
    assert(spec_log(restored).len() == restored.keys@.len());
    assert(spec_log(before).len() == before.keys@.len());
    assert(restored.keys@.len() == before.keys@.len());
    assert forall|i: int| 0 <= i < restored.storage@.len() implies (#[trigger] restored.storage@[i])
        == before.storage@[i] by {
        assert(spec_log(restored)[i] == spec_log(before)[i]);
        assert(spec_log(restored)[i].1 == restored.storage@[restored.values@[i] as int]);
    }
    assert(restored.storage@ =~= before.storage@);
}

} // verus!
