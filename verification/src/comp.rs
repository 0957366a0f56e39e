use vstd::prelude::*;

use crate::db::Database;
use crate::ident::Principal;

verus! {

/// A tenant: an owner identity, a free-text description and the tenant's
/// vector store.
pub struct Company {
    pub owner: Principal,
    pub description: String,
    pub db: Database,
}

impl Company {
    pub open spec fn wf(&self) -> bool {
        self.db.wf()
    }

    /// A fresh tenant with an empty store.
    pub fn new(owner: Principal, description: String) -> (r: Company)
        ensures
            r.wf(),
            r.owner == owner,
            r.description == description,
            r.db.keys@.len() == 0,
            r.db.values@.len() == 0,
            r.db.storage@.len() == 0,
            r.db.indexed == 0,
    {
        Company { owner, description, db: Database::new(Vec::new(), Vec::new()) }
    }

    /// Replaces the description; nothing else changes.
    pub fn update_description(&mut self, description: String)
        ensures
            final(self).description == description,
            final(self).owner == old(self).owner,
            final(self).db == old(self).db,
    {
        self.description = description;
    }
}

/// The tenant registry: tenant ids are dense, start at zero and are never
/// reused, so the id map is a vector indexed by id.  A separate owner map
/// remembers, for each owner identity, the id of the first tenant that
/// identity registered.
pub struct CompanyCollection {
    pub owner_mapping: Vec<(Principal, u32)>,
    pub companies: Vec<Company>,
    pub counter: u32,
}

impl CompanyCollection {
    /// Well-formedness: the id counter counts the registered tenants, every
    /// owner-map entry names a live tenant it actually owns, and no owner
    /// appears in the owner map twice.
    pub open spec fn wf(&self) -> bool {
        &&& self.counter as int == self.companies@.len()
        &&& forall|i: int| 0 <= i < self.companies@.len() ==> (#[trigger] self.companies@[i]).wf()
        &&& forall|i: int|
            0 <= i < self.owner_mapping@.len() ==> (#[trigger] self.owner_mapping@[i].1 as int)
                < self.companies@.len()
        &&& forall|i: int|
            0 <= i < self.owner_mapping@.len()
                ==> self.companies@[#[trigger] self.owner_mapping@[i].1 as int].owner@
                == self.owner_mapping@[i].0@
        &&& forall|i: int, j: int|
            0 <= i < j < self.owner_mapping@.len() ==> (#[trigger] self.owner_mapping@[i].0@) != (
            #[trigger] self.owner_mapping@[j].0@)
    }

    /// Whether some owner-map entry carries this identity.
    pub open spec fn spec_has_owner(&self, p: Seq<char>) -> bool {
        exists|i: int| 0 <= i < self.owner_mapping@.len() && (#[trigger] self.owner_mapping@[i].0@)
            == p
    }

    /// The tenant id the owner map holds for this identity.
    pub open spec fn spec_owner_id(&self, p: Seq<char>) -> u32 {
        self.owner_mapping@[choose|i: int|
            0 <= i < self.owner_mapping@.len() && (#[trigger] self.owner_mapping@[i].0@) == p].1
    }

    pub fn new() -> (r: CompanyCollection)
        ensures
            r.wf(),
            r.companies@.len() == 0,
            r.owner_mapping@.len() == 0,
            r.counter == 0,
    {
        CompanyCollection { owner_mapping: Vec::new(), companies: Vec::new(), counter: 0 }
    }

    /// Registers a tenant: allocates the next dense id, files the tenant
    /// under it and returns it.  The owner map records the id for the
    /// tenant's owner unless that owner already registered earlier — the
    /// first registration wins.
    pub fn register(&mut self, comp: Company) -> (r: u32)
        requires
            old(self).wf(),
            comp.wf(),
            old(self).companies@.len() < u32::MAX,
        ensures
            final(self).wf(),
            r == old(self).counter,
            final(self).counter == old(self).counter + 1,
            final(self).companies@ == old(self).companies@.push(comp),
            old(self).spec_has_owner(comp.owner@) ==> final(self).owner_mapping@ == old(
                self,
            ).owner_mapping@,
            !old(self).spec_has_owner(comp.owner@) ==> {
                &&& final(self).owner_mapping@.len() == old(self).owner_mapping@.len() + 1
                &&& final(self).owner_mapping@.take(old(self).owner_mapping@.len() as int) == old(
                    self,
                ).owner_mapping@
                &&& final(self).owner_mapping@.last().0@ == comp.owner@
                &&& final(self).owner_mapping@.last().1 == r
            },
            final(self).spec_has_owner(comp.owner@),
    {
        let id = self.counter;
        let mut known = false;
        let n = self.owner_mapping.len();
        let mut i: usize = 0;
        while i < n
            invariant
                i <= n,
                n == self.owner_mapping@.len(),
                known <==> exists|j: int|
                    0 <= j < i && (#[trigger] self.owner_mapping@[j].0@) == comp.owner@,
            decreases n - i,
        {
            if self.owner_mapping[i].0 == comp.owner {
                known = true;
            }
            i = i + 1;
        }
        if !known {
            let owner_copy = comp.owner.clone();
            self.owner_mapping.push((owner_copy, id));
        }
        self.companies.push(comp);
        self.counter = self.counter + 1;
        proof {
            if !old(self).spec_has_owner(comp.owner@) {
                assert(self.owner_mapping@.take(old(self).owner_mapping@.len() as int)
                    =~= old(self).owner_mapping@);
                assert(self.owner_mapping@[self.owner_mapping@.len() - 1].0@ == comp.owner@);
            } else {
                let j = choose|j: int|
                    0 <= j < old(self).owner_mapping@.len() && (
                    #[trigger] old(self).owner_mapping@[j].0@) == comp.owner@;
                assert(self.owner_mapping@[j].0@ == comp.owner@);
            }
        }
        id
    }

    /// Looks a tenant up by id.
    pub fn get(&self, id: &u32) -> (r: Option<&Company>)
        requires
            self.wf(),
        ensures
            (*id as int) < self.companies@.len() ==> (r matches Some(c) && *c
                == self.companies@[*id as int]),
            (*id as int) >= self.companies@.len() ==> r is None,
    {
        if *id < self.counter {
            Some(&self.companies[*id as usize])
        } else {
            None
        }
    }

    /// Looks a tenant up by id for mutation.
    pub fn get_mut(&mut self, id: &u32) -> (r: Option<&mut Company>)
        requires
            old(self).wf(),
        ensures
            (*id as int) >= old(self).companies@.len() ==> (r is None && *final(self) == *old(
                self,
            )),
            (*id as int) < old(self).companies@.len() ==> (r matches Some(c) && *c == old(
                self,
            ).companies@[*id as int] && final(self).companies@ == old(self).companies@.update(
                *id as int,
                *final(c),
            ) && final(self).owner_mapping@ == old(self).owner_mapping@ && final(self).counter
                == old(self).counter),
    {
        if *id < self.counter {
            Some(&mut self.companies[*id as usize])
        } else {
            None
        }
    }

    /// The id of the first tenant this identity registered, if any.
    pub fn get_id_by_principal(&self, p: &Principal) -> (r: Option<u32>)
        requires
            self.wf(),
        ensures
            r is Some <==> self.spec_has_owner(p@),
            r matches Some(id) ==> id == self.spec_owner_id(p@) && (id as int)
                < self.companies@.len() && self.companies@[id as int].owner@ == p@,
    {
        let n = self.owner_mapping.len();
        let mut i: usize = 0;
        while i < n
            invariant
                self.wf(),
                i <= n,
                n == self.owner_mapping@.len(),
                forall|j: int| 0 <= j < i ==> (#[trigger] self.owner_mapping@[j].0@) != p@,
            decreases n - i,
        {
            if self.owner_mapping[i].0 == *p {
                return Some(self.owner_mapping[i].1);
            }
            i = i + 1;
        }
        None
    }
}

} // verus!
