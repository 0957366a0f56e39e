//! The operation surface: registration, ingestion, rebuild and query
//! routed through the tenant registry, and the admin operations guarded by
//! the access control gate.
//!
//! Administrative operations enforce their tier here (owner for the manager
//! set, manager for the accesser set, the flag and the state snapshot).
//! Tenant-scoped operations — append, rebuild, query — take no caller and
//! enforce nothing, matching the deployed surface; a host that wants them
//! gated composes the guards (`only_owner`, `only_manager`,
//! `only_allowed_accesser`, `caller_same_with_comp_owner`) in front of
//! them.

use vstd::prelude::*;

use crate::comp::{Company, CompanyCollection};
use crate::config::EMBEDDING_LENGTH;
use crate::db::key_views;
use crate::db::lemma_resolve_membership;
use crate::errors::Error;
use crate::ident::Principal;
use crate::index::Vector;
use crate::management::AccessControl;

verus! {

/// The component arrays, among the submitted key/payload pairs, whose key
/// has the fixed embedding dimension; pairs with a key of any other length
/// are silently skipped at this validation boundary.
pub open spec fn spec_kept_keys(ks: Seq<Vec<u64>>, vs: Seq<String>) -> Seq<Seq<u64>>
    decreases ks.len(),
{
    if ks.len() == 0 || vs.len() == 0 {
        Seq::empty()
    } else if ks.last()@.len() == EMBEDDING_LENGTH {
        spec_kept_keys(ks.drop_last(), vs.drop_last()).push(ks.last()@)
    } else {
        spec_kept_keys(ks.drop_last(), vs.drop_last())
    }
}

/// The payloads belonging to the kept pairs, in the same order.
pub open spec fn spec_kept_values(ks: Seq<Vec<u64>>, vs: Seq<String>) -> Seq<String>
    decreases ks.len(),
{
    if ks.len() == 0 || vs.len() == 0 {
        Seq::empty()
    } else if ks.last()@.len() == EMBEDDING_LENGTH {
        spec_kept_values(ks.drop_last(), vs.drop_last()).push(vs.last())
    } else {
        spec_kept_values(ks.drop_last(), vs.drop_last())
    }
}

/// One-time system initialization: the given caller becomes the permanent
/// owner and is seeded into the manager set, so the owner is a manager by
/// convention.
pub fn initialize(acl: &mut AccessControl, caller: Principal)
    requires
        old(acl).wf(),
    ensures
        final(acl).wf(),
        final(acl).owner@ == caller@,
        final(acl).spec_is_manager(caller@),
        forall|q: Seq<char>|
            final(acl).spec_is_manager(q) <==> (old(acl).spec_is_manager(q) || q == caller@),
        final(acl).accessers == old(acl).accessers,
        final(acl).access_list_enabled == old(acl).access_list_enabled,
{
    let seed = caller.clone();
    acl.set_owner(caller);
    acl.add_manager(seed);
}

/// Owner guard: passes exactly for the owner identity.
pub fn only_owner(acl: &AccessControl, caller: &Principal) -> (r: Result<(), Error>)
    ensures
        r is Ok <==> caller@ == acl.owner@,
        r is Err ==> r == Result::<(), Error>::Err(Error::PermissionDenied),
{
    if acl.is_owner(caller.clone()) {
        Ok(())
    } else {
        Err(Error::PermissionDenied)
    }
}

/// Manager guard: passes exactly for identities in the manager set.
pub fn only_manager(acl: &AccessControl, caller: &Principal) -> (r: Result<(), Error>)
    ensures
        r is Ok <==> acl.spec_is_manager(caller@),
        r is Err ==> r == Result::<(), Error>::Err(Error::PermissionDenied),
{
    if acl.allow_manage(caller) {
        Ok(())
    } else {
        Err(Error::PermissionDenied)
    }
}

/// Accesser guard: passes for every identity while the allow list is
/// disabled, and exactly for allow-listed identities while it is enabled.
pub fn only_allowed_accesser(acl: &AccessControl, caller: &Principal) -> (r: Result<(), Error>)
    ensures
        r is Ok <==> acl.spec_is_allowed(caller@),
        r is Err ==> r == Result::<(), Error>::Err(Error::PermissionDenied),
{
    if !acl.access_list_enabled || acl.allow_access(caller) {
        Ok(())
    } else {
        Err(Error::PermissionDenied)
    }
}

/// Once the allow list is switched off, every identity whatsoever passes
/// the accesser guard; membership of the accesser set no longer matters.
pub proof fn lemma_disabled_allow_list_admits_all(acl: AccessControl, p: Seq<char>)
    requires
        !acl.access_list_enabled,
    ensures
        acl.spec_is_allowed(p),
{
}

/// Whether the identity is in the manager set.
pub fn is_manager(acl: &AccessControl, p: &Principal) -> (r: bool)
    ensures
        r == acl.spec_is_manager(p@),
{
    acl.allow_manage(p)
}

/// Whether the caller is allow-listed and owns the given tenant: true
/// exactly when the caller is on the accesser list, the tenant exists, and
/// its recorded owner is the caller.
pub fn caller_same_with_comp_owner(
    acl: &AccessControl,
    comps: &CompanyCollection,
    caller: &Principal,
    comp_id: &u32,
) -> (r: bool)
    requires
        comps.wf(),
    ensures
        r == (acl.spec_is_accesser(caller@) && (*comp_id as int) < comps.companies@.len()
            && comps.companies@[*comp_id as int].owner@ == caller@),
{
    let mut allow = acl.allow_access(caller);
    match comps.get(comp_id) {
        Some(c) => {
            allow = allow && c.owner == *caller;
        },
        None => {
            allow = false;
        },
    }
    allow
}

/// Adds a manager.  Only the owner may do this: any other caller is turned
/// away with a permission error and no state change.
pub fn add_manager(acl: &mut AccessControl, caller: &Principal, manager: Principal) -> (r: Result<
    bool,
    Error,
>)
    requires
        old(acl).wf(),
    ensures
        final(acl).wf(),
        caller@ != old(acl).owner@ ==> (r == Result::<bool, Error>::Err(Error::PermissionDenied)
            && *final(acl) == *old(acl)),
        caller@ == old(acl).owner@ ==> {
            &&& r == Result::<bool, Error>::Ok(!old(acl).spec_is_manager(manager@))
            &&& forall|q: Seq<char>|
                final(acl).spec_is_manager(q) <==> (old(acl).spec_is_manager(q) || q == manager@)
            &&& final(acl).owner == old(acl).owner
            &&& final(acl).access_list_enabled == old(acl).access_list_enabled
            &&& final(acl).accessers == old(acl).accessers
        },
{
    only_owner(acl, caller)?;
    Ok(acl.add_manager(manager))
}

/// Removes a manager.  Only the owner may do this.
pub fn remove_manager(acl: &mut AccessControl, caller: &Principal, manager: &Principal) -> (r:
    Result<bool, Error>)
    requires
        old(acl).wf(),
    ensures
        final(acl).wf(),
        caller@ != old(acl).owner@ ==> (r == Result::<bool, Error>::Err(Error::PermissionDenied)
            && *final(acl) == *old(acl)),
        caller@ == old(acl).owner@ ==> {
            &&& r == Result::<bool, Error>::Ok(old(acl).spec_is_manager(manager@))
            &&& forall|q: Seq<char>|
                final(acl).spec_is_manager(q) <==> (old(acl).spec_is_manager(q) && q != manager@)
            &&& final(acl).owner == old(acl).owner
            &&& final(acl).access_list_enabled == old(acl).access_list_enabled
            &&& final(acl).accessers == old(acl).accessers
        },
{
    only_owner(acl, caller)?;
    Ok(acl.remove_manager(manager))
}

/// Adds an allow-listed accesser.  Only a manager may do this: any other
/// caller is turned away with a permission error and no state change.
pub fn add_accesser(acl: &mut AccessControl, caller: &Principal, accesser: Principal) -> (r: Result<
    bool,
    Error,
>)
    requires
        old(acl).wf(),
    ensures
        final(acl).wf(),
        !old(acl).spec_is_manager(caller@) ==> (r == Result::<bool, Error>::Err(
            Error::PermissionDenied,
        ) && *final(acl) == *old(acl)),
        old(acl).spec_is_manager(caller@) ==> {
            &&& r == Result::<bool, Error>::Ok(!old(acl).spec_is_accesser(accesser@))
            &&& forall|q: Seq<char>|
                final(acl).spec_is_accesser(q) <==> (old(acl).spec_is_accesser(q) || q
                    == accesser@)
            &&& final(acl).owner == old(acl).owner
            &&& final(acl).access_list_enabled == old(acl).access_list_enabled
            &&& final(acl).managers == old(acl).managers
        },
{
    only_manager(acl, caller)?;
    Ok(acl.add_accesser(accesser))
}

/// Removes an allow-listed accesser.  Only a manager may do this.
pub fn remove_accesser(acl: &mut AccessControl, caller: &Principal, accesser: &Principal) -> (r:
    Result<bool, Error>)
    requires
        old(acl).wf(),
    ensures
        final(acl).wf(),
        !old(acl).spec_is_manager(caller@) ==> (r == Result::<bool, Error>::Err(
            Error::PermissionDenied,
        ) && *final(acl) == *old(acl)),
        old(acl).spec_is_manager(caller@) ==> {
            &&& r == Result::<bool, Error>::Ok(old(acl).spec_is_accesser(accesser@))
            &&& forall|q: Seq<char>|
                final(acl).spec_is_accesser(q) <==> (old(acl).spec_is_accesser(q) && q
                    != accesser@)
            &&& final(acl).owner == old(acl).owner
            &&& final(acl).access_list_enabled == old(acl).access_list_enabled
            &&& final(acl).managers == old(acl).managers
        },
{
    only_manager(acl, caller)?;
    Ok(acl.remove_accesser(accesser))
}

/// Switches enforcement of the accesser allow list.  Only a manager may do
/// this.
pub fn set_acl_enabled(acl: &mut AccessControl, caller: &Principal, enable: bool) -> (r: Result<
    (),
    Error,
>)
    requires
        old(acl).wf(),
    ensures
        final(acl).wf(),
        !old(acl).spec_is_manager(caller@) ==> (r == Result::<(), Error>::Err(
            Error::PermissionDenied,
        ) && *final(acl) == *old(acl)),
        old(acl).spec_is_manager(caller@) ==> (r == Result::<(), Error>::Ok(()) && *final(acl) == (
        AccessControl { access_list_enabled: enable, ..*old(acl) })),
{
    only_manager(acl, caller)?;
    if enable {
        acl.enable_access_list();
    } else {
        acl.disable_access_list();
    }
    Ok(())
}

/// Hands back a snapshot of the whole access control state.  Only a
/// manager may read it.
pub fn states(acl: &AccessControl, caller: &Principal) -> (r: Result<AccessControl, Error>)
    requires
        acl.wf(),
    ensures
        r is Ok <==> acl.spec_is_manager(caller@),
        r matches Ok(s) ==> {
            &&& s.wf()
            &&& s.owner@ == acl.owner@
            &&& s.access_list_enabled == acl.access_list_enabled
            &&& forall|q: Seq<char>| s.spec_is_manager(q) <==> acl.spec_is_manager(q)
            &&& forall|q: Seq<char>| s.spec_is_accesser(q) <==> acl.spec_is_accesser(q)
        },
        r is Err ==> r == Result::<AccessControl, Error>::Err(Error::PermissionDenied),
{
    only_manager(acl, caller)?;
    let snapshot = AccessControl {
        owner: acl.owner.clone(),
        access_list_enabled: acl.access_list_enabled,
        managers: clone_principals(&acl.managers),
        accessers: clone_principals(&acl.accessers),
    };
    proof {
        lemma_same_texts_same_membership(snapshot.managers@, acl.managers@);
        lemma_same_texts_same_membership(snapshot.accessers@, acl.accessers@);
    }
    Ok(snapshot)
}

/// Two identity vectors that agree text-by-text hold the same identities.
proof fn lemma_same_texts_same_membership(a: Seq<Principal>, b: Seq<Principal>)
    requires
        a.len() == b.len(),
        forall|i: int| 0 <= i < a.len() ==> (#[trigger] a[i]@) == b[i]@,
    ensures
        forall|q: Seq<char>| #[trigger]
            crate::management::has_text(a, q) <==> crate::management::has_text(b, q),
        (forall|i: int, j: int| 0 <= i < j < b.len() ==> (#[trigger] b[i]@) != (#[trigger] b[j]@))
            ==> (forall|i: int, j: int|
            0 <= i < j < a.len() ==> (#[trigger] a[i]@) != (#[trigger] a[j]@)),
{
    assert forall|q: Seq<char>| #[trigger]
        crate::management::has_text(a, q) implies crate::management::has_text(b, q) by {
        let i = choose|i: int| 0 <= i < a.len() && (#[trigger] a[i]@) == q;
        assert(b[i]@ == q);
    }
    assert forall|q: Seq<char>| #[trigger]
        crate::management::has_text(b, q) implies crate::management::has_text(a, q) by {
        let i = choose|i: int| 0 <= i < b.len() && (#[trigger] b[i]@) == q;
        assert(a[i]@ == q);
    }
}

/// Element-by-element copy of a vector of identities, preserving each
/// identity's text.
fn clone_principals(v: &Vec<Principal>) -> (r: Vec<Principal>)
    ensures
        r@.len() == v@.len(),
        forall|i: int| 0 <= i < v@.len() ==> (#[trigger] r@[i]@) == v@[i]@,
{
    let n = v.len();
    let mut r: Vec<Principal> = Vec::new();
    let mut i: usize = 0;
    while i < n
        invariant
            i <= n,
            n == v@.len(),
            r@.len() == i,
            forall|j: int| 0 <= j < i ==> (#[trigger] r@[j]@) == v@[j]@,
        decreases n - i,
    {
        r.push(v[i].clone());
        i = i + 1;
    }
    r
}

/// Registers a new tenant for the given owner.  Allocates the next id and
/// returns it; registration itself never fails.
pub fn register(comps: &mut CompanyCollection, owner: Principal, description: String) -> (r: Result<
    u32,
    Error,
>)
    requires
        old(comps).wf(),
        old(comps).companies@.len() < u32::MAX,
    ensures
        final(comps).wf(),
        r == Result::<u32, Error>::Ok(old(comps).counter),
        final(comps).counter == old(comps).counter + 1,
        final(comps).companies@.len() == old(comps).companies@.len() + 1,
        forall|j: int|
            0 <= j < old(comps).companies@.len() ==> final(comps).companies@[j] == old(
                comps,
            ).companies@[j],
        final(comps).companies@.last().owner@ == owner@,
        final(comps).companies@.last().description == description,
        final(comps).companies@.last().db.keys@.len() == 0,
        final(comps).companies@.last().db.storage@.len() == 0,
        final(comps).companies@.last().db.indexed == 0,
        final(comps).spec_has_owner(owner@),
{
    let c = Company::new(owner, description);
    Ok(comps.register(c))
}

/// Rebuilds the similarity index of the given tenant over its entire
/// current log.  An unknown tenant id is reported and changes nothing.
pub fn build_index(comps: &mut CompanyCollection, id: u32) -> (r: Result<(), Error>)
    requires
        old(comps).wf(),
    ensures
        final(comps).wf(),
        r is Ok <==> (id as int) < old(comps).companies@.len(),
        (id as int) >= old(comps).companies@.len() ==> (r == Result::<(), Error>::Err(
            Error::NoSuchTenant,
        ) && *final(comps) == *old(comps)),
        (id as int) < old(comps).companies@.len() ==> {
            &&& final(comps).companies@.len() == old(comps).companies@.len()
            &&& forall|j: int|
                0 <= j < old(comps).companies@.len() && j != id ==> final(comps).companies@[j]
                    == old(comps).companies@[j]
            &&& final(comps).companies@[id as int].owner == old(comps).companies@[id as int].owner
            &&& final(comps).companies@[id as int].description == old(comps).companies@[id
                as int].description
            &&& final(comps).companies@[id as int].db.keys@ == old(comps).companies@[id
                as int].db.keys@
            &&& final(comps).companies@[id as int].db.values@ == old(comps).companies@[id
                as int].db.values@
            &&& final(comps).companies@[id as int].db.storage@ == old(comps).companies@[id
                as int].db.storage@
            &&& final(comps).companies@[id as int].db.indexed == old(comps).companies@[id
                as int].db.keys@.len()
            &&& final(comps).owner_mapping@ == old(comps).owner_mapping@
            &&& final(comps).counter == old(comps).counter
        },
{
    match comps.get_mut(&id) {
        Some(c) => {
            c.db.build_index();
            Ok(())
        },
        None => Err(Error::NoSuchTenant),
    }
}

/// Validates and appends key/payload pairs to the given tenant's log.
///
/// The key and payload arrays must have the same length; otherwise the whole
/// call is rejected and nothing is written.  Among the submitted pairs, any
/// whose key does not have the fixed embedding dimension is silently skipped;
/// the surviving pairs are appended to the tenant's log in input order.  The
/// tenant's index snapshot is untouched: the new entries stay invisible to
/// queries until the index is explicitly rebuilt.
pub fn append_keys_values(
    comps: &mut CompanyCollection,
    id: u32,
    keys: Vec<Vec<u64>>,
    values: Vec<String>,
) -> (r: Result<(), Error>)
    requires
        old(comps).wf(),
    ensures
        final(comps).wf(),
        r is Ok <==> (keys@.len() == values@.len() && (id as int) < old(comps).companies@.len()),
        keys@.len() != values@.len() ==> (r == Result::<(), Error>::Err(Error::LengthMismatch)
            && *final(comps) == *old(comps)),
        keys@.len() == values@.len() && (id as int) >= old(comps).companies@.len() ==> (r
            == Result::<(), Error>::Err(Error::NoSuchTenant) && *final(comps) == *old(comps)),
        keys@.len() == values@.len() && (id as int) < old(comps).companies@.len() ==> {
            &&& final(comps).companies@.len() == old(comps).companies@.len()
            &&& forall|j: int|
                0 <= j < old(comps).companies@.len() && j != id ==> final(comps).companies@[j]
                    == old(comps).companies@[j]
            &&& final(comps).companies@[id as int].owner == old(comps).companies@[id as int].owner
            &&& final(comps).companies@[id as int].description == old(comps).companies@[id
                as int].description
            &&& key_views(final(comps).companies@[id as int].db.keys@) == key_views(
                old(comps).companies@[id as int].db.keys@,
            ) + spec_kept_keys(keys@, values@)
            &&& final(comps).companies@[id as int].db.storage@ == old(comps).companies@[id
                as int].db.storage@ + spec_kept_values(keys@, values@)
            &&& final(comps).companies@[id as int].db.indexed == old(comps).companies@[id
                as int].db.indexed
            &&& final(comps).owner_mapping@ == old(comps).owner_mapping@
            &&& final(comps).counter == old(comps).counter
        },
{
    if keys.len() != values.len() {
        return Err(Error::LengthMismatch);
    }
    match comps.get_mut(&id) {
        Some(c) => {
            let mut points: Vec<Vector> = Vec::new();
            let mut payloads: Vec<String> = Vec::new();
            let n = keys.len();
            let mut i: usize = 0;
            while i < n
                invariant
                    i <= n,
                    n == keys@.len(),
                    n == values@.len(),
                    points@.len() == payloads@.len(),
                    key_views(points@) == spec_kept_keys(
                        keys@.take(i as int),
                        values@.take(i as int),
                    ),
                    payloads@ == spec_kept_values(keys@.take(i as int), values@.take(i as int)),
                    forall|j: int| 0 <= j < points@.len() ==> (#[trigger] points@[j]).wf(),
                decreases n - i,
            {
                let key_arr = (&keys[i]).clone();
                proof {
                    assert(key_arr@ =~= keys@[i as int]@);
                }
                let ghost pre_points = points@;
                let ghost pre_payloads = payloads@;
                if key_arr.len() == EMBEDDING_LENGTH {
                    match Vector::from_raw(key_arr) {
                        Ok(p) => {
                            points.push(p);
                            payloads.push((&values[i]).clone());
                        },
                        Err(_) => {},
                    }
                }
                i = i + 1;
                proof {
                    let tk = keys@.take(i as int);
                    let tv = values@.take(i as int);
                    assert(tk.drop_last() =~= keys@.take(i - 1));
                    assert(tv.drop_last() =~= values@.take(i - 1));
                    assert(tk.last() == keys@[i - 1]);
                    assert(tv.last() == values@[i - 1]);
                    if keys@[i - 1]@.len() == EMBEDDING_LENGTH {
                        assert(key_views(points@) =~= key_views(pre_points).push(
                            points@.last()@,
                        ));
                    } else {
                        assert(points@ == pre_points);
                    }
                }
            }
            proof {
                assert(keys@.take(n as int) =~= keys@);
                assert(values@.take(n as int) =~= values@);
            }
            let ghost pre_db = c.db;
            let res = c.db.append(&mut points, &mut payloads);
            proof {
                assert(res is Ok);
                assert(key_views(c.db.keys@) =~= key_views(pre_db.keys@) + spec_kept_keys(
                    keys@,
                    values@,
                ));
            }
            Ok(())
        },
        None => Err(Error::NoSuchTenant),
    }
}

/// Answers a similarity query for the given tenant.  The probe must have
/// the fixed embedding dimension and the tenant must exist; the ranked
/// `(score, handle)` pairs the external nearest-neighbour search produced
/// over the tenant's index snapshot are resolved, in rank order and up to
/// the limit, to `(score, payload)` pairs.
pub fn get_similar(
    comps: &CompanyCollection,
    id: u32,
    q: Vec<u64>,
    ranked: &Vec<(u64, u64)>,
    limit: i32,
) -> (r: Result<Vec<(u64, String)>, Error>)
    requires
        comps.wf(),
    ensures
        r is Ok <==> (q@.len() == EMBEDDING_LENGTH && (id as int) < comps.companies@.len()),
        q@.len() != EMBEDDING_LENGTH ==> r == Result::<Vec<(u64, String)>, Error>::Err(
            Error::DimensionMismatch,
        ),
        q@.len() == EMBEDDING_LENGTH && (id as int) >= comps.companies@.len() ==> r == Result::<
            Vec<(u64, String)>,
            Error,
        >::Err(Error::NoSuchTenant),
        r matches Ok(res) ==> res@ == comps.companies@[id as int].db.spec_query(
            ranked@,
            limit as int,
        ),
{
    match Vector::from_raw(q) {
        Ok(_probe) => {
            match comps.get(&id) {
                Some(c) => Ok(c.db.query(ranked, limit)),
                None => Err(Error::NoSuchTenant),
            }
        },
        Err(e) => Err(e),
    }
}

} // verus!
