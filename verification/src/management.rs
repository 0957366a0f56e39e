use vstd::prelude::*;

use crate::ident::Principal;

verus! {

/// Whether some identity in the vector has this text.
pub open spec fn has_text(s: Seq<Principal>, q: Seq<char>) -> bool {
    exists|i: int| 0 <= i < s.len() && (#[trigger] s[i]@) == q
}

/// The access control gate: one owner identity, a set of manager identities,
/// a set of allow-listed accesser identities, and a flag that turns
/// enforcement of the allow list on and off.
///
/// Both sets have set semantics — an identity is in or out, never counted
/// twice — and are held as duplicate-free vectors of identities.
pub struct AccessControl {
    pub owner: Principal,
    pub access_list_enabled: bool,
    pub managers: Vec<Principal>,
    pub accessers: Vec<Principal>,
}

impl Default for AccessControl {
    /// The pre-initialization gate: placeholder owner, enforcement on,
    /// empty sets.
    fn default() -> (r: Self)
        ensures
            r.wf(),
            r.owner@ == Seq::<char>::empty(),
            r.access_list_enabled,
            r.managers@.len() == 0,
            r.accessers@.len() == 0,
    {
        AccessControl::new()
    }
}

impl AccessControl {
    /// Well-formedness: neither set holds an identity twice.
    pub open spec fn wf(&self) -> bool {
        &&& forall|i: int, j: int|
            0 <= i < j < self.managers@.len() ==> (#[trigger] self.managers@[i]@) != (
            #[trigger] self.managers@[j]@)
        &&& forall|i: int, j: int|
            0 <= i < j < self.accessers@.len() ==> (#[trigger] self.accessers@[i]@) != (
            #[trigger] self.accessers@[j]@)
    }

    /// Whether this identity is in the manager set.
    pub open spec fn spec_is_manager(&self, p: Seq<char>) -> bool {
        has_text(self.managers@, p)
    }

    /// Whether this identity is in the accesser allow list.
    pub open spec fn spec_is_accesser(&self, p: Seq<char>) -> bool {
        has_text(self.accessers@, p)
    }

    /// Whether this identity may access: unconditionally while the allow
    /// list is disabled, by membership while it is enforced.
    pub open spec fn spec_is_allowed(&self, p: Seq<char>) -> bool {
        !self.access_list_enabled || self.spec_is_accesser(p)
    }

    /// A gate with a placeholder owner, an enabled allow list and empty sets.
    /// The real owner is fixed once, at initialization.
    pub fn new() -> (r: AccessControl)
        ensures
            r.wf(),
            r.owner@ == Seq::<char>::empty(),
            r.access_list_enabled,
            r.managers@.len() == 0,
            r.accessers@.len() == 0,
    {
        AccessControl {
            owner: Principal::new(String::new()),
            access_list_enabled: true,
            managers: Vec::new(),
            accessers: Vec::new(),
        }
    }

    /// Fixes the owner identity.  Called once, at initialization.
    pub fn set_owner(&mut self, owner: Principal)
        requires
            old(self).wf(),
        ensures
            final(self).wf(),
            final(self).owner == owner,
            final(self).access_list_enabled == old(self).access_list_enabled,
            final(self).managers == old(self).managers,
            final(self).accessers == old(self).accessers,
    {
        self.owner = owner;
    }

    /// Whether this identity is the owner.
    pub fn is_owner(&self, p: Principal) -> (r: bool)
        ensures
            r == (p@ == self.owner@),
    {
        self.owner == p
    }

    /// Puts an identity into the manager set.  Returns whether it was new.
    pub fn add_manager(&mut self, manager: Principal) -> (r: bool)
        requires
            old(self).wf(),
        ensures
            final(self).wf(),
            r == !old(self).spec_is_manager(manager@),
            forall|q: Seq<char>|
                final(self).spec_is_manager(q) <==> (old(self).spec_is_manager(q) || q
                    == manager@),
            final(self).owner == old(self).owner,
            final(self).access_list_enabled == old(self).access_list_enabled,
            final(self).accessers == old(self).accessers,
    {
        let present = contains_principal(&self.managers, &manager);
        if present {
            false
        } else {
            self.managers.push(manager);
            proof {
                assert(self.managers@[self.managers@.len() - 1]@ == manager@);
                assert forall|q: Seq<char>| old(self).spec_is_manager(q) implies self.spec_is_manager(
                    q,
                ) by {
                    let i = choose|i: int|
                        0 <= i < old(self).managers@.len() && (#[trigger] old(self).managers@[i]@)
                            == q;
                    assert(self.managers@[i]@ == q);
                }
            }
            true
        }
    }

    /// Puts an identity into the accesser allow list.  Returns whether it
    /// was new.
    pub fn add_accesser(&mut self, accesser: Principal) -> (r: bool)
        requires
            old(self).wf(),
        ensures
            final(self).wf(),
            r == !old(self).spec_is_accesser(accesser@),
            forall|q: Seq<char>|
                final(self).spec_is_accesser(q) <==> (old(self).spec_is_accesser(q) || q
                    == accesser@),
            final(self).owner == old(self).owner,
            final(self).access_list_enabled == old(self).access_list_enabled,
            final(self).managers == old(self).managers,
    {
        let present = contains_principal(&self.accessers, &accesser);
        if present {
            false
        } else {
            self.accessers.push(accesser);
            proof {
                assert(self.accessers@[self.accessers@.len() - 1]@ == accesser@);
                assert forall|q: Seq<char>|
                    old(self).spec_is_accesser(q) implies self.spec_is_accesser(q) by {
                    let i = choose|i: int|
                        0 <= i < old(self).accessers@.len() && (#[trigger] old(self).accessers@[i]@)
                            == q;
                    assert(self.accessers@[i]@ == q);
                }
            }
            true
        }
    }

    /// Whether this identity is on the accesser allow list.  This is raw
    /// membership; whether the list is enforced at all is the flag's affair.
    pub fn allow_access(&self, p: &Principal) -> (r: bool)
        ensures
            r == self.spec_is_accesser(p@),
    {
        contains_principal(&self.accessers, p)
    }

    /// Whether this identity is in the manager set.
    pub fn allow_manage(&self, p: &Principal) -> (r: bool)
        ensures
            r == self.spec_is_manager(p@),
    {
        contains_principal(&self.managers, p)
    }

    /// Turns enforcement of the accesser allow list on.
    pub fn enable_access_list(&mut self)
        ensures
            *final(self) == (AccessControl { access_list_enabled: true, ..*old(self) }),
    {
        self.access_list_enabled = true;
    }

    /// Turns enforcement of the accesser allow list off.
    pub fn disable_access_list(&mut self)
        ensures
            *final(self) == (AccessControl { access_list_enabled: false, ..*old(self) }),
    {
        self.access_list_enabled = false;
    }

    /// Takes an identity out of the manager set.  Returns whether it was
    /// there.
    pub fn remove_manager(&mut self, manager: &Principal) -> (r: bool)
        requires
            old(self).wf(),
        ensures
            final(self).wf(),
            r == old(self).spec_is_manager(manager@),
            forall|q: Seq<char>|
                final(self).spec_is_manager(q) <==> (old(self).spec_is_manager(q) && q
                    != manager@),
            final(self).owner == old(self).owner,
            final(self).access_list_enabled == old(self).access_list_enabled,
            final(self).accessers == old(self).accessers,
    {
        let r = remove_principal(&mut self.managers, manager);
        r
    }

    /// Takes an identity out of the accesser allow list.  Returns whether it
    /// was there.
    pub fn remove_accesser(&mut self, accesser: &Principal) -> (r: bool)
        requires
            old(self).wf(),
        ensures
            final(self).wf(),
            r == old(self).spec_is_accesser(accesser@),
            forall|q: Seq<char>|
                final(self).spec_is_accesser(q) <==> (old(self).spec_is_accesser(q) && q
                    != accesser@),
            final(self).owner == old(self).owner,
            final(self).access_list_enabled == old(self).access_list_enabled,
            final(self).managers == old(self).managers,
    {
        let r = remove_principal(&mut self.accessers, accesser);
        r
    }
}

/// Linear membership test over a vector of identities, by identity text.
fn contains_principal(v: &Vec<Principal>, p: &Principal) -> (r: bool)
    ensures
        r == has_text(v@, p@),
{
    let n = v.len();
    let mut i: usize = 0;
    while i < n
        invariant
            i <= n,
            n == v@.len(),
            forall|j: int| 0 <= j < i ==> (#[trigger] v@[j]@) != p@,
        decreases n - i,
    {
        if v[i] == *p {
            return true;
        }
        i = i + 1;
    }
    false
}

/// Removes the identity from a duplicate-free vector of identities, if it is
/// there.  Returns whether it was.
fn remove_principal(v: &mut Vec<Principal>, p: &Principal) -> (r: bool)
    requires
        forall|i: int, j: int|
            0 <= i < j < old(v)@.len() ==> (#[trigger] old(v)@[i]@) != (#[trigger] old(v)@[j]@),
    ensures
        forall|i: int, j: int|
            0 <= i < j < final(v)@.len() ==> (#[trigger] final(v)@[i]@) != (
            #[trigger] final(v)@[j]@),
        r == has_text(old(v)@, p@),
        forall|q: Seq<char>| #[trigger]
            has_text(final(v)@, q) <==> (has_text(old(v)@, q) && q != p@),
    decreases old(v)@.len(),
{
    let n = v.len();
    let mut i: usize = 0;
    while i < n
        invariant
            i <= n,
            n == v@.len(),
            *v == *old(v),
            forall|a: int, b: int|
                0 <= a < b < v@.len() ==> (#[trigger] v@[a]@) != (#[trigger] v@[b]@),
            forall|j: int| 0 <= j < i ==> (#[trigger] v@[j]@) != p@,
        decreases n - i,
    {
        if v[i] == *p {
            let ghost pre = v@;
            v.remove(i);
            proof {
                assert(v@ =~= pre.subrange(0, i as int) + pre.subrange(i + 1, pre.len() as int));
                assert(pre == old(v)@);
                assert(pre[i as int]@ == p@);
                assert forall|a: int, b: int| 0 <= a < b < v@.len() implies (#[trigger] v@[a]@) != (
                #[trigger] v@[b]@) by {
                    let a2: int = if a < i { a } else { a + 1 };
                    let b2: int = if b < i { b } else { b + 1 };
                    assert(v@[a] == pre[a2]);
                    assert(v@[b] == pre[b2]);
                    assert(pre[a2]@ != pre[b2]@);
                }
                assert forall|q: Seq<char>| #[trigger]
                    has_text(v@, q) implies (has_text(pre, q) && q != p@) by {
                    let k = choose|k: int| 0 <= k < v@.len() && (#[trigger] v@[k]@) == q;
                    if k < i {
                        assert(pre[k]@ == q);
                        assert(pre[k]@ != p@);
                    } else {
                        assert(pre[k + 1]@ == q);
                        assert(pre[k + 1]@ != pre[i as int]@);
                    }
                }
                assert forall|q: Seq<char>| has_text(pre, q) && q != p@ implies #[trigger]
                    has_text(v@, q) by {
                    let k = choose|k: int| 0 <= k < pre.len() && (#[trigger] pre[k]@) == q;
                    if k < i {
                        assert(v@[k]@ == q);
                    } else {
                        assert(k != i);
                        assert(v@[k - 1]@ == q);
                    }
                }
            }
            return true;
        }
        i = i + 1;
    }
    false
}

} // verus!
