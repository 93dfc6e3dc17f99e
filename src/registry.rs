use vstd::prelude::*;
use crate::types::{
    AeronauticPart, Error, OrgType, Organization, OrganizationView, PartView, Principal,
    names_unique,
};

verus! {

/// The registry: its administrators, the rosters of OEM and MRO organizations,
/// and the parts, keyed by uid.
pub struct PartsRegistry {
    pub admins: Vec<Principal>,
    pub oem_orgs: Vec<Organization>,
    pub mro_orgs: Vec<Organization>,
    pub parts: Vec<AeronauticPart>,
}

/// The mathematical value of the registry.
pub struct RegistryView {
    pub admins: Seq<Principal>,
    pub oems: Seq<OrganizationView>,
    pub mros: Seq<OrganizationView>,
    pub parts: Seq<PartView>,
}

/// `p` stands in `roster` with its `active` flag set.
pub open spec fn active_in(roster: Seq<OrganizationView>, p: Principal) -> bool {
    exists|i: int| 0 <= i < roster.len() && #[trigger] roster[i].id == p && roster[i].active
}

/// Some part of `parts` has this uid.
pub open spec fn uid_in(parts: Seq<PartView>, uid: Seq<char>) -> bool {
    exists|i: int| 0 <= i < parts.len() && #[trigger] parts[i].uid == uid
}

/// No two parts share a uid.
pub open spec fn uids_unique(parts: Seq<PartView>) -> bool {
    forall|i: int, j: int|
        0 <= i < parts.len() && 0 <= j < parts.len() && i != j ==> #[trigger] parts[i].uid
            != #[trigger] parts[j].uid
}

/// No two parts share a uid, and no part holds two documents of one name.
pub open spec fn parts_wf(parts: Seq<PartView>) -> bool {
    &&& uids_unique(parts)
    &&& forall|i: int| 0 <= i < parts.len() ==> names_unique(#[trigger] parts[i].documents)
}

/// A fresh organization record of the given kind.
pub open spec fn new_org(
    id: Principal,
    name: Seq<char>,
    kind: OrgType,
    certificates: Seq<Seq<char>>,
) -> OrganizationView {
    OrganizationView { id, name, org_type: kind, certificates, active: true }
}

impl RegistryView {
    pub open spec fn is_admin(self, p: Principal) -> bool {
        self.admins.contains(p)
    }

    pub open spec fn is_active_oem(self, p: Principal) -> bool {
        active_in(self.oems, p)
    }

    pub open spec fn is_active_mro(self, p: Principal) -> bool {
        active_in(self.mros, p)
    }

    pub open spec fn has_part(self, uid: Seq<char>) -> bool {
        uid_in(self.parts, uid)
    }

    /// The position of the part with this uid.
    pub open spec fn index_of(self, uid: Seq<char>) -> int {
        choose|i: int| 0 <= i < self.parts.len() && #[trigger] self.parts[i].uid == uid
    }

    /// The part with this uid.
    pub open spec fn part(self, uid: Seq<char>) -> PartView {
        self.parts[self.index_of(uid)]
    }

    pub open spec fn is_owner(self, p: Principal, uid: Seq<char>) -> bool {
        self.has_part(uid) && self.part(uid).current_owner == p
    }

    pub open spec fn can_update_status(self, p: Principal, uid: Seq<char>) -> bool {
        self.is_active_mro(p) || self.is_owner(p, uid)
    }

    pub open spec fn can_attach_document(self, p: Principal, uid: Seq<char>) -> bool {
        self.is_active_mro(p) || self.is_active_oem(p) || self.is_owner(p, uid)
    }

    /// The registry with the part of this uid replaced by `p`.
    pub open spec fn with_part(self, uid: Seq<char>, p: PartView) -> RegistryView {
        RegistryView { parts: self.parts.update(self.index_of(uid), p), ..self }
    }
}

impl View for PartsRegistry {
    type V = RegistryView;

    open spec fn view(&self) -> RegistryView {
        RegistryView {
            admins: self.admins@,
            oems: self.oem_orgs@.map_values(|o: Organization| o@),
            mros: self.mro_orgs@.map_values(|o: Organization| o@),
            parts: self.parts@.map_values(|p: AeronauticPart| p@),
        }
    }
}

/// Whether `roster` holds an active entry for `p`.
pub(crate) fn find_active(roster: &Vec<Organization>, p: Principal) -> (r: bool)
    ensures
        r == active_in(roster@.map_values(|o: Organization| o@), p),
{
    let ghost v = roster@.map_values(|o: Organization| o@);
    let mut i: usize = 0;
    while i < roster.len()
        invariant
            i <= roster@.len(),
            v == roster@.map_values(|o: Organization| o@),
            forall|k: int| 0 <= k < i ==> !(#[trigger] v[k].id == p && v[k].active),
        decreases roster@.len() - i,
    {
        if roster[i].id == p && roster[i].active {
            assert(v[i as int].id == p && v[i as int].active);
            return true;
        }
        i = i + 1;
    }
    false
}

impl PartsRegistry {
    pub open spec fn wf(&self) -> bool {
        parts_wf(self@.parts)
    }

    /// A registry with no administrator, organization or part.
    pub fn new() -> (r: PartsRegistry)
        ensures
            r.wf(),
            r@.admins.len() == 0,
            r@.oems.len() == 0,
            r@.mros.len() == 0,
            r@.parts.len() == 0,
    {
        let r = PartsRegistry {
            admins: Vec::new(),
            oem_orgs: Vec::new(),
            mro_orgs: Vec::new(),
            parts: Vec::new(),
        };
        assert(r@.parts.len() == 0);
        r
    }

    /// The position of the part with this uid, if any.
    pub(crate) fn find_part(&self, uid: &String) -> (r: Option<usize>)
        requires
            self.wf(),
        ensures
            match r {
                Some(i) => self@.has_part(uid@) && i as int == self@.index_of(uid@) && i
                    < self@.parts.len(),
                None => !self@.has_part(uid@),
            },
    {
        let ghost v = self@.parts;
        let mut i: usize = 0;
        while i < self.parts.len()
            invariant
                i <= self@.parts.len(),
                v == self@.parts,
                parts_wf(v),
                forall|k: int| 0 <= k < i ==> #[trigger] v[k].uid != uid@,
            decreases self@.parts.len() - i,
        {
            if self.parts[i].uid == *uid {
                assert(v[i as int].uid == uid@);
                assert(self@.has_part(uid@));
                let ghost j = self@.index_of(uid@);
                assert(0 <= j < v.len() && v[j].uid == uid@);
                assert(j == i as int) by {
                    if j != i as int {
                        assert(v[j].uid != v[i as int].uid);
                    }
                }
                return Some(i);
            }
            i = i + 1;
        }
        None
    }

    /// Succeeds when `address` is an administrator.
    pub fn ensure_is_admin(&self, address: Principal) -> (r: Result<(), Error>)
        ensures
            r == (if self@.is_admin(address) {
                Ok(())
            } else {
                Err(Error::NotAuthorized)
            }),
    {
        let mut i: usize = 0;
        while i < self.admins.len()
            invariant
                i <= self.admins@.len(),
                forall|k: int| 0 <= k < i ==> self.admins@[k] != address,
            decreases self.admins@.len() - i,
        {
            if self.admins[i] == address {
                assert(self.admins@[i as int] == address);
                return Ok(());
            }
            i = i + 1;
        }
        Err(Error::NotAuthorized)
    }

    /// Succeeds when `address` is an active OEM.
    pub fn ensure_is_oem(&self, address: Principal) -> (r: Result<(), Error>)
        ensures
            r == (if self@.is_active_oem(address) {
                Ok(())
            } else {
                Err(Error::NotAnOEM)
            }),
    {
        if find_active(&self.oem_orgs, address) {
            Ok(())
        } else {
            Err(Error::NotAnOEM)
        }
    }

    /// Succeeds when `address` is an active MRO.
    pub fn ensure_is_mro(&self, address: Principal) -> (r: Result<(), Error>)
        ensures
            r == (if self@.is_active_mro(address) {
                Ok(())
            } else {
                Err(Error::OrgNotRegistered)
            }),
    {
        if find_active(&self.mro_orgs, address) {
            Ok(())
        } else {
            Err(Error::OrgNotRegistered)
        }
    }

    /// Succeeds when `address` is an active MRO or owns the part `part_uid`.
    pub fn ensure_is_mro_or_owner(&self, address: Principal, part_uid: &String) -> (r: Result<
        (),
        Error,
    >)
        requires
            self.wf(),
        ensures
            r == (if self@.is_active_mro(address) {
                Ok(())
            } else if !self@.has_part(part_uid@) {
                Err(Error::PartNotFound)
            } else if self@.part(part_uid@).current_owner != address {
                Err(Error::NotAuthorized)
            } else {
                Ok(())
            }),
    {
        if find_active(&self.mro_orgs, address) {
            return Ok(());
        }
        match self.find_part(part_uid) {
            None => Err(Error::PartNotFound),
            Some(i) => {
                if self.parts[i].current_owner != address {
                    Err(Error::NotAuthorized)
                } else {
                    Ok(())
                }
            },
        }
    }

    /// Succeeds when `address` is an active MRO, an active OEM, or owns the
    /// part `part_uid`.
    pub fn ensure_can_add_document(&self, address: Principal, part_uid: &String) -> (r: Result<
        (),
        Error,
    >)
        requires
            self.wf(),
        ensures
            r == (if self@.is_active_mro(address) || self@.is_active_oem(address) {
                Ok(())
            } else if !self@.has_part(part_uid@) {
                Err(Error::PartNotFound)
            } else if self@.part(part_uid@).current_owner != address {
                Err(Error::NotAuthorized)
            } else {
                Ok(())
            }),
    {
        if find_active(&self.mro_orgs, address) {
            return Ok(());
        }
        if find_active(&self.oem_orgs, address) {
            return Ok(());
        }
        match self.find_part(part_uid) {
            None => Err(Error::PartNotFound),
            Some(i) => {
                if self.parts[i].current_owner == address {
                    Ok(())
                } else {
                    Err(Error::NotAuthorized)
                }
            },
        }
    }
}

} // verus!
