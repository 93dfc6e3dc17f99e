use vstd::prelude::*;
use crate::registry::{PartsRegistry, RegistryView, new_org, parts_wf};
use crate::types::{
    AeronauticPart, DocumentMap, Error, OrgType, Organization, PartStatus, PartView, Principal,
    names_unique, strs, upsert,
};

verus! {

/// The record of a part freshly created by `manufacturer` at time `now`.
pub open spec fn new_part(
    manufacturer: Principal,
    uid: Seq<char>,
    part_number: Seq<char>,
    serial_number: Seq<char>,
    documents: Seq<(Seq<char>, Seq<char>)>,
    now: u64,
) -> PartView {
    PartView {
        uid,
        part_number,
        serial_number,
        manufacturer,
        date_of_manufacture: now,
        current_owner: manufacturer,
        status: PartStatus::Active,
        total_hours: 0,
        total_cycles: 0,
        last_updated: now,
        documents,
    }
}

/// `p` with a new owner, stamped at `now`.
pub open spec fn transferred(p: PartView, new_owner: Principal, now: u64) -> PartView {
    PartView { current_owner: new_owner, last_updated: now, ..p }
}

/// `p` with a new status and new counter readings, stamped at `now`.
pub open spec fn restatused(
    p: PartView,
    status: PartStatus,
    hours: u32,
    cycles: u32,
    now: u64,
) -> PartView {
    PartView { status, total_hours: hours, total_cycles: cycles, last_updated: now, ..p }
}

/// `p` with `hash` stored under the document `name`, stamped at `now`.
pub open spec fn documented(p: PartView, name: Seq<char>, hash: Seq<char>, now: u64) -> PartView {
    PartView { documents: upsert(p.documents, name, hash), last_updated: now, ..p }
}

/// The outcome of seeding the registry with `admin`, and the state after it.
pub open spec fn initialize_step(s: RegistryView, admin: Principal) -> (Result<(), Error>, RegistryView) {
    if s.admins.len() > 0 {
        (Err(Error::AlreadyInitialized), s)
    } else {
        (Ok(()), RegistryView { admins: seq![admin], ..s })
    }
}

/// The outcome of registering an organization of kind `kind` (OEM or MRO),
/// and the state after it.
pub open spec fn register_step(
    s: RegistryView,
    caller: Principal,
    org: Principal,
    name: Seq<char>,
    kind: OrgType,
    certificates: Seq<Seq<char>>,
) -> (Result<(), Error>, RegistryView) {
    if !s.is_admin(caller) {
        (Err(Error::NotAuthorized), s)
    } else if kind == OrgType::OEM {
        (Ok(()), RegistryView { oems: s.oems.push(new_org(org, name, kind, certificates)), ..s })
    } else {
        (Ok(()), RegistryView { mros: s.mros.push(new_org(org, name, kind, certificates)), ..s })
    }
}

/// The outcome of creating a part, and the state after it.
pub open spec fn create_step(
    s: RegistryView,
    manufacturer: Principal,
    uid: Seq<char>,
    part_number: Seq<char>,
    serial_number: Seq<char>,
    documents: Seq<(Seq<char>, Seq<char>)>,
    now: u64,
) -> (Result<(), Error>, RegistryView) {
    if !s.is_active_oem(manufacturer) {
        (Err(Error::NotAnOEM), s)
    } else if s.has_part(uid) {
        (Err(Error::PartAlreadyExists), s)
    } else {
        (
            Ok(()),
            RegistryView {
                parts: s.parts.push(
                    new_part(manufacturer, uid, part_number, serial_number, documents, now),
                ),
                ..s
            },
        )
    }
}

/// The outcome of a transfer of ownership, and the state after it.
pub open spec fn transfer_step(
    s: RegistryView,
    current_owner: Principal,
    new_owner: Principal,
    uid: Seq<char>,
    now: u64,
) -> (Result<(), Error>, RegistryView) {
    if !s.has_part(uid) {
        (Err(Error::PartNotFound), s)
    } else if s.part(uid).current_owner != current_owner {
        (Err(Error::NotAuthorized), s)
    } else {
        (Ok(()), s.with_part(uid, transferred(s.part(uid), new_owner, now)))
    }
}

/// The outcome of a status update, and the state after it.
pub open spec fn status_step(
    s: RegistryView,
    caller: Principal,
    uid: Seq<char>,
    status: PartStatus,
    hours: u32,
    cycles: u32,
    now: u64,
) -> (Result<(), Error>, RegistryView) {
    if !s.has_part(uid) {
        (Err(Error::PartNotFound), s)
    } else if !s.can_update_status(caller, uid) {
        (Err(Error::NotAuthorized), s)
    } else {
        (Ok(()), s.with_part(uid, restatused(s.part(uid), status, hours, cycles, now)))
    }
}

/// The outcome of attaching a document, and the state after it.
pub open spec fn document_step(
    s: RegistryView,
    caller: Principal,
    uid: Seq<char>,
    name: Seq<char>,
    hash: Seq<char>,
    now: u64,
) -> (Result<(), Error>, RegistryView) {
    if !s.has_part(uid) {
        (Err(Error::PartNotFound), s)
    } else if !s.can_attach_document(caller, uid) {
        (Err(Error::NotAuthorized), s)
    } else {
        (Ok(()), s.with_part(uid, documented(s.part(uid), name, hash, now)))
    }
}

impl PartsRegistry {
    /// Replaces the part at position `i` by `p`, which keeps its uid.
    fn put_part(&mut self, i: usize, p: AeronauticPart)
        requires
            old(self).wf(),
            i < old(self)@.parts.len(),
            p@.uid == old(self)@.parts[i as int].uid,
            names_unique(p@.documents),
        ensures
            final(self).wf(),
            final(self)@ == (RegistryView {
                parts: old(self)@.parts.update(i as int, p@),
                ..old(self)@
            }),
    {
        let ghost pv = p@;
        self.parts.set(i, p);
        assert(self@.parts =~= old(self)@.parts.update(i as int, pv));
        assert(self@.oems =~= old(self)@.oems);
        assert(self@.mros =~= old(self)@.mros);
    }

    /// Seeds the registry with its administrator; refused once it has one.
    pub fn initialize(&mut self, admin: Principal) -> (r: Result<(), Error>)
        requires
            old(self).wf(),
        ensures
            final(self).wf(),
            (r, final(self)@) == initialize_step(old(self)@, admin),
    {
        if self.admins.len() > 0 {
            return Err(Error::AlreadyInitialized);
        }
        self.admins.push(admin);
        assert(self@.admins =~= seq![admin]);
        assert(self@.oems =~= old(self)@.oems);
        assert(self@.mros =~= old(self)@.mros);
        assert(self@.parts =~= old(self)@.parts);
        Ok(())
    }

    /// Appends an active organization of kind `kind` to its roster.
    fn register_org(
        &mut self,
        caller: Principal,
        org_address: Principal,
        name: String,
        kind: OrgType,
        certificates: Vec<String>,
    ) -> (r: Result<(), Error>)
        requires
            old(self).wf(),
            kind == OrgType::OEM || kind == OrgType::MRO,
        ensures
            final(self).wf(),
            (r, final(self)@) == register_step(
                old(self)@,
                caller,
                org_address,
                name@,
                kind,
                strs(certificates@),
            ),
    {
        self.ensure_is_admin(caller)?;
        let org = Organization {
            id: org_address,
            name,
            org_type: kind,
            certificates,
            active: true,
        };
        let ghost ov = org@;
        if kind == OrgType::OEM {
            self.oem_orgs.push(org);
            assert(self@.oems =~= old(self)@.oems.push(ov));
            assert(self@.mros =~= old(self)@.mros);
        } else {
            self.mro_orgs.push(org);
            assert(self@.mros =~= old(self)@.mros.push(ov));
            assert(self@.oems =~= old(self)@.oems);
        }
        assert(self@.parts =~= old(self)@.parts);
        Ok(())
    }

    /// Registers an active OEM; only an administrator may.
    pub fn register_oem(
        &mut self,
        caller: Principal,
        org_address: Principal,
        name: String,
        certificates: Vec<String>,
    ) -> (r: Result<(), Error>)
        requires
            old(self).wf(),
        ensures
            final(self).wf(),
            (r, final(self)@) == register_step(
                old(self)@,
                caller,
                org_address,
                name@,
                OrgType::OEM,
                strs(certificates@),
            ),
    {
        self.register_org(caller, org_address, name, OrgType::OEM, certificates)
    }

    /// Registers an active MRO; only an administrator may.
    pub fn register_mro(
        &mut self,
        caller: Principal,
        org_address: Principal,
        name: String,
        certificates: Vec<String>,
    ) -> (r: Result<(), Error>)
        requires
            old(self).wf(),
        ensures
            final(self).wf(),
            (r, final(self)@) == register_step(
                old(self)@,
                caller,
                org_address,
                name@,
                OrgType::MRO,
                strs(certificates@),
            ),
    {
        self.register_org(caller, org_address, name, OrgType::MRO, certificates)
    }

    /// Creates a part; only an active OEM may, and only under a fresh uid.
    pub fn create_part(
        &mut self,
        manufacturer: Principal,
        uid: String,
        part_number: String,
        serial_number: String,
        document_hashes: DocumentMap,
        now: u64,
    ) -> (r: Result<(), Error>)
        requires
            old(self).wf(),
            document_hashes.wf(),
        ensures
            final(self).wf(),
            (r, final(self)@) == create_step(
                old(self)@,
                manufacturer,
                uid@,
                part_number@,
                serial_number@,
                document_hashes@,
                now,
            ),
    {
        self.ensure_is_oem(manufacturer)?;
        if self.find_part(&uid).is_some() {
            return Err(Error::PartAlreadyExists);
        }
        let part = AeronauticPart {
            uid,
            part_number,
            serial_number,
            manufacturer,
            date_of_manufacture: now,
            current_owner: manufacturer,
            status: PartStatus::Active,
            total_hours: 0,
            total_cycles: 0,
            last_updated: now,
            document_hashes,
        };
        let ghost pv = part@;
        self.parts.push(part);
        assert(self@.parts =~= old(self)@.parts.push(pv));
        assert(self@.oems =~= old(self)@.oems);
        assert(self@.mros =~= old(self)@.mros);
        assert(parts_wf(self@.parts)) by {
            let ps = self@.parts;
            let n = old(self)@.parts.len();
            assert forall|i: int, j: int|
                0 <= i < ps.len() && 0 <= j < ps.len() && i != j implies #[trigger] ps[i].uid
                != #[trigger] ps[j].uid by {
                if i == n {
                    assert(old(self)@.parts[j].uid == ps[j].uid);
                } else if j == n {
                    assert(old(self)@.parts[i].uid == ps[i].uid);
                }
            }
        }
        Ok(())
    }

    /// A copy of the part with this uid; reading a part needs no role.
    pub fn get_part(&self, uid: &String) -> (r: Result<AeronauticPart, Error>)
        requires
            self.wf(),
        ensures
            r is Ok <==> self@.has_part(uid@),
            match r {
                Ok(p) => p@ == self@.part(uid@),
                Err(e) => e == Error::PartNotFound,
            },
    {
        match self.find_part(uid) {
            Some(i) => Ok(self.parts[i].duplicate()),
            None => Err(Error::PartNotFound),
        }
    }

    /// Hands the part over to `new_owner`; only its current owner may.
    pub fn transfer_ownership(
        &mut self,
        current_owner: Principal,
        new_owner: Principal,
        uid: &String,
        now: u64,
    ) -> (r: Result<(), Error>)
        requires
            old(self).wf(),
        ensures
            final(self).wf(),
            (r, final(self)@) == transfer_step(old(self)@, current_owner, new_owner, uid@, now),
    {
        let i = match self.find_part(uid) {
            Some(i) => i,
            None => return Err(Error::PartNotFound),
        };
        if self.parts[i].current_owner != current_owner {
            return Err(Error::NotAuthorized);
        }
        let mut p = self.parts[i].duplicate();
        assert(names_unique(self@.parts[i as int].documents));
        p.current_owner = new_owner;
        p.last_updated = now;
        self.put_part(i, p);
        Ok(())
    }

    /// Records a new status and counter readings; an active MRO or the owner may.
    pub fn update_part_status(
        &mut self,
        authorized_org: Principal,
        uid: &String,
        new_status: PartStatus,
        hours: u32,
        cycles: u32,
        now: u64,
    ) -> (r: Result<(), Error>)
        requires
            old(self).wf(),
        ensures
            final(self).wf(),
            (r, final(self)@) == status_step(
                old(self)@,
                authorized_org,
                uid@,
                new_status,
                hours,
                cycles,
                now,
            ),
    {
        self.ensure_is_mro_or_owner(authorized_org, uid)?;
        let i = match self.find_part(uid) {
            Some(i) => i,
            None => return Err(Error::PartNotFound),
        };
        let mut p = self.parts[i].duplicate();
        assert(names_unique(self@.parts[i as int].documents));
        p.status = new_status;
        p.total_hours = hours;
        p.total_cycles = cycles;
        p.last_updated = now;
        self.put_part(i, p);
        Ok(())
    }

    /// Stores a document hash on the part, replacing any hash held under the
    /// same name; an active MRO, an active OEM or the owner may.
    pub fn add_document(
        &mut self,
        authorized_org: Principal,
        uid: &String,
        document_name: String,
        document_hash: String,
        now: u64,
    ) -> (r: Result<(), Error>)
        requires
            old(self).wf(),
        ensures
            final(self).wf(),
            (r, final(self)@) == document_step(
                old(self)@,
                authorized_org,
                uid@,
                document_name@,
                document_hash@,
                now,
            ),
    {
        self.ensure_can_add_document(authorized_org, uid)?;
        let i = match self.find_part(uid) {
            Some(i) => i,
            None => return Err(Error::PartNotFound),
        };
        let mut p = self.parts[i].duplicate();
        assert(names_unique(self@.parts[i as int].documents));
        p.document_hashes.set(document_name, document_hash);
        p.last_updated = now;
        self.put_part(i, p);
        Ok(())
    }
}

} // verus!
