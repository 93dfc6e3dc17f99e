use vstd::prelude::*;
use crate::registry::PartsRegistry;
use crate::types::{AeronauticPart, Error, Organization, PartStatus, PartView, Principal, strs};

verus! {

/// Which parts a listing selects.
#[derive(Clone, Copy, Debug, PartialEq, Eq, Structural)]
pub enum PartFilter {
    All,
    OwnedBy(Principal),
    MadeBy(Principal),
    WithStatus(PartStatus),
    OwnedWithStatus(Principal, PartStatus),
}

impl PartFilter {
    pub open spec fn holds(self, p: PartView) -> bool {
        match self {
            PartFilter::All => true,
            PartFilter::OwnedBy(o) => p.current_owner == o,
            PartFilter::MadeBy(m) => p.manufacturer == m,
            PartFilter::WithStatus(s) => p.status == s,
            PartFilter::OwnedWithStatus(o, s) => p.current_owner == o && p.status == s,
        }
    }

    pub fn test(&self, p: &AeronauticPart) -> (r: bool)
        ensures
            r == self.holds(p@),
    {
        match self {
            PartFilter::All => true,
            PartFilter::OwnedBy(o) => p.current_owner == *o,
            PartFilter::MadeBy(m) => p.manufacturer == *m,
            PartFilter::WithStatus(s) => p.status == *s,
            PartFilter::OwnedWithStatus(o, s) => p.current_owner == *o && p.status == *s,
        }
    }
}

/// The uids of the parts that `f` selects, in the order of `parts`.
pub open spec fn uids_where(parts: Seq<PartView>, f: PartFilter) -> Seq<Seq<char>>
    decreases parts.len(),
{
    if parts.len() == 0 {
        seq![]
    } else {
        let rest = uids_where(parts.drop_last(), f);
        if f.holds(parts.last()) {
            rest.push(parts.last().uid)
        } else {
            rest
        }
    }
}

/// How many parts `f` selects.
pub open spec fn count_where(parts: Seq<PartView>, f: PartFilter) -> nat
    decreases parts.len(),
{
    if parts.len() == 0 {
        0
    } else {
        count_where(parts.drop_last(), f) + if f.holds(parts.last()) {
            1nat
        } else {
            0nat
        }
    }
}

/// A selection never counts more parts than there are.
pub proof fn lemma_count_bounded(parts: Seq<PartView>, f: PartFilter)
    ensures
        count_where(parts, f) <= parts.len(),
    decreases parts.len(),
{
    if parts.len() > 0 {
        lemma_count_bounded(parts.drop_last(), f);
    }
}

/// Copies of the organizations of a roster.
fn copy_roster(roster: &Vec<Organization>) -> (r: Vec<Organization>)
    ensures
        r@.map_values(|o: Organization| o@) == roster@.map_values(|o: Organization| o@),
{
    let mut out: Vec<Organization> = Vec::new();
    let mut i: usize = 0;
    while i < roster.len()
        invariant
            i <= roster@.len(),
            out@.len() == i,
            forall|k: int| 0 <= k < i ==> #[trigger] out@[k]@ == roster@[k]@,
        decreases roster@.len() - i,
    {
        out.push(roster[i].duplicate());
        i = i + 1;
    }
    assert(out@.map_values(|o: Organization| o@) =~= roster@.map_values(|o: Organization| o@));
    out
}

impl PartsRegistry {
    /// The uids of the parts that `f` selects, in the registry's order.
    pub fn collect_uids(&self, f: PartFilter) -> (r: Vec<String>)
        ensures
            strs(r@) == uids_where(self@.parts, f),
    {
        let ghost v = self@.parts;
        let mut out: Vec<String> = Vec::new();
        let mut i: usize = 0;
        while i < self.parts.len()
            invariant
                i <= v.len(),
                v == self@.parts,
                strs(out@) == uids_where(v.take(i as int), f),
            decreases v.len() - i,
        {
            let ghost before = out@;
            assert(v.take(i as int + 1).drop_last() =~= v.take(i as int));
            if f.test(&self.parts[i]) {
                out.push(self.parts[i].uid.clone());
                assert(strs(out@) =~= strs(before).push(v[i as int].uid));
            }
            i = i + 1;
        }
        assert(v.take(i as int) =~= v);
        out
    }

    /// Every uid; administrators only.
    pub fn get_all_part_uids(&self, caller: Principal) -> (r: Result<Vec<String>, Error>)
        ensures
            r is Ok <==> self@.is_admin(caller),
            match r {
                Ok(u) => strs(u@) == uids_where(self@.parts, PartFilter::All),
                Err(e) => e == Error::NotAuthorized,
            },
    {
        self.ensure_is_admin(caller)?;
        Ok(self.collect_uids(PartFilter::All))
    }

    /// Both rosters, OEMs first; administrators only.
    pub fn get_all_organizations(&self, caller: Principal) -> (r: Result<
        (Vec<Organization>, Vec<Organization>),
        Error,
    >)
        ensures
            r is Ok <==> self@.is_admin(caller),
            match r {
                Ok((o, m)) => o@.map_values(|x: Organization| x@) == self@.oems
                    && m@.map_values(|x: Organization| x@) == self@.mros,
                Err(e) => e == Error::NotAuthorized,
            },
    {
        self.ensure_is_admin(caller)?;
        Ok((copy_roster(&self.oem_orgs), copy_roster(&self.mro_orgs)))
    }

    /// The numbers of parts, of OEM entries and of MRO entries;
    /// administrators only.
    pub fn get_global_stats(&self, caller: Principal) -> (r: Result<(usize, usize, usize), Error>)
        ensures
            r is Ok <==> self@.is_admin(caller),
            match r {
                Ok((p, o, m)) => p == self@.parts.len() && o == self@.oems.len() && m
                    == self@.mros.len(),
                Err(e) => e == Error::NotAuthorized,
            },
    {
        self.ensure_is_admin(caller)?;
        Ok((self.parts.len(), self.oem_orgs.len(), self.mro_orgs.len()))
    }

    /// The uids of the parts that `owner` holds.
    pub fn get_my_part_uids(&self, owner: Principal) -> (r: Result<Vec<String>, Error>)
        ensures
            r is Ok,
            match r {
                Ok(u) => strs(u@) == uids_where(self@.parts, PartFilter::OwnedBy(owner)),
                Err(_) => true,
            },
    {
        Ok(self.collect_uids(PartFilter::OwnedBy(owner)))
    }

    /// The uids of the parts that `manufacturer` made; active OEMs only.
    pub fn get_my_manufactured_parts(&self, manufacturer: Principal) -> (r: Result<
        Vec<String>,
        Error,
    >)
        ensures
            r is Ok <==> self@.is_active_oem(manufacturer),
            match r {
                Ok(u) => strs(u@) == uids_where(self@.parts, PartFilter::MadeBy(manufacturer)),
                Err(e) => e == Error::NotAnOEM,
            },
    {
        self.ensure_is_oem(manufacturer)?;
        Ok(self.collect_uids(PartFilter::MadeBy(manufacturer)))
    }

    /// The uids of the parts with this status: all of them for an
    /// administrator, the caller's own for anyone else.
    pub fn get_my_parts_by_status(&self, caller: Principal, status: PartStatus) -> (r: Result<
        Vec<String>,
        Error,
    >)
        ensures
            r is Ok,
            match r {
                Ok(u) => strs(u@) == uids_where(
                    self@.parts,
                    if self@.is_admin(caller) {
                        PartFilter::WithStatus(status)
                    } else {
                        PartFilter::OwnedWithStatus(caller, status)
                    },
                ),
                Err(_) => true,
            },
    {
        if self.ensure_is_admin(caller).is_ok() {
            Ok(self.collect_uids(PartFilter::WithStatus(status)))
        } else {
            Ok(self.collect_uids(PartFilter::OwnedWithStatus(caller, status)))
        }
    }

    /// The uids of every part in maintenance, whichever MRO services it;
    /// active MROs only.
    pub fn get_parts_in_my_maintenance(&self, mro: Principal) -> (r: Result<Vec<String>, Error>)
        ensures
            r is Ok <==> self@.is_active_mro(mro),
            match r {
                Ok(u) => strs(u@) == uids_where(
                    self@.parts,
                    PartFilter::WithStatus(PartStatus::InMaintenance),
                ),
                Err(e) => e == Error::OrgNotRegistered,
            },
    {
        self.ensure_is_mro(mro)?;
        Ok(self.collect_uids(PartFilter::WithStatus(PartStatus::InMaintenance)))
    }

    /// How many parts `owner` holds, and how many of those are active, in
    /// maintenance and retired.
    pub fn get_my_stats(&self, owner: Principal) -> (r: Result<(usize, usize, usize, usize), Error>)
        ensures
            r is Ok,
            match r {
                Ok((t, a, m, d)) => {
                    &&& t == count_where(self@.parts, PartFilter::OwnedBy(owner))
                    &&& a == count_where(
                        self@.parts,
                        PartFilter::OwnedWithStatus(owner, PartStatus::Active),
                    )
                    &&& m == count_where(
                        self@.parts,
                        PartFilter::OwnedWithStatus(owner, PartStatus::InMaintenance),
                    )
                    &&& d == count_where(
                        self@.parts,
                        PartFilter::OwnedWithStatus(owner, PartStatus::Retired),
                    )
                },
                Err(_) => true,
            },
    {
        let ghost v = self@.parts;
        let ghost ft = PartFilter::OwnedBy(owner);
        let ghost fa = PartFilter::OwnedWithStatus(owner, PartStatus::Active);
        let ghost fm = PartFilter::OwnedWithStatus(owner, PartStatus::InMaintenance);
        let ghost fd = PartFilter::OwnedWithStatus(owner, PartStatus::Retired);
        let mut total: usize = 0;
        let mut active: usize = 0;
        let mut maintenance: usize = 0;
        let mut retired: usize = 0;
        let mut i: usize = 0;
        while i < self.parts.len()
            invariant
                i <= v.len(),
                v == self@.parts,
                ft == PartFilter::OwnedBy(owner),
                fa == PartFilter::OwnedWithStatus(owner, PartStatus::Active),
                fm == PartFilter::OwnedWithStatus(owner, PartStatus::InMaintenance),
                fd == PartFilter::OwnedWithStatus(owner, PartStatus::Retired),
                total == count_where(v.take(i as int), ft),
                active == count_where(v.take(i as int), fa),
                maintenance == count_where(v.take(i as int), fm),
                retired == count_where(v.take(i as int), fd),
            decreases v.len() - i,
        {
            let ghost next = v.take(i as int + 1);
            assert(next.drop_last() =~= v.take(i as int));
            assert(next.last() == v[i as int]);
            assert(v[i as int] == self.parts@[i as int]@);
            proof {
                lemma_count_bounded(v.take(i as int), ft);
                lemma_count_bounded(v.take(i as int), fa);
                lemma_count_bounded(v.take(i as int), fm);
                lemma_count_bounded(v.take(i as int), fd);
            }
            if self.parts[i].current_owner == owner {
                total = total + 1;
                match self.parts[i].status {
                    PartStatus::Active => active = active + 1,
                    PartStatus::InMaintenance => maintenance = maintenance + 1,
                    PartStatus::Retired => retired = retired + 1,
                    PartStatus::Quarantined => {},
                }
            }
            i = i + 1;
        }
        assert(v.take(i as int) =~= v);
        Ok((total, active, maintenance, retired))
    }
}

} // verus!
