use vstd::prelude::*;

verus! {

/// An actor of the registry: an administrator, an organization or an owner.
#[derive(Clone, Copy, Debug, PartialEq, Eq, Structural)]
pub struct Principal {
    pub id: u64,
}

impl Principal {
    pub fn new(id: u64) -> (r: Principal)
        ensures
            r.id == id,
    {
        Principal { id }
    }
}

/// The kinds of organization.
#[derive(Clone, Copy, Debug, PartialEq, Eq, Structural)]
pub enum OrgType {
    OEM,
    MRO,
    Airline,
    Lessor,
    Distributor,
}

/// The condition of a part.
#[derive(Clone, Copy, Debug, PartialEq, Eq, Structural)]
pub enum PartStatus {
    Active,
    InMaintenance,
    Retired,
    Quarantined,
}

/// Why an operation of the registry was refused.
#[derive(Clone, Copy, Debug, PartialEq, Eq, Structural)]
pub enum Error {
    AlreadyInitialized,
    NotAuthorized,
    OrgNotRegistered,
    NotAnOEM,
    PartAlreadyExists,
    PartNotFound,
    InvalidInput,
}

/// A document reference: its name and the hash of its content.
#[derive(Debug)]
pub struct Document {
    pub name: String,
    pub hash: String,
}

impl Document {
    pub open spec fn view(&self) -> (Seq<char>, Seq<char>) {
        (self.name@, self.hash@)
    }

    pub fn duplicate(&self) -> (r: Document)
        ensures
            r.view() == self.view(),
    {
        Document { name: self.name.clone(), hash: self.hash.clone() }
    }
}

/// No two entries share a name.
pub open spec fn names_unique(s: Seq<(Seq<char>, Seq<char>)>) -> bool {
    forall|i: int, j: int|
        0 <= i < s.len() && 0 <= j < s.len() && i != j ==> #[trigger] s[i].0 != #[trigger] s[j].0
}

/// Some entry is named `name`.
pub open spec fn has_name(s: Seq<(Seq<char>, Seq<char>)>, name: Seq<char>) -> bool {
    exists|i: int| 0 <= i < s.len() && #[trigger] s[i].0 == name
}

/// What `set(name, hash)` does to the entries: the entry of that name takes the
/// new hash in place, or a new entry is appended.
pub open spec fn upsert(
    s: Seq<(Seq<char>, Seq<char>)>,
    name: Seq<char>,
    hash: Seq<char>,
) -> Seq<(Seq<char>, Seq<char>)> {
    if has_name(s, name) {
        let i = choose|i: int| 0 <= i < s.len() && #[trigger] s[i].0 == name;
        s.update(i, (name, hash))
    } else {
        s.push((name, hash))
    }
}

/// After `upsert`, the names stay unique and the one entry named `name` holds
/// `hash`.
pub proof fn lemma_upsert(s: Seq<(Seq<char>, Seq<char>)>, name: Seq<char>, hash: Seq<char>)
    requires
        names_unique(s),
    ensures
        names_unique(upsert(s, name, hash)),
        has_name(upsert(s, name, hash), name),
        forall|i: int|
            0 <= i < upsert(s, name, hash).len() && #[trigger] upsert(s, name, hash)[i].0 == name
                ==> upsert(s, name, hash)[i] == (name, hash),
{
    let r = upsert(s, name, hash);
    if has_name(s, name) {
        let k = choose|k: int| 0 <= k < s.len() && #[trigger] s[k].0 == name;
        assert(r[k] == (name, hash));
        assert(r[k].0 == name);
        assert forall|i: int| 0 <= i < r.len() && #[trigger] r[i].0 == name implies r[i] == (
            name,
            hash,
        ) by {
            if i != k {
                assert(s[i].0 != s[k].0);
            }
        }
        assert forall|i: int, j: int|
            0 <= i < r.len() && 0 <= j < r.len() && i != j implies #[trigger] r[i].0
            != #[trigger] r[j].0 by {
            if i != k && j != k {
                assert(s[i].0 != s[j].0);
            } else if i == k {
                assert(s[j].0 != s[k].0);
            } else {
                assert(s[i].0 != s[k].0);
            }
        }
    } else {
        let n = s.len() as int;
        assert(r[n] == (name, hash));
        assert(r[n].0 == name);
        assert forall|i: int, j: int|
            0 <= i < r.len() && 0 <= j < r.len() && i != j implies #[trigger] r[i].0
            != #[trigger] r[j].0 by {
            if i != n && j != n {
                assert(s[i].0 != s[j].0);
            } else if i == n {
                assert(r[j] == s[j]);
            } else {
                assert(r[i] == s[i]);
            }
        }
    }
}

/// A map from document name to content hash, in order of first insertion.
#[derive(Debug)]
pub struct DocumentMap {
    pub entries: Vec<Document>,
}

impl View for DocumentMap {
    type V = Seq<(Seq<char>, Seq<char>)>;

    open spec fn view(&self) -> Seq<(Seq<char>, Seq<char>)> {
        self.entries@.map_values(|d: Document| d.view())
    }
}

impl DocumentMap {
    pub open spec fn wf(&self) -> bool {
        names_unique(self@)
    }

    pub fn new() -> (r: DocumentMap)
        ensures
            r.wf(),
            r@ == Seq::<(Seq<char>, Seq<char>)>::empty(),
    {
        DocumentMap { entries: Vec::new() }
    }

    pub fn len(&self) -> (r: usize)
        ensures
            r == self@.len(),
    {
        self.entries.len()
    }

    /// The position of the entry named `name`, if any.
    fn index_of(&self, name: &String) -> (r: Option<usize>)
        ensures
            match r {
                Some(i) => i < self@.len() && self@[i as int].0 == name@,
                None => !has_name(self@, name@),
            },
    {
        let mut i: usize = 0;
        while i < self.entries.len()
            invariant
                i <= self@.len(),
                forall|k: int| 0 <= k < i ==> #[trigger] self@[k].0 != name@,
            decreases self@.len() - i,
        {
            if self.entries[i].name == *name {
                return Some(i);
            }
            i = i + 1;
        }
        None
    }

    /// The hash stored under `name`, if any.
    pub fn get(&self, name: &String) -> (r: Option<String>)
        requires
            self.wf(),
        ensures
            match r {
                Some(h) => exists|i: int|
                    0 <= i < self@.len() && #[trigger] self@[i] == (name@, h@),
                None => !has_name(self@, name@),
            },
    {
        match self.index_of(name) {
            Some(i) => Some(self.entries[i].hash.clone()),
            None => None,
        }
    }

    /// Stores `hash` under `name`, replacing the hash held there before.
    pub fn set(&mut self, name: String, hash: String)
        requires
            old(self).wf(),
        ensures
            final(self).wf(),
            final(self)@ == upsert(old(self)@, name@, hash@),
    {
        let ghost n = name@;
        let ghost h = hash@;
        let doc = Document { name, hash };
        match self.index_of(&doc.name) {
            Some(i) => {
                self.entries.set(i, doc);
                proof {
                    let j = choose|j: int| 0 <= j < old(self)@.len() && #[trigger] old(self)@[j].0 == n;
                    assert(j == i as int);
                    assert(self@ =~= old(self)@.update(i as int, (n, h)));
                }
            },
            None => {
                self.entries.push(doc);
                assert(self@ =~= old(self)@.push((n, h)));
            },
        }
    }

    pub fn duplicate(&self) -> (r: DocumentMap)
        ensures
            r@ == self@,
    {
        let mut out: Vec<Document> = Vec::new();
        let mut i: usize = 0;
        while i < self.entries.len()
            invariant
                i <= self@.len(),
                out@.len() == i,
                forall|k: int| 0 <= k < i ==> #[trigger] out@[k].view() == self@[k],
            decreases self@.len() - i,
        {
            let d = self.entries[i].duplicate();
            assert(d.view() == self@[i as int]);
            out.push(d);
            i = i + 1;
        }
        let r = DocumentMap { entries: out };
        assert(r@ =~= self@);
        r
    }
}

/// The strings of `v`, as character sequences.
pub open spec fn strs(v: Seq<String>) -> Seq<Seq<char>> {
    v.map_values(|s: String| s@)
}

/// A copy of a list of strings.
pub fn copy_strings(v: &Vec<String>) -> (r: Vec<String>)
    ensures
        strs(r@) == strs(v@),
{
    let mut out: Vec<String> = Vec::new();
    let mut i: usize = 0;
    while i < v.len()
        invariant
            i <= v@.len(),
            out@.len() == i,
            forall|k: int| 0 <= k < i ==> #[trigger] out@[k]@ == v@[k]@,
        decreases v@.len() - i,
    {
        out.push(v[i].clone());
        i = i + 1;
    }
    assert(strs(out@) =~= strs(v@));
    out
}

/// A registered organization.
#[derive(Debug)]
pub struct Organization {
    pub id: Principal,
    pub name: String,
    pub org_type: OrgType,
    pub certificates: Vec<String>,
    pub active: bool,
}

/// The mathematical value of an organization.
pub struct OrganizationView {
    pub id: Principal,
    pub name: Seq<char>,
    pub org_type: OrgType,
    pub certificates: Seq<Seq<char>>,
    pub active: bool,
}

impl View for Organization {
    type V = OrganizationView;

    open spec fn view(&self) -> OrganizationView {
        OrganizationView {
            id: self.id,
            name: self.name@,
            org_type: self.org_type,
            certificates: strs(self.certificates@),
            active: self.active,
        }
    }
}

impl Organization {
    pub fn duplicate(&self) -> (r: Organization)
        ensures
            r@ == self@,
    {
        Organization {
            id: self.id,
            name: self.name.clone(),
            org_type: self.org_type,
            certificates: copy_strings(&self.certificates),
            active: self.active,
        }
    }
}

/// A serialized aeronautic part and its history.
#[derive(Debug)]
pub struct AeronauticPart {
    pub uid: String,
    pub part_number: String,
    pub serial_number: String,
    pub manufacturer: Principal,
    pub date_of_manufacture: u64,
    pub current_owner: Principal,
    pub status: PartStatus,
    pub total_hours: u32,
    pub total_cycles: u32,
    pub last_updated: u64,
    pub document_hashes: DocumentMap,
}

/// The mathematical value of a part.
pub struct PartView {
    pub uid: Seq<char>,
    pub part_number: Seq<char>,
    pub serial_number: Seq<char>,
    pub manufacturer: Principal,
    pub date_of_manufacture: u64,
    pub current_owner: Principal,
    pub status: PartStatus,
    pub total_hours: u32,
    pub total_cycles: u32,
    pub last_updated: u64,
    pub documents: Seq<(Seq<char>, Seq<char>)>,
}

impl View for AeronauticPart {
    type V = PartView;

    open spec fn view(&self) -> PartView {
        PartView {
            uid: self.uid@,
            part_number: self.part_number@,
            serial_number: self.serial_number@,
            manufacturer: self.manufacturer,
            date_of_manufacture: self.date_of_manufacture,
            current_owner: self.current_owner,
            status: self.status,
            total_hours: self.total_hours,
            total_cycles: self.total_cycles,
            last_updated: self.last_updated,
            documents: self.document_hashes@,
        }
    }
}

impl AeronauticPart {
    pub fn duplicate(&self) -> (r: AeronauticPart)
        ensures
            r@ == self@,
    {
        AeronauticPart {
            uid: self.uid.clone(),
            part_number: self.part_number.clone(),
            serial_number: self.serial_number.clone(),
            manufacturer: self.manufacturer,
            date_of_manufacture: self.date_of_manufacture,
            current_owner: self.current_owner,
            status: self.status,
            total_hours: self.total_hours,
            total_cycles: self.total_cycles,
            last_updated: self.last_updated,
            document_hashes: self.document_hashes.duplicate(),
        }
    }
}

} // verus!
