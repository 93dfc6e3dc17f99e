use vstd::prelude::*;
use crate::registry::{RegistryView, parts_wf, uids_unique};
use crate::store::{create_step, document_step, new_part, transfer_step};
use crate::types::{Error, PartView, Principal, lemma_upsert, names_unique};

verus! {

/// In a registry whose uids are unique, the part found under a uid is the one
/// at any position that holds that uid.
pub proof fn lemma_part_at(s: RegistryView, uid: Seq<char>, i: int)
    requires
        uids_unique(s.parts),
        0 <= i < s.parts.len(),
        s.parts[i].uid == uid,
    ensures
        s.has_part(uid),
        s.index_of(uid) == i,
        s.part(uid) == s.parts[i],
{
    assert(s.parts[i].uid == uid);
    let j = s.index_of(uid);
    assert(0 <= j < s.parts.len() && s.parts[j].uid == uid);
    if j != i {
        assert(s.parts[j].uid != s.parts[i].uid);
    }
}

/// Replacing the part under `uid` by a record with the same uid keeps the
/// uids unique, and the new record is what is then found under `uid`.
pub proof fn lemma_with_part(s: RegistryView, uid: Seq<char>, p: PartView)
    requires
        parts_wf(s.parts),
        s.has_part(uid),
        p.uid == uid,
        names_unique(p.documents),
    ensures
        parts_wf(s.with_part(uid, p).parts),
        s.with_part(uid, p).has_part(uid),
        s.with_part(uid, p).part(uid) == p,
{
    let i = s.index_of(uid);
    let t = s.with_part(uid, p);
    assert(t.parts[i].uid == uid);
    assert forall|a: int, b: int|
        0 <= a < t.parts.len() && 0 <= b < t.parts.len() && a != b implies #[trigger] t.parts[a].uid
        != #[trigger] t.parts[b].uid by {
        if a != i && b != i {
            assert(s.parts[a].uid != s.parts[b].uid);
        } else if a == i {
            assert(s.parts[b].uid != s.parts[i].uid);
        } else {
            assert(s.parts[a].uid != s.parts[i].uid);
        }
    }
    assert forall|a: int| 0 <= a < t.parts.len() implies names_unique(
        #[trigger] t.parts[a].documents,
    ) by {
        if a != i {
            assert(t.parts[a] == s.parts[a]);
        }
    }
    lemma_part_at(t, uid, i);
}

/// A uid is never handed out twice: once a part was created under `uid`, a
/// second creation under it fails, with `PartAlreadyExists` whenever the second
/// manufacturer is an active OEM, and the record stays as the first creation
/// made it.
pub proof fn law_uid_unique(
    s: RegistryView,
    m1: Principal,
    m2: Principal,
    uid: Seq<char>,
    pn1: Seq<char>,
    sn1: Seq<char>,
    d1: Seq<(Seq<char>, Seq<char>)>,
    t1: u64,
    pn2: Seq<char>,
    sn2: Seq<char>,
    d2: Seq<(Seq<char>, Seq<char>)>,
    t2: u64,
)
    requires
        parts_wf(s.parts),
        create_step(s, m1, uid, pn1, sn1, d1, t1).0 is Ok,
    ensures
        ({
            let s1 = create_step(s, m1, uid, pn1, sn1, d1, t1).1;
            let (r2, s2) = create_step(s1, m2, uid, pn2, sn2, d2, t2);
            &&& r2 is Err
            &&& s1.is_active_oem(m2) ==> r2 == Err::<(), Error>(Error::PartAlreadyExists)
            &&& s2 == s1
            &&& s2.part(uid) == new_part(m1, uid, pn1, sn1, d1, t1)
        }),
{
    let s1 = create_step(s, m1, uid, pn1, sn1, d1, t1).1;
    let n = s.parts.len() as int;
    assert(s1.parts[n].uid == uid);
    assert forall|a: int, b: int|
        0 <= a < s1.parts.len() && 0 <= b < s1.parts.len() && a != b implies #[trigger] s1.parts[a].uid
        != #[trigger] s1.parts[b].uid by {
        if a == n {
            assert(s.parts[b].uid == s1.parts[b].uid);
        } else if b == n {
            assert(s.parts[a].uid == s1.parts[a].uid);
        } else {
            assert(s.parts[a].uid != s.parts[b].uid);
        }
    }
    assert(uids_unique(s1.parts));
    lemma_part_at(s1, uid, n);
}

/// A created part is owned by its manufacturer.
pub proof fn law_initial_owner(
    s: RegistryView,
    m: Principal,
    uid: Seq<char>,
    pn: Seq<char>,
    sn: Seq<char>,
    d: Seq<(Seq<char>, Seq<char>)>,
    t: u64,
)
    requires
        parts_wf(s.parts),
        create_step(s, m, uid, pn, sn, d, t).0 is Ok,
    ensures
        ({
            let s1 = create_step(s, m, uid, pn, sn, d, t).1;
            &&& s1.has_part(uid)
            &&& s1.part(uid).current_owner == m
            &&& s1.part(uid).manufacturer == m
        }),
{
    law_uid_unique(s, m, m, uid, pn, sn, d, t, pn, sn, d, t);
    let s1 = create_step(s, m, uid, pn, sn, d, t).1;
    assert(s1.parts[s.parts.len() as int].uid == uid);
}

/// A transfer of an existing part succeeds exactly when it is asked by the
/// current owner; it then sets the new owner and stamps the part, and
/// otherwise changes nothing.
pub proof fn law_transfer_authorization(
    s: RegistryView,
    x: Principal,
    y: Principal,
    uid: Seq<char>,
    now: u64,
)
    requires
        parts_wf(s.parts),
        s.has_part(uid),
    ensures
        ({
            let (r, s1) = transfer_step(s, x, y, uid, now);
            &&& r is Ok <==> s.part(uid).current_owner == x
            &&& r is Ok ==> s1.part(uid).current_owner == y && s1.part(uid).last_updated == now
            &&& r is Err ==> r == Err::<(), Error>(Error::NotAuthorized) && s1 == s
        }),
{
    assert(0 <= s.index_of(uid) < s.parts.len() && s.parts[s.index_of(uid)].uid == uid);
    assert(names_unique(s.part(uid).documents));
    if s.part(uid).current_owner == x {
        lemma_with_part(s, uid, crate::store::transferred(s.part(uid), y, now));
    }
}

/// Only active OEMs create parts: anyone else is refused with `NotAnOEM`, and an
/// active OEM succeeds under any fresh uid.
pub proof fn law_oem_gating(
    s: RegistryView,
    m: Principal,
    uid: Seq<char>,
    pn: Seq<char>,
    sn: Seq<char>,
    d: Seq<(Seq<char>, Seq<char>)>,
    t: u64,
)
    ensures
        !(exists|i: int| 0 <= i < s.oems.len() && s.oems[i].id == m && s.oems[i].active)
            ==> create_step(s, m, uid, pn, sn, d, t).0 == Err::<(), Error>(Error::NotAnOEM),
        (exists|i: int| 0 <= i < s.oems.len() && s.oems[i].id == m && s.oems[i].active)
            && !s.has_part(uid) ==> create_step(s, m, uid, pn, sn, d, t).0 is Ok,
{
}

/// Attaching a document twice under one name leaves exactly one entry of that
/// name, holding the second hash.
pub proof fn law_document_overwrite(
    s: RegistryView,
    caller: Principal,
    uid: Seq<char>,
    name: Seq<char>,
    h1: Seq<char>,
    h2: Seq<char>,
    t1: u64,
    t2: u64,
)
    requires
        parts_wf(s.parts),
        document_step(s, caller, uid, name, h1, t1).0 is Ok,
    ensures
        ({
            let s1 = document_step(s, caller, uid, name, h1, t1).1;
            let (r2, s2) = document_step(s1, caller, uid, name, h2, t2);
            let docs = s2.part(uid).documents;
            &&& r2 is Ok
            &&& exists|i: int| 0 <= i < docs.len() && #[trigger] docs[i] == (name, h2)
            &&& forall|i: int| 0 <= i < docs.len() && #[trigger] docs[i].0 == name ==> docs[i] == (
                name,
                h2,
            )
            &&& forall|i: int, j: int|
                0 <= i < docs.len() && 0 <= j < docs.len() && #[trigger] docs[i].0 == name
                    && #[trigger] docs[j].0 == name ==> i == j
        }),
{
    let p = s.part(uid);
    assert(0 <= s.index_of(uid) < s.parts.len() && s.parts[s.index_of(uid)].uid == uid);
    assert(names_unique(p.documents));
    let rec1 = crate::store::documented(p, name, h1, t1);
    lemma_upsert(p.documents, name, h1);
    lemma_with_part(s, uid, rec1);
    let s1 = s.with_part(uid, rec1);
    assert(s1.oems == s.oems && s1.mros == s.mros);
    assert(s1.part(uid).current_owner == p.current_owner);
    assert(s1.has_part(uid));
    let rec2 = crate::store::documented(rec1, name, h2, t2);
    lemma_upsert(rec1.documents, name, h2);
    lemma_with_part(s1, uid, rec2);
    let docs = rec2.documents;
    assert(names_unique(docs));

}

} // verus!
