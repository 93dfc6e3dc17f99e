use piece_aero::{DocumentMap, Error, OrgType, PartStatus, PartsRegistry, Principal};

fn s(x: &str) -> String {
    x.to_string()
}

/// Admin 1, OEM 2, MRO 3; parts "ENG-01" and "ENG-02" made by the OEM at time 10.
fn setup() -> PartsRegistry {
    let mut reg = PartsRegistry::new();
    reg.initialize(Principal::new(1)).unwrap();
    reg.register_oem(Principal::new(1), Principal::new(2), s("Safran"), vec![s("C1")]).unwrap();
    reg.register_mro(Principal::new(1), Principal::new(3), s("AFI KLM E&M"), vec![]).unwrap();
    for uid in ["ENG-01", "ENG-02"] {
        reg.create_part(Principal::new(2), s(uid), s("PN"), s("SN"), DocumentMap::new(), 10).unwrap();
    }
    reg
}

#[test]
fn initialize_twice_is_refused() {
    let mut reg = PartsRegistry::new();
    reg.initialize(Principal::new(1)).unwrap();
    assert_eq!(reg.initialize(Principal::new(2)), Err(Error::AlreadyInitialized));
    assert_eq!(reg.admins, vec![Principal::new(1)]);
}

#[test]
fn only_admins_register() {
    let mut reg = setup();
    let r = reg.register_oem(Principal::new(2), Principal::new(8), s("X"), vec![]);
    assert_eq!(r, Err(Error::NotAuthorized));
    let r = reg.register_mro(Principal::new(3), Principal::new(8), s("X"), vec![]);
    assert_eq!(r, Err(Error::NotAuthorized));
    assert_eq!(reg.get_global_stats(Principal::new(1)).unwrap(), (2, 1, 1));
}

#[test]
fn registering_twice_keeps_both_entries() {
    let mut reg = setup();
    reg.register_mro(Principal::new(1), Principal::new(3), s("Again"), vec![]).unwrap();
    let (oems, mros) = reg.get_all_organizations(Principal::new(1)).unwrap();
    assert_eq!(oems.len(), 1);
    assert_eq!(oems[0].name, s("Safran"));
    assert_eq!(oems[0].org_type, OrgType::OEM);
    assert_eq!(oems[0].certificates, vec![s("C1")]);
    assert!(oems[0].active);
    assert_eq!(mros.len(), 2);
    assert_eq!(mros[1].name, s("Again"));
    assert_eq!(mros[1].org_type, OrgType::MRO);
    assert_eq!(reg.get_all_organizations(Principal::new(2)).unwrap_err(), Error::NotAuthorized);
}

#[test]
fn status_updates_by_mro_and_owner() {
    let mut reg = setup();
    let first = s("ENG-01");
    reg.update_part_status(Principal::new(3), &first, PartStatus::InMaintenance, 1200, 800, 20).unwrap();
    let part = reg.get_part(&first).unwrap();
    assert_eq!(part.status, PartStatus::InMaintenance);
    assert_eq!(part.total_hours, 1200);
    assert_eq!(part.total_cycles, 800);
    assert_eq!(part.last_updated, 20);
    reg.update_part_status(Principal::new(2), &first, PartStatus::Active, 5, 4, 30).unwrap();
    let part = reg.get_part(&first).unwrap();
    assert_eq!(part.total_hours, 5);
    assert_eq!(part.total_cycles, 4);
    let r = reg.update_part_status(Principal::new(9), &first, PartStatus::Retired, 0, 0, 40);
    assert_eq!(r, Err(Error::NotAuthorized));
    assert_eq!(reg.get_part(&first).unwrap().status, PartStatus::Active);
    let r = reg.update_part_status(Principal::new(3), &s("none"), PartStatus::Retired, 0, 0, 40);
    assert_eq!(r, Err(Error::PartNotFound));
}

#[test]
fn document_rights() {
    let mut reg = setup();
    let first = s("ENG-01");
    reg.transfer_ownership(Principal::new(2), Principal::new(5), &first, 11).unwrap();
    reg.add_document(Principal::new(2), &first, s("cert"), s("h0"), 12).unwrap();
    reg.add_document(Principal::new(3), &first, s("work"), s("h1"), 13).unwrap();
    reg.add_document(Principal::new(5), &first, s("logbook"), s("h2"), 14).unwrap();
    let r = reg.add_document(Principal::new(6), &first, s("x"), s("h3"), 15);
    assert_eq!(r, Err(Error::NotAuthorized));
    let r = reg.add_document(Principal::new(2), &s("none"), s("x"), s("h3"), 15);
    assert_eq!(r, Err(Error::PartNotFound));
    let part = reg.get_part(&first).unwrap();
    assert_eq!(part.document_hashes.len(), 3);
    assert_eq!(part.document_hashes.get(&s("work")), Some(s("h1")));
    assert_eq!(part.document_hashes.get(&s("x")), None);
    assert_eq!(part.last_updated, 14);
}

#[test]
fn admin_listings() {
    let reg = setup();
    assert_eq!(reg.get_all_part_uids(Principal::new(1)).unwrap(), vec![s("ENG-01"), s("ENG-02")]);
    assert_eq!(reg.get_all_part_uids(Principal::new(2)), Err(Error::NotAuthorized));
    assert_eq!(reg.get_global_stats(Principal::new(3)), Err(Error::NotAuthorized));
}

#[test]
fn owner_listings() {
    let mut reg = setup();
    reg.transfer_ownership(Principal::new(2), Principal::new(5), &s("ENG-02"), 11).unwrap();
    assert_eq!(reg.get_my_part_uids(Principal::new(5)).unwrap(), vec![s("ENG-02")]);
    assert_eq!(reg.get_my_part_uids(Principal::new(2)).unwrap(), vec![s("ENG-01")]);
    assert_eq!(reg.get_my_part_uids(Principal::new(9)).unwrap(), Vec::<String>::new());
    assert_eq!(reg.get_my_manufactured_parts(Principal::new(2)).unwrap(), vec![s("ENG-01"), s("ENG-02")]);
    assert_eq!(reg.get_my_manufactured_parts(Principal::new(5)), Err(Error::NotAnOEM));
}

#[test]
fn listings_by_status() {
    let mut reg = setup();
    reg.transfer_ownership(Principal::new(2), Principal::new(5), &s("ENG-02"), 11).unwrap();
    reg.update_part_status(Principal::new(3), &s("ENG-01"), PartStatus::InMaintenance, 1, 1, 12).unwrap();
    reg.update_part_status(Principal::new(3), &s("ENG-02"), PartStatus::InMaintenance, 1, 1, 12).unwrap();
    let admin_view = reg.get_my_parts_by_status(Principal::new(1), PartStatus::InMaintenance).unwrap();
    assert_eq!(admin_view, vec![s("ENG-01"), s("ENG-02")]);
    let own_view = reg.get_my_parts_by_status(Principal::new(5), PartStatus::InMaintenance).unwrap();
    assert_eq!(own_view, vec![s("ENG-02")]);
    let none = reg.get_my_parts_by_status(Principal::new(5), PartStatus::Active).unwrap();
    assert_eq!(none, Vec::<String>::new());
    let mro_view = reg.get_parts_in_my_maintenance(Principal::new(3)).unwrap();
    assert_eq!(mro_view, vec![s("ENG-01"), s("ENG-02")]);
    assert_eq!(reg.get_parts_in_my_maintenance(Principal::new(2)), Err(Error::OrgNotRegistered));
}

#[test]
fn personal_stats_leave_quarantine_out() {
    let mut reg = setup();
    for uid in ["ENG-03", "ENG-04"] {
        reg.create_part(Principal::new(2), s(uid), s("PN"), s("SN"), DocumentMap::new(), 10).unwrap();
    }
    reg.update_part_status(Principal::new(2), &s("ENG-02"), PartStatus::InMaintenance, 0, 0, 11).unwrap();
    reg.update_part_status(Principal::new(2), &s("ENG-03"), PartStatus::Retired, 0, 0, 11).unwrap();
    reg.update_part_status(Principal::new(2), &s("ENG-04"), PartStatus::Quarantined, 0, 0, 11).unwrap();
    assert_eq!(reg.get_my_stats(Principal::new(2)).unwrap(), (4, 1, 1, 1));
    assert_eq!(reg.get_my_stats(Principal::new(9)).unwrap(), (0, 0, 0, 0));
}

#[test]
fn access_checks() {
    let reg = setup();
    assert_eq!(reg.ensure_is_admin(Principal::new(1)), Ok(()));
    assert_eq!(reg.ensure_is_oem(Principal::new(3)), Err(Error::NotAnOEM));
    assert_eq!(reg.ensure_is_mro(Principal::new(3)), Ok(()));
    assert_eq!(reg.ensure_is_mro_or_owner(Principal::new(3), &s("none")), Ok(()));
    assert_eq!(reg.ensure_is_mro_or_owner(Principal::new(4), &s("none")), Err(Error::PartNotFound));
    assert_eq!(reg.ensure_is_mro_or_owner(Principal::new(4), &s("ENG-01")), Err(Error::NotAuthorized));
    assert_eq!(reg.ensure_can_add_document(Principal::new(2), &s("none")), Ok(()));
    assert_eq!(reg.ensure_can_add_document(Principal::new(4), &s("ENG-01")), Err(Error::NotAuthorized));
}

#[test]
fn document_map_set_and_get() {
    let mut docs = DocumentMap::new();
    assert_eq!(docs.len(), 0);
    docs.set(s("a"), s("1"));
    docs.set(s("b"), s("2"));
    docs.set(s("a"), s("3"));
    assert_eq!(docs.len(), 2);
    assert_eq!(docs.get(&s("a")), Some(s("3")));
    assert_eq!(docs.get(&s("b")), Some(s("2")));
    assert_eq!(docs.get(&s("c")), None);
}
