use gearbox_registry::contract::{construct_supported, ConstructKind, NoEvent, TransitionEvent};
use gearbox_registry::record::{InstallKind, RegistrationRecord};
use gearbox_registry::registry::{DuplicateIdentity, InstallerRegistry};
use gearbox_registry::sample::{DoorOpened, Honk, PlaySound, Side, Unknown};
use gearbox_registry::table::DispatchTable;

#[test]
fn simple_variant_dispatches_to_no_sub_events() {
    let mut reg = InstallerRegistry::new();
    reg.register_transition::<Honk>();
    let table = reg.materialize();
    assert!(table.check_well_formed());
    let r = table.dispatch(&Honk);
    assert_eq!(r, Some((None::<NoEvent>, None::<NoEvent>, None::<NoEvent>)));
}

#[test]
fn full_variant_dispatches_to_contract_conversions() {
    let mut reg = InstallerRegistry::new();
    reg.install_transition::<DoorOpened>();
    let table = reg.materialize();
    let door = DoorOpened { side: Side::Left };
    let (exit, effect, entry) = table.dispatch(&door).unwrap();
    assert_eq!(exit, None);
    assert_eq!(effect, Some(PlaySound { name: "door" }));
    assert_eq!(entry, None);
}

#[test]
fn unregistered_type_reports_absence() {
    let mut reg = InstallerRegistry::new();
    reg.register_transition::<Honk>();
    reg.install_transition::<DoorOpened>();
    let table = reg.materialize();
    assert_eq!(table.lookup(Unknown::type_key()), None);
    assert!(!table.contains_key(Unknown::type_key()));
    assert_eq!(table.dispatch(&Unknown), None);
}

#[test]
fn dispatch_round_trips_with_direct_calls() {
    let mut reg = InstallerRegistry::new();
    reg.install_transition::<DoorOpened>();
    let table = reg.materialize();
    for side in [Side::Left, Side::Right] {
        let door = DoorOpened { side };
        let (exit, effect, entry) = table.dispatch(&door).unwrap();
        assert_eq!(exit, door.to_exit_event());
        assert_eq!(effect, door.to_effect_event());
        assert_eq!(entry, door.to_entry_event());
    }
    let left = DoorOpened { side: Side::Left };
    let right = DoorOpened { side: Side::Right };
    assert!(left.to_exit_event().is_none() && right.to_exit_event().is_some());
    assert!(left.to_effect_event().is_some() && right.to_effect_event().is_none());
    assert!(left.to_entry_event().is_none() && right.to_entry_event().is_some());
}

#[test]
fn materializing_twice_yields_identical_key_sets() {
    let mut reg = InstallerRegistry::new();
    reg.register_transition::<Honk>();
    reg.install_transition::<DoorOpened>();
    let t1 = reg.materialize();
    let t2 = reg.materialize();
    assert_eq!(t1.len(), t2.len());
    for key in [Honk::type_key(), DoorOpened::type_key(), Unknown::type_key(), 77] {
        assert_eq!(t1.contains_key(key), t2.contains_key(key));
    }
}

#[test]
fn duplicate_registration_keeps_one_entry() {
    let mut reg = InstallerRegistry::new();
    reg.register_transition::<Honk>();
    reg.register_transition::<Honk>();
    assert_eq!(reg.len(), 2);
    let table = reg.materialize();
    assert!(table.check_well_formed());
    assert_eq!(table.len(), 1);
    assert_eq!(table.entry_count(Honk::type_key()), 1);
    assert_eq!(table.entry_count(DoorOpened::type_key()), 0);
    assert_eq!(table.dispatch(&Honk), Some((None, None, None)));
}

#[test]
fn later_registration_overwrites_earlier_one() {
    let door = DoorOpened { side: Side::Left };

    let mut reg = InstallerRegistry::new();
    reg.submit(RegistrationRecord { key: DoorOpened::type_key(), kind: InstallKind::Simple });
    reg.install_transition::<DoorOpened>();
    assert_eq!(reg.len(), 2);
    let table = reg.materialize();
    assert_eq!(table.len(), 1);
    assert_eq!(table.lookup(DoorOpened::type_key()), Some(InstallKind::Full));
    assert_eq!(table.dispatch(&door).unwrap().1, Some(PlaySound { name: "door" }));

    let mut reg2 = InstallerRegistry::new();
    reg2.install_transition::<DoorOpened>();
    reg2.submit(RegistrationRecord { key: DoorOpened::type_key(), kind: InstallKind::Simple });
    let t2 = reg2.materialize();
    assert_eq!(t2.lookup(DoorOpened::type_key()), Some(InstallKind::Simple));
    assert_eq!(t2.dispatch(&door), Some((None, None, None)));
}

#[test]
fn empty_registry_materializes_to_empty_table() {
    let reg = InstallerRegistry::new();
    assert_eq!(reg.len(), 0);
    let table = reg.materialize();
    assert_eq!(table.len(), 0);
    assert!(!table.contains_key(0));
    assert!(table.check_well_formed());
}

#[test]
fn direct_contract_conversions_per_phase() {
    assert_eq!(Honk.to_exit_event(), None);
    assert_eq!(Honk.to_effect_event(), None);
    assert_eq!(Honk.to_entry_event(), None);

    let left = DoorOpened { side: Side::Left };
    assert_eq!(left.to_exit_event(), None);
    assert_eq!(left.to_effect_event(), Some(PlaySound { name: "door" }));
    assert_eq!(left.to_entry_event(), None);

    let right = DoorOpened { side: Side::Right };
    assert_eq!(right.to_exit_event(), Some(PlaySound { name: "creak" }));
    assert_eq!(right.to_effect_event(), None);
    assert_eq!(right.to_entry_event(), Some(PlaySound { name: "thud" }));
}

#[test]
fn record_constructors_carry_key_and_kind() {
    let s = RegistrationRecord::simple::<Honk>();
    assert_eq!(s.key, Honk::type_key());
    assert_eq!(s.kind, InstallKind::Simple);
    let f = RegistrationRecord::full::<DoorOpened>();
    assert_eq!(f.key, DoorOpened::type_key());
    assert_eq!(f.kind, InstallKind::Full);
}

#[test]
fn record_install_writes_one_row() {
    let mut table = DispatchTable::new();
    let f = RegistrationRecord::full::<DoorOpened>();
    f.install(&mut table);
    assert_eq!(table.len(), 1);
    assert_eq!(table.lookup(DoorOpened::type_key()), Some(InstallKind::Full));
}

#[test]
fn table_insert_overwrites_in_place() {
    let mut table = DispatchTable::new();
    table.insert(9, InstallKind::Simple);
    assert_eq!(table.lookup(9), Some(InstallKind::Simple));
    table.insert(9, InstallKind::Full);
    assert_eq!(table.len(), 1);
    assert_eq!(table.lookup(9), Some(InstallKind::Full));
    assert_eq!(table.entry_count(9), 1);
    assert!(table.check_well_formed());
}

#[test]
fn strict_materialization_accepts_unique_registrations() {
    let mut reg = InstallerRegistry::new();
    reg.register_transition::<Honk>();
    reg.install_transition::<DoorOpened>();
    let table = reg.materialize_strict().unwrap();
    assert_eq!(table.len(), 2);
    assert!(table.contains_key(Honk::type_key()));
    assert!(table.contains_key(DoorOpened::type_key()));
    assert_eq!(table.lookup(DoorOpened::type_key()), Some(InstallKind::Full));
}

#[test]
fn strict_materialization_reports_collisions() {
    let mut reg = InstallerRegistry::new();
    reg.register_transition::<Honk>();
    reg.install_transition::<DoorOpened>();
    reg.register_transition::<Honk>();
    match reg.materialize_strict() {
        Ok(_) => panic!("a duplicate registration must be refused"),
        Err(e) => assert_eq!(e, DuplicateIdentity { key: Honk::type_key() }),
    }
}

#[test]
fn type_keys_are_distinct() {
    assert_ne!(Honk::type_key(), DoorOpened::type_key());
    assert_ne!(Honk::type_key(), Unknown::type_key());
    assert_ne!(DoorOpened::type_key(), Unknown::type_key());
}

#[test]
fn construct_kinds_supported_for_registration() {
    assert!(construct_supported(ConstructKind::Struct));
    assert!(construct_supported(ConstructKind::Enum));
    assert!(!construct_supported(ConstructKind::Other));
}
