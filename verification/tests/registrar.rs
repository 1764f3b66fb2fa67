use empire::registrar::Registrar;

#[test]
fn tracked_object_resolves_until_freed() {
    let mut registrar: Registrar<String> = Registrar::new();
    let first = registrar.track_object(String::from("first"));
    let second = registrar.track_object(String::from("second"));
    assert_eq!(first.get(&registrar), Some(&String::from("first")));
    assert_eq!(second.get(&registrar), Some(&String::from("second")));
    let stale = first.duplicate();
    registrar.free_object(first);
    assert_eq!(stale.get(&registrar), None);
    assert!(!registrar.is_live(&stale));
    assert_eq!(second.get(&registrar), Some(&String::from("second")));
}

#[test]
fn freed_slot_is_reused_oldest_first() {
    let mut registrar: Registrar<u32> = Registrar::new();
    let a = registrar.track_object(10);
    let b = registrar.track_object(11);
    let c = registrar.track_object(12);
    assert_eq!((a.index(), b.index(), c.index()), (0, 1, 2));
    let stale_b = b.duplicate();
    let stale_a = a.duplicate();
    registrar.free_object(b);
    registrar.free_object(a);
    let d = registrar.track_object(13);
    let e = registrar.track_object(14);
    let f = registrar.track_object(15);
    assert_eq!((d.index(), e.index(), f.index()), (1, 0, 3));
    assert_eq!(d.get(&registrar), Some(&13));
    assert_eq!(e.get(&registrar), Some(&14));
    assert_eq!(stale_a.get(&registrar), None);
    assert_eq!(stale_b.get(&registrar), None);
    assert_eq!(c.get(&registrar), Some(&12));
}
